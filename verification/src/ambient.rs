//! The request that posts one set of readings to the Ambient service.
use vstd::prelude::*;
use vstd::string::StringSliceAdditionalSpecFns;
use crate::decimal::{append_decimal, append_tenths, append_text, decimal, tenths_text};
use crate::text::{new_request_text, request_text, request_text_str, Overflow};

verus! {

/// The readings of one cycle, each in tenths of its unit.
#[derive(Clone, Copy, Debug, PartialEq, Eq, Structural)]
pub struct SensorReadings {
    /// Temperature of the sauna's air, in tenths of a degree Celsius.
    pub ambient_temp: i32,
    /// Relative humidity of the sauna's air, in tenths of a percent.
    pub ambient_humidity: i32,
    /// Temperature of the water bath, in tenths of a degree Celsius.
    pub water_temp: i32,
}

impl SensorReadings {
    /// The readings in the order of the channel's data fields: the water
    /// bath first, then the sauna's temperature, then its humidity.
    pub fn data(&self) -> (r: [i32; 3])
        ensures
            r@ == seq![self.water_temp, self.ambient_temp, self.ambient_humidity],
    {
        let r = [self.water_temp, self.ambient_temp, self.ambient_humidity];
        assert(r@ =~= seq![self.water_temp, self.ambient_temp, self.ambient_humidity]);
        r
    }
}

/// The JSON body: the write key and three data fields, closed by one line
/// feed. Each field is a number of tenths, written with one digit behind the
/// decimal point.
pub open spec fn body_bytes(key: Seq<u8>, d1: int, d2: int, d3: int) -> Seq<u8> {
    "{\"writeKey\":\"".spec_bytes() + key + "\",\"d1\":\"".spec_bytes() + tenths_text(d1)
        + "\",\"d2\":\"".spec_bytes() + tenths_text(d2) + "\",\"d3\":\"".spec_bytes()
        + tenths_text(d3) + "\"}\n".spec_bytes()
}

/// The whole request: request line, `Host`, `Content-Type` and
/// `Content-Length` headers, an empty line, and the body. `Content-Length`
/// is the number of bytes of the body.
pub open spec fn request_bytes(channel_id: u32, body: Seq<u8>) -> Seq<u8> {
    "POST /api/v2/channels/".spec_bytes() + decimal(channel_id as nat)
        + "/data HTTP/1.1\r\nHost: 54.65.206.59\r\nContent-Type: application/json\r\nContent-Length: ".spec_bytes()
        + decimal(body.len()) + "\r\n\r\n".spec_bytes() + body
}

/// The request for a channel, a write key and three data fields in tenths.
pub open spec fn ambient_request(channel_id: u32, key: &str, data: [i32; 3]) -> Seq<u8> {
    request_bytes(
        channel_id,
        body_bytes(key.spec_bytes(), data[0] as int, data[1] as int, data[2] as int),
    )
}

/// Writes the body into an empty buffer.
fn write_body(body: &mut heapless::String<256>, key: &str, data: [i32; 3]) -> (r: Result<
    (),
    Overflow,
>)
    requires
        request_text(*old(body)).len() == 0,
    ensures
        r is Ok <==> body_bytes(
            key.spec_bytes(),
            data[0] as int,
            data[1] as int,
            data[2] as int,
        ).len() <= 256,
        r is Ok ==> request_text(*final(body)) == body_bytes(
            key.spec_bytes(),
            data[0] as int,
            data[1] as int,
            data[2] as int,
        ),
{
    assert(request_text(*body) =~= Seq::<u8>::empty());
    match append_text(body, "{\"writeKey\":\"") {
        Err(e) => return Err(e),
        _ => {},
    }
    assert(request_text(*body) =~= "{\"writeKey\":\"".spec_bytes());
    match append_text(body, key) {
        Err(e) => return Err(e),
        _ => {},
    }
    match append_text(body, "\",\"d1\":\"") {
        Err(e) => return Err(e),
        _ => {},
    }
    match append_tenths(body, data[0]) {
        Err(e) => return Err(e),
        _ => {},
    }
    match append_text(body, "\",\"d2\":\"") {
        Err(e) => return Err(e),
        _ => {},
    }
    match append_tenths(body, data[1]) {
        Err(e) => return Err(e),
        _ => {},
    }
    match append_text(body, "\",\"d3\":\"") {
        Err(e) => return Err(e),
        _ => {},
    }
    match append_tenths(body, data[2]) {
        Err(e) => return Err(e),
        _ => {},
    }
    match append_text(body, "\"}\n") {
        Err(e) => return Err(e),
        _ => {},
    }
    Ok(())
}

/// Writes the request around a finished body into an empty buffer.
fn write_request(req: &mut heapless::String<256>, channel_id: u32, body: &str) -> (r: Result<
    (),
    Overflow,
>)
    requires
        request_text(*old(req)).len() == 0,
        body.spec_bytes().len() <= 256,
    ensures
        r is Ok <==> request_bytes(channel_id, body.spec_bytes()).len() <= 256,
        r is Ok ==> request_text(*final(req)) == request_bytes(channel_id, body.spec_bytes()),
{
    assert(request_text(*req) =~= Seq::<u8>::empty());
    match append_text(req, "POST /api/v2/channels/") {
        Err(e) => return Err(e),
        _ => {},
    }
    assert(request_text(*req) =~= "POST /api/v2/channels/".spec_bytes());
    match append_decimal(req, channel_id as u64) {
        Err(e) => return Err(e),
        _ => {},
    }
    match append_text(
        req,
        "/data HTTP/1.1\r\nHost: 54.65.206.59\r\nContent-Type: application/json\r\nContent-Length: ",
    ) {
        Err(e) => return Err(e),
        _ => {},
    }
    match append_decimal(req, body.len() as u64) {
        Err(e) => return Err(e),
        _ => {},
    }
    match append_text(req, "\r\n\r\n") {
        Err(e) => return Err(e),
        _ => {},
    }
    match append_text(req, body) {
        Err(e) => return Err(e),
        _ => {},
    }
    Ok(())
}

/// Appends to `msg` the request that posts three data fields to a channel.
///
/// Each field is a reading in tenths of its unit and is written with one
/// digit behind the decimal point. The request is written whole or not at
/// all: when it does not fit into what is left of `msg`, `msg` stays as it
/// was.
pub fn create_request_for_ambient(
    channel_id: u32,
    write_key: &str,
    data: [i32; 3],
    msg: &mut heapless::String<256>,
) -> (r: Result<(), Overflow>)
    ensures
        r is Ok <==> request_text(*old(msg)).len() + ambient_request(
            channel_id,
            write_key,
            data,
        ).len() <= 256,
        r is Ok ==> request_text(*final(msg)) == request_text(*old(msg)) + ambient_request(
            channel_id,
            write_key,
            data,
        ),
        r is Err ==> request_text(*final(msg)) == request_text(*old(msg)),
{
    let mut body = new_request_text();
    match write_body(&mut body, write_key, data) {
        Err(e) => return Err(e),
        _ => {},
    }
    let mut req = new_request_text();
    match write_request(&mut req, channel_id, request_text_str(&body)) {
        Err(e) => return Err(e),
        _ => {},
    }
    append_text(msg, request_text_str(&req))
}

} // verus!
