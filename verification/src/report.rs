//! What the display shows of a cycle: the readings, and how the post went.
use vstd::prelude::*;
use vstd::string::StringSliceAdditionalSpecFns;
use crate::decimal::{append_decimal, append_tenths, append_text, decimal, tenths_text};
use crate::http::HttpError;
use crate::text::{new_request_text, request_text, request_text_str, Overflow};

verus! {

/// The line for a result: the status code behind `http Ok`, or one of three
/// complaints. A refused connection and a response that did not arrive have
/// a complaint of their own; every other failure shares the third.
pub open spec fn status_line(result: Result<u32, HttpError>) -> Seq<u8> {
    match result {
        Ok(code) => "http Ok ".spec_bytes() + decimal(code as nat),
        Err(HttpError::ConnectFailed) => "http NG Connection failed".spec_bytes(),
        Err(HttpError::RecvFailed) => "http NG Recv failed".spec_bytes(),
        Err(_) => "http NG failed".spec_bytes(),
    }
}

/// Appends the status line for `result` to `line`, whole or not at all: when
/// it does not fit into what is left of `line`, `line` stays as it was.
pub fn write_status_line(result: Result<u32, HttpError>, line: &mut heapless::String<256>) -> (r:
    Result<(), Overflow>)
    ensures
        r is Ok <==> request_text(*old(line)).len() + status_line(result).len() <= 256,
        r is Ok ==> request_text(*final(line)) == request_text(*old(line)) + status_line(result),
        r is Err ==> request_text(*final(line)) == request_text(*old(line)),
{
    match result {
        Ok(code) => {
            let mut text = new_request_text();
            assert(request_text(text) =~= Seq::<u8>::empty());
            match append_text(&mut text, "http Ok ") {
                Err(e) => return Err(e),
                _ => {},
            }
            assert(request_text(text) =~= "http Ok ".spec_bytes());
            match append_decimal(&mut text, code as u64) {
                Err(e) => return Err(e),
                _ => {},
            }
            append_text(line, request_text_str(&text))
        },
        Err(HttpError::ConnectFailed) => append_text(line, "http NG Connection failed"),
        Err(HttpError::RecvFailed) => append_text(line, "http NG Recv failed"),
        Err(_) => append_text(line, "http NG failed"),
    }
}

/// The three lines that show the readings, each in tenths of its unit: the
/// sauna's temperature and humidity and the temperature of the water bath.
pub open spec fn readings_lines(sauna_temp: int, sauna_humid: int, water_temp: int) -> Seq<u8> {
    " sauna temp : ".spec_bytes() + tenths_text(sauna_temp) + " C\n sauna humid: ".spec_bytes()
        + tenths_text(sauna_humid) + " %\n water bath : ".spec_bytes() + tenths_text(water_temp)
        + " C\n".spec_bytes()
}

/// Writes the lines that show the readings into an empty buffer.
fn write_readings_lines(
    text: &mut heapless::String<256>,
    sauna_temp: i32,
    sauna_humid: i32,
    water_temp: i32,
) -> (r: Result<(), Overflow>)
    requires
        request_text(*old(text)).len() == 0,
    ensures
        r is Ok <==> readings_lines(sauna_temp as int, sauna_humid as int, water_temp as int).len()
            <= 256,
        r is Ok ==> request_text(*final(text)) == readings_lines(
            sauna_temp as int,
            sauna_humid as int,
            water_temp as int,
        ),
{
    assert(request_text(*text) =~= Seq::<u8>::empty());
    match append_text(text, " sauna temp : ") {
        Err(e) => return Err(e),
        _ => {},
    }
    assert(request_text(*text) =~= " sauna temp : ".spec_bytes());
    match append_tenths(text, sauna_temp) {
        Err(e) => return Err(e),
        _ => {},
    }
    match append_text(text, " C\n sauna humid: ") {
        Err(e) => return Err(e),
        _ => {},
    }
    match append_tenths(text, sauna_humid) {
        Err(e) => return Err(e),
        _ => {},
    }
    match append_text(text, " %\n water bath : ") {
        Err(e) => return Err(e),
        _ => {},
    }
    match append_tenths(text, water_temp) {
        Err(e) => return Err(e),
        _ => {},
    }
    append_text(text, " C\n")
}

/// Appends to `panel` the lines that show the readings, whole or not at all:
/// when they do not fit into what is left of `panel`, `panel` stays as it
/// was.
pub fn write_readings(
    sauna_temp: i32,
    sauna_humid: i32,
    water_temp: i32,
    panel: &mut heapless::String<256>,
) -> (r: Result<(), Overflow>)
    ensures
        r is Ok <==> request_text(*old(panel)).len() + readings_lines(
            sauna_temp as int,
            sauna_humid as int,
            water_temp as int,
        ).len() <= 256,
        r is Ok ==> request_text(*final(panel)) == request_text(*old(panel)) + readings_lines(
            sauna_temp as int,
            sauna_humid as int,
            water_temp as int,
        ),
        r is Err ==> request_text(*final(panel)) == request_text(*old(panel)),
{
    let mut text = new_request_text();
    match write_readings_lines(&mut text, sauna_temp, sauna_humid, water_temp) {
        Err(e) => return Err(e),
        _ => {},
    }
    append_text(panel, request_text_str(&text))
}

} // verus!
