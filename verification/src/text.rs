//! Fixed-capacity text buffers.
//!
//! The buffers are `heapless::String`s: 256 bytes for a request, 4096 bytes
//! for what a server sends back. Verus cannot look inside them, so what they
//! hold is named here, and the calls into `heapless` stand behind small
//! functions whose contracts are taken from its source and not proved.
use vstd::prelude::*;
use vstd::string::StringSliceAdditionalSpecFns;

verus! {

/// `heapless::String`, a UTF-8 buffer whose capacity is part of its type.
#[verifier::external_type_specification]
#[verifier::external_body]
pub struct ExHeaplessString<const N: usize>(heapless::String<N>);

/// The bytes that a request buffer holds.
pub uninterp spec fn request_text(s: heapless::String<256>) -> Seq<u8>;

/// The bytes that a response buffer holds.
pub uninterp spec fn response_text(s: heapless::String<4096>) -> Seq<u8>;

/// An append did not fit into the capacity that was left.
#[derive(Clone, Copy, Debug, PartialEq, Eq, Structural)]
pub struct Overflow;

/// `heapless::String::new` at capacity 256: a buffer that holds nothing.
#[verifier::external_body]
pub(crate) fn new_request_text() -> (s: heapless::String<256>)
    ensures
        request_text(s) == Seq::<u8>::empty(),
{
    heapless::String::new()
}

/// `heapless::String::push_str` at capacity 256: appends the whole string when
/// it fits into what is left of the capacity; otherwise changes nothing and
/// reports an error.
#[verifier::external_body]
pub(crate) fn push_request_text(s: &mut heapless::String<256>, string: &str) -> (r: Result<(), ()>)
    ensures
        r.is_ok() <==> request_text(*old(s)).len() + string.spec_bytes().len() <= 256,
        r.is_ok() ==> request_text(*final(s)) == request_text(*old(s)) + string.spec_bytes(),
        r.is_err() ==> request_text(*final(s)) == request_text(*old(s)),
{
    s.push_str(string)
}

/// `heapless::String::as_str` at capacity 256: the contents as a string slice,
/// never longer than the capacity.
#[verifier::external_body]
pub(crate) fn request_text_str(s: &heapless::String<256>) -> (r: &str)
    ensures
        r.spec_bytes() == request_text(*s),
        r.spec_bytes().len() <= 256,
{
    s.as_str()
}

/// `heapless::String::new` at capacity 4096: a buffer that holds nothing.
#[verifier::external_body]
pub(crate) fn new_response_text() -> (s: heapless::String<4096>)
    ensures
        response_text(s) == Seq::<u8>::empty(),
{
    heapless::String::new()
}

/// `heapless::String::push_str` at capacity 4096: appends the whole string
/// when it fits into what is left of the capacity; otherwise changes nothing
/// and reports an error.
#[verifier::external_body]
pub(crate) fn push_response_text(s: &mut heapless::String<4096>, string: &str) -> (r: Result<
    (),
    (),
>)
    ensures
        r.is_ok() <==> response_text(*old(s)).len() + string.spec_bytes().len() <= 4096,
        r.is_ok() ==> response_text(*final(s)) == response_text(*old(s)) + string.spec_bytes(),
        r.is_err() ==> response_text(*final(s)) == response_text(*old(s)),
{
    s.push_str(string)
}

/// `heapless::String::as_str` at capacity 4096: the contents as a string
/// slice, never longer than the capacity.
#[verifier::external_body]
pub(crate) fn response_text_str(s: &heapless::String<4096>) -> (r: &str)
    ensures
        r.spec_bytes() == response_text(*s),
        r.spec_bytes().len() <= 4096,
{
    s.as_str()
}

} // verus!
