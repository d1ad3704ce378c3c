//! The status code of an HTTP response: its second whitespace-separated
//! token, read as a decimal number.
use vstd::prelude::*;
use vstd::string::StringSliceAdditionalSpecFns;
use crate::scan::{digits_value, is_digit, read_digits};
use crate::text::{response_text, response_text_str};

verus! {

/// ASCII whitespace: space, tab, line feed, vertical tab, form feed, carriage return.
pub open spec fn is_space(b: u8) -> bool {
    b == 0x20 || 0x09 <= b <= 0x0d
}

/// Where the run of bytes that starts at `from` ends: the first index at or
/// behind `from` whose byte is whitespace when `space` is false, or is none
/// when `space` is true; the length of `buf` when the run goes on to its end.
pub open spec fn run_end(buf: Seq<u8>, from: int, space: bool) -> int
    decreases buf.len() - from,
{
    if from < 0 || from >= buf.len() {
        buf.len() as int
    } else if is_space(buf[from]) == space {
        run_end(buf, from + 1, space)
    } else {
        from
    }
}

/// The second whitespace-separated token of `buf`, empty when there is none.
pub open spec fn second_token(buf: Seq<u8>) -> Seq<u8> {
    let first_start = run_end(buf, 0, true);
    let first_end = run_end(buf, first_start, false);
    let second_start = run_end(buf, first_end, true);
    let second_end = run_end(buf, second_start, false);
    buf.subrange(second_start, second_end)
}

/// Every byte of `s` is a decimal digit.
pub open spec fn all_digits(s: Seq<u8>) -> bool {
    forall|i: int| 0 <= i < s.len() ==> is_digit(#[trigger] s[i])
}

/// The token without the plus sign that may lead it.
pub open spec fn unsigned_part(token: Seq<u8>) -> Seq<u8> {
    if token.len() > 0 && token[0] == 0x2b {
        token.subrange(1, token.len() as int)
    } else {
        token
    }
}

/// The number that a token spells: one or more decimal digits, with at most
/// one plus sign before them, whose value fits into 32 bits.
pub open spec fn parse_u32(token: Seq<u8>) -> Option<u32> {
    let digits = unsigned_part(token);
    if digits.len() > 0 && all_digits(digits) && digits_value(digits) <= u32::MAX {
        Some(digits_value(digits) as u32)
    } else {
        None
    }
}

/// The status code of a response: its second token as a number, or an error
/// when there is no second token or it spells no such number.
pub open spec fn status_code(buf: Seq<u8>) -> Result<u32, ()> {
    match parse_u32(second_token(buf)) {
        Some(code) => Ok(code),
        None => Err(()),
    }
}

/// Whether a byte is ASCII whitespace.
pub fn is_whitespace(b: u8) -> (r: bool)
    ensures
        r == is_space(b),
{
    b == 0x20 || (0x09 <= b && b <= 0x0d)
}

/// The end of the run of whitespace (`space` true) or of other bytes
/// (`space` false) that starts at `from`.
pub fn skip_run(buf: &[u8], from: usize, space: bool) -> (r: usize)
    requires
        from <= buf.len(),
    ensures
        r == run_end(buf@, from as int, space),
        from <= r <= buf.len(),
{
    let mut i: usize = from;
    while i < buf.len() && is_whitespace(buf[i]) == space
        invariant
            from <= i <= buf.len(),
            run_end(buf@, from as int, space) == run_end(buf@, i as int, space),
        decreases buf.len() - i,
    {
        i = i + 1;
    }
    i
}

/// The number that the token between `start` and `end` spells.
pub fn parse_token(buf: &[u8], start: usize, end: usize) -> (r: Option<u32>)
    requires
        start <= end <= buf.len(),
    ensures
        r == parse_u32(buf@.subrange(start as int, end as int)),
{
    let first: usize = if start < end && buf[start] == 0x2b {
        start + 1
    } else {
        start
    };
    assert(unsigned_part(buf@.subrange(start as int, end as int)) =~= buf@.subrange(
        first as int,
        end as int,
    ));
    if first == end {
        return None;
    }
    let mut i: usize = first;
    while i < end
        invariant
            start <= first <= i <= end <= buf.len(),
            unsigned_part(buf@.subrange(start as int, end as int)) == buf@.subrange(
                first as int,
                end as int,
            ),
            forall|p: int| first <= p < i ==> is_digit(#[trigger] buf@[p]),
        decreases end - i,
    {
        let b = buf[i];
        if !(0x30 <= b && b <= 0x39) {
            assert(!is_digit(buf@.subrange(first as int, end as int)[i - first]));
            return None;
        }
        i = i + 1;
    }
    assert(all_digits(buf@.subrange(first as int, end as int)));
    read_digits(buf, first, end)
}

/// The status code that the bytes of a response carry.
pub fn scan_response_code(buf: &[u8]) -> (r: Result<u32, ()>)
    ensures
        r == status_code(buf@),
{
    let first_start = skip_run(buf, 0, true);
    let first_end = skip_run(buf, first_start, false);
    let second_start = skip_run(buf, first_end, true);
    let second_end = skip_run(buf, second_start, false);
    match parse_token(buf, second_start, second_end) {
        Some(code) => Ok(code),
        None => Err(()),
    }
}

/// The status code of a buffered response.
pub fn find_response_code(text: &heapless::String<4096>) -> (r: Result<u32, ()>)
    ensures
        r == status_code(response_text(*text)),
{
    scan_response_code(response_text_str(text).as_bytes())
}

} // verus!
