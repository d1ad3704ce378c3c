//! Scanners over the bytes of an HTTP response: the declared body length and
//! the status code.
use vstd::prelude::*;
use vstd::string::StringSliceAdditionalSpecFns;
use crate::text::{response_text, response_text_str};

verus! {

/// Number of bytes in the header name that the length scanner looks for,
/// colon included.
pub const PATTERN_LEN: usize = 15;

/// Byte `t` of `content-length:`.
pub open spec fn pattern_byte(t: int) -> u8 {
    if t == 0 {
        0x63
    } else if t == 1 {
        0x6f
    } else if t == 2 {
        0x6e
    } else if t == 3 {
        0x74
    } else if t == 4 {
        0x65
    } else if t == 5 {
        0x6e
    } else if t == 6 {
        0x74
    } else if t == 7 {
        0x2d
    } else if t == 8 {
        0x6c
    } else if t == 9 {
        0x65
    } else if t == 10 {
        0x6e
    } else if t == 11 {
        0x67
    } else if t == 12 {
        0x74
    } else if t == 13 {
        0x68
    } else {
        0x3a
    }
}

/// An ASCII capital letter turned into its small letter; any other byte as it is.
pub open spec fn lower(b: u8) -> u8 {
    if 0x41 <= b <= 0x5a {
        (b + 0x20) as u8
    } else {
        b
    }
}

/// Byte `t` of the header name stands, in either letter case, where a match
/// of its first `k` bytes that ends before `end` would have it.
pub open spec fn agrees(buf: Seq<u8>, end: int, k: int, t: int) -> bool {
    lower(buf[end - k + t]) == pattern_byte(t)
}

/// The `k` bytes of `buf` before `end` are the first `k` bytes of the header
/// name, letter case aside.
pub open spec fn prefix_ends_at(buf: Seq<u8>, end: int, k: int) -> bool {
    &&& 0 <= k <= end <= buf.len()
    &&& k <= 15
    &&& forall|t: int| 0 <= t < k ==> #[trigger] agrees(buf, end, k, t)
}

/// The whole header name, colon included, ends right before `end`.
pub open spec fn header_ends_at(buf: Seq<u8>, end: int) -> bool {
    prefix_ends_at(buf, end, 15)
}

/// The index right behind the colon of the first occurrence of the header
/// name that ends at `from` or later.
pub open spec fn first_header_end(buf: Seq<u8>, from: int) -> Option<int>
    decreases buf.len() + 1 - from,
{
    if from > buf.len() {
        None
    } else if header_ends_at(buf, from) {
        Some(from)
    } else {
        first_header_end(buf, from + 1)
    }
}

/// Carriage return or line feed.
pub open spec fn is_line_break(b: u8) -> bool {
    b == 0x0d || b == 0x0a
}

/// The index of the first line break at `from` or later.
pub open spec fn line_end(buf: Seq<u8>, from: int) -> Option<int>
    decreases buf.len() - from,
{
    if from < 0 || from >= buf.len() {
        None
    } else if is_line_break(buf[from]) {
        Some(from)
    } else {
        line_end(buf, from + 1)
    }
}

/// An ASCII decimal digit.
pub open spec fn is_digit(b: u8) -> bool {
    0x30 <= b <= 0x39
}

/// The number that the decimal digits of `s` spell, most significant first;
/// bytes that are no digits are passed over.
pub open spec fn digits_value(s: Seq<u8>) -> nat
    decreases s.len(),
{
    if s.len() == 0 {
        0
    } else if is_digit(s.last()) {
        digits_value(s.drop_last()) * 10 + (s.last() - 0x30) as nat
    } else {
        digits_value(s.drop_last())
    }
}

/// The digits of a header value: what stands between `start` and the first
/// line break behind it. Without a line break the value is empty.
pub open spec fn header_value(buf: Seq<u8>, start: int) -> Seq<u8> {
    match line_end(buf, start) {
        Some(end) => buf.subrange(start, end),
        None => Seq::empty(),
    }
}

/// The body length that a response declares: the number behind the first
/// `content-length:`, in any letter case, up to the end of its line. There is
/// none where the header name does not occur, nor where the number does not
/// fit into 32 bits.
pub open spec fn declared_length(buf: Seq<u8>) -> Result<u32, ()> {
    match first_header_end(buf, 15) {
        None => Err(()),
        Some(start) => {
            let value = digits_value(header_value(buf, start));
            if value <= u32::MAX {
                Ok(value as u32)
            } else {
                Err(())
            }
        },
    }
}

proof fn lemma_first_header_end_found(buf: Seq<u8>, from: int, end: int)
    requires
        0 <= from <= end,
        header_ends_at(buf, end),
        forall|e: int| from <= e < end ==> !header_ends_at(buf, e),
    ensures
        first_header_end(buf, from) == Some(end),
    decreases end - from,
{
    if from < end {
        lemma_first_header_end_found(buf, from + 1, end);
    }
}

proof fn lemma_first_header_end_none(buf: Seq<u8>, from: int)
    requires
        0 <= from,
        forall|e: int| from <= e <= buf.len() ==> !header_ends_at(buf, e),
    ensures
        first_header_end(buf, from) == None::<int>,
    decreases buf.len() + 1 - from,
{
    if from <= buf.len() {
        lemma_first_header_end_none(buf, from + 1);
    }
}

proof fn lemma_line_end_found(buf: Seq<u8>, from: int, end: int)
    requires
        0 <= from <= end < buf.len(),
        is_line_break(buf[end]),
        forall|p: int| from <= p < end ==> !is_line_break(#[trigger] buf[p]),
    ensures
        line_end(buf, from) == Some(end),
    decreases end - from,
{
    if from < end {
        lemma_line_end_found(buf, from + 1, end);
    }
}

proof fn lemma_line_end_none(buf: Seq<u8>, from: int)
    requires
        0 <= from,
        forall|p: int| from <= p < buf.len() ==> !is_line_break(#[trigger] buf[p]),
    ensures
        line_end(buf, from) == None::<int>,
    decreases buf.len() - from,
{
    if from < buf.len() {
        lemma_line_end_none(buf, from + 1);
    }
}

/// A longer stretch of digits never spells a smaller number than its start does.
proof fn lemma_digits_value_grows(s: Seq<u8>, p: int)
    requires
        0 <= p <= s.len(),
    ensures
        digits_value(s.subrange(0, p)) <= digits_value(s),
    decreases s.len() - p,
{
    if p == s.len() {
        assert(s.subrange(0, p) =~= s);
    } else {
        let t = s.drop_last();
        lemma_digits_value_grows(t, p);
        assert(t.subrange(0, p) =~= s.subrange(0, p));
    }
}

/// The small letter of an ASCII capital letter; any other byte as it is.
pub fn to_lower(b: u8) -> (r: u8)
    ensures
        r == lower(b),
{
    if 0x41 <= b && b <= 0x5a {
        b + 0x20
    } else {
        b
    }
}

fn pattern_at(j: usize) -> (r: u8)
    requires
        j < 15,
    ensures
        r == pattern_byte(j as int),
{
    let pattern: [u8; 15] = [
        0x63,
        0x6f,
        0x6e,
        0x74,
        0x65,
        0x6e,
        0x74,
        0x2d,
        0x6c,
        0x65,
        0x6e,
        0x67,
        0x74,
        0x68,
        0x3a,
    ];
    pattern[j]
}

/// Where the value of the first `content-length:` header begins, if the
/// header name occurs; the name is found in any letter case.
pub fn find_header(buf: &[u8]) -> (r: Option<usize>)
    ensures
        match r {
            Some(start) => first_header_end(buf@, 15) == Some(start as int) && 15 <= start
                <= buf.len(),
            None => first_header_end(buf@, 15) == None::<int>,
        },
{
    let mut j: usize = 0;
    let mut i: usize = 0;
    while i < buf.len()
        invariant
            0 <= j < 15,
            j <= i <= buf.len(),
            prefix_ends_at(buf@, i as int, j as int),
            forall|k: int| j < k <= 15 && k <= i ==> !prefix_ends_at(buf@, i as int, k),
            forall|e: int| 15 <= e <= i ==> !header_ends_at(buf@, e),
        decreases buf.len() - i,
    {
        let b = to_lower(buf[i]);
        let ghost old_j = j as int;
        if b == pattern_at(j) {
            j = j + 1;
        } else if b == pattern_at(0) {
            j = 1;
        } else {
            j = 0;
        }
        proof {
            let s = buf@;
            let n = i as int + 1;
            assert(prefix_ends_at(s, n, j as int)) by {
                assert forall|t: int| 0 <= t < j implies #[trigger] agrees(s, n, j as int, t) by {
                    if t < j - 1 {
                        assert(agrees(s, i as int, old_j, t));
                    }
                }
            }
            assert forall|k: int| j < k <= 15 && k <= n implies !prefix_ends_at(s, n, k) by {
                if prefix_ends_at(s, n, k) {
                    assert(agrees(s, n, k, k - 1));
                    assert(prefix_ends_at(s, i as int, k - 1)) by {
                        assert forall|t: int| 0 <= t < k - 1 implies #[trigger] agrees(
                            s,
                            i as int,
                            k - 1,
                            t,
                        ) by {
                            assert(agrees(s, n, k, t));
                        }
                    }
                    if k - 1 < old_j && k - 1 >= 1 {
                        assert(agrees(s, i as int, k - 1, 0));
                        assert(agrees(s, i as int, old_j, old_j - (k - 1)));
                    }
                }
            }
        }
        i = i + 1;
        if j == PATTERN_LEN {
            proof {
                lemma_first_header_end_found(buf@, 15, i as int);
            }
            return Some(i);
        }
    }
    proof {
        lemma_first_header_end_none(buf@, 15);
    }
    None
}

/// The index of the first line break at `from` or later, `None` when the
/// rest of the buffer has none.
pub fn find_line_end(buf: &[u8], from: usize) -> (r: Option<usize>)
    requires
        from <= buf.len(),
    ensures
        match r {
            Some(end) => line_end(buf@, from as int) == Some(end as int) && from <= end
                < buf.len(),
            None => line_end(buf@, from as int) == None::<int>,
        },
{
    let mut i: usize = from;
    while i < buf.len()
        invariant
            from <= i <= buf.len(),
            forall|p: int| from <= p < i ==> !is_line_break(#[trigger] buf@[p]),
        decreases buf.len() - i,
    {
        let b = buf[i];
        if b == 0x0d || b == 0x0a {
            proof {
                lemma_line_end_found(buf@, from as int, i as int);
            }
            return Some(i);
        }
        i = i + 1;
    }
    proof {
        lemma_line_end_none(buf@, from as int);
    }
    None
}

/// The number that the decimal digits between `start` and `end` spell, bytes
/// that are no digits passed over; `None` when it does not fit into 32 bits.
pub fn read_digits(buf: &[u8], start: usize, end: usize) -> (r: Option<u32>)
    requires
        start <= end <= buf.len(),
    ensures
        r == (if digits_value(buf@.subrange(start as int, end as int)) <= u32::MAX {
            Some(digits_value(buf@.subrange(start as int, end as int)) as u32)
        } else {
            None
        }),
{
    let ghost all = buf@.subrange(start as int, end as int);
    let mut value: u64 = 0;
    let mut i: usize = start;
    assert(buf@.subrange(start as int, start as int) =~= Seq::<u8>::empty());
    while i < end
        invariant
            start <= i <= end <= buf.len(),
            all == buf@.subrange(start as int, end as int),
            value == digits_value(buf@.subrange(start as int, i as int)),
            value <= u32::MAX,
        decreases end - i,
    {
        let b = buf[i];
        proof {
            let next = buf@.subrange(start as int, i as int + 1);
            assert(next.drop_last() =~= buf@.subrange(start as int, i as int));
            assert(next.last() == b);
            assert(all.subrange(0, i as int + 1 - start as int) =~= next);
            lemma_digits_value_grows(all, i as int + 1 - start as int);
        }
        if 0x30 <= b && b <= 0x39 {
            value = value * 10 + (b - 0x30) as u64;
            if value > 0xffff_ffff {
                return None;
            }
        }
        i = i + 1;
    }
    assert(buf@.subrange(start as int, i as int) =~= all);
    Some(value as u32)
}

/// The body length that the bytes of a response declare.
pub fn scan_content_length(buf: &[u8]) -> (r: Result<u32, ()>)
    ensures
        r == declared_length(buf@),
{
    match find_header(buf) {
        None => Err(()),
        Some(start) => {
            let value = match find_line_end(buf, start) {
                Some(end) => read_digits(buf, start, end),
                None => {
                    assert(digits_value(Seq::<u8>::empty()) == 0);
                    Some(0)
                },
            };
            match value {
                Some(n) => Ok(n),
                None => Err(()),
            }
        },
    }
}

/// The body length that a buffered response declares: the number behind the
/// first `content-length:`, or an error when the header has not arrived.
pub fn find_content_length(text: &heapless::String<4096>) -> (r: Result<u32, ()>)
    ensures
        r == declared_length(response_text(*text)),
{
    scan_content_length(response_text_str(text).as_bytes())
}

} // verus!
