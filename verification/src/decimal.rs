//! Decimal numbers in request buffers.
use vstd::prelude::*;
use vstd::string::StringSliceAdditionalSpecFns;
use vstd::string::is_ascii;
use crate::text::{push_request_text, request_text, request_text_str, Overflow};

verus! {

/// The ASCII digit for a value below ten.
pub open spec fn digit_byte(d: nat) -> u8 {
    (0x30 + d) as u8
}

/// The decimal digits of `n` in ASCII, most significant first, without
/// leading zeros; a single `0` for zero.
pub open spec fn decimal(n: nat) -> Seq<u8>
    decreases n,
{
    if n < 10 {
        seq![digit_byte(n)]
    } else {
        decimal(n / 10).push(digit_byte(n % 10))
    }
}

/// A number below ten has one digit, and any other number one digit more
/// than its tenth part.
pub proof fn lemma_decimal_len(n: nat)
    ensures
        1 <= decimal(n).len(),
        n < 10 ==> decimal(n).len() == 1,
        n >= 10 ==> decimal(n).len() == decimal(n / 10).len() + 1,
{
    reveal_with_fuel(decimal, 2);
}

fn digit_str(d: u64) -> (r: &'static str)
    requires
        d < 10,
    ensures
        r.spec_bytes() == seq![digit_byte(d as nat)],
{
    let r = if d == 0 {
        "0"
    } else if d == 1 {
        "1"
    } else if d == 2 {
        "2"
    } else if d == 3 {
        "3"
    } else if d == 4 {
        "4"
    } else if d == 5 {
        "5"
    } else if d == 6 {
        "6"
    } else if d == 7 {
        "7"
    } else if d == 8 {
        "8"
    } else {
        "9"
    };
    proof {
        reveal_strlit("0");
        reveal_strlit("1");
        reveal_strlit("2");
        reveal_strlit("3");
        reveal_strlit("4");
        reveal_strlit("5");
        reveal_strlit("6");
        reveal_strlit("7");
        reveal_strlit("8");
        reveal_strlit("9");
        assert(is_ascii(r));
        vstd::string::is_ascii_spec_bytes(r);
        assert(r.spec_bytes() =~= seq![digit_byte(d as nat)]);
    }
    r
}

/// Number of decimal digits of `n`.
pub fn decimal_len(n: u64) -> (r: usize)
    ensures
        r == decimal(n as nat).len(),
        1 <= r <= 20,
    decreases n,
{
    proof {
        lemma_decimal_len(n as nat);
    }
    if n < 10 {
        1
    } else {
        let r = decimal_len(n / 10);
        assert(r <= 19) by {
            lemma_decimal_short(n as nat);
        }
        r + 1
    }
}

/// A number that fits into 64 bits has at most twenty digits.
proof fn lemma_decimal_short(n: nat)
    requires
        10 <= n <= u64::MAX,
    ensures
        decimal(n / 10).len() <= 19,
{
    reveal_with_fuel(decimal, 21);
}

fn push_digits(s: &mut heapless::String<256>, n: u64)
    requires
        request_text(*old(s)).len() + decimal(n as nat).len() <= 256,
    ensures
        request_text(*final(s)) == request_text(*old(s)) + decimal(n as nat),
    decreases n,
{
    proof {
        lemma_decimal_len(n as nat);
    }
    if n >= 10 {
        push_digits(s, n / 10);
    }
    let ghost before = request_text(*s);
    let pushed = push_request_text(s, digit_str(n % 10));
    proof {
        assert(pushed.is_ok());
        if n >= 10 {
            assert(before + seq![digit_byte((n % 10) as nat)] =~= request_text(*old(s)) + decimal(
                n as nat,
            ));
        }
    }
}

/// Appends the decimal digits of `n`. When they do not fit into what is left
/// of the buffer, the buffer stays as it was.
pub fn append_decimal(s: &mut heapless::String<256>, n: u64) -> (r: Result<(), Overflow>)
    ensures
        r is Ok <==> request_text(*old(s)).len() + decimal(n as nat).len() <= 256,
        r is Ok ==> request_text(*final(s)) == request_text(*old(s)) + decimal(n as nat),
        r is Err ==> request_text(*final(s)) == request_text(*old(s)),
{
    let used = request_text_str(s).len();
    if 256 - used < decimal_len(n) {
        return Err(Overflow);
    }
    push_digits(s, n);
    Ok(())
}

/// The size of a number of tenths, its sign aside.
pub open spec fn magnitude(tenths: int) -> nat {
    if tenths < 0 {
        (-tenths) as nat
    } else {
        tenths as nat
    }
}

/// A number of tenths written as a decimal fraction with exactly one digit
/// behind the point: a minus sign if it is negative, the digits of its whole
/// part, the point, and the digit of its tenths. Zero is `0.0`.
pub open spec fn tenths_text(tenths: int) -> Seq<u8> {
    let sign = if tenths < 0 {
        seq![0x2du8]
    } else {
        Seq::<u8>::empty()
    };
    sign + decimal(magnitude(tenths) / 10) + seq![0x2eu8] + seq![
        digit_byte(magnitude(tenths) % 10),
    ]
}

fn minus_str() -> (r: &'static str)
    ensures
        r.spec_bytes() == seq![0x2du8],
{
    let r = "-";
    proof {
        reveal_strlit("-");
        assert(is_ascii(r));
        vstd::string::is_ascii_spec_bytes(r);
        assert(r.spec_bytes() =~= seq![0x2du8]);
    }
    r
}

fn point_str() -> (r: &'static str)
    ensures
        r.spec_bytes() == seq![0x2eu8],
{
    let r = ".";
    proof {
        reveal_strlit(".");
        assert(is_ascii(r));
        vstd::string::is_ascii_spec_bytes(r);
        assert(r.spec_bytes() =~= seq![0x2eu8]);
    }
    r
}

/// Appends a number of tenths as a decimal fraction with one digit behind
/// the point. When it does not fit into what is left of the buffer, the
/// buffer stays as it was.
pub fn append_tenths(s: &mut heapless::String<256>, tenths: i32) -> (r: Result<(), Overflow>)
    ensures
        r is Ok <==> request_text(*old(s)).len() + tenths_text(tenths as int).len() <= 256,
        r is Ok ==> request_text(*final(s)) == request_text(*old(s)) + tenths_text(tenths as int),
        r is Err ==> request_text(*final(s)) == request_text(*old(s)),
{
    let size: u64 = if tenths < 0 {
        (-(tenths as i64)) as u64
    } else {
        tenths as u64
    };
    let sign_len: usize = if tenths < 0 {
        1
    } else {
        0
    };
    let used = request_text_str(s).len();
    let ghost before = request_text(*s);
    let ghost sign = if tenths < 0 {
        seq![0x2du8]
    } else {
        Seq::<u8>::empty()
    };
    if 256 - used < sign_len + decimal_len(size / 10) + 2 {
        return Err(Overflow);
    }
    if tenths < 0 {
        let pushed = push_request_text(s, minus_str());
        assert(pushed.is_ok());
    }
    assert(request_text(*s) =~= before + sign);
    push_digits(s, size / 10);
    let pushed = push_request_text(s, point_str());
    assert(pushed.is_ok());
    let pushed = push_request_text(s, digit_str(size % 10));
    assert(pushed.is_ok());
    assert(request_text(*s) =~= before + tenths_text(tenths as int));
    Ok(())
}

/// Appends a text. When it does not fit into what is left of the buffer, the
/// buffer stays as it was.
pub fn append_text(s: &mut heapless::String<256>, text: &str) -> (r: Result<(), Overflow>)
    ensures
        r is Ok <==> request_text(*old(s)).len() + text.spec_bytes().len() <= 256,
        r is Ok ==> request_text(*final(s)) == request_text(*old(s)) + text.spec_bytes(),
        r is Err ==> request_text(*final(s)) == request_text(*old(s)),
{
    match push_request_text(s, text) {
        Ok(_) => Ok(()),
        Err(_) => Err(Overflow),
    }
}

} // verus!
