//! Readings as whole numbers of tenths.
//!
//! The sensors deliver whole numbers of a small fraction of a unit. What is
//! shown and posted has one digit behind the decimal point, so a reading is
//! rounded to the nearest tenth, and to the even one where two are equally
//! near.
use vstd::prelude::*;
use vstd::arithmetic::div_mod::{lemma_fundamental_div_mod, lemma_fundamental_div_mod_converse};

verus! {

/// The number of tenths nearest to `num / den`, the even one of two that are
/// equally near. `den` is positive.
pub open spec fn nearest_tenths(num: int, den: int) -> int {
    let whole = (10 * num) / den;
    let rest = (10 * num) % den;
    if 2 * rest < den {
        whole
    } else if 2 * rest > den {
        whole + 1
    } else if whole % 2 == 0 {
        whole
    } else {
        whole + 1
    }
}

/// Rounding moves a reading by no more than half a tenth, and not at all
/// when it is a whole number of tenths.
pub proof fn lemma_nearest_tenths_is_near(num: int, den: int)
    requires
        den > 0,
    ensures
        -den <= 2 * (10 * num - nearest_tenths(num, den) * den) <= den,
        (10 * num) % den == 0 ==> nearest_tenths(num, den) * den == 10 * num,
{
    let whole = (10 * num) / den;
    let rest = (10 * num) % den;
    lemma_fundamental_div_mod(10 * num, den);
    assert(10 * num == whole * den + rest) by (nonlinear_arith)
        requires
            10 * num == den * whole + rest,
    ;
    assert((whole + 1) * den == whole * den + den) by (nonlinear_arith);
}

/// Rounds `num / den` to tenths.
pub(crate) fn round_to_tenths(num: i32, den: u16) -> (r: i32)
    requires
        den >= 16,
    ensures
        r == nearest_tenths(num as int, den as int),
{
    let n: i64 = 10 * (num as i64);
    let d: i64 = den as i64;
    let size: u64 = if n < 0 {
        (-n) as u64
    } else {
        n as u64
    };
    let q: u64 = size / (den as u64);
    let r: u64 = size % (den as u64);
    proof {
        lemma_fundamental_div_mod(size as int, den as int);
        assert(16 * q <= size) by (nonlinear_arith)
            requires
                size == den * q + r,
                den >= 16,
                q >= 0,
                r >= 0,
        ;
    }
    let (whole, rest): (i64, i64) = if n >= 0 {
        (q as i64, r as i64)
    } else if r == 0 {
        (-(q as i64), 0)
    } else {
        (-(q as i64) - 1, d - r as i64)
    };
    let odd: bool = if n >= 0 || r == 0 {
        q % 2 == 1
    } else {
        q % 2 == 0
    };
    proof {
        assert(n == whole * d + rest) by (nonlinear_arith)
            requires
                size == den * q + r,
                d == den,
                n >= 0 ==> n == size && whole == q && rest == r,
                n < 0 && r == 0 ==> n == -size && whole == -q && rest == 0,
                n < 0 && r != 0 ==> n == -size && whole == -q - 1 && rest == d - r,
        ;
        lemma_fundamental_div_mod_converse(n as int, d as int, whole as int, rest as int);
        assert(odd == (whole % 2 != 0));
    }
    if 2 * rest > d || (2 * rest == d && odd) {
        (whole + 1) as i32
    } else {
        whole as i32
    }
}

} // verus!
