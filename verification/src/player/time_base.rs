//! Rational tick lengths and the conversion of tick counts between them.

use vstd::prelude::*;
use vstd::arithmetic::div_mod::lemma_div_is_ordered;
use vstd::arithmetic::mul::lemma_mul_inequality;

verus! {

/// A rational number `num / den`, used as the length of one tick in seconds.
#[derive(PartialEq, Eq, Structural, Clone, Copy, Debug)]
pub struct Rational {
    pub num: i32,
    pub den: i32,
}

/// `p / c` rounded to the nearest integer, halves away from zero.
pub open spec fn round_div(p: int, c: int) -> int
    recommends
        c > 0,
{
    if p >= 0 {
        (p + c / 2) / c
    } else {
        -((-p + c / 2) / c)
    }
}

/// `a` ticks of length `from`, counted in ticks of length `to` and rounded
/// to the nearest; `i64::MIN` where the bases give no meaningful scale or the
/// count does not fit.
pub open spec fn rescale_spec(a: i64, from: Rational, to: Rational) -> i64 {
    let b = from.num as int * to.den as int;
    let c = to.num as int * from.den as int;
    if c <= 0 || b < 0 {
        i64::MIN
    } else {
        let r = round_div(a as int * b, c);
        if i64::MIN <= r <= i64::MAX {
            r as i64
        } else {
            i64::MIN
        }
    }
}

impl Rational {
    /// A tick length that is not negative and has a positive denominator.
    pub open spec fn is_time_base(self) -> bool {
        self.num >= 0 && self.den > 0
    }

    pub fn new(num: i32, den: i32) -> (r: Rational)
        ensures
            r == (Rational { num, den }),
    {
        Rational { num, den }
    }
}

/// A product is bounded by the product of the bounds of its factors.
pub proof fn lemma_mul_bounded(x: int, y: int, bx: int, by: int)
    requires
        -bx <= x <= bx,
        -by <= y <= by,
    ensures
        -(bx * by) <= x * y <= bx * by,
{
    assert(-(bx * by) <= x * y <= bx * by) by (nonlinear_arith)
        requires
            -bx <= x <= bx,
            -by <= y <= by,
    ;
}

/// Converts a count of ticks from one tick length to another.
pub fn rescale(a: i64, from: Rational, to: Rational) -> (r: i64)
    ensures
        r == rescale_spec(a, from, to),
{
    proof {
        lemma_mul_bounded(from.num as int, to.den as int, 0x8000_0000, 0x8000_0000);
        lemma_mul_bounded(to.num as int, from.den as int, 0x8000_0000, 0x8000_0000);
    }
    let b: i64 = from.num as i64 * to.den as i64;
    let c: i64 = to.num as i64 * from.den as i64;
    if c <= 0 || b < 0 {
        return i64::MIN;
    }
    proof {
        lemma_mul_bounded(
            a as int,
            b as int,
            0x8000_0000_0000_0000,
            0x4000_0000_0000_0000,
        );
    }
    let p: i128 = a as i128 * b as i128;
    let half: i128 = (c / 2) as i128;
    let r: i128 = if p >= 0 {
        (p + half) / (c as i128)
    } else {
        -((-p + half) / (c as i128))
    };
    if r < i64::MIN as i128 || r > i64::MAX as i128 {
        i64::MIN
    } else {
        r as i64
    }
}

/// Rounding to the nearest keeps the order: of two numbers divided by the
/// same positive number, the larger does not come out smaller.
pub proof fn lemma_round_div_monotonic(p: int, q: int, c: int)
    requires
        p <= q,
        c > 0,
    ensures
        round_div(p, c) <= round_div(q, c),
{
    if p >= 0 {
        lemma_div_is_ordered(p + c / 2, q + c / 2, c);
    } else if q < 0 {
        lemma_div_is_ordered(-q + c / 2, -p + c / 2, c);
    } else {
        lemma_div_is_ordered(0, -p + c / 2, c);
        lemma_div_is_ordered(0, q + c / 2, c);
    }
}

/// Whether the count of `a` ticks of length `from` in ticks of length `to`
/// can be written: the two lengths give a scale, and the count fits.
pub open spec fn rescales(a: i64, from: Rational, to: Rational) -> bool {
    let b = from.num as int * to.den as int;
    let c = to.num as int * from.den as int;
    &&& c > 0
    &&& b >= 0
    &&& i64::MIN <= round_div(a as int * b, c) <= i64::MAX
}

/// Where the counts can be written, a later tick is never counted as an
/// earlier one.
pub proof fn lemma_rescale_monotonic(a: i64, b: i64, from: Rational, to: Rational)
    requires
        a <= b,
        rescales(a, from, to),
        rescales(b, from, to),
    ensures
        rescale_spec(a, from, to) <= rescale_spec(b, from, to),
{
    let m = from.num as int * to.den as int;
    let c = to.num as int * from.den as int;
    lemma_mul_inequality(a as int, b as int, m);
    lemma_round_div_monotonic(a as int * m, b as int * m, c);
}

} // verus!
