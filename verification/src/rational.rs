//! Exact rational time bases and timestamp rescaling.
//!
//! A time base is a rational number of seconds per timestamp tick.  A
//! timestamp is only meaningful together with its time base, and moving a
//! timestamp from one time base to another is a single rational
//! multiplication: `t * (from / to)`, computed exactly in wide integers and
//! truncated toward zero, with the final value saturated to the 64-bit
//! timestamp range.

use vstd::prelude::*;

verus! {

use vstd::arithmetic::div_mod::{
    lemma_fundamental_div_mod_converse_div,
    lemma_div_is_ordered,
    lemma_div_pos_is_pos,
    lemma_div_nonincreasing,
};

/// A rational number with positive numerator and denominator, used both for
/// time bases (seconds per tick) and frame rates (ticks per second).
#[derive(Clone, Copy, Debug, PartialEq, Eq, Structural)]
pub struct Rational {
    pub num: i32,
    pub den: i32,
}

impl Rational {
    /// A usable time base or frame rate is strictly positive.
    pub open spec fn wf(self) -> bool {
        self.num > 0 && self.den > 0
    }

    pub fn new(num: i32, den: i32) -> (r: Rational)
        requires
            num > 0,
            den > 0,
        ensures
            r == (Rational { num, den }),
            r.wf(),
    {
        Rational { num, den }
    }

    /// The reciprocal; it turns a frame rate into a time base and back.
    pub fn invert(self) -> (r: Rational)
        requires
            self.wf(),
        ensures
            r == (Rational { num: self.den, den: self.num }),
            r.wf(),
    {
        Rational { num: self.den, den: self.num }
    }
}

/// Division truncating toward zero, defined for positive divisors.  The
/// codec engine's conventional rounding of rescaled timestamps.
pub open spec fn div_trunc(a: int, b: int) -> int
    recommends
        b > 0,
{
    if a >= 0 {
        a / b
    } else {
        -((-a) / b)
    }
}

/// The exact value of rescaling tick count `t` from time base `from` to time
/// base `to`: `t * (from / to)`, truncated toward zero.
pub open spec fn rescale_ticks(t: int, from: Rational, to: Rational) -> int
    recommends
        from.wf(),
        to.wf(),
{
    div_trunc(t * from.num * to.den, from.den * to.num)
}

/// Saturation of a mathematical integer to the 64-bit timestamp range.
pub open spec fn clamp_i64(v: int) -> int {
    if v > i64::MAX {
        i64::MAX as int
    } else if v < i64::MIN {
        i64::MIN as int
    } else {
        v
    }
}

/// Rescales timestamp `t` from time base `from` to time base `to` with exact
/// rational arithmetic, truncating toward zero and saturating to the 64-bit
/// range.
pub fn rescale(t: i64, from: Rational, to: Rational) -> (r: i64)
    requires
        from.wf(),
        to.wf(),
    ensures
        r == clamp_i64(rescale_ticks(t as int, from, to)),
{
    let t128: i128 = t as i128;
    let fnum: i128 = from.num as i128;
    let fden: i128 = from.den as i128;
    let tnum: i128 = to.num as i128;
    let tden: i128 = to.den as i128;
    proof {
        assert(-0x4000_0000_0000_0000_0000_0000 <= (t128 as int) * (fnum as int)
            <= 0x4000_0000_0000_0000_0000_0000) by (nonlinear_arith)
            requires
                -0x8000_0000_0000_0000 <= (t128 as int) <= 0x8000_0000_0000_0000,
                (fnum as int) < 0x8000_0000,
                0 < (fnum as int),
        ;
    }
    let p1: i128 = t128 * fnum;
    proof {
        assert(-0x2000_0000_0000_0000_0000_0000_0000_0000
            <= (p1 as int) * (tden as int)
            <= 0x2000_0000_0000_0000_0000_0000_0000_0000) by (nonlinear_arith)
            requires
                -0x4000_0000_0000_0000_0000_0000 <= (p1 as int)
                    <= 0x4000_0000_0000_0000_0000_0000,
                (tden as int) < 0x8000_0000,
                0 < (tden as int),
        ;
    }
    let prod: i128 = p1 * tden;
    proof {
        assert(0 < (fden as int) * (tnum as int) < 0x4000_0000_0000_0000) by (nonlinear_arith)
            requires
                (fden as int) < 0x8000_0000,
                0 < (fden as int),
                (tnum as int) < 0x8000_0000,
                0 < (tnum as int),
        ;
    }
    let den: i128 = fden * tnum;
    let q: i128 = prod / den;
    proof {
        if prod >= 0 {
            lemma_div_pos_is_pos(prod as int, den as int);
            lemma_div_nonincreasing(prod as int, den as int);
        } else {
            lemma_div_pos_is_pos(-(prod as int), den as int);
            lemma_div_nonincreasing(-(prod as int), den as int);
        }
        assert(q == div_trunc(prod as int, den as int));
    }
    if q > (i64::MAX as i128) {
        i64::MAX
    } else if q < (i64::MIN as i128) {
        i64::MIN
    } else {
        q as i64
    }
}

/// When the divisor divides the dividend exactly, truncating division is
/// exact division.
proof fn lemma_div_trunc_exact(q: int, d: int)
    requires
        d > 0,
    ensures
        div_trunc(q * d, d) == q,
{
    if q * d >= 0 {
        assert(q * d == q * d + 0);
        lemma_fundamental_div_mod_converse_div(q * d, d, q, 0);
    } else {
        assert(-(q * d) == (-q) * d) by (nonlinear_arith);
        assert((-q) * d == (-q) * d + 0);
        lemma_fundamental_div_mod_converse_div((-q) * d, d, -q, 0);
    }
}

/// Truncating division preserves order for a fixed positive divisor.
proof fn lemma_div_trunc_ordered(a1: int, a2: int, b: int)
    requires
        b > 0,
        a1 <= a2,
    ensures
        div_trunc(a1, b) <= div_trunc(a2, b),
{
    if a1 >= 0 {
        lemma_div_is_ordered(a1, a2, b);
    } else if a2 >= 0 {
        lemma_div_pos_is_pos(-a1, b);
        lemma_div_pos_is_pos(a2, b);
    } else {
        lemma_div_is_ordered(-a2, -a1, b);
    }
}

/// Rescaling preserves timestamp order: timestamps that do not decrease in
/// the source time base do not decrease in the target time base either.
pub proof fn lemma_rescale_monotone(t1: int, t2: int, from: Rational, to: Rational)
    requires
        from.wf(),
        to.wf(),
        t1 <= t2,
    ensures
        rescale_ticks(t1, from, to) <= rescale_ticks(t2, from, to),
        clamp_i64(rescale_ticks(t1, from, to)) <= clamp_i64(rescale_ticks(t2, from, to)),
{
    let d = from.den as int * to.num as int;
    assert(d > 0 && t1 * from.num as int * to.den as int <= t2 * from.num as int * to.den
        as int) by (nonlinear_arith)
        requires
            d == from.den as int * to.num as int,
            from.num > 0,
            from.den > 0,
            to.num > 0,
            to.den > 0,
            t1 <= t2,
    ;
    lemma_div_trunc_ordered(
        t1 * from.num as int * to.den as int,
        t2 * from.num as int * to.den as int,
        d,
    );
}

/// Round-trip law: rescaling a timestamp from time base `a` to time base `b`
/// and back returns the original timestamp, provided the first rescale loses
/// nothing to truncation (the product `t * a.num * b.den` is a multiple of
/// `a.den * b.num`).  Truncation is unavoidable in general: rescaling `t = 1`
/// from `1/2` to `1/1` truncates `1/2` down to `0`, which cannot come back.
pub proof fn lemma_rescale_round_trip(t: int, a: Rational, b: Rational)
    requires
        a.wf(),
        b.wf(),
        (t * a.num * b.den) % (a.den * b.num) == 0,
    ensures
        rescale_ticks(rescale_ticks(t, a, b), b, a) == t,
{
    let p = t * a.num as int * b.den as int;
    let d = a.den as int * b.num as int;
    assert(d > 0) by (nonlinear_arith)
        requires
            d == a.den as int * b.num as int,
            a.den > 0,
            b.num > 0,
    ;
    let q = p / d;
    vstd::arithmetic::div_mod::lemma_fundamental_div_mod(p, d);
    // p % d == 0, so p == d * q exactly.
    assert(p == d * q);
    assert(rescale_ticks(t, a, b) == div_trunc(p, d));
    lemma_div_trunc_exact(q, d);
    assert(q * d == d * q) by (nonlinear_arith);
    assert(div_trunc(p, d) == q);

    // The way back divides q * b.num * a.den by b.den * a.num; that dividend
    // equals t times the divisor, so the division is exact and yields t.
    let d2 = b.den as int * a.num as int;
    assert(d2 > 0) by (nonlinear_arith)
        requires
            d2 == b.den as int * a.num as int,
            b.den > 0,
            a.num > 0,
    ;
    assert(q * b.num as int * a.den as int == t * d2) by (nonlinear_arith)
        requires
            d == a.den as int * b.num as int,
            p == t * a.num as int * b.den as int,
            p == d * q,
            d2 == b.den as int * a.num as int,
    ;
    lemma_div_trunc_exact(t, d2);
    assert(t * d2 == t * (b.den as int * a.num as int));
    assert(rescale_ticks(q, b, a) == div_trunc(q * b.num as int * a.den as int, d2));
    assert(div_trunc(t * d2, d2) == t);
}

} // verus!
