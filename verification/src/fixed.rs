//! Q16.16 fixed-point arithmetic: every quantity of the animation (seconds,
//! screen coordinates, life, click intensity) is an `i64` holding the real
//! value times `FX_ONE`.

use vstd::prelude::*;
use vstd::arithmetic::div_mod::lemma_fundamental_div_mod;
use vstd::arithmetic::div_mod::lemma_fundamental_div_mod_converse;
use vstd::arithmetic::div_mod::lemma_mod_bound;
use vstd::arithmetic::div_mod::lemma_div_is_ordered;

verus! {

/// One whole unit (1.0) in the fixed-point representation.
pub const FX_ONE: i64 = 65536;

/// Largest magnitude the saturating falloff computation can return.
pub const FALLOFF_MAX: i64 = 0x4000_0000_0000;

/// Fixed-point product: the real product of `a` and `b`, floored to the
/// representation grid.
pub open spec fn fx_mul_spec(a: int, b: int) -> int {
    (a * b) / (FX_ONE as int)
}

/// Fixed-point quotient of `a` by a positive `b`.
pub open spec fn fx_div_spec(a: int, b: int) -> int {
    (a * (FX_ONE as int)) / b
}

/// Linear interpolation from `a` toward `b` by fraction `t` (in fixed point).
pub open spec fn fx_lerp_spec(a: int, b: int, t: int) -> int {
    a + fx_mul_spec(b - a, t)
}

/// Clamp `x` into `[lo, hi]`.
pub open spec fn clamp_spec(x: int, lo: int, hi: int) -> int {
    if x < lo {
        lo
    } else if x > hi {
        hi
    } else {
        x
    }
}

/// Floor division of `a` by a positive `b`, matching `/` of specifications
/// also for negative `a`.
pub fn div_floor(a: i64, b: i64) -> (r: i64)
    requires
        0 < b <= 0x4000_0000_0000,
        -0x4000_0000_0000_0000 <= a <= 0x4000_0000_0000_0000,
    ensures
        r == a as int / b as int,
        a >= 0 ==> 0 <= r <= a,
        a < 0 ==> a <= r <= 0,
{
    let bu: u64 = b as u64;
    if a >= 0 {
        let q: u64 = (a as u64) / bu;
        proof {
            lemma_div_is_ordered(0, a as int, b as int);
            assert(a as int <= (a as int) * (b as int)) by (nonlinear_arith)
                requires
                    a >= 0,
                    b >= 1,
            ;
            lemma_div_is_ordered(a as int, (a as int) * (b as int), b as int);
            assert((a as int) * (b as int) / (b as int) == a as int) by {
                vstd::arithmetic::div_mod::lemma_div_by_multiple(a as int, b as int);
            }
        }
        q as i64
    } else {
        let m: u64 = (-a) as u64;
        let q: u64 = (m + (bu - 1)) / bu;
        proof {
            let mi = m as int;
            let bi = b as int;
            let qi = q as int;
            lemma_fundamental_div_mod(mi + bi - 1, bi);
            lemma_mod_bound(mi + bi - 1, bi);
            let s = (mi + bi - 1) % bi;
            // The exec quotient is the spec quotient of nonnegative numbers.
            assert(qi == (mi + bi - 1) / bi);
            assert(mi + bi - 1 == bi * qi + s);
            // q is no larger than m, so -(q) fits in i64.
            assert(qi <= mi) by (nonlinear_arith)
                requires
                    mi + bi - 1 == bi * qi + s,
                    0 <= s < bi,
                    1 <= bi,
                    1 <= mi,
                    0 <= qi,
            ;
            // a == (-q) * b + (b - 1 - s), with the remainder in [0, b).
            assert(a as int == (-qi) * bi + (bi - 1 - s)) by (nonlinear_arith)
                requires
                    mi + bi - 1 == bi * qi + s,
                    a as int == -mi,
            ;
            lemma_fundamental_div_mod_converse(a as int, bi, -qi, bi - 1 - s);
        }
        -(q as i64)
    }
}

/// Fixed-point multiplication; the product of the operands must fit in `i64`.
pub fn fx_mul(a: i64, b: i64) -> (r: i64)
    requires
        -0x4000_0000_0000_0000 <= (a as int) * (b as int) <= 0x4000_0000_0000_0000,
    ensures
        r == fx_mul_spec(a as int, b as int),
        0 <= a && 0 <= b ==> 0 <= r,
        0 <= a && 0 <= b <= FX_ONE ==> r <= a,
{
    proof {
        let ai = a as int;
        let bi = b as int;
        if 0 <= ai && 0 <= bi {
            assert(0 <= ai * bi) by (nonlinear_arith)
                requires
                    0 <= ai,
                    0 <= bi,
            ;
            lemma_div_is_ordered(0, ai * bi, FX_ONE as int);
            if bi <= FX_ONE as int {
                assert(ai * bi <= ai * (FX_ONE as int)) by (nonlinear_arith)
                    requires
                        0 <= ai,
                        0 <= bi <= FX_ONE as int,
                ;
                lemma_div_is_ordered(ai * bi, ai * (FX_ONE as int), FX_ONE as int);
                vstd::arithmetic::div_mod::lemma_div_by_multiple(ai, FX_ONE as int);
            }
        }
    }
    let p: i64 = a * b;
    div_floor(p, FX_ONE)
}

/// Fixed-point division by a positive divisor.
pub fn fx_div(a: i64, b: i64) -> (r: i64)
    requires
        0 < b <= 0x4000_0000_0000,
        -0x2000_0000_0000 <= a <= 0x2000_0000_0000,
    ensures
        r == fx_div_spec(a as int, b as int),
        0 <= a && FX_ONE <= b ==> 0 <= r <= a,
{
    proof {
        let ai = a as int;
        let bi = b as int;
        if 0 <= ai && FX_ONE as int <= bi {
            assert(0 <= ai * (FX_ONE as int)) by (nonlinear_arith)
                requires
                    0 <= ai,
            ;
            lemma_div_is_ordered(0, ai * (FX_ONE as int), bi);
            vstd::arithmetic::div_mod::lemma_div_is_ordered_by_denominator(
                ai * (FX_ONE as int),
                FX_ONE as int,
                bi,
            );
            vstd::arithmetic::div_mod::lemma_div_by_multiple(ai, FX_ONE as int);
        }
    }
    div_floor(a * FX_ONE, b)
}

/// The interpolation result lies between its endpoints whenever
/// `0 <= t <= FX_ONE`.
pub proof fn lemma_lerp_between(a: int, b: int, t: int)
    requires
        0 <= t <= FX_ONE as int,
    ensures
        a <= b ==> a <= fx_lerp_spec(a, b, t) <= b,
        b <= a ==> b <= fx_lerp_spec(a, b, t) <= a,
{
    let d = b - a;
    let one = FX_ONE as int;
    if a <= b {
        assert(0 <= d * t <= d * one) by (nonlinear_arith)
            requires
                0 <= d,
                0 <= t <= one,
        ;
        lemma_div_is_ordered(0, d * t, one);
        lemma_div_is_ordered(d * t, d * one, one);
        assert(d * one / one == d) by {
            vstd::arithmetic::div_mod::lemma_div_by_multiple(d, one);
        }
    } else {
        assert(d * one <= d * t <= 0) by (nonlinear_arith)
            requires
                d <= 0,
                0 <= t <= one,
        ;
        lemma_div_is_ordered(d * t, 0, one);
        lemma_div_is_ordered(d * one, d * t, one);
        assert(d * one / one == d) by {
            vstd::arithmetic::div_mod::lemma_div_multiples_vanish(d, one);
            vstd::arithmetic::mul::lemma_mul_is_commutative(d, one);
        }
        assert(0int / one == 0) by {
            vstd::arithmetic::div_mod::lemma_div_of0(one);
        }
    }
}

/// Linear interpolation in fixed point; the result stays between `a` and `b`.
pub fn fx_lerp(a: i64, b: i64, t: i64) -> (r: i64)
    requires
        0 <= t <= FX_ONE,
        -0x2000_0000_0000 <= a <= 0x2000_0000_0000,
        -0x2000_0000_0000 <= b <= 0x2000_0000_0000,
    ensures
        r == fx_lerp_spec(a as int, b as int, t as int),
        a <= b ==> a <= r <= b,
        b <= a ==> b <= r <= a,
{
    proof {
        lemma_lerp_between(a as int, b as int, t as int);
        assert(-0x4000_0000_0000_0000 <= ((b - a) as int) * (t as int) <= 0x4000_0000_0000_0000)
            by (nonlinear_arith)
            requires
                -0x2000_0000_0000 <= a as int <= 0x2000_0000_0000,
                -0x2000_0000_0000 <= b as int <= 0x2000_0000_0000,
                0 <= t <= 65536,
        ;
    }
    let d: i64 = b - a;
    let m: i64 = fx_mul(d, t);
    a + m
}

/// Clamp `x` into `[lo, hi]`.
pub fn fx_clamp(x: i64, lo: i64, hi: i64) -> (r: i64)
    requires
        lo <= hi,
    ensures
        r == clamp_spec(x as int, lo as int, hi as int),
        lo <= r <= hi,
{
    if x < lo {
        lo
    } else if x > hi {
        hi
    } else {
        x
    }
}

/// The smaller of two values.
pub fn fx_min(a: i64, b: i64) -> (r: i64)
    ensures
        r == if a as int <= b as int { a as int } else { b as int },
{
    if a <= b {
        a
    } else {
        b
    }
}

/// The larger of two values.
pub fn fx_max(a: i64, b: i64) -> (r: i64)
    ensures
        r == if a as int >= b as int { a as int } else { b as int },
{
    if a >= b {
        a
    } else {
        b
    }
}

/// Floor division of a negated nonnegative value: at worst one below the
/// negated quotient, and never positive.
pub proof fn lemma_div_neg_floor(m: int, d: int)
    requires
        0 <= m,
        0 < d,
    ensures
        -(m / d) - 1 <= (-m) / d <= 0,
{
    lemma_fundamental_div_mod(m, d);
    lemma_mod_bound(m, d);
    let q = m / d;
    let s = m % d;
    vstd::arithmetic::div_mod::lemma_div_pos_is_pos(m, d);
    if s == 0 {
        assert(-m == (-q) * d + 0) by (nonlinear_arith)
            requires
                m == d * q + s,
                s == 0,
        ;
        lemma_fundamental_div_mod_converse(-m, d, -q, 0);
    } else {
        assert(-m == (-q - 1) * d + (d - s)) by (nonlinear_arith)
            requires
                m == d * q + s,
        ;
        lemma_fundamental_div_mod_converse(-m, d, -q - 1, d - s);
    }
}

/// A magnitude bound for the fixed-point product: operands bounded by `ba`
/// and `bb` give a product bounded (one off, below) by `ba * bb / FX_ONE`.
pub proof fn lemma_fx_mul_bound(a: int, b: int, ba: int, bb: int)
    requires
        -ba <= a <= ba,
        -bb <= b <= bb,
        0 <= ba,
        0 <= bb,
    ensures
        -(ba * bb) <= a * b <= ba * bb,
        -((ba * bb) / (FX_ONE as int)) - 1 <= fx_mul_spec(a, b) <= (ba * bb) / (FX_ONE as int),
{
    let m = ba * bb;
    assert(-m <= a * b <= m) by (nonlinear_arith)
        requires
            -ba <= a <= ba,
            -bb <= b <= bb,
            0 <= ba,
            0 <= bb,
            m == ba * bb,
    ;
    lemma_div_is_ordered(a * b, m, FX_ONE as int);
    lemma_div_is_ordered(-m, a * b, FX_ONE as int);
    lemma_div_neg_floor(m, FX_ONE as int);
}

/// A magnitude bound for the fixed-point quotient when the divisor is at
/// least a quarter unit (`0.25`).
pub proof fn lemma_fx_div_bound(a: int, b: int, ba: int)
    requires
        -ba <= a <= ba,
        0 <= ba,
        16384 <= b,
    ensures
        -4 * ba - 1 <= fx_div_spec(a, b) <= 4 * ba,
{
    let one = FX_ONE as int;
    let m = ba * one;
    assert(-m <= a * one <= m) by (nonlinear_arith)
        requires
            -ba <= a <= ba,
            0 <= ba,
            0 <= one,
            m == ba * one,
    ;
    assert(m / 16384 == 4 * ba) by {
        assert(m == (4 * ba) * 16384);
        vstd::arithmetic::div_mod::lemma_div_by_multiple(4 * ba, 16384);
    }
    lemma_div_is_ordered(a * one, m, b);
    vstd::arithmetic::div_mod::lemma_div_is_ordered_by_denominator(m, 16384, b);
    lemma_div_is_ordered(-m, a * one, b);
    lemma_div_neg_floor(m, b);
    assert((-m) / b >= -(m / b) - 1);
}

/// One saturating squaring step of the falloff computation: the fixed-point
/// square of `a`, capped at `FALLOFF_MAX`.
pub open spec fn sq_sat_spec(a: int) -> int {
    if (a * a) / (FX_ONE as int) >= FALLOFF_MAX as int {
        FALLOFF_MAX as int
    } else {
        (a * a) / (FX_ONE as int)
    }
}

/// Saturating fixed-point square.
pub fn sq_sat(a: i64) -> (r: i64)
    requires
        0 <= a <= FALLOFF_MAX,
    ensures
        r == sq_sat_spec(a as int),
        0 <= r <= FALLOFF_MAX,
{
    if a >= 0x8000_0000 {
        proof {
            assert((a as int) * (a as int) >= 0x4000_0000_0000_0000) by (nonlinear_arith)
                requires
                    a as int >= 0x8000_0000,
            ;
            lemma_div_is_ordered(0x4000_0000_0000_0000, (a as int) * (a as int), FX_ONE as int);
            assert(0x4000_0000_0000_0000int / 65536int >= 0x4000_0000_0000);
        }
        FALLOFF_MAX
    } else {
        proof {
            assert(0 <= (a as int) * (a as int) && (a as int) * (a as int) < 0x4000_0000_0000_0000)
                by (nonlinear_arith)
                requires
                    0 <= (a as int) < 0x8000_0000,
            ;
            lemma_div_is_ordered(0, (a as int) * (a as int), FX_ONE as int);
        }
        let p: i64 = a * a;
        let q: i64 = div_floor(p, FX_ONE);
        if q >= FALLOFF_MAX {
            FALLOFF_MAX
        } else {
            q
        }
    }
}

/// The falloff attenuation: the 16th power of `base` in fixed point,
/// saturating at `FALLOFF_MAX`, computed by four squarings.
pub open spec fn falloff_spec(base: int) -> int {
    sq_sat_spec(sq_sat_spec(sq_sat_spec(sq_sat_spec(base))))
}

/// `(1 + k*d)^16`-style attenuation via four saturating squarings.
pub fn falloff16(base: i64) -> (r: i64)
    requires
        0 <= base <= FALLOFF_MAX,
    ensures
        r == falloff_spec(base as int),
        0 <= r <= FALLOFF_MAX,
{
    sq_sat(sq_sat(sq_sat(sq_sat(base))))
}

/// Saturating squaring is monotone on nonnegative inputs.
pub proof fn lemma_sq_sat_monotone(a: int, b: int)
    requires
        0 <= a <= b,
    ensures
        sq_sat_spec(a) <= sq_sat_spec(b),
{
    assert(a * a <= b * b) by (nonlinear_arith)
        requires
            0 <= a <= b,
    ;
    lemma_div_is_ordered(a * a, b * b, FX_ONE as int);
}

/// Any falloff base at least `0.95` (one unit less the strongest click bias)
/// yields a strictly positive attenuation, so dividing by it is safe.
pub proof fn lemma_falloff_positive(base: int)
    requires
        62259 <= base,
        base <= FALLOFF_MAX as int,
    ensures
        falloff_spec(base) >= 28837,
{
    lemma_sq_sat_monotone(62259, base);
    assert(sq_sat_spec(62259) == 59145);
    lemma_sq_sat_monotone(59145, sq_sat_spec(base));
    assert(sq_sat_spec(59145) == 53377);
    lemma_sq_sat_monotone(53377, sq_sat_spec(sq_sat_spec(base)));
    assert(sq_sat_spec(53377) == 43473);
    lemma_sq_sat_monotone(43473, sq_sat_spec(sq_sat_spec(sq_sat_spec(base))));
    assert(sq_sat_spec(43473) == 28837);
}

} // verus!
