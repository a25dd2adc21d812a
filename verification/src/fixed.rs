//! Fixed-point sample arithmetic.
//!
//! A sample value is an `i64` holding the real value scaled by [`ONE`]
//! (a Q15 convention). Every arithmetic result is clipped to the
//! representable range [`VAL_MIN`] ..= [`VAL_MAX`], the fixed-point
//! analogue of the saturation of a finite number format. The spec
//! functions `fx_*` define each operation exactly; the executable
//! functions are proved to return precisely those values.

use vstd::prelude::*;

verus! {

/// Scale factor: the sample value 1.0 is stored as `ONE`.
pub const ONE: i64 = 32768;

/// Largest representable stored value (about 65536.0 in sample units).
pub const VAL_MAX: i64 = 0x8000_0000;

/// Smallest representable stored value.
pub const VAL_MIN: i64 = -0x8000_0000;

/// The angle pi scaled by [`ONE`], rounded to the nearest integer.
pub const PI_FX: i64 = 102944;

/// The angle pi/2 scaled by [`ONE`]: exactly half of [`PI_FX`].
pub const HALF_PI_FX: i64 = 51472;

/// The angle 2*pi scaled by [`ONE`]: exactly twice [`PI_FX`], so that
/// halving a full turn is exact.
pub const TAU_FX: i64 = 205888;

/// A stored sample value is within the representable range.
pub open spec fn in_range(x: int) -> bool {
    -(VAL_MAX as int) <= x <= VAL_MAX as int
}

/// Absolute value on mathematical integers.
pub open spec fn iabs(x: int) -> int {
    if x < 0 {
        -x
    } else {
        x
    }
}

/// Clip a mathematical result to the representable range.
pub open spec fn clip(x: int) -> int {
    if x > VAL_MAX as int {
        VAL_MAX as int
    } else if x < -(VAL_MAX as int) {
        -(VAL_MAX as int)
    } else {
        x
    }
}

/// Truncating (round-toward-zero) division, total: division by zero
/// yields zero. This is the rounding of machine signed division.
pub open spec fn tdiv(x: int, d: int) -> int {
    if d == 0 {
        0
    } else if (x < 0) <==> (d < 0) {
        iabs(x) / iabs(d)
    } else {
        -(iabs(x) / iabs(d))
    }
}

/// Truncating remainder: the sign of the dividend, total in the divisor.
pub open spec fn trem(x: int, d: int) -> int {
    if d == 0 {
        0
    } else if x < 0 {
        -(iabs(x) % iabs(d))
    } else {
        x % iabs(d)
    }
}

/// Fixed-point addition: exact sum, clipped.
pub open spec fn fx_add(a: i64, b: i64) -> i64 {
    clip(a + b) as i64
}

/// Fixed-point subtraction: exact difference, clipped.
pub open spec fn fx_sub(a: i64, b: i64) -> i64 {
    clip(a - b) as i64
}

/// Fixed-point multiplication: the product rescaled by [`ONE`] with
/// truncation, clipped.
pub open spec fn fx_mul(a: i64, b: i64) -> i64 {
    clip(tdiv(a as int * b as int, ONE as int)) as i64
}

/// Fixed-point division: the quotient rescaled by [`ONE`] with
/// truncation, clipped; a zero divisor saturates to the range bound of
/// the dividend's sign (the clipped image of an infinite quotient).
pub open spec fn fx_div(a: i64, b: i64) -> i64 {
    if b == 0 {
        if a > 0 {
            VAL_MAX
        } else if a < 0 {
            VAL_MIN
        } else {
            0
        }
    } else {
        clip(tdiv(a as int * ONE as int, b as int)) as i64
    }
}

/// Fixed-point remainder: truncating remainder of the stored values;
/// a zero divisor yields zero.
pub open spec fn fx_rem(a: i64, b: i64) -> i64 {
    trem(a as int, b as int) as i64
}

/// Clip a value to the representable range.
pub fn clip_fx(x: i64) -> (r: i64)
    ensures
        r == clip(x as int),
{
    if x > VAL_MAX {
        VAL_MAX
    } else if x < VAL_MIN {
        VAL_MIN
    } else {
        x
    }
}

/// Truncating division on machine integers, matching [`tdiv`].
pub fn tdiv_i64(x: i64, d: i64) -> (r: i64)
    requires
        x != i64::MIN,
    ensures
        r as int == tdiv(x as int, d as int),
        iabs(r as int) <= iabs(x as int),
{
    if d == 0 {
        0
    } else {
        let q = match x.checked_div(d) {
            Some(q) => q,
            None => 0,
        };
        proof {
            lemma_tdiv_matches(x as int, d as int);
            lemma_tdiv_abs(x as int, d as int);
        }
        q
    }
}

/// Truncating remainder on machine integers, matching [`trem`].
pub fn trem_i64(x: i64, d: i64) -> (r: i64)
    requires
        x != i64::MIN,
    ensures
        r as int == trem(x as int, d as int),
        iabs(r as int) <= iabs(x as int),
        iabs(r as int) < iabs(d as int) || d == 0,
{
    if d == 0 {
        0
    } else {
        let q = match x.checked_rem(d) {
            Some(q) => q,
            None => 0,
        };
        proof {
            lemma_trem_matches(x as int, d as int);
        }
        q
    }
}

/// The truncating quotient formula used by machine division agrees with
/// [`tdiv`], and the quotient of a non-minimal `i64` dividend is
/// representable.
proof fn lemma_tdiv_matches(x: int, d: int)
    requires
        d != 0,
        -0x7fff_ffff_ffff_ffff <= x <= 0x7fff_ffff_ffff_ffff,
    ensures
        tdiv(x, d) == if x == 0 {
            0int
        } else if x > 0 && d > 0 {
            x / d
        } else if x < 0 && d < 0 {
            ((x * -1) / (d * -1))
        } else if x < 0 {
            ((x * -1) / d) * -1
        } else {
            (x / (d * -1)) * -1
        },
        i64::MIN <= tdiv(x, d) <= i64::MAX,
{
    lemma_tdiv_abs(x, d);
}

/// The magnitude of a truncating quotient never exceeds the dividend's.
pub proof fn lemma_tdiv_abs(x: int, d: int)
    requires
        d != 0,
    ensures
        iabs(tdiv(x, d)) <= iabs(x),
{
    assert(iabs(x) / iabs(d) <= iabs(x)) by (nonlinear_arith)
        requires
            d != 0,
    ;
    assert(iabs(x) / iabs(d) >= 0) by (nonlinear_arith)
        requires
            d != 0,
    ;
}

/// The truncating remainder formula used by machine division agrees
/// with [`trem`], and its magnitude is below the divisor's.
proof fn lemma_trem_matches(x: int, d: int)
    requires
        d != 0,
        -0x7fff_ffff_ffff_ffff <= x <= 0x7fff_ffff_ffff_ffff,
    ensures
        trem(x, d) == if x == 0 {
            0int
        } else if x > 0 && d > 0 {
            x % d
        } else if x < 0 && d < 0 {
            ((x * -1) % (d * -1)) * -1
        } else if x < 0 {
            ((x * -1) % d) * -1
        } else {
            x % (d * -1)
        },
        iabs(trem(x, d)) < iabs(d),
        iabs(trem(x, d)) <= iabs(x),
{
    assert(0 <= iabs(x) % iabs(d) < iabs(d)) by (nonlinear_arith)
        requires
            d != 0,
    ;
    assert(iabs(x) % iabs(d) <= iabs(x)) by (nonlinear_arith)
        requires
            d != 0,
    ;
}

/// Fixed-point addition of in-range values.
pub fn add_fx(a: i64, b: i64) -> (r: i64)
    requires
        iabs(a as int) <= 0x1000_0000_0000_0000,
        iabs(b as int) <= 0x1000_0000_0000_0000,
    ensures
        r == fx_add(a, b),
        in_range(r as int),
{
    clip_fx(a + b)
}

/// Fixed-point subtraction of in-range values.
pub fn sub_fx(a: i64, b: i64) -> (r: i64)
    requires
        iabs(a as int) <= 0x1000_0000_0000_0000,
        iabs(b as int) <= 0x1000_0000_0000_0000,
    ensures
        r == fx_sub(a, b),
        in_range(r as int),
{
    clip_fx(a - b)
}

/// Fixed-point multiplication of in-range values.
pub fn mul_fx(a: i64, b: i64) -> (r: i64)
    requires
        in_range(a as int),
        in_range(b as int),
    ensures
        r == fx_mul(a, b),
        in_range(r as int),
{
    proof {
        assert(-0x4000_0000_0000_0000 <= a as int * b as int <= 0x4000_0000_0000_0000)
            by (nonlinear_arith)
            requires
                -0x8000_0000 <= a as int <= 0x8000_0000,
                -0x8000_0000 <= b as int <= 0x8000_0000,
        ;
    }
    let p = a * b;
    let q = tdiv_i64(p, ONE);
    clip_fx(q)
}

/// Fixed-point division of in-range values.
pub fn div_fx(a: i64, b: i64) -> (r: i64)
    requires
        in_range(a as int),
        in_range(b as int),
    ensures
        r == fx_div(a, b),
        in_range(r as int),
{
    if b == 0 {
        if a > 0 {
            VAL_MAX
        } else if a < 0 {
            VAL_MIN
        } else {
            0
        }
    } else {
        let p = a * ONE;
        let q = tdiv_i64(p, b);
        clip_fx(q)
    }
}

/// Fixed-point remainder of in-range values.
pub fn rem_fx(a: i64, b: i64) -> (r: i64)
    requires
        in_range(a as int),
        in_range(b as int),
    ensures
        r == fx_rem(a, b),
        in_range(r as int),
{
    trem_i64(a, b)
}

/// The sine of a fixed-point angle in [0, [`PI_FX`]], by the rational
/// half-wave approximation 16 x (pi - x) / (5 pi^2 - 4 x (pi - x)),
/// evaluated in integer arithmetic at scale [`ONE`].
pub open spec fn sin_unit(x: int) -> int {
    tdiv(
        16 * x * (PI_FX as int - x) * (ONE as int),
        5 * (PI_FX as int) * (PI_FX as int) - 4 * x * (PI_FX as int - x),
    )
}

/// Reduce an angle to [0, [`TAU_FX`]).
pub open spec fn angle_norm(x: int) -> int {
    let m = trem(x, TAU_FX as int);
    if m < 0 {
        m + TAU_FX
    } else {
        m
    }
}

/// The library's sine: the half-wave approximation on the reduced
/// angle, negated on the second half turn.
pub open spec fn fx_sin(a: i64) -> i64 {
    let t = angle_norm(a as int);
    if t < PI_FX {
        sin_unit(t) as i64
    } else {
        (-sin_unit(t - PI_FX)) as i64
    }
}

/// The library's cosine: the sine a quarter turn ahead.
pub open spec fn fx_cos(a: i64) -> i64 {
    let t = angle_norm(a as int + HALF_PI_FX as int);
    if t < PI_FX {
        sin_unit(t) as i64
    } else {
        (-sin_unit(t - PI_FX)) as i64
    }
}

/// The half-wave approximation stays within [0, [`ONE`]].
pub proof fn lemma_sin_unit_bounds(x: int)
    requires
        0 <= x <= PI_FX as int,
    ensures
        0 <= sin_unit(x) <= ONE as int,
{
    let p = x * (PI_FX as int - x);
    let num = 16 * x * (PI_FX as int - x) * (ONE as int);
    let den = 5 * (PI_FX as int) * (PI_FX as int) - 4 * p;
    assert(0 <= p && 4 * p <= (PI_FX as int) * (PI_FX as int)) by (nonlinear_arith)
        requires
            0 <= x <= PI_FX as int,
            p == x * (PI_FX as int - x),
    ;
    assert(num == 16 * p * (ONE as int)) by (nonlinear_arith)
        requires
            num == 16 * x * (PI_FX as int - x) * (ONE as int),
            p == x * (PI_FX as int - x),
    ;
    assert(den > 0) by (nonlinear_arith)
        requires
            den == 5 * (PI_FX as int) * (PI_FX as int) - 4 * p,
            4 * p <= (PI_FX as int) * (PI_FX as int),
            PI_FX as int > 0,
    ;
    assert(num >= 0) by (nonlinear_arith)
        requires
            p >= 0,
            ONE as int > 0,
            num == 16 * p * (ONE as int),
    ;
    assert(num <= den * (ONE as int)) by (nonlinear_arith)
        requires
            num == 16 * p * (ONE as int),
            den == 5 * (PI_FX as int) * (PI_FX as int) - 4 * p,
            4 * p <= (PI_FX as int) * (PI_FX as int),
            p >= 0,
            ONE as int > 0,
    ;
    assert(tdiv(num, den) == num / den);
    assert(0 <= num / den && num / den <= ONE as int) by (nonlinear_arith)
        requires
            num >= 0,
            den > 0,
            num <= den * (ONE as int),
    ;
    assert(den == 5 * (PI_FX as int) * (PI_FX as int) - 4 * x * (PI_FX as int - x))
        by (nonlinear_arith)
        requires
            den == 5 * (PI_FX as int) * (PI_FX as int) - 4 * p,
            p == x * (PI_FX as int - x),
    ;
    assert(sin_unit(x) == tdiv(num, den));
}

/// Evaluate the half-wave approximation.
fn sin_half(x: i64) -> (r: i64)
    requires
        0 <= x <= PI_FX,
    ensures
        r as int == sin_unit(x as int),
        0 <= r <= ONE,
{
    proof {
        assert(0 <= x as int * (PI_FX as int - x as int)
            && 4 * (x as int * (PI_FX as int - x as int)) <= (PI_FX as int) * (PI_FX as int))
            by (nonlinear_arith)
            requires
                0 <= x as int <= PI_FX as int,
        ;
    }
    let p = x * (PI_FX - x);
    let num = 16 * p * ONE;
    let den = 5 * PI_FX * PI_FX - 4 * p;
    proof {
        assert(num as int == 16 * (x as int) * (PI_FX as int - x as int) * (ONE as int)
            && den as int == 5 * (PI_FX as int) * (PI_FX as int) - 4 * (x as int) * (
        PI_FX as int - x as int)) by (nonlinear_arith)
            requires
                num as int == 16 * (p as int) * (ONE as int),
                den as int == 5 * (PI_FX as int) * (PI_FX as int) - 4 * (p as int),
                p as int == (x as int) * (PI_FX as int - x as int),
        ;
        lemma_sin_unit_bounds(x as int);
    }
    let r = tdiv_i64(num, den);
    proof {
        assert(tdiv(num as int, den as int) == sin_unit(x as int));
    }
    r
}

/// The sine on a reduced angle in [0, [`TAU_FX`]).
fn sin_turn(t: i64) -> (r: i64)
    requires
        0 <= t < TAU_FX,
    ensures
        r as int == if t < PI_FX {
            sin_unit(t as int)
        } else {
            -sin_unit(t as int - PI_FX as int)
        },
        -ONE <= r <= ONE,
{
    if t < PI_FX {
        sin_half(t)
    } else {
        let s = sin_half(t - PI_FX);
        -s
    }
}

/// Sine of any fixed-point angle, after reduction modulo a full turn.
pub fn sin_fx(a: i64) -> (r: i64)
    requires
        a != i64::MIN,
    ensures
        r == fx_sin(a),
        -ONE <= r <= ONE,
{
    let m = trem_i64(a, TAU_FX);
    let t = if m < 0 {
        m + TAU_FX
    } else {
        m
    };
    sin_turn(t)
}

/// Cosine of any fixed-point angle: the sine a quarter turn ahead.
pub fn cos_fx(a: i64) -> (r: i64)
    requires
        iabs(a as int) <= 0x1000_0000_0000_0000,
    ensures
        r == fx_cos(a),
        -ONE <= r <= ONE,
{
    let s = a + HALF_PI_FX;
    let m = trem_i64(s, TAU_FX);
    let t = if m < 0 {
        m + TAU_FX
    } else {
        m
    };
    sin_turn(t)
}

/// `r` is the integer square root of `m`.
pub open spec fn is_isqrt(m: int, r: int) -> bool {
    r >= 0 && r * r <= m && m < (r + 1) * (r + 1)
}

/// The integer square root is unique.
pub proof fn lemma_isqrt_unique(m: int, r1: int, r2: int)
    requires
        is_isqrt(m, r1),
        is_isqrt(m, r2),
    ensures
        r1 == r2,
{
    assert(r1 == r2) by (nonlinear_arith)
        requires
            r1 >= 0 && r1 * r1 <= m && m < (r1 + 1) * (r1 + 1),
            r2 >= 0 && r2 * r2 <= m && m < (r2 + 1) * (r2 + 1),
    ;
}

/// Fixed-point square root: the integer square root of the value
/// rescaled by [`ONE`], clipped; non-positive inputs yield zero.
pub open spec fn fx_sqrt(a: i64) -> i64 {
    if a <= 0 {
        0
    } else {
        clip(choose|r: int| #[trigger] is_isqrt(a as int * ONE as int, r)) as i64
    }
}

/// The sine of any angle lies within one unit.
pub proof fn lemma_fx_sin_in_range(a: i64)
    ensures
        -(ONE as int) <= fx_sin(a) as int <= ONE as int,
{
    assert(0 <= iabs(a as int) % (TAU_FX as int) < TAU_FX as int) by (nonlinear_arith);
    let t = angle_norm(a as int);
    if t < PI_FX as int {
        lemma_sin_unit_bounds(t);
    } else {
        lemma_sin_unit_bounds(t - PI_FX as int);
    }
}

/// The cosine of any angle lies within one unit.
pub proof fn lemma_fx_cos_in_range(a: i64)
    ensures
        -(ONE as int) <= fx_cos(a) as int <= ONE as int,
{
    assert(0 <= iabs(a as int + HALF_PI_FX as int) % (TAU_FX as int) < TAU_FX as int)
        by (nonlinear_arith);
    let t = angle_norm(a as int + HALF_PI_FX as int);
    if t < PI_FX as int {
        lemma_sin_unit_bounds(t);
    } else {
        lemma_sin_unit_bounds(t - PI_FX as int);
    }
}

/// Integer square root by bisection.
fn isqrt_u64(m: u64) -> (r: u64)
    requires
        m < 0x4000_0000_0000_0000,
    ensures
        is_isqrt(m as int, r as int),
{
    let mut lo: u64 = 0;
    let mut hi: u64 = 0x8000_0000;
    while lo + 1 < hi
        invariant
            lo < hi <= 0x8000_0000,
            lo as int * lo as int <= m as int,
            (m as int) < hi as int * hi as int,
        decreases hi - lo,
    {
        let mid = lo + (hi - lo) / 2;
        proof {
            assert(mid as int * mid as int <= 0x4000_0000_0000_0000)
                by (nonlinear_arith)
                requires
                    0 <= mid as int <= 0x8000_0000,
            ;
        }
        if mid * mid <= m {
            lo = mid;
        } else {
            hi = mid;
        }
    }
    lo
}

/// Fixed-point square root of an in-range value.
pub fn sqrt_fx(a: i64) -> (r: i64)
    requires
        a <= VAL_MAX,
    ensures
        r == fx_sqrt(a),
        0 <= r,
        in_range(r as int),
{
    if a <= 0 {
        0
    } else {
        proof {
            assert((a as u64) * (ONE as u64) < 0x4000_0000_0000_0000
                && (a as u64) * (ONE as u64) == a as int * ONE as int) by (nonlinear_arith)
                requires
                    a as u64 == a as int,
                    0 < a as int <= 0x8000_0000,
                    ONE as u64 == 32768,
                    ONE as int == 32768,
            ;
        }
        let m = (a as u64) * (ONE as u64);
        let s = isqrt_u64(m);
        proof {
            assert(s as int * s as int <= m as int);
            assert((m as int) < 0x4000_0000_0000_0000);
            assert((s as int) < 0x8000_0000) by (nonlinear_arith)
                requires
                    s as int >= 0,
                    (s as int) * (s as int) < 0x4000_0000_0000_0000,
            ;
            let c = choose|r: int| #[trigger] is_isqrt(a as int * ONE as int, r);
            assert(is_isqrt(a as int * ONE as int, s as int));
            assert(is_isqrt(a as int * ONE as int, c));
            lemma_isqrt_unique(a as int * ONE as int, c, s as int);
        }
        s as i64
    }
}

/// Multiplying by the scale and dividing back is the identity.
pub proof fn lemma_tdiv_cancel(x: int)
    ensures
        tdiv(x * (ONE as int), ONE as int) == x,
{
    vstd::arithmetic::div_mod::lemma_div_multiples_vanish(x, ONE as int);
    if x >= 0 {
        assert(iabs(x * (ONE as int)) == (ONE as int) * x) by (nonlinear_arith)
            requires
                x >= 0,
                ONE as int > 0,
        ;
    } else {
        assert(iabs(x * (ONE as int)) == (ONE as int) * (-x)) by (nonlinear_arith)
            requires
                x < 0,
                ONE as int > 0,
        ;
        vstd::arithmetic::div_mod::lemma_div_multiples_vanish(-x, ONE as int);
    }
}

} // verus!
