//! Window shape generation: raised-cosine tapering coefficient
//! sequences, replicated identically into the real and imaginary
//! components.

use vstd::prelude::*;

use crate::fixed::{
    in_range, iabs, clip, tdiv, trem, fx_mul, fx_sub, fx_cos, sin_unit, angle_norm, cos_fx, mul_fx,
    sub_fx, tdiv_i64, ONE, PI_FX, HALF_PI_FX, TAU_FX,
};
use crate::kernels::DFT_MAX_LEN;
use crate::complex::Cpx;

verus! {

/// The raised-cosine value at position `x` of `n`: the taper
/// coefficient alpha * (1 - cos(2 pi x / n)).
pub open spec fn hann_val(x: int, n: int, alpha: i64) -> i64 {
    fx_mul(alpha, fx_sub(ONE, fx_cos(tdiv(TAU_FX as int * x, n) as i64)))
}

/// The raised-cosine window shape family.
pub struct Hann;

impl Hann {
    /// Generate the length-`fft_size` coefficient sequence for taper
    /// parameter `alpha` (one half for the canonical shape); each
    /// complex sample carries the value in both components.
    pub fn generate_shape(fft_size: usize, alpha: i64) -> (r: Vec<Cpx>)
        requires
            fft_size <= DFT_MAX_LEN,
            in_range(alpha as int),
        ensures
            r@.len() == fft_size,
            forall|x: int|
                0 <= x < fft_size ==> (#[trigger] r@[x]).re == hann_val(x, fft_size as int, alpha)
                    && r@[x].im == hann_val(x, fft_size as int, alpha),
    {
        let mut out: Vec<Cpx> = Vec::new();
        let n = fft_size;
        let mut x: usize = 0;
        while x < n
            invariant
                n <= DFT_MAX_LEN,
                in_range(alpha as int),
                0 <= x <= n,
                out@.len() == x,
                forall|t: int|
                    0 <= t < x ==> (#[trigger] out@[t]).re == hann_val(t, n as int, alpha)
                        && out@[t].im == hann_val(t, n as int, alpha),
            decreases n - x,
        {
            let ang = tdiv_i64(TAU_FX * (x as i64), n as i64);
            let c = cos_fx(ang);
            let v = mul_fx(alpha, sub_fx(ONE, c));
            out.push(Cpx { re: v, im: v });
            x += 1;
        }
        out
    }
}

/// The half-wave approximation is exactly one unit at a quarter turn.
proof fn lemma_sin_unit_quarter()
    ensures
        sin_unit(51472) == 32768,
{
    let num = 16 * 51472 * (102944 - 51472) * (ONE as int);
    let den = 5 * (PI_FX as int) * (PI_FX as int) - 4 * (51472 * (102944 - 51472));
    assert(num == 1389031212449792 && den == 42389868544) by (nonlinear_arith)
        requires
            num == 16 * 51472 * (102944 - 51472) * (ONE as int),
            den == 5 * (PI_FX as int) * (PI_FX as int) - 4 * (51472 * (102944 - 51472)),
            ONE as int == 32768,
            PI_FX as int == 102944,
    ;
    assert(num == den * 32768) by (nonlinear_arith)
        requires
            num == 1389031212449792,
            den == 42389868544,
    ;
    assert(tdiv(num, den) == 32768) by {
        assert(iabs(num) == num && iabs(den) == den);
        vstd::arithmetic::div_mod::lemma_div_multiples_vanish(32768, den);
        assert(num / den == 32768) by (nonlinear_arith)
            requires
                num == den * 32768,
                (den * 32768) / den == 32768,
        ;
    }
}

/// The cosine of a zero angle is exactly one unit.
proof fn lemma_cos_zero()
    ensures
        fx_cos(0i64) as int == ONE as int,
{
    vstd::arithmetic::div_mod::lemma_small_mod(51472nat, 205888nat);
    assert(trem(HALF_PI_FX as int, TAU_FX as int) == 51472);
    assert(angle_norm(0 + HALF_PI_FX as int) == 51472);
    lemma_sin_unit_quarter();
}

/// The cosine of a half turn is exactly minus one unit.
proof fn lemma_cos_pi()
    ensures
        fx_cos(PI_FX) as int == -(ONE as int),
{
    vstd::arithmetic::div_mod::lemma_small_mod(154416nat, 205888nat);
    assert(trem(PI_FX as int + HALF_PI_FX as int, TAU_FX as int) == 154416);
    assert(angle_norm(PI_FX as int + HALF_PI_FX as int) == 154416);
    lemma_sin_unit_quarter();
    assert(sin_unit(154416 - PI_FX as int) == 32768);
}

/// The raised-cosine endpoints: at position zero the taper is exactly
/// zero, and for an even length the midpoint value is exactly twice
/// the taper parameter (clipped to the representable range).
pub proof fn lemma_hann_endpoints(n: int, alpha: i64)
    requires
        2 <= n <= DFT_MAX_LEN as int,
        n % 2 == 0,
        in_range(alpha as int),
    ensures
        hann_val(0, n, alpha) == 0,
        hann_val(n / 2, n, alpha) as int == clip(2 * (alpha as int)),
{
    lemma_cos_zero();
    assert(tdiv(TAU_FX as int * 0, n) == 0);
    assert(fx_sub(ONE, fx_cos(0i64)) == 0i64);
    assert(fx_mul(alpha, 0i64) as int == 0) by {
        assert(tdiv((alpha as int) * 0, ONE as int) == 0);
    }
    lemma_cos_pi();
    assert(TAU_FX as int * (n / 2) == (PI_FX as int) * n) by (nonlinear_arith)
        requires
            n % 2 == 0,
            TAU_FX as int == 2 * (PI_FX as int),
            n == 2 * (n / 2),
    ;
    vstd::arithmetic::div_mod::lemma_div_multiples_vanish(PI_FX as int, n);
    assert(tdiv((PI_FX as int) * n, n) == PI_FX as int) by {
        assert(iabs((PI_FX as int) * n) == (PI_FX as int) * n && iabs(n) == n) by (nonlinear_arith)
            requires
                n >= 2,
                PI_FX as int > 0,
        ;
        assert(((PI_FX as int) * n) / n == PI_FX as int) by (nonlinear_arith)
            requires
                (n * (PI_FX as int)) / n == PI_FX as int,
                (PI_FX as int) * n == n * (PI_FX as int),
        ;
    }
    assert(fx_sub(ONE, fx_cos(PI_FX)) as int == 2 * (ONE as int));
    assert(hann_val(n / 2, n, alpha) == fx_mul(alpha, (2 * (ONE as int)) as i64));
    assert((alpha as int) * (2 * (ONE as int)) == (2 * (alpha as int)) * (ONE as int))
        by (nonlinear_arith);
    crate::fixed::lemma_tdiv_cancel(2 * (alpha as int));
}

} // verus!
