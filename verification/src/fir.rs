//! Frequency-domain FIR filter synthesis: the spectral shift, the
//! low-pass, high-pass and band-pass mask constructions, and the
//! transform-multiply-inverse pipeline assembled over the graph
//! builder.

use vstd::prelude::*;
use vstd::arithmetic::div_mod::{
    lemma_add_mod_noop, lemma_mod_add_multiples_vanish, lemma_mod_bound, lemma_small_mod,
};

use crate::fixed::{in_range, iabs, clip, tdiv, fx_add, fx_sub, fx_mul, ONE, VAL_MAX, tdiv_i64, clip_fx, mul_fx, add_fx, sub_fx};
use crate::graph::{
    Store, WorkflowBuilder, BuildError, store_view, store_wf, graph_wf, node_wf, Kernel, OpNode,
};
use crate::kernels::{buf_in_range, fetch_idx, fetch_ok, fetch_sem, DFT_MAX_LEN};
use crate::complex::ComplexArrayView;

verus! {

/// The spectral-shift rotation amount for `n` bins: half the length,
/// rounded up, so that bin 0 (DC) lands in the center.
pub open spec fn shift_amount(n: int) -> int {
    n / 2 + if n % 2 == 1 {
        1int
    } else {
        0int
    }
}

/// The sequence rotated right by `k` places.
pub open spec fn rotate_right(s: Seq<i64>, k: int) -> Seq<i64> {
    Seq::new(s.len(), |j: int| s[(j + s.len() - k) % (s.len() as int)])
}

/// Rotating right twice by the spectral-shift amount restores the
/// original order when the length is even (or one). For an odd length
/// above one the double rotation by the rounded-up half is a rotation
/// by one bin, not the identity.
pub proof fn lemma_shift_twice_identity(s: Seq<i64>)
    requires
        s.len() % 2 == 0 || s.len() == 1,
    ensures
        rotate_right(rotate_right(s, shift_amount(s.len() as int)), shift_amount(s.len() as int))
            == s,
{
    let n = s.len() as int;
    let k = shift_amount(n);
    let m = n - k;
    let inner = rotate_right(s, k);
    if n > 0 {
        assert forall|j: int| 0 <= j < n implies rotate_right(inner, k)[j] == s[j] by {
            lemma_mod_bound(j + m, n);
            let a = (j + m) % n;
            assert(rotate_right(inner, k)[j] == inner[a]);
            assert(inner[a] == s[(a + m) % n]);
            lemma_small_mod(m as nat, n as nat);
            lemma_add_mod_noop(j + m, m, n);
            assert((a + m % n) % n == (j + m + m) % n);
            if n == 1 {
                lemma_small_mod(0nat, 1nat);
                assert((a + m) % n == j);
            } else {
                assert(m + m == n);
                lemma_mod_add_multiples_vanish(j, n);
                lemma_small_mod(j as nat, n as nat);
                assert((a + m) % n == j);
            }
        }
    }
    assert(rotate_right(rotate_right(s, k), k) =~= s);
}

/// The index-buffer contents that make the gather kernel perform a
/// right rotation by `k`: position `j` holds the fixed-point encoding
/// of source position `(j + n - k) % n`.
pub open spec fn shift_index_seq(n: int, k: int) -> Seq<i64> {
    Seq::new(n as nat, |j: int| (((j + n - k) % n) * (ONE as int)) as i64)
}

/// A buffer of `n` zero samples.
pub open spec fn zero_seq(n: int) -> Seq<i64> {
    Seq::new(n as nat, |i: int| 0i64)
}

/// A gather through the shift index buffer reads exactly the rotated
/// sequence.
pub proof fn lemma_fetch_rotates(src: Seq<i64>, n: int, k: int)
    requires
        src.len() == n,
        0 < n <= 0x10000,
        0 <= k <= n,
    ensures
        fetch_ok(src, shift_index_seq(n, k)),
        fetch_sem(src, shift_index_seq(n, k)) == rotate_right(src, k),
{
    let idx = shift_index_seq(n, k);
    assert forall|j: int| 0 <= j < n implies #[trigger] fetch_idx(idx[j]) == (j + n - k) % n by {
        lemma_mod_bound(j + n - k, n);
        let p = (j + n - k) % n;
        assert(idx[j] == (p * (ONE as int)) as i64);
        assert(0 <= p * (ONE as int) <= 0x10000 * 0x8000) by (nonlinear_arith)
            requires
                0 <= p <= 0x10000,
                ONE as int == 0x8000,
        ;
        assert(idx[j] as int == p * (ONE as int));
        assert(tdiv(p * (ONE as int), ONE as int) == p) by {
            assert(iabs(p * (ONE as int)) == p * (ONE as int));
            vstd::arithmetic::div_mod::lemma_div_multiples_vanish(p, ONE as int);
            assert((p * (ONE as int)) / (ONE as int) == p) by (nonlinear_arith)
                requires
                    ((ONE as int) * p) / (ONE as int) == p,
                    p * (ONE as int) == (ONE as int) * p,
            ;
        }
    }
    assert(fetch_sem(src, idx) =~= rotate_right(src, k));
}

/// Build the shift index buffer for `n` bins and rotation `k`.
fn build_shift_indices(n: usize, k: usize) -> (r: Vec<i64>)
    requires
        0 < n <= 0x10000,
        k <= n,
    ensures
        r@ == shift_index_seq(n as int, k as int),
        buf_in_range(r@),
{
    let mut out: Vec<i64> = Vec::new();
    let mut j: usize = 0;
    while j < n
        invariant
            0 < n <= 0x10000,
            k <= n,
            0 <= j <= n,
            out@.len() == j,
            forall|t: int| 0 <= t < j ==> out@[t] == shift_index_seq(n as int, k as int)[t],
            buf_in_range(out@),
        decreases n - j,
    {
        let p = (j + n - k) % n;
        let v = (p as i64) * ONE;
        proof {
            assert((j + n - k) as int % (n as int) == (j as int + n as int - k as int) % (
            n as int));
            assert(0 <= (p as int) * (ONE as int) <= 0x10000 * 0x8000) by (nonlinear_arith)
                requires
                    0 <= p as int <= 0x10000,
                    ONE as int == 0x8000,
            ;
            assert forall|t: int| 0 <= t < out@.len() + 1 implies in_range(
                #[trigger] out@.push(v)[t] as int,
            ) by {}
        }
        out.push(v);
        j += 1;
    }
    proof {
        assert(out@ =~= shift_index_seq(n as int, k as int));
    }
    out
}

/// The rotation amount used by the shift, as executable code.
pub fn shift_amount_of(n: usize) -> (k: usize)
    ensures
        k as int == shift_amount(n as int),
        k <= n,
{
    let mut k = n / 2;
    if n % 2 == 1 {
        k += 1;
    }
    k
}

/// Append a spectral shift of the complex view to the graph: a fresh
/// index buffer and one scratch buffer are registered, and each
/// component is gathered through the index buffer and copied back.
pub fn fft_shift(builder: &mut WorkflowBuilder, store: &mut Store, samples: &ComplexArrayView) -> (r:
    Result<(), BuildError>)
    requires
        crate::complex::view_wf(*samples, *old(store)),
        0 < samples.len <= 0x10000,
        store_wf(*old(store)),
    ensures
        store_wf(*final(store)),
        final(store).bufs@.len() == old(store).bufs@.len() + 2,
        final(store).consts == old(store).consts,
        forall|j: int|
            0 <= j < old(store).bufs@.len() ==> store_view(*final(store))[j] == store_view(
                *old(store),
            )[j],
        crate::complex::view_wf(*samples, *final(store)),
        r.is_ok(),
        final(builder).nodes@.len() == old(builder).nodes@.len() + 4,
        forall|j: int|
            0 <= j < old(builder).nodes@.len() ==> final(builder).nodes@[j] == old(
                builder,
            ).nodes@[j],
        forall|j: int|
            old(builder).nodes@.len() <= j < final(builder).nodes@.len() ==> node_wf(
                #[trigger] final(builder).nodes@[j],
                store_view(*final(store)),
                final(store).consts@.len() as int,
            ),
        store_view(*final(store))[old(store).bufs@.len() as int] == shift_index_seq(
            samples.len as int,
            shift_amount(samples.len as int),
        ),
        store_view(*final(store))[(old(store).bufs@.len() + 1) as int] == zero_seq(
            samples.len as int,
        ),
        final(builder).nodes@[old(builder).nodes@.len() as int].kind == Kernel::Fetch,
        final(builder).nodes@[old(builder).nodes@.len() as int].bufs@ == seq![
            samples.re,
            old(store).bufs@.len() as usize,
            (old(store).bufs@.len() + 1) as usize,
        ],
        final(builder).nodes@[old(builder).nodes@.len() + 1 as int].kind == Kernel::Copy,
        final(builder).nodes@[old(builder).nodes@.len() + 1 as int].bufs@ == seq![
            (old(store).bufs@.len() + 1) as usize,
            samples.re,
        ],
        final(builder).nodes@[old(builder).nodes@.len() + 2 as int].kind == Kernel::Fetch,
        final(builder).nodes@[old(builder).nodes@.len() + 2 as int].bufs@ == seq![
            samples.im,
            old(store).bufs@.len() as usize,
            (old(store).bufs@.len() + 1) as usize,
        ],
        final(builder).nodes@[old(builder).nodes@.len() + 3 as int].kind == Kernel::Copy,
        final(builder).nodes@[old(builder).nodes@.len() + 3 as int].bufs@ == seq![
            (old(store).bufs@.len() + 1) as usize,
            samples.im,
        ],
{
    let n = samples.len;
    let k = shift_amount_of(n);
    let idx_buf = build_shift_indices(n, k);
    let idx_h = store.register_buffer(idx_buf);
    let mut scratch: Vec<i64> = Vec::new();
    let mut i: usize = 0;
    while i < n
        invariant
            0 <= i <= n,
            scratch@.len() == i,
            buf_in_range(scratch@),
            forall|t: int| 0 <= t < i ==> scratch@[t] == 0i64,
        decreases n - i,
    {
        scratch.push(0);
        i += 1;
    }
    proof {
        assert(scratch@ =~= zero_seq(n as int));
    }
    let scratch_h = store.register_buffer(scratch);
    let r1 = builder.fetch_f32(store, samples.re, idx_h, scratch_h);
    let r2 = builder.copy_f32(store, scratch_h, samples.re);
    let r3 = builder.fetch_f32(store, samples.im, idx_h, scratch_h);
    let r4 = builder.copy_f32(store, scratch_h, samples.im);
    proof {
        assert(r1.is_ok());
        assert(r2.is_ok());
        assert(r3.is_ok());
        assert(r4.is_ok());
    }
    Ok(())
}

/// The frequency increment between adjacent bins: the sample rate
/// divided by the bin count.
pub open spec fn bin_step(r: i64, n: int) -> int {
    tdiv(r as int, n)
}

/// The shifted frequency of bin `i` of `n`: its signed distance from
/// the center bin, scaled by the bin step.
pub open spec fn bin_freq(i: int, n: int, r: i64) -> int {
    (i - n / 2) * bin_step(r, n)
}

/// The low-pass mask value of bin `i`: the full scale up to the
/// cutoff, then a linear roll-off, floored at zero.
pub open spec fn lpf_val(i: int, n: int, r: i64, c: i64, ro: i64, sc: i64) -> i64 {
    let f = bin_freq(i, n, r);
    if f > c as int {
        let v = fx_sub(sc, fx_mul(fx_mul(sc, clip(f - c as int) as i64), ro));
        if v < 0 {
            0i64
        } else {
            v
        }
    } else {
        sc
    }
}

/// The high-pass mask value of bin `i`: zero below the cutoff, then a
/// linear rise capped at the scale ceiling.
pub open spec fn hpf_val(i: int, n: int, r: i64, c: i64, ro: i64, sc: i64) -> i64 {
    let f = bin_freq(i, n, r);
    if f >= c as int {
        let v = fx_add(fx_mul(fx_mul(clip(f - c as int) as i64, ro), sc), sc);
        if v > sc {
            sc
        } else {
            v
        }
    } else {
        0i64
    }
}

/// The band-pass mask value of bin `i`: one inside the band, linear
/// ramps outside it, floored at zero.
pub open spec fn bpf_val(i: int, n: int, r: i64, ro: i64, lo: i64, up: i64) -> i64 {
    let f = bin_freq(i, n, r);
    let v = if f >= lo as int {
        if f <= up as int {
            ONE
        } else {
            fx_sub(ONE, fx_mul(clip(f - up as int) as i64, ro))
        }
    } else {
        fx_add(fx_mul(clip(f - lo as int) as i64, ro), ONE)
    };
    if v < 0 {
        0i64
    } else {
        v
    }
}

/// The shifted frequency of a bin, as executable code.
fn mask_freq(i: usize, n: usize, step: i64) -> (f: i64)
    requires
        0 < n <= DFT_MAX_LEN,
        i < n,
        iabs(step as int) <= VAL_MAX as int,
    ensures
        f as int == (i as int - (n as int) / 2) * (step as int),
        iabs(f as int) <= 0x10_0000 * (VAL_MAX as int),
{
    let half = (n / 2) as i64;
    let d = (i as i64) - half;
    proof {
        assert(iabs(d as int) <= n as int);
        assert(iabs((d as int) * (step as int)) <= 0x10_0000 * (VAL_MAX as int)
            && -0x4000_0000_0000_0000 <= (d as int) * (step as int) <= 0x4000_0000_0000_0000)
            by (nonlinear_arith)
            requires
                iabs(d as int) <= n as int,
                n as int <= 0x10_0000,
                iabs(step as int) <= VAL_MAX as int,
                VAL_MAX as int == 0x8000_0000,
        ;
    }
    d * step
}

/// Build the low-pass filter mask: one value per frequency bin,
/// ordered low to high. The configuration is rejected exactly when
/// the bin count is zero or too large for the transform kernels, or
/// the sample rate is not positive.
pub fn build_lpf_mask(
    n: usize,
    sample_rate: i64,
    cutoff_freq: i64,
    roll_off: i64,
    scale: i64,
) -> (r: Result<Vec<i64>, BuildError>)
    requires
        in_range(sample_rate as int),
        in_range(cutoff_freq as int),
        in_range(roll_off as int),
        in_range(scale as int),
    ensures
        r.is_ok() <==> 0 < n <= DFT_MAX_LEN && sample_rate > 0,
        r matches Ok(m) ==> m@ == Seq::new(
            n as nat,
            |i: int| lpf_val(i, n as int, sample_rate, cutoff_freq, roll_off, scale),
        ) && buf_in_range(m@),
{
    if n == 0 || n > DFT_MAX_LEN || sample_rate <= 0 {
        return Err(BuildError::InvalidParameter);
    }
    let step = tdiv_i64(sample_rate, n as i64);
    let mut out: Vec<i64> = Vec::new();
    let mut i: usize = 0;
    while i < n
        invariant
            0 < n <= DFT_MAX_LEN,
            sample_rate > 0,
            in_range(sample_rate as int),
            in_range(cutoff_freq as int),
            in_range(roll_off as int),
            in_range(scale as int),
            step as int == bin_step(sample_rate, n as int),
            iabs(step as int) <= VAL_MAX as int,
            0 <= i <= n,
            out@.len() == i,
            buf_in_range(out@),
            forall|t: int|
                0 <= t < i ==> out@[t] == lpf_val(
                    t,
                    n as int,
                    sample_rate,
                    cutoff_freq,
                    roll_off,
                    scale,
                ),
        decreases n - i,
    {
        let f = mask_freq(i, n, step);
        let v: i64 = if f > cutoff_freq {
            let d = clip_fx(f - cutoff_freq);
            let m1 = mul_fx(scale, d);
            let m2 = mul_fx(m1, roll_off);
            let v0 = sub_fx(scale, m2);
            if v0 < 0 {
                0
            } else {
                v0
            }
        } else {
            scale
        };
        out.push(v);
        proof {
            assert forall|t: int| 0 <= t < out@.len() implies in_range(
                #[trigger] out@[t] as int,
            ) by {}
        }
        i += 1;
    }
    proof {
        assert(out@ =~= Seq::new(
            n as nat,
            |i: int| lpf_val(i, n as int, sample_rate, cutoff_freq, roll_off, scale),
        ));
    }
    Ok(out)
}

/// Build the high-pass filter mask, rejected as [`build_lpf_mask`] is.
pub fn build_hpf_mask(
    n: usize,
    sample_rate: i64,
    cutoff_freq: i64,
    roll_off: i64,
    scale: i64,
) -> (r: Result<Vec<i64>, BuildError>)
    requires
        in_range(sample_rate as int),
        in_range(cutoff_freq as int),
        in_range(roll_off as int),
        in_range(scale as int),
    ensures
        r.is_ok() <==> 0 < n <= DFT_MAX_LEN && sample_rate > 0,
        r matches Ok(m) ==> m@ == Seq::new(
            n as nat,
            |i: int| hpf_val(i, n as int, sample_rate, cutoff_freq, roll_off, scale),
        ) && buf_in_range(m@),
{
    if n == 0 || n > DFT_MAX_LEN || sample_rate <= 0 {
        return Err(BuildError::InvalidParameter);
    }
    let step = tdiv_i64(sample_rate, n as i64);
    let mut out: Vec<i64> = Vec::new();
    let mut i: usize = 0;
    while i < n
        invariant
            0 < n <= DFT_MAX_LEN,
            sample_rate > 0,
            in_range(sample_rate as int),
            in_range(cutoff_freq as int),
            in_range(roll_off as int),
            in_range(scale as int),
            step as int == bin_step(sample_rate, n as int),
            iabs(step as int) <= VAL_MAX as int,
            0 <= i <= n,
            out@.len() == i,
            buf_in_range(out@),
            forall|t: int|
                0 <= t < i ==> out@[t] == hpf_val(
                    t,
                    n as int,
                    sample_rate,
                    cutoff_freq,
                    roll_off,
                    scale,
                ),
        decreases n - i,
    {
        let f = mask_freq(i, n, step);
        let v: i64 = if f >= cutoff_freq {
            let d = clip_fx(f - cutoff_freq);
            let m1 = mul_fx(d, roll_off);
            let m2 = mul_fx(m1, scale);
            let v0 = add_fx(m2, scale);
            if v0 > scale {
                scale
            } else {
                v0
            }
        } else {
            0
        };
        out.push(v);
        proof {
            assert forall|t: int| 0 <= t < out@.len() implies in_range(
                #[trigger] out@[t] as int,
            ) by {}
        }
        i += 1;
    }
    proof {
        assert(out@ =~= Seq::new(
            n as nat,
            |i: int| hpf_val(i, n as int, sample_rate, cutoff_freq, roll_off, scale),
        ));
    }
    Ok(out)
}

/// Build the band-pass filter mask, rejected as [`build_lpf_mask`] is.
pub fn build_bpf_mask(
    n: usize,
    sample_rate: i64,
    roll_off: i64,
    lower_frequency_limit: i64,
    upper_frequency_limit: i64,
) -> (r: Result<Vec<i64>, BuildError>)
    requires
        in_range(sample_rate as int),
        in_range(roll_off as int),
        in_range(lower_frequency_limit as int),
        in_range(upper_frequency_limit as int),
    ensures
        r.is_ok() <==> 0 < n <= DFT_MAX_LEN && sample_rate > 0,
        r matches Ok(m) ==> m@ == Seq::new(
            n as nat,
            |i: int|
                bpf_val(
                    i,
                    n as int,
                    sample_rate,
                    roll_off,
                    lower_frequency_limit,
                    upper_frequency_limit,
                ),
        ) && buf_in_range(m@),
{
    if n == 0 || n > DFT_MAX_LEN || sample_rate <= 0 {
        return Err(BuildError::InvalidParameter);
    }
    let step = tdiv_i64(sample_rate, n as i64);
    let mut out: Vec<i64> = Vec::new();
    let mut i: usize = 0;
    while i < n
        invariant
            0 < n <= DFT_MAX_LEN,
            sample_rate > 0,
            in_range(sample_rate as int),
            in_range(roll_off as int),
            in_range(lower_frequency_limit as int),
            in_range(upper_frequency_limit as int),
            step as int == bin_step(sample_rate, n as int),
            iabs(step as int) <= VAL_MAX as int,
            0 <= i <= n,
            out@.len() == i,
            buf_in_range(out@),
            forall|t: int|
                0 <= t < i ==> out@[t] == bpf_val(
                    t,
                    n as int,
                    sample_rate,
                    roll_off,
                    lower_frequency_limit,
                    upper_frequency_limit,
                ),
        decreases n - i,
    {
        let f = mask_freq(i, n, step);
        let v0: i64 = if f >= lower_frequency_limit {
            if f <= upper_frequency_limit {
                ONE
            } else {
                let d = clip_fx(f - upper_frequency_limit);
                sub_fx(ONE, mul_fx(d, roll_off))
            }
        } else {
            let d = clip_fx(f - lower_frequency_limit);
            add_fx(mul_fx(d, roll_off), ONE)
        };
        let v: i64 = if v0 < 0 {
            0
        } else {
            v0
        };
        out.push(v);
        proof {
            assert forall|t: int| 0 <= t < out@.len() implies in_range(
                #[trigger] out@[t] as int,
            ) by {}
        }
        i += 1;
    }
    proof {
        assert(out@ =~= Seq::new(
            n as nat,
            |i: int|
                bpf_val(
                    i,
                    n as int,
                    sample_rate,
                    roll_off,
                    lower_frequency_limit,
                    upper_frequency_limit,
                ),
        ));
    }
    Ok(out)
}

/// Truncating division by a positive divisor preserves order on
/// non-negative dividends, and stays non-negative.
proof fn lemma_tdiv_monotone_nonneg(x: int, y: int, d: int)
    requires
        0 <= x <= y,
        0 < d,
    ensures
        0 <= tdiv(x, d) <= tdiv(y, d),
{
    vstd::arithmetic::div_mod::lemma_div_is_ordered(x, y, d);
    assert(x / d >= 0) by (nonlinear_arith)
        requires
            x >= 0,
            d > 0,
    ;
}

/// With a non-negative sample rate, a later bin never has a smaller
/// shifted frequency.
proof fn lemma_bin_freq_monotone(i: int, j: int, n: int, r: i64)
    requires
        0 <= i <= j < n,
        r >= 0,
    ensures
        bin_freq(i, n, r) <= bin_freq(j, n, r),
{
    let s = bin_step(r, n);
    if n > 0 {
        assert(s >= 0) by (nonlinear_arith)
            requires
                s == iabs(r as int) / iabs(n) || s == 0,
                iabs(r as int) >= 0,
                iabs(n) > 0 || s == 0,
        ;
    }
    assert((i - n / 2) * s <= (j - n / 2) * s) by (nonlinear_arith)
        requires
            i <= j,
            s >= 0,
    ;
}

/// No low-pass mask value is negative when the scale is not.
pub proof fn lemma_lpf_mask_nonneg(i: int, n: int, r: i64, c: i64, ro: i64, sc: i64)
    requires
        sc >= 0,
    ensures
        lpf_val(i, n, r, c, ro, sc) >= 0,
{
}

/// Beyond the cutoff, low-pass mask values are monotonically
/// non-increasing as the shifted frequency grows.
pub proof fn lemma_lpf_mask_monotone(i: int, j: int, n: int, r: i64, c: i64, ro: i64, sc: i64)
    requires
        0 <= i <= j < n,
        r >= 0,
        sc >= 0,
        ro >= 0,
        in_range(sc as int),
        in_range(ro as int),
        bin_freq(i, n, r) > c as int,
    ensures
        lpf_val(j, n, r, c, ro, sc) <= lpf_val(i, n, r, c, ro, sc),
{
    lemma_bin_freq_monotone(i, j, n, r);
    let fi = bin_freq(i, n, r);
    let fj = bin_freq(j, n, r);
    let di = clip(fi - c as int);
    let dj = clip(fj - c as int);
    assert(0 < di <= dj);
    let pi = (sc as int) * di;
    let pj = (sc as int) * dj;
    assert(0 <= pi <= pj) by (nonlinear_arith)
        requires
            sc >= 0,
            0 < di <= dj,
            pi == (sc as int) * di,
            pj == (sc as int) * dj,
    ;
    lemma_tdiv_monotone_nonneg(pi, pj, ONE as int);
    let mi = clip(tdiv(pi, ONE as int));
    let mj = clip(tdiv(pj, ONE as int));
    assert(0 <= mi <= mj);
    let qi = mi * (ro as int);
    let qj = mj * (ro as int);
    assert(0 <= qi <= qj) by (nonlinear_arith)
        requires
            ro >= 0,
            0 <= mi <= mj,
            qi == mi * (ro as int),
            qj == mj * (ro as int),
    ;
    lemma_tdiv_monotone_nonneg(qi, qj, ONE as int);
    assert(fx_mul(fx_mul(sc, di as i64), ro) as int <= fx_mul(fx_mul(sc, dj as i64), ro) as int);
}

/// The high-pass mask is exactly zero below the cutoff and exactly
/// the scale at and above it, for a non-negative roll-off and scale;
/// so it never exceeds the scale.
pub proof fn lemma_hpf_mask_values(i: int, n: int, r: i64, c: i64, ro: i64, sc: i64)
    requires
        sc >= 0,
        ro >= 0,
        in_range(sc as int),
        in_range(ro as int),
    ensures
        bin_freq(i, n, r) < c as int ==> hpf_val(i, n, r, c, ro, sc) == 0,
        bin_freq(i, n, r) >= c as int ==> hpf_val(i, n, r, c, ro, sc) == sc,
        0 <= hpf_val(i, n, r, c, ro, sc) <= sc,
{
    let f = bin_freq(i, n, r);
    if f >= c as int {
        let d = clip(f - c as int);
        assert(d >= 0);
        let p = d * (ro as int);
        assert(p >= 0) by (nonlinear_arith)
            requires
                d >= 0,
                ro >= 0,
                p == d * (ro as int),
        ;
        lemma_tdiv_monotone_nonneg(0, p, ONE as int);
        let m1 = clip(tdiv(p, ONE as int));
        assert(m1 >= 0);
        let q = m1 * (sc as int);
        assert(q >= 0) by (nonlinear_arith)
            requires
                m1 >= 0,
                sc >= 0,
                q == m1 * (sc as int),
        ;
        lemma_tdiv_monotone_nonneg(0, q, ONE as int);
        let m2 = clip(tdiv(q, ONE as int));
        assert(m2 >= 0);
        assert(fx_add(fx_mul(fx_mul(clip(f - c as int) as i64, ro), sc), sc) as int >= sc as int);
    }
}

/// Above the cutoff, high-pass mask values are monotonically
/// non-decreasing as the shifted frequency grows.
pub proof fn lemma_hpf_mask_monotone(i: int, j: int, n: int, r: i64, c: i64, ro: i64, sc: i64)
    requires
        0 <= i <= j < n,
        r >= 0,
        sc >= 0,
        ro >= 0,
        in_range(sc as int),
        in_range(ro as int),
        bin_freq(i, n, r) >= c as int,
    ensures
        hpf_val(i, n, r, c, ro, sc) <= hpf_val(j, n, r, c, ro, sc),
{
    lemma_bin_freq_monotone(i, j, n, r);
    lemma_hpf_mask_values(i, n, r, c, ro, sc);
    lemma_hpf_mask_values(j, n, r, c, ro, sc);
}

/// The band-pass mask is exactly one on every bin whose shifted
/// frequency lies within the band, and never negative anywhere.
pub proof fn lemma_bpf_mask_values(i: int, n: int, r: i64, ro: i64, lo: i64, up: i64)
    ensures
        lo as int <= bin_freq(i, n, r) <= up as int ==> bpf_val(i, n, r, ro, lo, up) == ONE,
        bpf_val(i, n, r, ro, lo, up) >= 0,
{
}

/// A node stays well formed when the store grows: its handles still
/// name the same buffers.
pub proof fn lemma_node_wf_grow(n: crate::graph::OpNode, b1: Seq<Seq<i64>>, b2: Seq<Seq<i64>>, nc: int)
    requires
        node_wf(n, b1, nc),
        b1.len() <= b2.len(),
        forall|j: int| 0 <= j < b1.len() ==> b2[j] == b1[j],
    ensures
        node_wf(n, b2, nc),
{
}

/// A whole graph stays well formed when the store grows.
pub proof fn lemma_graph_wf_grow(nodes: Seq<crate::graph::OpNode>, b1: Seq<Seq<i64>>, b2: Seq<
    Seq<i64>,
>, nc: int)
    requires
        graph_wf(nodes, b1, nc),
        b1.len() <= b2.len(),
        forall|j: int| 0 <= j < b1.len() ==> b2[j] == b1[j],
    ensures
        graph_wf(nodes, b2, nc),
{
    assert forall|i: int| 0 <= i < nodes.len() implies node_wf(
        #[trigger] nodes[i],
        b2,
        nc,
    ) by {
        lemma_node_wf_grow(nodes[i], b1, b2, nc);
    }
}

/// The twelve nodes of the frequency-domain filter pipeline, as they
/// stand in `nodes` from index `n0` on, for the samples pair
/// (`sre`, `sim`), the mask buffer `mask`, and the six buffers the
/// assembly registers from handle `b0` on (the scratch pair, then an
/// index and a temporary buffer per spectral shift): the forward
/// transform into the scratch pair, the four-node shift, the mask
/// multiply on both scratch components, the four-node inverse shift,
/// and the inverse transform back into the samples.
pub open spec fn filter_pipeline_appended(
    nodes: Seq<OpNode>,
    n0: int,
    sre: usize,
    sim: usize,
    mask: usize,
    b0: int,
) -> bool {
    let sc_re = b0 as usize;
    let sc_im = (b0 + 1) as usize;
    let idx1 = (b0 + 2) as usize;
    let tmp1 = (b0 + 3) as usize;
    let idx2 = (b0 + 4) as usize;
    let tmp2 = (b0 + 5) as usize;
    &&& nodes[n0].kind == Kernel::Dft && nodes[n0].bufs@ == seq![sre, sim, sc_re, sc_im]
    &&& nodes[n0 + 1].kind == Kernel::Fetch && nodes[n0 + 1].bufs@ == seq![sc_re, idx1, tmp1]
    &&& nodes[n0 + 2].kind == Kernel::Copy && nodes[n0 + 2].bufs@ == seq![tmp1, sc_re]
    &&& nodes[n0 + 3].kind == Kernel::Fetch && nodes[n0 + 3].bufs@ == seq![sc_im, idx1, tmp1]
    &&& nodes[n0 + 4].kind == Kernel::Copy && nodes[n0 + 4].bufs@ == seq![tmp1, sc_im]
    &&& nodes[n0 + 5].kind == Kernel::ElementwiseMultiply && nodes[n0 + 5].bufs@ == seq![
        mask,
        sc_re,
    ]
    &&& nodes[n0 + 6].kind == Kernel::ElementwiseMultiply && nodes[n0 + 6].bufs@ == seq![
        mask,
        sc_im,
    ]
    &&& nodes[n0 + 7].kind == Kernel::Fetch && nodes[n0 + 7].bufs@ == seq![sc_re, idx2, tmp2]
    &&& nodes[n0 + 8].kind == Kernel::Copy && nodes[n0 + 8].bufs@ == seq![tmp2, sc_re]
    &&& nodes[n0 + 9].kind == Kernel::Fetch && nodes[n0 + 9].bufs@ == seq![sc_im, idx2, tmp2]
    &&& nodes[n0 + 10].kind == Kernel::Copy && nodes[n0 + 10].bufs@ == seq![tmp2, sc_im]
    &&& nodes[n0 + 11].kind == Kernel::Idft && nodes[n0 + 11].bufs@ == seq![sc_re, sc_im, sre, sim]
}

/// A tick of a graph holding exactly the filter pipeline performs
/// frequency-domain filtering: the samples become the inverse
/// transform of the unshifted, mask-multiplied, shifted forward
/// transform, the mask is untouched, and no node fails. Stated over
/// [`graph_sem`], the fold `run_tick` is proved to realize.
pub proof fn lemma_filter_pipeline_tick(
    nodes: Seq<OpNode>,
    bufs: Seq<Seq<i64>>,
    consts: Seq<i64>,
    sre: usize,
    sim: usize,
    mask: usize,
    b0: int,
    n: int,
)
    requires
        nodes.len() == 12,
        filter_pipeline_appended(nodes, 0, sre, sim, mask, b0),
        bufs.len() == b0 + 6,
        b0 + 6 <= usize::MAX as int,
        0 <= b0,
        0 < n <= 0x10000,
        (sre as int) < b0,
        (sim as int) < b0,
        (mask as int) < b0,
        sre != sim,
        mask != sre,
        mask != sim,
        bufs[sre as int].len() == n,
        bufs[sim as int].len() == n,
        bufs[mask as int].len() == n,
        bufs[b0].len() == n,
        bufs[b0 + 1].len() == n,
        bufs[b0 + 2] == shift_index_seq(n, shift_amount(n)),
        bufs[b0 + 3].len() == n,
        bufs[b0 + 4] == shift_index_seq(n, shift_amount(n)),
        bufs[b0 + 5].len() == n,
    ensures
        crate::graph::graph_sem(nodes, bufs, consts).1,
        ({
            let k = shift_amount(n);
            let f_re = crate::kernels::dft_re_sem(bufs[sre as int], bufs[sim as int]);
            let f_im = crate::kernels::dft_im_sem(bufs[sre as int], bufs[sim as int]);
            let m_re = crate::kernels::ew_mul_sem(bufs[mask as int], rotate_right(f_re, k));
            let m_im = crate::kernels::ew_mul_sem(bufs[mask as int], rotate_right(f_im, k));
            let u_re = rotate_right(m_re, k);
            let u_im = rotate_right(m_im, k);
            crate::graph::graph_sem(nodes, bufs, consts).0[sre as int]
                == crate::kernels::idft_re_sem(u_re, u_im) && crate::graph::graph_sem(
                nodes,
                bufs,
                consts,
            ).0[sim as int] == crate::kernels::idft_im_sem(u_re, u_im) && crate::graph::graph_sem(
                nodes,
                bufs,
                consts,
            ).0[mask as int] == bufs[mask as int]
        }),
{
    let k = shift_amount(n);
    let idx = shift_index_seq(n, k);
    let f_re = crate::kernels::dft_re_sem(bufs[sre as int], bufs[sim as int]);
    let f_im = crate::kernels::dft_im_sem(bufs[sre as int], bufs[sim as int]);
    let r_re = rotate_right(f_re, k);
    let r_im = rotate_right(f_im, k);
    let m_re = crate::kernels::ew_mul_sem(bufs[mask as int], r_re);
    let m_im = crate::kernels::ew_mul_sem(bufs[mask as int], r_im);
    let u_re = rotate_right(m_re, k);
    let u_im = rotate_right(m_im, k);
    let run = |t: nat| crate::graph::run_upto(nodes, bufs, consts, t);
    assert(0 <= k <= n);
    assert(run(0) == (bufs, true));
    let st1 = bufs.update(b0, f_re).update(b0 + 1, f_im);
    assert(run(1) == (st1, true));
    lemma_fetch_rotates(f_re, n, k);
    lemma_fetch_rotates(f_im, n, k);
    let st2 = st1.update(b0 + 3, r_re);
    assert(st1[b0 + 2] == idx && st1[b0] == f_re);
    assert(run(2) == (st2, true));
    let st3 = st2.update(b0, r_re);
    assert(run(3) == (st3, true));
    let st4 = st3.update(b0 + 3, r_im);
    assert(st3[b0 + 1] == f_im && st3[b0 + 2] == idx);
    assert(run(4) == (st4, true));
    let st5 = st4.update(b0 + 1, r_im);
    assert(run(5) == (st5, true));
    let st6 = st5.update(b0, m_re);
    assert(st5[mask as int] == bufs[mask as int] && st5[b0] == r_re);
    assert(run(6) == (st6, true));
    let st7 = st6.update(b0 + 1, m_im);
    assert(st6[b0 + 1] == r_im);
    assert(run(7) == (st7, true));
    lemma_fetch_rotates(m_re, n, k);
    lemma_fetch_rotates(m_im, n, k);
    let st8 = st7.update(b0 + 5, u_re);
    assert(st7[b0] == m_re && st7[b0 + 4] == idx);
    assert(run(8) == (st8, true));
    let st9 = st8.update(b0, u_re);
    assert(run(9) == (st9, true));
    let st10 = st9.update(b0 + 5, u_im);
    assert(st9[b0 + 1] == m_im && st9[b0 + 4] == idx);
    assert(run(10) == (st10, true));
    let st11 = st10.update(b0 + 1, u_im);
    assert(run(11) == (st11, true));
    let st12 = st11.update(sre as int, crate::kernels::idft_re_sem(u_re, u_im)).update(
        sim as int,
        crate::kernels::idft_im_sem(u_re, u_im),
    );
    assert(st11[b0] == u_re && st11[b0 + 1] == u_im);
    assert(run(12) == (st12, true));
}

/// Append the whole frequency-domain filter pipeline for `samples`
/// and the mask buffer `fir_filter`: forward transform into a fresh
/// scratch pair, spectral shift, pointwise mask multiply on both
/// components, inverse shift, inverse transform back into `samples`.
pub fn fir_filter_dft(
    builder: &mut WorkflowBuilder,
    store: &mut Store,
    samples: &ComplexArrayView,
    fir_filter: usize,
) -> (r: Result<(), BuildError>)
    requires
        crate::complex::view_wf(*samples, *old(store)),
        0 < samples.len <= 0x10000,
        store_wf(*old(store)),
        (fir_filter as int) < old(store).bufs@.len(),
        store_view(*old(store))[fir_filter as int].len() == samples.len,
        fir_filter != samples.re,
        fir_filter != samples.im,
    ensures
        r.is_ok(),
        store_wf(*final(store)),
        final(store).consts == old(store).consts,
        final(store).bufs@.len() == old(store).bufs@.len() + 6,
        forall|j: int|
            0 <= j < old(store).bufs@.len() ==> store_view(*final(store))[j] == store_view(
                *old(store),
            )[j],
        crate::complex::view_wf(*samples, *final(store)),
        final(builder).nodes@.len() == old(builder).nodes@.len() + 12,
        forall|j: int|
            0 <= j < old(builder).nodes@.len() ==> final(builder).nodes@[j] == old(
                builder,
            ).nodes@[j],
        filter_pipeline_appended(
            final(builder).nodes@,
            old(builder).nodes@.len() as int,
            samples.re,
            samples.im,
            fir_filter,
            old(store).bufs@.len() as int,
        ),
        store_view(*final(store))[old(store).bufs@.len() as int] == zero_seq(samples.len as int),
        store_view(*final(store))[(old(store).bufs@.len() + 1) as int] == zero_seq(
            samples.len as int,
        ),
        store_view(*final(store))[(old(store).bufs@.len() + 2) as int] == shift_index_seq(
            samples.len as int,
            shift_amount(samples.len as int),
        ),
        store_view(*final(store))[(old(store).bufs@.len() + 4) as int] == shift_index_seq(
            samples.len as int,
            shift_amount(samples.len as int),
        ),
        graph_wf(
            old(builder).nodes@,
            store_view(*old(store)),
            old(store).consts@.len() as int,
        ) ==> graph_wf(
            final(builder).nodes@,
            store_view(*final(store)),
            final(store).consts@.len() as int,
        ),
{
    let ghost v0 = store_view(*old(store));
    let ghost nodes0 = builder.nodes@.len();
    let n = samples.len;
    let mut zeros: Vec<crate::complex::Cpx> = Vec::new();
    let mut i: usize = 0;
    while i < n
        invariant
            0 <= i <= n,
            zeros@.len() == i,
            crate::complex::cpx_in_range(zeros@),
            forall|t: int| 0 <= t < i ==> (#[trigger] zeros@[t]).re == 0 && zeros@[t].im == 0,
        decreases n - i,
    {
        zeros.push(crate::complex::Cpx { re: 0, im: 0 });
        i += 1;
    }
    let scratch = ComplexArrayView::new(store, &zeros);
    proof {
        assert(store_view(*store)[scratch.re as int] =~= zero_seq(n as int));
        assert(store_view(*store)[scratch.im as int] =~= zero_seq(n as int));
    }
    let r1 = builder.dft_f32(store, samples.re, samples.im, scratch.re, scratch.im);
    let s1 = fft_shift(builder, store, &scratch);
    let r2 = builder.pointwise_multiply_f32(store, fir_filter, scratch.re);
    let r3 = builder.pointwise_multiply_f32(store, fir_filter, scratch.im);
    let s2 = fft_shift(builder, store, &scratch);
    let r4 = builder.idft_f32(store, scratch.re, scratch.im, samples.re, samples.im);
    proof {
        assert(r1.is_ok());
        assert(r2.is_ok());
        assert(r3.is_ok());
        assert(r4.is_ok());
        if graph_wf(old(builder).nodes@, v0, old(store).consts@.len() as int) {
            lemma_graph_wf_grow(
                old(builder).nodes@,
                v0,
                store_view(*store),
                old(store).consts@.len() as int,
            );
            assert forall|j: int| 0 <= j < builder.nodes@.len() implies node_wf(
                #[trigger] builder.nodes@[j],
                store_view(*store),
                store.consts@.len() as int,
            ) by {
                if j >= nodes0 {
                    lemma_node_wf_grow(
                        builder.nodes@[j],
                        store_view(*store),
                        store_view(*store),
                        store.consts@.len() as int,
                    );
                }
            }
        }
    }
    Ok(())
}


/// Apply a low-pass filter to `samples`: build the mask for the
/// view's length, register it, and append the filter pipeline.
pub fn fir_lpf_dft(
    builder: &mut WorkflowBuilder,
    store: &mut Store,
    samples: &ComplexArrayView,
    sample_rate: i64,
    cutoff_freq: i64,
    roll_off: i64,
    scale: i64,
) -> (r: Result<(), BuildError>)
    requires
        crate::complex::view_wf(*samples, *old(store)),
        0 < samples.len <= 0x10000,
        store_wf(*old(store)),
        sample_rate > 0,
        in_range(sample_rate as int),
        in_range(cutoff_freq as int),
        in_range(roll_off as int),
        in_range(scale as int),
    ensures
        r.is_ok(),
        store_wf(*final(store)),
        final(store).consts == old(store).consts,
        final(store).bufs@.len() == old(store).bufs@.len() + 7,
        forall|j: int|
            0 <= j < old(store).bufs@.len() ==> store_view(*final(store))[j] == store_view(
                *old(store),
            )[j],
        crate::complex::view_wf(*samples, *final(store)),
        store_view(*final(store))[old(store).bufs@.len() as int] == Seq::new(
            samples.len as nat,
            |i: int| lpf_val(i, samples.len as int, sample_rate, cutoff_freq, roll_off, scale),
        ),
        final(builder).nodes@.len() == old(builder).nodes@.len() + 12,
        forall|j: int|
            0 <= j < old(builder).nodes@.len() ==> final(builder).nodes@[j] == old(
                builder,
            ).nodes@[j],
        filter_pipeline_appended(
            final(builder).nodes@,
            old(builder).nodes@.len() as int,
            samples.re,
            samples.im,
            old(store).bufs@.len() as usize,
            (old(store).bufs@.len() + 1) as int,
        ),
        store_view(*final(store))[(old(store).bufs@.len() + 1) as int] == zero_seq(
            samples.len as int,
        ),
        store_view(*final(store))[(old(store).bufs@.len() + 2) as int] == zero_seq(
            samples.len as int,
        ),
        store_view(*final(store))[(old(store).bufs@.len() + 3) as int] == shift_index_seq(
            samples.len as int,
            shift_amount(samples.len as int),
        ),
        store_view(*final(store))[(old(store).bufs@.len() + 5) as int] == shift_index_seq(
            samples.len as int,
            shift_amount(samples.len as int),
        ),
        graph_wf(
            old(builder).nodes@,
            store_view(*old(store)),
            old(store).consts@.len() as int,
        ) ==> graph_wf(
            final(builder).nodes@,
            store_view(*final(store)),
            final(store).consts@.len() as int,
        ),
{
    let mask = match build_lpf_mask(samples.len, sample_rate, cutoff_freq, roll_off, scale) {
        Ok(m) => m,
        Err(e) => {
            return Err(e);
        },
    };
    let mask_h = store.register_buffer(mask);
    fir_filter_dft(builder, store, samples, mask_h)
}

/// Apply a high-pass filter to `samples`: build the mask for the
/// view's length, register it, and append the filter pipeline.
pub fn fir_hpf_dft(
    builder: &mut WorkflowBuilder,
    store: &mut Store,
    samples: &ComplexArrayView,
    sample_rate: i64,
    cutoff_freq: i64,
    roll_off: i64,
    scale: i64,
) -> (r: Result<(), BuildError>)
    requires
        crate::complex::view_wf(*samples, *old(store)),
        0 < samples.len <= 0x10000,
        store_wf(*old(store)),
        sample_rate > 0,
        in_range(sample_rate as int),
        in_range(cutoff_freq as int),
        in_range(roll_off as int),
        in_range(scale as int),
    ensures
        r.is_ok(),
        store_wf(*final(store)),
        final(store).consts == old(store).consts,
        final(store).bufs@.len() == old(store).bufs@.len() + 7,
        forall|j: int|
            0 <= j < old(store).bufs@.len() ==> store_view(*final(store))[j] == store_view(
                *old(store),
            )[j],
        crate::complex::view_wf(*samples, *final(store)),
        store_view(*final(store))[old(store).bufs@.len() as int] == Seq::new(
            samples.len as nat,
            |i: int| hpf_val(i, samples.len as int, sample_rate, cutoff_freq, roll_off, scale),
        ),
        final(builder).nodes@.len() == old(builder).nodes@.len() + 12,
        forall|j: int|
            0 <= j < old(builder).nodes@.len() ==> final(builder).nodes@[j] == old(
                builder,
            ).nodes@[j],
        filter_pipeline_appended(
            final(builder).nodes@,
            old(builder).nodes@.len() as int,
            samples.re,
            samples.im,
            old(store).bufs@.len() as usize,
            (old(store).bufs@.len() + 1) as int,
        ),
        store_view(*final(store))[(old(store).bufs@.len() + 1) as int] == zero_seq(
            samples.len as int,
        ),
        store_view(*final(store))[(old(store).bufs@.len() + 2) as int] == zero_seq(
            samples.len as int,
        ),
        store_view(*final(store))[(old(store).bufs@.len() + 3) as int] == shift_index_seq(
            samples.len as int,
            shift_amount(samples.len as int),
        ),
        store_view(*final(store))[(old(store).bufs@.len() + 5) as int] == shift_index_seq(
            samples.len as int,
            shift_amount(samples.len as int),
        ),
        graph_wf(
            old(builder).nodes@,
            store_view(*old(store)),
            old(store).consts@.len() as int,
        ) ==> graph_wf(
            final(builder).nodes@,
            store_view(*final(store)),
            final(store).consts@.len() as int,
        ),
{
    let mask = match build_hpf_mask(samples.len, sample_rate, cutoff_freq, roll_off, scale) {
        Ok(m) => m,
        Err(e) => {
            return Err(e);
        },
    };
    let mask_h = store.register_buffer(mask);
    fir_filter_dft(builder, store, samples, mask_h)
}

/// Apply a band-pass filter to `samples`: build the mask for the
/// view's length, register it, and append the filter pipeline.
pub fn fir_bpf_dft(
    builder: &mut WorkflowBuilder,
    store: &mut Store,
    samples: &ComplexArrayView,
    sample_rate: i64,
    roll_off: i64,
    lower_frequency_limit: i64,
    upper_frequency_limit: i64,
) -> (r: Result<(), BuildError>)
    requires
        crate::complex::view_wf(*samples, *old(store)),
        0 < samples.len <= 0x10000,
        store_wf(*old(store)),
        sample_rate > 0,
        in_range(sample_rate as int),
        in_range(roll_off as int),
        in_range(lower_frequency_limit as int),
        in_range(upper_frequency_limit as int),
    ensures
        r.is_ok(),
        store_wf(*final(store)),
        final(store).consts == old(store).consts,
        final(store).bufs@.len() == old(store).bufs@.len() + 7,
        forall|j: int|
            0 <= j < old(store).bufs@.len() ==> store_view(*final(store))[j] == store_view(
                *old(store),
            )[j],
        crate::complex::view_wf(*samples, *final(store)),
        store_view(*final(store))[old(store).bufs@.len() as int] == Seq::new(
            samples.len as nat,
            |i: int| bpf_val(i, samples.len as int, sample_rate, roll_off, lower_frequency_limit, upper_frequency_limit),
        ),
        final(builder).nodes@.len() == old(builder).nodes@.len() + 12,
        forall|j: int|
            0 <= j < old(builder).nodes@.len() ==> final(builder).nodes@[j] == old(
                builder,
            ).nodes@[j],
        filter_pipeline_appended(
            final(builder).nodes@,
            old(builder).nodes@.len() as int,
            samples.re,
            samples.im,
            old(store).bufs@.len() as usize,
            (old(store).bufs@.len() + 1) as int,
        ),
        store_view(*final(store))[(old(store).bufs@.len() + 1) as int] == zero_seq(
            samples.len as int,
        ),
        store_view(*final(store))[(old(store).bufs@.len() + 2) as int] == zero_seq(
            samples.len as int,
        ),
        store_view(*final(store))[(old(store).bufs@.len() + 3) as int] == shift_index_seq(
            samples.len as int,
            shift_amount(samples.len as int),
        ),
        store_view(*final(store))[(old(store).bufs@.len() + 5) as int] == shift_index_seq(
            samples.len as int,
            shift_amount(samples.len as int),
        ),
        graph_wf(
            old(builder).nodes@,
            store_view(*old(store)),
            old(store).consts@.len() as int,
        ) ==> graph_wf(
            final(builder).nodes@,
            store_view(*final(store)),
            final(store).consts@.len() as int,
        ),
{
    let mask = match build_bpf_mask(samples.len, sample_rate, roll_off, lower_frequency_limit, upper_frequency_limit) {
        Ok(m) => m,
        Err(e) => {
            return Err(e);
        },
    };
    let mask_h = store.register_buffer(mask);
    fir_filter_dft(builder, store, samples, mask_h)
}

} // verus!