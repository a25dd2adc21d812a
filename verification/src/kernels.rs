//! The kernel catalog: each kernel is a pure function over the operand
//! buffers bound to one operation node, with its effect stated exactly
//! over the fixed-point semantics of [`crate::fixed`].
//!
//! A kernel receives its operands as a [`Data`]: the ordered operand
//! buffers and scalar constants that the runner fetched from the store
//! for one node. Operand lengths are assumed to satisfy the kernel's
//! arity contract, as validated by the graph builder at append time.

use vstd::prelude::*;
use vstd::pervasive::VecAdditionalExecFns;

use crate::fixed::{
    in_range, iabs, clip, tdiv, fx_add, fx_sub, fx_mul, fx_div, fx_rem, fx_sin, fx_cos, fx_sqrt,
    add_fx, sub_fx, mul_fx, div_fx, rem_fx, sin_fx, cos_fx, sqrt_fx, tdiv_i64, ONE, TAU_FX,
    VAL_MAX,
};

verus! {

/// The operand set of one kernel invocation: the buffers and scalar
/// constants fetched from the store for one node, in operand order.
pub struct Data {
    /// The operand buffers, in the order the node lists them.
    pub arrays: Vec<Vec<i64>>,
    /// The operand scalar constants, in the order the node lists them.
    pub consts: Vec<i64>,
}

/// Every element of a buffer is a representable sample value.
pub open spec fn buf_in_range(s: Seq<i64>) -> bool {
    forall|i: int| 0 <= i < s.len() ==> in_range(#[trigger] s[i] as int)
}

/// Elementwise multiply: the second operand accumulates the product.
pub open spec fn ew_mul_sem(a: Seq<i64>, b: Seq<i64>) -> Seq<i64> {
    Seq::new(b.len(), |i: int| fx_mul(b[i], a[i]))
}

/// Elementwise divide: the second operand is divided by the first.
pub open spec fn ew_div_sem(a: Seq<i64>, b: Seq<i64>) -> Seq<i64> {
    Seq::new(b.len(), |i: int| fx_div(b[i], a[i]))
}

/// Elementwise add into the second operand.
pub open spec fn ew_add_sem(a: Seq<i64>, b: Seq<i64>) -> Seq<i64> {
    Seq::new(b.len(), |i: int| fx_add(b[i], a[i]))
}

/// Multiply every element by a scalar.
pub open spec fn scalar_mul_sem(a: Seq<i64>, s: i64) -> Seq<i64> {
    Seq::new(a.len(), |i: int| fx_mul(a[i], s))
}

/// Add a scalar to every element.
pub open spec fn scalar_add_sem(a: Seq<i64>, s: i64) -> Seq<i64> {
    Seq::new(a.len(), |i: int| fx_add(a[i], s))
}

/// Reduce every element modulo a scalar.
pub open spec fn scalar_rem_sem(a: Seq<i64>, s: i64) -> Seq<i64> {
    Seq::new(a.len(), |i: int| fx_rem(a[i], s))
}

/// Map the sine over a buffer.
pub open spec fn map_sin_sem(a: Seq<i64>) -> Seq<i64> {
    Seq::new(a.len(), |i: int| fx_sin(a[i]))
}

/// Map the cosine over a buffer.
pub open spec fn map_cos_sem(a: Seq<i64>) -> Seq<i64> {
    Seq::new(a.len(), |i: int| fx_cos(a[i]))
}

/// Map the square root over a buffer.
pub open spec fn map_sqrt_sem(a: Seq<i64>) -> Seq<i64> {
    Seq::new(a.len(), |i: int| fx_sqrt(a[i]))
}

/// Move one operand buffer out of the operand list, leaving an empty
/// buffer in its place.
pub(crate) fn take_buf(arrays: &mut Vec<Vec<i64>>, i: usize) -> (r: Vec<i64>)
    requires
        i < old(arrays).len(),
    ensures
        r == old(arrays)@[i as int],
        final(arrays)@.len() == old(arrays)@.len(),
        forall|j: int|
            0 <= j < old(arrays)@.len() && j != i ==> final(arrays)@[j] == old(arrays)@[j],
{
    let mut hole: Vec<i64> = Vec::new();
    arrays.set_and_swap(i, &mut hole);
    hole
}

/// Put an operand buffer back at its place in the operand list.
pub(crate) fn put_buf(arrays: &mut Vec<Vec<i64>>, i: usize, v: Vec<i64>)
    requires
        i < old(arrays).len(),
    ensures
        final(arrays)@ == old(arrays)@.update(i as int, v),
{
    arrays.set(i, v);
}

/// Multiply `b` elementwise by `a`, in place.
fn ew_multiply(a: &Vec<i64>, b: &mut Vec<i64>)
    requires
        a@.len() == old(b)@.len(),
        buf_in_range(a@),
        buf_in_range(old(b)@),
    ensures
        final(b)@ == ew_mul_sem(a@, old(b)@),
{
    let n = b.len();
    let mut i: usize = 0;
    while i < n
        invariant
            n == b@.len(),
            b@.len() == a@.len(),
            0 <= i <= n,
            buf_in_range(a@),
            buf_in_range(b@),
            forall|j: int| i <= j < n ==> b@[j] == old(b)@[j],
            forall|j: int| 0 <= j < i ==> b@[j] == fx_mul(old(b)@[j], a@[j]),
        decreases n - i,
    {
        let v = mul_fx(b[i], a[i]);
        b.set(i, v);
        proof {
            assert forall|j: int| 0 <= j < b@.len() implies in_range(#[trigger] b@[j] as int) by {
            }
        }
        i += 1;
    }
    proof {
        assert(b@ =~= ew_mul_sem(a@, old(b)@));
    }
}

/// Divide `b` elementwise by `a`, in place.
fn ew_divide(a: &Vec<i64>, b: &mut Vec<i64>)
    requires
        a@.len() == old(b)@.len(),
        buf_in_range(a@),
        buf_in_range(old(b)@),
    ensures
        final(b)@ == ew_div_sem(a@, old(b)@),
{
    let n = b.len();
    let mut i: usize = 0;
    while i < n
        invariant
            n == b@.len(),
            b@.len() == a@.len(),
            0 <= i <= n,
            buf_in_range(a@),
            buf_in_range(b@),
            forall|j: int| i <= j < n ==> b@[j] == old(b)@[j],
            forall|j: int| 0 <= j < i ==> b@[j] == fx_div(old(b)@[j], a@[j]),
        decreases n - i,
    {
        let v = div_fx(b[i], a[i]);
        b.set(i, v);
        proof {
            assert forall|j: int| 0 <= j < b@.len() implies in_range(#[trigger] b@[j] as int) by {
            }
        }
        i += 1;
    }
    proof {
        assert(b@ =~= ew_div_sem(a@, old(b)@));
    }
}

/// Add `a` elementwise into `b`, in place.
fn ew_accumulate(a: &Vec<i64>, b: &mut Vec<i64>)
    requires
        a@.len() == old(b)@.len(),
        buf_in_range(a@),
        buf_in_range(old(b)@),
    ensures
        final(b)@ == ew_add_sem(a@, old(b)@),
{
    let n = b.len();
    let mut i: usize = 0;
    while i < n
        invariant
            n == b@.len(),
            b@.len() == a@.len(),
            0 <= i <= n,
            buf_in_range(a@),
            buf_in_range(b@),
            forall|j: int| i <= j < n ==> b@[j] == old(b)@[j],
            forall|j: int| 0 <= j < i ==> b@[j] == fx_add(old(b)@[j], a@[j]),
        decreases n - i,
    {
        let v = add_fx(b[i], a[i]);
        b.set(i, v);
        proof {
            assert forall|j: int| 0 <= j < b@.len() implies in_range(#[trigger] b@[j] as int) by {
            }
        }
        i += 1;
    }
    proof {
        assert(b@ =~= ew_add_sem(a@, old(b)@));
    }
}

/// Copy `a` into `b`, elementwise.
fn copy_into(a: &Vec<i64>, b: &mut Vec<i64>)
    requires
        a@.len() == old(b)@.len(),
    ensures
        final(b)@ == a@,
{
    let n = b.len();
    let mut i: usize = 0;
    while i < n
        invariant
            n == b@.len(),
            b@.len() == a@.len(),
            0 <= i <= n,
            forall|j: int| 0 <= j < i ==> b@[j] == a@[j],
        decreases n - i,
    {
        let v = a[i];
        b.set(i, v);
        i += 1;
    }
    proof {
        assert(b@ =~= a@);
    }
}

/// Apply a scalar multiply, add or remainder over `a` in place;
/// `op` selects the operation.
#[derive(Clone, Copy, PartialEq, Eq, Structural)]
enum ScalarOp {
    Mul,
    Add,
    Rem,
}

/// The value one scalar operation produces.
spec fn scalar_op_val(op: ScalarOp, x: i64, s: i64) -> i64 {
    match op {
        ScalarOp::Mul => fx_mul(x, s),
        ScalarOp::Add => fx_add(x, s),
        ScalarOp::Rem => fx_rem(x, s),
    }
}

/// Apply one scalar operation over `a` in place.
fn scalar_apply(a: &mut Vec<i64>, s: i64, op: ScalarOp)
    requires
        buf_in_range(old(a)@),
        in_range(s as int),
    ensures
        final(a)@ == Seq::new(old(a)@.len(), |i: int| scalar_op_val(op, old(a)@[i], s)),
{
    let n = a.len();
    let mut i: usize = 0;
    while i < n
        invariant
            n == a@.len(),
            a@.len() == old(a)@.len(),
            0 <= i <= n,
            in_range(s as int),
            buf_in_range(a@),
            forall|j: int| i <= j < n ==> a@[j] == old(a)@[j],
            forall|j: int| 0 <= j < i ==> a@[j] == scalar_op_val(op, old(a)@[j], s),
        decreases n - i,
    {
        let x = a[i];
        let v = match op {
            ScalarOp::Mul => mul_fx(x, s),
            ScalarOp::Add => add_fx(x, s),
            ScalarOp::Rem => rem_fx(x, s),
        };
        a.set(i, v);
        proof {
            assert forall|j: int| 0 <= j < a@.len() implies in_range(#[trigger] a@[j] as int) by {
            }
        }
        i += 1;
    }
    proof {
        assert(a@ =~= Seq::new(old(a)@.len(), |i: int| scalar_op_val(op, old(a)@[i], s)));
    }
}

/// The trigonometric and root maps over a buffer.
#[derive(Clone, Copy, PartialEq, Eq, Structural)]
enum MapOp {
    Sin,
    Cos,
    Sqrt,
}

/// The value one map operation produces.
spec fn map_op_val(op: MapOp, x: i64) -> i64 {
    match op {
        MapOp::Sin => fx_sin(x),
        MapOp::Cos => fx_cos(x),
        MapOp::Sqrt => fx_sqrt(x),
    }
}

/// Apply one map operation over `a` in place.
fn map_apply(a: &mut Vec<i64>, op: MapOp)
    requires
        buf_in_range(old(a)@),
    ensures
        final(a)@ == Seq::new(old(a)@.len(), |i: int| map_op_val(op, old(a)@[i])),
{
    let n = a.len();
    let mut i: usize = 0;
    while i < n
        invariant
            n == a@.len(),
            a@.len() == old(a)@.len(),
            0 <= i <= n,
            buf_in_range(a@),
            forall|j: int| i <= j < n ==> a@[j] == old(a)@[j],
            forall|j: int| 0 <= j < i ==> a@[j] == map_op_val(op, old(a)@[j]),
        decreases n - i,
    {
        let x = a[i];
        let v = match op {
            MapOp::Sin => sin_fx(x),
            MapOp::Cos => cos_fx(x),
            MapOp::Sqrt => sqrt_fx(x),
        };
        a.set(i, v);
        proof {
            assert forall|j: int| 0 <= j < a@.len() implies in_range(#[trigger] a@[j] as int) by {
            }
        }
        i += 1;
    }
    proof {
        assert(a@ =~= Seq::new(old(a)@.len(), |i: int| map_op_val(op, old(a)@[i])));
    }
}

/// The destination buffer after the first `t` accumulation steps of a
/// full linear convolution, taken in the order the kernel performs
/// them: step `t` touches pair (i, j) with `t == i * b.len() + j`.
pub open spec fn conv_step(a: Seq<i64>, b: Seq<i64>, d: Seq<i64>, t: nat) -> Seq<i64>
    decreases t,
{
    if t == 0 {
        d
    } else {
        let prev = conv_step(a, b, d, (t - 1) as nat);
        let i = (t - 1) as int / b.len() as int;
        let j = (t - 1) as int % b.len() as int;
        prev.update(i + j, fx_add(prev[i + j], fx_mul(a[i], b[j])))
    }
}

/// The destination buffer after a full linear convolution of `a` and
/// `b` accumulated into `d`.
pub open spec fn conv_sem(a: Seq<i64>, b: Seq<i64>, d: Seq<i64>) -> Seq<i64> {
    conv_step(a, b, d, (a.len() * b.len()) as nat)
}

/// The convolution steps preserve length and range.
pub(crate) proof fn lemma_conv_step_shape(a: Seq<i64>, b: Seq<i64>, d: Seq<i64>, t: nat)
    requires
        a.len() >= 1,
        b.len() >= 1,
        d.len() == a.len() + b.len() - 1,
        t <= a.len() * b.len(),
        buf_in_range(a),
        buf_in_range(b),
        buf_in_range(d),
    ensures
        conv_step(a, b, d, t).len() == d.len(),
        buf_in_range(conv_step(a, b, d, t)),
    decreases t,
{
    if t > 0 {
        lemma_conv_step_shape(a, b, d, (t - 1) as nat);
        let i = (t - 1) as int / b.len() as int;
        let j = (t - 1) as int % b.len() as int;
        assert(0 <= j < b.len() && 0 <= i && i * b.len() <= (t - 1) as int) by (nonlinear_arith)
            requires
                b.len() >= 1,
                i == (t - 1) as int / b.len() as int,
                j == (t - 1) as int % b.len() as int,
                t >= 1,
        ;
        assert(i < a.len()) by (nonlinear_arith)
            requires
                i * b.len() <= (t - 1) as int,
                (t as int) <= a.len() * b.len(),
                b.len() >= 1,
                i >= 0,
        ;
        let prev = conv_step(a, b, d, (t - 1) as nat);
        assert forall|x: int| 0 <= x < conv_step(a, b, d, t).len() implies in_range(
            #[trigger] conv_step(a, b, d, t)[x] as int,
        ) by {
        }
    }
}

/// Accumulate the full linear convolution of `a` and `b` into `d`.
fn convolve(a: &Vec<i64>, b: &Vec<i64>, d: &mut Vec<i64>)
    requires
        a@.len() >= 1,
        b@.len() >= 1,
        old(d)@.len() == a@.len() + b@.len() - 1,
        buf_in_range(a@),
        buf_in_range(b@),
        buf_in_range(old(d)@),
    ensures
        final(d)@ == conv_sem(a@, b@, old(d)@),
{
    let m = a.len();
    let k = b.len();
    let dn = d.len();
    let mut i: usize = 0;
    while i < m
        invariant
            m == a@.len(),
            k == b@.len(),
            m >= 1,
            k >= 1,
            d@.len() == m + k - 1,
            0 <= i <= m,
            buf_in_range(a@),
            buf_in_range(b@),
            buf_in_range(old(d)@),
            old(d)@.len() == m + k - 1,
            dn == d@.len(),
            d@ == conv_step(a@, b@, old(d)@, (i * k) as nat),
        decreases m - i,
    {
        let mut j: usize = 0;
        proof {
            assert(i * k + 0 == i * k);
            assert(i * k <= m * k && (i + 1) * k == i * k + k) by (nonlinear_arith)
                requires
                    0 <= i < m,
                    k >= 1,
            ;
        }
        while j < k
            invariant
                m == a@.len(),
                k == b@.len(),
                m >= 1,
                k >= 1,
                d@.len() == m + k - 1,
                0 <= i < m,
                0 <= j <= k,
                buf_in_range(a@),
                buf_in_range(b@),
                buf_in_range(old(d)@),
                old(d)@.len() == m + k - 1,
                dn == d@.len(),
                d@ == conv_step(a@, b@, old(d)@, (i * k + j) as nat),
            decreases k - j,
        {
            proof {
                vstd::arithmetic::div_mod::lemma_fundamental_div_mod_converse(
                    (i * k + j) as int,
                    k as int,
                    i as int,
                    j as int,
                );
                assert(((i * k + j) as int) < (m as int) * (k as int)) by (nonlinear_arith)
                    requires
                        (i as int) < (m as int),
                        0 <= i as int,
                        0 <= (j as int) < (k as int),
                ;
                lemma_conv_step_shape(a@, b@, old(d)@, (i * k + j) as nat);
            }
            let v = add_fx(d[i + j], mul_fx(a[i], b[j]));
            d.set(i + j, v);
            proof {
                let t1 = (i * k + j + 1) as nat;
                assert(conv_step(a@, b@, old(d)@, t1) == conv_step(a@, b@, old(d)@, (t1
                    - 1) as nat).update(
                    i + j,
                    fx_add(
                        conv_step(a@, b@, old(d)@, (t1 - 1) as nat)[i + j],
                        fx_mul(a@[i as int], b@[j as int]),
                    ),
                ));
                assert(d@ =~= conv_step(a@, b@, old(d)@, t1));
            }
            j += 1;
        }
        i += 1;
    }
}

/// The source position a stored index value selects: the value
/// truncated to an integer, with negative values reading position zero
/// (the saturation of an unsigned conversion).
pub open spec fn fetch_idx(v: i64) -> int {
    let q = tdiv(v as int, ONE as int);
    if q < 0 {
        0
    } else {
        q
    }
}

/// Every index value selects a position inside the source buffer.
pub open spec fn fetch_ok(src: Seq<i64>, idx: Seq<i64>) -> bool {
    forall|i: int| 0 <= i < idx.len() ==> #[trigger] fetch_idx(idx[i]) < src.len()
}

/// The gathered buffer: element `i` is the source element the `i`-th
/// index value selects.
pub open spec fn fetch_sem(src: Seq<i64>, idx: Seq<i64>) -> Seq<i64> {
    Seq::new(idx.len(), |i: int| src[fetch_idx(idx[i])])
}

/// A kernel's runtime failure: a gather index outside its source.
#[derive(Clone, Copy, Debug, PartialEq, Eq, Structural)]
pub enum KernelError {
    /// An index value selected a position at or past the source length.
    IndexOutOfBounds,
}

/// Gather `src` elements selected by `idx` into `dest`. Fails, leaving
/// `dest` untouched, when any index value falls outside the source.
fn gather(src: &Vec<i64>, idx: &Vec<i64>, dest: &mut Vec<i64>) -> (r: Result<(), KernelError>)
    requires
        old(dest)@.len() == idx@.len(),
        src@.len() < 0x7fff_ffff_ffff_ffff,
        buf_in_range(idx@),
    ensures
        r.is_ok() <==> fetch_ok(src@, idx@),
        r.is_ok() ==> final(dest)@ == fetch_sem(src@, idx@),
        r.is_err() ==> final(dest)@ == old(dest)@,
{
    let n = idx.len();
    let mut i: usize = 0;
    while i < n
        invariant
            n == idx@.len(),
            0 <= i <= n,
            src@.len() < 0x7fff_ffff_ffff_ffff,
            buf_in_range(idx@),
            forall|j: int| 0 <= j < i ==> #[trigger] fetch_idx(idx@[j]) < src@.len(),
        decreases n - i,
    {
        let q = tdiv_i64(idx[i], ONE);
        let q2: i64 = if q < 0 {
            0
        } else {
            q
        };
        if q2 >= src.len() as i64 {
            proof {
                assert(q2 as int == fetch_idx(idx@[i as int]));
                assert(fetch_idx(idx@[i as int]) >= src@.len());
            }
            return Err(KernelError::IndexOutOfBounds);
        }
        i += 1;
    }
    let mut i: usize = 0;
    while i < n
        invariant
            n == idx@.len(),
            dest@.len() == n,
            0 <= i <= n,
            src@.len() < 0x7fff_ffff_ffff_ffff,
            buf_in_range(idx@),
            fetch_ok(src@, idx@),
            forall|j: int| 0 <= j < i ==> dest@[j] == fetch_sem(src@, idx@)[j],
        decreases n - i,
    {
        let q = tdiv_i64(idx[i], ONE);
        let q2: i64 = if q < 0 {
            0
        } else {
            q
        };
        proof {
            assert(q2 as int == fetch_idx(idx@[i as int]));
            assert(fetch_idx(idx@[i as int]) < src@.len());
        }
        let v = src[q2 as usize];
        dest.set(i, v);
        i += 1;
    }
    proof {
        assert(dest@ =~= fetch_sem(src@, idx@));
    }
    Ok(())
}

/// The angle used for transform term (k, n) over `len` bins: the full
/// turn scaled by `k * n / len`, reduced first so the fixed-point
/// angle stays exact, and signed (`-1` forward, `+1` inverse).
pub open spec fn dft_angle(k: int, n: int, len: int, sign: int) -> int {
    sign * tdiv(TAU_FX as int * ((k * n) % len), len)
}

/// The real accumulator of transform bin `k` after the first `n`
/// source terms.
pub open spec fn dft_acc_re(is: Seq<i64>, qs: Seq<i64>, k: int, sign: int, n: nat) -> i64
    decreases n,
{
    if n == 0 {
        0i64
    } else {
        let p = (n - 1) as int;
        let ang = dft_angle(k, p, is.len() as int, sign) as i64;
        fx_add(
            dft_acc_re(is, qs, k, sign, (n - 1) as nat),
            fx_sub(fx_mul(is[p], fx_cos(ang)), fx_mul(qs[p], fx_sin(ang))),
        )
    }
}

/// The imaginary accumulator of transform bin `k` after the first `n`
/// source terms.
pub open spec fn dft_acc_im(is: Seq<i64>, qs: Seq<i64>, k: int, sign: int, n: nat) -> i64
    decreases n,
{
    if n == 0 {
        0i64
    } else {
        let p = (n - 1) as int;
        let ang = dft_angle(k, p, is.len() as int, sign) as i64;
        fx_add(
            dft_acc_im(is, qs, k, sign, (n - 1) as nat),
            fx_add(fx_mul(is[p], fx_sin(ang)), fx_mul(qs[p], fx_cos(ang))),
        )
    }
}

/// The real output of the forward transform.
pub open spec fn dft_re_sem(is: Seq<i64>, qs: Seq<i64>) -> Seq<i64> {
    Seq::new(is.len(), |k: int| dft_acc_re(is, qs, k, -1, is.len() as nat))
}

/// The imaginary output of the forward transform.
pub open spec fn dft_im_sem(is: Seq<i64>, qs: Seq<i64>) -> Seq<i64> {
    Seq::new(is.len(), |k: int| dft_acc_im(is, qs, k, -1, is.len() as nat))
}

/// The real output of the inverse transform: the positive-angle
/// accumulation divided by the length.
pub open spec fn idft_re_sem(is: Seq<i64>, qs: Seq<i64>) -> Seq<i64> {
    Seq::new(
        is.len(),
        |k: int| tdiv(dft_acc_re(is, qs, k, 1, is.len() as nat) as int, is.len() as int) as i64,
    )
}

/// The imaginary output of the inverse transform.
pub open spec fn idft_im_sem(is: Seq<i64>, qs: Seq<i64>) -> Seq<i64> {
    Seq::new(
        is.len(),
        |k: int| tdiv(dft_acc_im(is, qs, k, 1, is.len() as nat) as int, is.len() as int) as i64,
    )
}

/// Largest buffer length the transform kernels accept; the direct
/// transform is quadratic, so longer inputs are outside its use.
pub const DFT_MAX_LEN: usize = 0x10_0000;

/// Accumulate one transform bin.
fn dft_bin(is: &Vec<i64>, qs: &Vec<i64>, k: usize, sign: i64) -> (r: (i64, i64))
    requires
        is@.len() == qs@.len(),
        k < is@.len(),
        is@.len() <= DFT_MAX_LEN,
        buf_in_range(is@),
        buf_in_range(qs@),
        sign == 1i64 || sign == -1i64,
    ensures
        r.0 == dft_acc_re(is@, qs@, k as int, sign as int, is@.len() as nat),
        r.1 == dft_acc_im(is@, qs@, k as int, sign as int, is@.len() as nat),
        in_range(r.0 as int),
        in_range(r.1 as int),
{
    let len = is.len();
    let mut acc_re: i64 = 0;
    let mut acc_im: i64 = 0;
    let mut n: usize = 0;
    while n < len
        invariant
            len == is@.len(),
            is@.len() == qs@.len(),
            k < len,
            len <= DFT_MAX_LEN,
            0 <= n <= len,
            buf_in_range(is@),
            buf_in_range(qs@),
            sign == 1i64 || sign == -1i64,
            acc_re == dft_acc_re(is@, qs@, k as int, sign as int, n as nat),
            acc_im == dft_acc_im(is@, qs@, k as int, sign as int, n as nat),
            in_range(acc_re as int),
            in_range(acc_im as int),
        decreases len - n,
    {
        proof {
            assert((k as u64) * (n as u64) == (k as int) * (n as int) && (k as int) * (n as int)
                <= 0x100_0000_0000) by (nonlinear_arith)
                requires
                    0 <= k as int <= 0x10_0000,
                    0 <= n as int <= 0x10_0000,
                    k as u64 == k as int,
                    n as u64 == n as int,
            ;
        }
        let m = ((k as u64) * (n as u64)) % (len as u64);
        let ang_mag = tdiv_i64(TAU_FX * (m as i64), len as i64);
        let ang = sign * ang_mag;
        proof {
            assert(m as int == ((k as int) * (n as int)) % (len as int));
            assert(ang as int == dft_angle(k as int, n as int, len as int, sign as int));
        }
        let c = cos_fx(ang);
        let s = sin_fx(ang);
        let t_re = sub_fx(mul_fx(is[n], c), mul_fx(qs[n], s));
        let t_im = add_fx(mul_fx(is[n], s), mul_fx(qs[n], c));
        acc_re = add_fx(acc_re, t_re);
        acc_im = add_fx(acc_im, t_im);
        n += 1;
    }
    (acc_re, acc_im)
}

/// The forward transform: each destination bin is the signed-angle
/// accumulation over all source samples.
fn dft_transform(is: &Vec<i64>, qs: &Vec<i64>, id: &mut Vec<i64>, qd: &mut Vec<i64>)
    requires
        is@.len() == qs@.len(),
        old(id)@.len() == is@.len(),
        old(qd)@.len() == is@.len(),
        is@.len() <= DFT_MAX_LEN,
        buf_in_range(is@),
        buf_in_range(qs@),
    ensures
        final(id)@ == dft_re_sem(is@, qs@),
        final(qd)@ == dft_im_sem(is@, qs@),
{
    let len = is.len();
    let mut k: usize = 0;
    while k < len
        invariant
            len == is@.len(),
            is@.len() == qs@.len(),
            id@.len() == len,
            qd@.len() == len,
            len <= DFT_MAX_LEN,
            0 <= k <= len,
            buf_in_range(is@),
            buf_in_range(qs@),
            forall|j: int| 0 <= j < k ==> id@[j] == dft_re_sem(is@, qs@)[j],
            forall|j: int| 0 <= j < k ==> qd@[j] == dft_im_sem(is@, qs@)[j],
        decreases len - k,
    {
        let bin = dft_bin(is, qs, k, -1);
        id.set(k, bin.0);
        qd.set(k, bin.1);
        k += 1;
    }
    proof {
        assert(id@ =~= dft_re_sem(is@, qs@));
        assert(qd@ =~= dft_im_sem(is@, qs@));
    }
}

/// The inverse transform: the positive-angle accumulation, divided by
/// the length.
fn idft_transform(is: &Vec<i64>, qs: &Vec<i64>, id: &mut Vec<i64>, qd: &mut Vec<i64>)
    requires
        is@.len() == qs@.len(),
        old(id)@.len() == is@.len(),
        old(qd)@.len() == is@.len(),
        is@.len() <= DFT_MAX_LEN,
        buf_in_range(is@),
        buf_in_range(qs@),
    ensures
        final(id)@ == idft_re_sem(is@, qs@),
        final(qd)@ == idft_im_sem(is@, qs@),
{
    let len = is.len();
    let mut k: usize = 0;
    while k < len
        invariant
            len == is@.len(),
            is@.len() == qs@.len(),
            id@.len() == len,
            qd@.len() == len,
            len <= DFT_MAX_LEN,
            0 <= k <= len,
            buf_in_range(is@),
            buf_in_range(qs@),
            forall|j: int| 0 <= j < k ==> id@[j] == idft_re_sem(is@, qs@)[j],
            forall|j: int| 0 <= j < k ==> qd@[j] == idft_im_sem(is@, qs@)[j],
        decreases len - k,
    {
        let bin = dft_bin(is, qs, k, 1);
        let re = tdiv_i64(bin.0, len as i64);
        let im = tdiv_i64(bin.1, len as i64);
        id.set(k, re);
        qd.set(k, im);
        k += 1;
    }
    proof {
        assert(id@ =~= idft_re_sem(is@, qs@));
        assert(qd@ =~= idft_im_sem(is@, qs@));
    }
}

/// The view of operand buffer `i` of a [`Data`].
pub open spec fn arr_view(d: Data, i: int) -> Seq<i64> {
    d.arrays@[i]@
}

/// The operand buffers other than `w` are untouched, and the scalar
/// constants too.
pub open spec fn writes_only(pre: Data, post: Data, w: int) -> bool {
    &&& post.arrays@.len() == pre.arrays@.len()
    &&& forall|j: int|
        0 <= j < pre.arrays@.len() && j != w ==> post.arrays@[j] == pre.arrays@[j]
    &&& post.consts == pre.consts
}

/// Elementwise multiply kernel: operand 1 accumulates the product with
/// operand 0.
pub struct ElementwiseMultiplyF32;

impl ElementwiseMultiplyF32 {
    /// Run the kernel over its fetched operands.
    pub fn run(&mut self, data: &mut Data)
        requires
            old(data).arrays@.len() >= 2,
            arr_view(*old(data), 0).len() == arr_view(*old(data), 1).len(),
            buf_in_range(arr_view(*old(data), 0)),
            buf_in_range(arr_view(*old(data), 1)),
        ensures
            arr_view(*final(data), 1) == ew_mul_sem(
                arr_view(*old(data), 0),
                arr_view(*old(data), 1),
            ),
            writes_only(*old(data), *final(data), 1),
    {
        let a = take_buf(&mut data.arrays, 0);
        let mut b = take_buf(&mut data.arrays, 1);
        ew_multiply(&a, &mut b);
        put_buf(&mut data.arrays, 0, a);
        put_buf(&mut data.arrays, 1, b);
    }
}

/// Elementwise divide kernel: operand 1 is divided by operand 0.
pub struct ElementwiseDivideF32;

impl ElementwiseDivideF32 {
    /// Run the kernel over its fetched operands.
    pub fn run(&mut self, data: &mut Data)
        requires
            old(data).arrays@.len() >= 2,
            arr_view(*old(data), 0).len() == arr_view(*old(data), 1).len(),
            buf_in_range(arr_view(*old(data), 0)),
            buf_in_range(arr_view(*old(data), 1)),
        ensures
            arr_view(*final(data), 1) == ew_div_sem(
                arr_view(*old(data), 0),
                arr_view(*old(data), 1),
            ),
            writes_only(*old(data), *final(data), 1),
    {
        let a = take_buf(&mut data.arrays, 0);
        let mut b = take_buf(&mut data.arrays, 1);
        ew_divide(&a, &mut b);
        put_buf(&mut data.arrays, 0, a);
        put_buf(&mut data.arrays, 1, b);
    }
}

/// Elementwise add kernel: operand 1 accumulates operand 0.
pub struct AddF32;

impl AddF32 {
    /// Run the kernel over its fetched operands.
    pub fn run(&mut self, data: &mut Data)
        requires
            old(data).arrays@.len() >= 2,
            arr_view(*old(data), 0).len() == arr_view(*old(data), 1).len(),
            buf_in_range(arr_view(*old(data), 0)),
            buf_in_range(arr_view(*old(data), 1)),
        ensures
            arr_view(*final(data), 1) == ew_add_sem(
                arr_view(*old(data), 0),
                arr_view(*old(data), 1),
            ),
            writes_only(*old(data), *final(data), 1),
    {
        let a = take_buf(&mut data.arrays, 0);
        let mut b = take_buf(&mut data.arrays, 1);
        ew_accumulate(&a, &mut b);
        put_buf(&mut data.arrays, 0, a);
        put_buf(&mut data.arrays, 1, b);
    }
}

/// Copy kernel: operand 1 becomes a copy of operand 0.
pub struct CopyF32;

impl CopyF32 {
    /// Run the kernel over its fetched operands.
    pub fn run(&mut self, data: &mut Data)
        requires
            old(data).arrays@.len() >= 2,
            arr_view(*old(data), 0).len() == arr_view(*old(data), 1).len(),
        ensures
            arr_view(*final(data), 1) == arr_view(*old(data), 0),
            writes_only(*old(data), *final(data), 1),
    {
        let a = take_buf(&mut data.arrays, 0);
        let mut b = take_buf(&mut data.arrays, 1);
        copy_into(&a, &mut b);
        put_buf(&mut data.arrays, 0, a);
        put_buf(&mut data.arrays, 1, b);
    }
}

/// Scalar multiply kernel: operand 0 is scaled by constant 0.
pub struct ScalarMultiplyF32;

impl ScalarMultiplyF32 {
    /// Run the kernel over its fetched operands.
    pub fn run(&mut self, data: &mut Data)
        requires
            old(data).arrays@.len() >= 1,
            old(data).consts@.len() >= 1,
            buf_in_range(arr_view(*old(data), 0)),
            in_range(old(data).consts@[0] as int),
        ensures
            arr_view(*final(data), 0) == scalar_mul_sem(
                arr_view(*old(data), 0),
                old(data).consts@[0],
            ),
            writes_only(*old(data), *final(data), 0),
    {
        let s = data.consts[0];
        let mut a = take_buf(&mut data.arrays, 0);
        scalar_apply(&mut a, s, ScalarOp::Mul);
        put_buf(&mut data.arrays, 0, a);
        proof {
            assert(arr_view(*data, 0) =~= scalar_mul_sem(
                arr_view(*old(data), 0),
                old(data).consts@[0],
            ));
        }
    }
}

/// Scalar add kernel: constant 0 is added to every element of
/// operand 0.
pub struct ScalarAddF32;

impl ScalarAddF32 {
    /// Run the kernel over its fetched operands.
    pub fn run(&mut self, data: &mut Data)
        requires
            old(data).arrays@.len() >= 1,
            old(data).consts@.len() >= 1,
            buf_in_range(arr_view(*old(data), 0)),
            in_range(old(data).consts@[0] as int),
        ensures
            arr_view(*final(data), 0) == scalar_add_sem(
                arr_view(*old(data), 0),
                old(data).consts@[0],
            ),
            writes_only(*old(data), *final(data), 0),
    {
        let s = data.consts[0];
        let mut a = take_buf(&mut data.arrays, 0);
        scalar_apply(&mut a, s, ScalarOp::Add);
        put_buf(&mut data.arrays, 0, a);
        proof {
            assert(arr_view(*data, 0) =~= scalar_add_sem(
                arr_view(*old(data), 0),
                old(data).consts@[0],
            ));
        }
    }
}

/// Modulo kernel: every element of operand 0 is reduced modulo
/// constant 0.
pub struct ModF32;

impl ModF32 {
    /// Run the kernel over its fetched operands.
    pub fn run(&mut self, data: &mut Data)
        requires
            old(data).arrays@.len() >= 1,
            old(data).consts@.len() >= 1,
            buf_in_range(arr_view(*old(data), 0)),
            in_range(old(data).consts@[0] as int),
        ensures
            arr_view(*final(data), 0) == scalar_rem_sem(
                arr_view(*old(data), 0),
                old(data).consts@[0],
            ),
            writes_only(*old(data), *final(data), 0),
    {
        let s = data.consts[0];
        let mut a = take_buf(&mut data.arrays, 0);
        scalar_apply(&mut a, s, ScalarOp::Rem);
        put_buf(&mut data.arrays, 0, a);
        proof {
            assert(arr_view(*data, 0) =~= scalar_rem_sem(
                arr_view(*old(data), 0),
                old(data).consts@[0],
            ));
        }
    }
}

/// Sine kernel: operand 0 is mapped through the sine in place.
pub struct SinF32;

impl SinF32 {
    /// Run the kernel over its fetched operands.
    pub fn run(&mut self, data: &mut Data)
        requires
            old(data).arrays@.len() >= 1,
            buf_in_range(arr_view(*old(data), 0)),
        ensures
            arr_view(*final(data), 0) == map_sin_sem(arr_view(*old(data), 0)),
            writes_only(*old(data), *final(data), 0),
    {
        let mut a = take_buf(&mut data.arrays, 0);
        map_apply(&mut a, MapOp::Sin);
        put_buf(&mut data.arrays, 0, a);
        proof {
            assert(arr_view(*data, 0) =~= map_sin_sem(arr_view(*old(data), 0)));
        }
    }
}

/// Cosine kernel: operand 0 is mapped through the cosine in place.
pub struct CosF32;

impl CosF32 {
    /// Run the kernel over its fetched operands.
    pub fn run(&mut self, data: &mut Data)
        requires
            old(data).arrays@.len() >= 1,
            buf_in_range(arr_view(*old(data), 0)),
        ensures
            arr_view(*final(data), 0) == map_cos_sem(arr_view(*old(data), 0)),
            writes_only(*old(data), *final(data), 0),
    {
        let mut a = take_buf(&mut data.arrays, 0);
        map_apply(&mut a, MapOp::Cos);
        put_buf(&mut data.arrays, 0, a);
        proof {
            assert(arr_view(*data, 0) =~= map_cos_sem(arr_view(*old(data), 0)));
        }
    }
}

/// Square-root kernel: operand 0 is mapped through the square root in
/// place.
pub struct SqrtF32;

impl SqrtF32 {
    /// Run the kernel over its fetched operands.
    pub fn run(&mut self, data: &mut Data)
        requires
            old(data).arrays@.len() >= 1,
            buf_in_range(arr_view(*old(data), 0)),
        ensures
            arr_view(*final(data), 0) == map_sqrt_sem(arr_view(*old(data), 0)),
            writes_only(*old(data), *final(data), 0),
    {
        let mut a = take_buf(&mut data.arrays, 0);
        map_apply(&mut a, MapOp::Sqrt);
        put_buf(&mut data.arrays, 0, a);
        proof {
            assert(arr_view(*data, 0) =~= map_sqrt_sem(arr_view(*old(data), 0)));
        }
    }
}

/// Convolution kernel: the full linear convolution of operands 0 and 1
/// is accumulated into operand 2.
pub struct ConvolutionF32;

impl ConvolutionF32 {
    /// Run the kernel over its fetched operands.
    pub fn run(&mut self, data: &mut Data)
        requires
            old(data).arrays@.len() >= 3,
            arr_view(*old(data), 0).len() >= 1,
            arr_view(*old(data), 1).len() >= 1,
            arr_view(*old(data), 2).len() == arr_view(*old(data), 0).len() + arr_view(
                *old(data),
                1,
            ).len() - 1,
            buf_in_range(arr_view(*old(data), 0)),
            buf_in_range(arr_view(*old(data), 1)),
            buf_in_range(arr_view(*old(data), 2)),
        ensures
            arr_view(*final(data), 2) == conv_sem(
                arr_view(*old(data), 0),
                arr_view(*old(data), 1),
                arr_view(*old(data), 2),
            ),
            writes_only(*old(data), *final(data), 2),
    {
        let a = take_buf(&mut data.arrays, 0);
        let b = take_buf(&mut data.arrays, 1);
        let mut d = take_buf(&mut data.arrays, 2);
        convolve(&a, &b, &mut d);
        put_buf(&mut data.arrays, 0, a);
        put_buf(&mut data.arrays, 1, b);
        put_buf(&mut data.arrays, 2, d);
    }
}

/// Gather kernel: operand 2 receives the elements of operand 0
/// selected by the index values in operand 1. A selection outside the
/// source fails the whole node, leaving every operand untouched.
pub struct FetchF32;

impl FetchF32 {
    /// Run the kernel over its fetched operands.
    pub fn run(&mut self, data: &mut Data) -> (r: Result<(), KernelError>)
        requires
            old(data).arrays@.len() >= 3,
            arr_view(*old(data), 2).len() == arr_view(*old(data), 1).len(),
            arr_view(*old(data), 0).len() < 0x7fff_ffff_ffff_ffff,
            buf_in_range(arr_view(*old(data), 1)),
        ensures
            r.is_ok() <==> fetch_ok(arr_view(*old(data), 0), arr_view(*old(data), 1)),
            r.is_ok() ==> arr_view(*final(data), 2) == fetch_sem(
                arr_view(*old(data), 0),
                arr_view(*old(data), 1),
            ) && writes_only(*old(data), *final(data), 2),
            r.is_err() ==> final(data).arrays@.len() == old(data).arrays@.len() && (forall|
                j: int,
            |
                0 <= j < old(data).arrays@.len() ==> #[trigger] final(data).arrays@[j]@ == old(
                    data,
                ).arrays@[j]@) && final(data).consts == old(data).consts,
    {
        let src = take_buf(&mut data.arrays, 0);
        let idx = take_buf(&mut data.arrays, 1);
        let mut dest = take_buf(&mut data.arrays, 2);
        let r = gather(&src, &idx, &mut dest);
        put_buf(&mut data.arrays, 0, src);
        put_buf(&mut data.arrays, 1, idx);
        put_buf(&mut data.arrays, 2, dest);
        proof {
            if r.is_err() {
                assert forall|j: int| 0 <= j < old(data).arrays@.len() implies #[trigger] data
                    .arrays@[j]@ == old(data).arrays@[j]@ by {
                }
            }
        }
        r
    }
}

/// Forward transform kernel: operands 2 and 3 receive the real and
/// imaginary transform of the complex source in operands 0 and 1.
pub struct DFTF32;

impl DFTF32 {
    /// Run the kernel over its fetched operands.
    pub fn run(&mut self, data: &mut Data)
        requires
            old(data).arrays@.len() >= 4,
            arr_view(*old(data), 1).len() == arr_view(*old(data), 0).len(),
            arr_view(*old(data), 2).len() == arr_view(*old(data), 0).len(),
            arr_view(*old(data), 3).len() == arr_view(*old(data), 0).len(),
            arr_view(*old(data), 0).len() <= DFT_MAX_LEN,
            buf_in_range(arr_view(*old(data), 0)),
            buf_in_range(arr_view(*old(data), 1)),
        ensures
            arr_view(*final(data), 2) == dft_re_sem(
                arr_view(*old(data), 0),
                arr_view(*old(data), 1),
            ),
            arr_view(*final(data), 3) == dft_im_sem(
                arr_view(*old(data), 0),
                arr_view(*old(data), 1),
            ),
            final(data).arrays@.len() == old(data).arrays@.len(),
            forall|j: int|
                0 <= j < old(data).arrays@.len() && j != 2 && j != 3 ==> final(data).arrays@[j]
                    == old(data).arrays@[j],
            final(data).consts == old(data).consts,
    {
        let is = take_buf(&mut data.arrays, 0);
        let qs = take_buf(&mut data.arrays, 1);
        let mut id = take_buf(&mut data.arrays, 2);
        let mut qd = take_buf(&mut data.arrays, 3);
        dft_transform(&is, &qs, &mut id, &mut qd);
        put_buf(&mut data.arrays, 0, is);
        put_buf(&mut data.arrays, 1, qs);
        put_buf(&mut data.arrays, 2, id);
        put_buf(&mut data.arrays, 3, qd);
    }
}

/// Inverse transform kernel: operands 2 and 3 receive the inverse
/// transform of the complex source in operands 0 and 1.
pub struct IDFTF32;

impl IDFTF32 {
    /// Run the kernel over its fetched operands.
    pub fn run(&mut self, data: &mut Data)
        requires
            old(data).arrays@.len() >= 4,
            arr_view(*old(data), 1).len() == arr_view(*old(data), 0).len(),
            arr_view(*old(data), 2).len() == arr_view(*old(data), 0).len(),
            arr_view(*old(data), 3).len() == arr_view(*old(data), 0).len(),
            arr_view(*old(data), 0).len() <= DFT_MAX_LEN,
            buf_in_range(arr_view(*old(data), 0)),
            buf_in_range(arr_view(*old(data), 1)),
        ensures
            arr_view(*final(data), 2) == idft_re_sem(
                arr_view(*old(data), 0),
                arr_view(*old(data), 1),
            ),
            arr_view(*final(data), 3) == idft_im_sem(
                arr_view(*old(data), 0),
                arr_view(*old(data), 1),
            ),
            final(data).arrays@.len() == old(data).arrays@.len(),
            forall|j: int|
                0 <= j < old(data).arrays@.len() && j != 2 && j != 3 ==> final(data).arrays@[j]
                    == old(data).arrays@[j],
            final(data).consts == old(data).consts,
    {
        let is = take_buf(&mut data.arrays, 0);
        let qs = take_buf(&mut data.arrays, 1);
        let mut id = take_buf(&mut data.arrays, 2);
        let mut qd = take_buf(&mut data.arrays, 3);
        idft_transform(&is, &qs, &mut id, &mut qd);
        put_buf(&mut data.arrays, 0, is);
        put_buf(&mut data.arrays, 1, qs);
        put_buf(&mut data.arrays, 2, id);
        put_buf(&mut data.arrays, 3, qd);
    }
}

} // verus!
