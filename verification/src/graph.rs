//! The shared buffer store, the operation graph, its builder and its
//! runner.
//!
//! The store owns named sample buffers and scalar constants, addressed
//! by stable integer handles. The builder records an ordered sequence
//! of kernel invocations bound to handles, validating operand shapes
//! eagerly; the runner replays the frozen sequence in recorded order,
//! once per processing tick.

use vstd::prelude::*;

use crate::fixed::in_range;
use crate::kernels::{
    buf_in_range, ew_mul_sem, ew_div_sem, ew_add_sem, scalar_mul_sem, scalar_add_sem,
    scalar_rem_sem, map_sin_sem, map_cos_sem, map_sqrt_sem, conv_sem, fetch_ok, fetch_sem,
    dft_re_sem, dft_im_sem, idft_re_sem, idft_im_sem, Data, KernelError, ElementwiseMultiplyF32,
    ElementwiseDivideF32, AddF32, CopyF32, ScalarMultiplyF32, ScalarAddF32, ModF32, SinF32, CosF32,
    SqrtF32, ConvolutionF32, FetchF32, DFTF32, IDFTF32, DFT_MAX_LEN,
};

verus! {

/// The shared buffer store: every sample buffer and scalar constant a
/// graph operates on, addressed by the index at which it was
/// registered.
pub struct Store {
    /// The registered sample buffers.
    pub bufs: Vec<Vec<i64>>,
    /// The registered scalar constants.
    pub consts: Vec<i64>,
}

/// The store's buffers as a sequence of value sequences.
pub open spec fn store_view(s: Store) -> Seq<Seq<i64>> {
    Seq::new(s.bufs@.len() as nat, |i: int| s.bufs@[i]@)
}

/// Every buffer of the view holds only representable values.
pub open spec fn bufs_wf(bufs: Seq<Seq<i64>>) -> bool {
    forall|i: int| 0 <= i < bufs.len() ==> buf_in_range(#[trigger] bufs[i])
}

/// Every constant is representable.
pub open spec fn consts_wf(consts: Seq<i64>) -> bool {
    forall|i: int| 0 <= i < consts.len() ==> in_range(#[trigger] consts[i] as int)
}

/// A well-formed store: all buffers and constants in range.
pub open spec fn store_wf(s: Store) -> bool {
    bufs_wf(store_view(s)) && consts_wf(s.consts@)
}

/// The lengths of the store's buffers.
pub open spec fn store_lens(bufs: Seq<Seq<i64>>) -> Seq<nat> {
    Seq::new(bufs.len(), |i: int| bufs[i].len())
}

impl Store {
    /// An empty store.
    pub fn new() -> (s: Store)
        ensures
            s.bufs@.len() == 0,
            s.consts@.len() == 0,
            store_wf(s),
    {
        Store { bufs: Vec::new(), consts: Vec::new() }
    }

    /// Register a buffer with the given initial contents; the returned
    /// handle stays valid for the life of the store.
    pub fn register_buffer(&mut self, contents: Vec<i64>) -> (h: usize)
        requires
            buf_in_range(contents@),
        ensures
            h == old(self).bufs@.len(),
            final(self).bufs@ == old(self).bufs@.push(contents),
            final(self).consts == old(self).consts,
            store_wf(*old(self)) ==> store_wf(*final(self)),
    {
        let h = self.bufs.len();
        self.bufs.push(contents);
        proof {
            if store_wf(*old(self)) {
                assert forall|i: int| 0 <= i < store_view(*self).len() implies buf_in_range(
                    #[trigger] store_view(*self)[i],
                ) by {
                    if i < old(self).bufs@.len() {
                        assert(store_view(*self)[i] == store_view(*old(self))[i]);
                    }
                }
            }
        }
        h
    }

    /// Register a scalar constant; the returned handle stays valid for
    /// the life of the store.
    pub fn register_scalar(&mut self, value: i64) -> (h: usize)
        requires
            in_range(value as int),
        ensures
            h == old(self).consts@.len(),
            final(self).consts@ == old(self).consts@.push(value),
            final(self).bufs == old(self).bufs,
            store_wf(*old(self)) ==> store_wf(*final(self)),
    {
        let h = self.consts.len();
        self.consts.push(value);
        h
    }

    /// The number of registered buffers.
    pub fn buffer_count(&self) -> (n: usize)
        ensures
            n == self.bufs@.len(),
    {
        self.bufs.len()
    }

    /// The length of a registered buffer.
    pub fn buffer_len(&self, h: usize) -> (n: usize)
        requires
            h < self.bufs@.len(),
        ensures
            n == store_view(*self)[h as int].len(),
    {
        self.bufs[h].len()
    }

    /// Read a copy of a registered buffer.
    pub fn read_buffer(&self, h: usize) -> (r: Vec<i64>)
        requires
            h < self.bufs@.len(),
        ensures
            r@ == store_view(*self)[h as int],
    {
        let src = &self.bufs[h];
        let mut out: Vec<i64> = Vec::new();
        let n = src.len();
        let mut i: usize = 0;
        while i < n
            invariant
                n == src@.len(),
                0 <= i <= n,
                out@.len() == i,
                forall|j: int| 0 <= j < i ==> out@[j] == src@[j],
            decreases n - i,
        {
            out.push(src[i]);
            i += 1;
        }
        proof {
            assert(out@ =~= store_view(*self)[h as int]);
        }
        out
    }
}

/// The closed catalog of kernel kinds a node can invoke.
#[derive(Clone, Copy, PartialEq, Eq, Structural)]
pub enum Kernel {
    /// Operand 1 accumulates the elementwise product with operand 0.
    ElementwiseMultiply,
    /// Operand 1 is divided elementwise by operand 0.
    ElementwiseDivide,
    /// The linear convolution of operands 0 and 1 accumulates into 2.
    Convolution,
    /// Operand 0 is scaled by constant 0.
    ScalarMultiply,
    /// Constant 0 is added to every element of operand 0.
    ScalarAdd,
    /// Operand 0 is mapped through the sine.
    Sin,
    /// Operand 0 is mapped through the cosine.
    Cos,
    /// Operand 0 is mapped through the square root.
    Sqrt,
    /// Every element of operand 0 is reduced modulo constant 0.
    Modulo,
    /// Operand 1 accumulates operand 0.
    Add,
    /// Operand 1 becomes a copy of operand 0.
    Copy,
    /// Operand 2 gathers elements of operand 0 selected by operand 1.
    Fetch,
    /// Operands 2 and 3 receive the forward transform of 0 and 1.
    Dft,
    /// Operands 2 and 3 receive the inverse transform of 0 and 1.
    Idft,
}

/// One recorded kernel invocation: a kernel kind and the handles of
/// its operands, in the exact arity the kind requires. Immutable once
/// appended.
pub struct OpNode {
    /// The kernel this node invokes.
    pub kind: Kernel,
    /// The buffer handles the kernel operates on, in operand order.
    pub bufs: Vec<usize>,
    /// The scalar-constant handles the kernel reads, in operand order.
    pub consts: Vec<usize>,
}

/// The buffer-operand handles are mutually distinct, present in the
/// store, and in the arity and length relation the kind demands.
pub open spec fn node_wf(n: OpNode, bufs: Seq<Seq<i64>>, nconsts: int) -> bool {
    shape_wf(n.kind, n.bufs@, n.consts@, bufs, nconsts)
}

/// As [`node_wf`], over a node's parts: the kind, its buffer-operand
/// handles and its constant handles.
pub open spec fn shape_wf(
    kind: Kernel,
    h: Seq<usize>,
    cs: Seq<usize>,
    bufs: Seq<Seq<i64>>,
    nconsts: int,
) -> bool {
    &&& forall|i: int| 0 <= i < h.len() ==> (#[trigger] h[i] as int) < bufs.len()
    &&& forall|i: int, j: int| 0 <= i < j < h.len() ==> h[i] != h[j]
    &&& forall|i: int| 0 <= i < cs.len() ==> (#[trigger] cs[i] as int) < nconsts
    &&& match kind {
        Kernel::ElementwiseMultiply | Kernel::ElementwiseDivide | Kernel::Add | Kernel::Copy => {
            h.len() == 2 && bufs[h[0] as int].len() == bufs[h[1] as int].len()
        },
        Kernel::ScalarMultiply | Kernel::ScalarAdd | Kernel::Modulo => {
            h.len() == 1 && cs.len() == 1
        },
        Kernel::Sin | Kernel::Cos | Kernel::Sqrt => { h.len() == 1 },
        Kernel::Convolution => {
            h.len() == 3 && bufs[h[0] as int].len() >= 1 && bufs[h[1] as int].len() >= 1 && bufs[h[2]
                as int].len() == bufs[h[0] as int].len() + bufs[h[1] as int].len() - 1
        },
        Kernel::Fetch => {
            h.len() == 3 && bufs[h[2] as int].len() == bufs[h[1] as int].len() && bufs[h[0]
                as int].len() < 0x7fff_ffff_ffff_ffff
        },
        Kernel::Dft | Kernel::Idft => {
            h.len() == 4 && bufs[h[1] as int].len() == bufs[h[0] as int].len() && bufs[h[2]
                as int].len() == bufs[h[0] as int].len() && bufs[h[3] as int].len() == bufs[h[0]
                as int].len() && bufs[h[0] as int].len() <= DFT_MAX_LEN as nat
        },
    }
}

/// A node's runtime precondition over buffer values: only the gather
/// kernel has one (its indices must fall inside its source).
pub open spec fn node_val_ok(n: OpNode, bufs: Seq<Seq<i64>>) -> bool {
    match n.kind {
        Kernel::Fetch => fetch_ok(bufs[n.bufs@[0] as int], bufs[n.bufs@[1] as int]),
        _ => true,
    }
}

/// The store's buffers after one node runs.
pub open spec fn node_sem(n: OpNode, bufs: Seq<Seq<i64>>, consts: Seq<i64>) -> Seq<Seq<i64>> {
    let h = n.bufs@;
    match n.kind {
        Kernel::ElementwiseMultiply => bufs.update(
            h[1] as int,
            ew_mul_sem(bufs[h[0] as int], bufs[h[1] as int]),
        ),
        Kernel::ElementwiseDivide => bufs.update(
            h[1] as int,
            ew_div_sem(bufs[h[0] as int], bufs[h[1] as int]),
        ),
        Kernel::Add => bufs.update(h[1] as int, ew_add_sem(bufs[h[0] as int], bufs[h[1] as int])),
        Kernel::Copy => bufs.update(h[1] as int, bufs[h[0] as int]),
        Kernel::ScalarMultiply => bufs.update(
            h[0] as int,
            scalar_mul_sem(bufs[h[0] as int], consts[n.consts@[0] as int]),
        ),
        Kernel::ScalarAdd => bufs.update(
            h[0] as int,
            scalar_add_sem(bufs[h[0] as int], consts[n.consts@[0] as int]),
        ),
        Kernel::Modulo => bufs.update(
            h[0] as int,
            scalar_rem_sem(bufs[h[0] as int], consts[n.consts@[0] as int]),
        ),
        Kernel::Sin => bufs.update(h[0] as int, map_sin_sem(bufs[h[0] as int])),
        Kernel::Cos => bufs.update(h[0] as int, map_cos_sem(bufs[h[0] as int])),
        Kernel::Sqrt => bufs.update(h[0] as int, map_sqrt_sem(bufs[h[0] as int])),
        Kernel::Convolution => bufs.update(
            h[2] as int,
            conv_sem(bufs[h[0] as int], bufs[h[1] as int], bufs[h[2] as int]),
        ),
        Kernel::Fetch => if fetch_ok(bufs[h[0] as int], bufs[h[1] as int]) {
            bufs.update(h[2] as int, fetch_sem(bufs[h[0] as int], bufs[h[1] as int]))
        } else {
            bufs
        },
        Kernel::Dft => bufs.update(
            h[2] as int,
            dft_re_sem(bufs[h[0] as int], bufs[h[1] as int]),
        ).update(h[3] as int, dft_im_sem(bufs[h[0] as int], bufs[h[1] as int])),
        Kernel::Idft => bufs.update(
            h[2] as int,
            idft_re_sem(bufs[h[0] as int], bufs[h[1] as int]),
        ).update(h[3] as int, idft_im_sem(bufs[h[0] as int], bufs[h[1] as int])),
    }
}

/// Handle `j` occurs in the operand handle list `h`.
pub open spec fn handle_mem(j: int, h: Seq<usize>) -> bool {
    exists|t: int| 0 <= t < h.len() && h[t] == j
}

/// The store's buffers and the success flag after the first `t` nodes
/// of a graph have run, in recorded order; a failed node stops the
/// tick with the buffers as they stood before it.
pub open spec fn run_upto(
    nodes: Seq<OpNode>,
    bufs: Seq<Seq<i64>>,
    consts: Seq<i64>,
    t: nat,
) -> (Seq<Seq<i64>>, bool)
    decreases t,
{
    if t == 0 {
        (bufs, true)
    } else {
        let prev = run_upto(nodes, bufs, consts, (t - 1) as nat);
        if !prev.1 {
            prev
        } else {
            let n = nodes[(t - 1) as int];
            if node_val_ok(n, prev.0) {
                (node_sem(n, prev.0, consts), true)
            } else {
                (prev.0, false)
            }
        }
    }
}

/// The store's buffers and the success flag after a whole tick.
pub open spec fn graph_sem(nodes: Seq<OpNode>, bufs: Seq<Seq<i64>>, consts: Seq<i64>) -> (
    Seq<Seq<i64>>,
    bool,
) {
    run_upto(nodes, bufs, consts, nodes.len())
}

/// Every node of the graph is well formed over the given buffer
/// lengths and constant count.
pub open spec fn graph_wf(nodes: Seq<OpNode>, bufs: Seq<Seq<i64>>, nconsts: int) -> bool {
    forall|i: int| 0 <= i < nodes.len() ==> node_wf(#[trigger] nodes[i], bufs, nconsts)
}

/// Node well-formedness depends on the buffers only through their
/// lengths.
pub proof fn lemma_node_wf_lens(n: OpNode, b1: Seq<Seq<i64>>, b2: Seq<Seq<i64>>, nc: int)
    requires
        node_wf(n, b1, nc),
        store_lens(b1) == store_lens(b2),
    ensures
        node_wf(n, b2, nc),
{
    assert(store_lens(b1).len() == b1.len());
    assert(store_lens(b2).len() == b2.len());
    assert(b1.len() == b2.len());
    assert forall|i: int| 0 <= i < b1.len() implies (#[trigger] b1[i]).len() == b2[i].len() by {
        assert(store_lens(b1)[i] == b1[i].len());
        assert(store_lens(b2)[i] == b2[i].len());
    }
}

/// Updating one buffer with a same-length, in-range replacement keeps
/// the store well formed and the lengths unchanged.
proof fn lemma_update_keeps(bufs: Seq<Seq<i64>>, j: int, s: Seq<i64>)
    requires
        bufs_wf(bufs),
        0 <= j < bufs.len(),
        s.len() == bufs[j].len(),
        buf_in_range(s),
    ensures
        bufs_wf(bufs.update(j, s)),
        store_lens(bufs.update(j, s)) == store_lens(bufs),
{
    assert forall|i: int| 0 <= i < bufs.update(j, s).len() implies buf_in_range(
        #[trigger] bufs.update(j, s)[i],
    ) by {
        if i != j {
            assert(bufs.update(j, s)[i] == bufs[i]);
        }
    }
    assert(store_lens(bufs.update(j, s)) =~= store_lens(bufs));
}

/// Running a well-formed node preserves every buffer's length and the
/// range of every stored value.
pub proof fn lemma_node_sem_preserves(n: OpNode, bufs: Seq<Seq<i64>>, consts: Seq<i64>)
    requires
        node_wf(n, bufs, consts.len() as int),
        bufs_wf(bufs),
        consts_wf(consts),
    ensures
        store_lens(node_sem(n, bufs, consts)) == store_lens(bufs),
        bufs_wf(node_sem(n, bufs, consts)),
{
    let out = node_sem(n, bufs, consts);
    let h = n.bufs@;
    match n.kind {
        Kernel::ElementwiseMultiply => {
            let s = ew_mul_sem(bufs[h[0] as int], bufs[h[1] as int]);
            assert forall|x: int| 0 <= x < s.len() implies in_range(#[trigger] s[x] as int)
                by {}
            lemma_update_keeps(bufs, h[1] as int, s);
        },
        Kernel::ElementwiseDivide => {
            let s = ew_div_sem(bufs[h[0] as int], bufs[h[1] as int]);
            assert forall|x: int| 0 <= x < s.len() implies in_range(#[trigger] s[x] as int)
                by {}
            lemma_update_keeps(bufs, h[1] as int, s);
        },
        Kernel::Add => {
            let s = ew_add_sem(bufs[h[0] as int], bufs[h[1] as int]);
            assert forall|x: int| 0 <= x < s.len() implies in_range(#[trigger] s[x] as int)
                by {}
            lemma_update_keeps(bufs, h[1] as int, s);
        },
        Kernel::Copy => {
            lemma_update_keeps(bufs, h[1] as int, bufs[h[0] as int]);
        },
        Kernel::ScalarMultiply => {
            let s = scalar_mul_sem(bufs[h[0] as int], consts[n.consts@[0] as int]);
            assert forall|x: int| 0 <= x < s.len() implies in_range(#[trigger] s[x] as int)
                by {}
            lemma_update_keeps(bufs, h[0] as int, s);
        },
        Kernel::ScalarAdd => {
            let s = scalar_add_sem(bufs[h[0] as int], consts[n.consts@[0] as int]);
            assert forall|x: int| 0 <= x < s.len() implies in_range(#[trigger] s[x] as int)
                by {}
            lemma_update_keeps(bufs, h[0] as int, s);
        },
        Kernel::Modulo => {
            let s = scalar_rem_sem(bufs[h[0] as int], consts[n.consts@[0] as int]);
            assert forall|x: int| 0 <= x < s.len() implies in_range(#[trigger] s[x] as int)
                by {}
            lemma_update_keeps(bufs, h[0] as int, s);
        },
        Kernel::Sin => {
            let s = map_sin_sem(bufs[h[0] as int]);
            assert forall|x: int| 0 <= x < s.len() implies in_range(#[trigger] s[x] as int) by {
                crate::fixed::lemma_fx_sin_in_range(bufs[h[0] as int][x]);
            }
            lemma_update_keeps(bufs, h[0] as int, s);
        },
        Kernel::Cos => {
            let s = map_cos_sem(bufs[h[0] as int]);
            assert forall|x: int| 0 <= x < s.len() implies in_range(#[trigger] s[x] as int) by {
                crate::fixed::lemma_fx_cos_in_range(bufs[h[0] as int][x]);
            }
            lemma_update_keeps(bufs, h[0] as int, s);
        },
        Kernel::Sqrt => {
            let s = map_sqrt_sem(bufs[h[0] as int]);
            assert forall|x: int| 0 <= x < s.len() implies in_range(#[trigger] s[x] as int)
                by {}
            lemma_update_keeps(bufs, h[0] as int, s);
        },
        Kernel::Convolution => {
            let s = conv_sem(bufs[h[0] as int], bufs[h[1] as int], bufs[h[2] as int]);
            crate::kernels::lemma_conv_step_shape(
                bufs[h[0] as int],
                bufs[h[1] as int],
                bufs[h[2] as int],
                (bufs[h[0] as int].len() * bufs[h[1] as int].len()) as nat,
            );
            lemma_update_keeps(bufs, h[2] as int, s);
        },
        Kernel::Fetch => {
            if fetch_ok(bufs[h[0] as int], bufs[h[1] as int]) {
                let s = fetch_sem(bufs[h[0] as int], bufs[h[1] as int]);
                assert forall|x: int| 0 <= x < s.len() implies in_range(#[trigger] s[x] as int) by {
                    assert(crate::kernels::fetch_idx(bufs[h[1] as int][x]) < bufs[h[0]
                        as int].len());
                }
                lemma_update_keeps(bufs, h[2] as int, s);
            }
        },
        Kernel::Dft => {
            let b0 = bufs[h[0] as int];
            let b1 = bufs[h[1] as int];
            let sre = dft_re_sem(b0, b1);
            let sim = dft_im_sem(b0, b1);
            assert forall|x: int| 0 <= x < sre.len() implies in_range(#[trigger] sre[x] as int)
                by {}
            assert forall|x: int| 0 <= x < sim.len() implies in_range(#[trigger] sim[x] as int)
                by {}
            lemma_update_keeps(bufs, h[2] as int, sre);
            lemma_update_keeps(bufs.update(h[2] as int, sre), h[3] as int, sim);
            assert(store_lens(out) == store_lens(bufs));
        },
        Kernel::Idft => {
            let b0 = bufs[h[0] as int];
            let b1 = bufs[h[1] as int];
            let sre = idft_re_sem(b0, b1);
            let sim = idft_im_sem(b0, b1);
            assert forall|x: int| 0 <= x < sre.len() implies in_range(#[trigger] sre[x] as int) by {
                let acc = crate::kernels::dft_acc_re(b0, b1, x, 1, b0.len());
                crate::fixed::lemma_tdiv_abs(acc as int, b0.len() as int);
            }
            assert forall|x: int| 0 <= x < sim.len() implies in_range(#[trigger] sim[x] as int) by {
                let acc = crate::kernels::dft_acc_im(b0, b1, x, 1, b0.len());
                crate::fixed::lemma_tdiv_abs(acc as int, b0.len() as int);
            }
            lemma_update_keeps(bufs, h[2] as int, sre);
            lemma_update_keeps(bufs.update(h[2] as int, sre), h[3] as int, sim);
            assert(store_lens(out) == store_lens(bufs));
        },
    }
}

/// Fetch a node's operands out of the store: the buffers move into a
/// [`Data`] in operand order, constants are copied by value.
fn gather_data(store: &mut Store, node: &OpNode) -> (data: Data)
    requires
        forall|i: int|
            0 <= i < node.bufs@.len() ==> (#[trigger] node.bufs@[i] as int) < old(store).bufs@.len(),
        forall|i: int, j: int| 0 <= i < j < node.bufs@.len() ==> node.bufs@[i] != node.bufs@[j],
        forall|i: int|
            0 <= i < node.consts@.len() ==> (#[trigger] node.consts@[i] as int) < old(store).consts@.len(),
    ensures
        data.arrays@.len() == node.bufs@.len(),
        forall|t: int|
            0 <= t < node.bufs@.len() ==> #[trigger] data.arrays@[t] == old(store).bufs@[node.bufs@[t] as int],
        data.consts@.len() == node.consts@.len(),
        forall|t: int|
            0 <= t < node.consts@.len() ==> #[trigger] data.consts@[t] == old(store).consts@[node.consts@[t] as int],
        final(store).bufs@.len() == old(store).bufs@.len(),
        final(store).consts == old(store).consts,
        forall|j: int|
            0 <= j < old(store).bufs@.len() && !handle_mem(j, node.bufs@) ==> final(store).bufs@[j] == old(store).bufs@[j],
{
    let mut arrays: Vec<Vec<i64>> = Vec::new();
    let nb = node.bufs.len();
    let mut i: usize = 0;
    while i < nb
        invariant
            nb == node.bufs@.len(),
            0 <= i <= nb,
            forall|t: int|
                0 <= t < nb ==> (#[trigger] node.bufs@[t] as int) < old(store).bufs@.len(),
            forall|t: int, j: int| 0 <= t < j < nb ==> node.bufs@[t] != node.bufs@[j],
            arrays@.len() == i,
            store.bufs@.len() == old(store).bufs@.len(),
            store.consts == old(store).consts,
            forall|t: int|
                0 <= t < i ==> #[trigger] arrays@[t] == old(store).bufs@[node.bufs@[t] as int],
            forall|j: int|
                0 <= j < old(store).bufs@.len() && !(exists|t: int|
                    0 <= t < i && node.bufs@[t] == j) ==> store.bufs@[j] == old(store).bufs@[j],
        decreases nb - i,
    {
        let h = node.bufs[i];
        proof {
            assert(!(exists|t: int| 0 <= t < i && node.bufs@[t] == h as int));
        }
        let b = crate::kernels::take_buf(&mut store.bufs, h);
        arrays.push(b);
        i += 1;
    }
    let mut consts: Vec<i64> = Vec::new();
    let nc = node.consts.len();
    let mut i: usize = 0;
    while i < nc
        invariant
            nc == node.consts@.len(),
            0 <= i <= nc,
            forall|t: int|
                0 <= t < nc ==> (#[trigger] node.consts@[t] as int) < store.consts@.len(),
            consts@.len() == i,
            forall|t: int|
                0 <= t < i ==> #[trigger] consts@[t] == store.consts@[node.consts@[t] as int],
        decreases nc - i,
    {
        let ci = node.consts[i];
        consts.push(store.consts[ci]);
        i += 1;
    }
    Data { arrays, consts }
}

/// Return a node's operand buffers from a [`Data`] to their places in
/// the store.
fn scatter_data(store: &mut Store, node: &OpNode, data: Data)
    requires
        data.arrays@.len() == node.bufs@.len(),
        forall|i: int|
            0 <= i < node.bufs@.len() ==> (#[trigger] node.bufs@[i] as int) < old(store).bufs@.len(),
        forall|i: int, j: int| 0 <= i < j < node.bufs@.len() ==> node.bufs@[i] != node.bufs@[j],
    ensures
        final(store).bufs@.len() == old(store).bufs@.len(),
        final(store).consts == old(store).consts,
        forall|t: int|
            0 <= t < node.bufs@.len() ==> #[trigger] final(store).bufs@[node.bufs@[t] as int]
                == data.arrays@[t],
        forall|j: int|
            0 <= j < old(store).bufs@.len() && !handle_mem(j, node.bufs@) ==> final(store).bufs@[j] == old(store).bufs@[j],
{
    let ghost data0 = data;
    let mut data = data;
    let nb = node.bufs.len();
    let mut i: usize = 0;
    while i < nb
        invariant
            nb == node.bufs@.len(),
            0 <= i <= nb,
            data.arrays@.len() == nb,
            forall|t: int|
                0 <= t < nb ==> (#[trigger] node.bufs@[t] as int) < old(store).bufs@.len(),
            forall|t: int, j: int| 0 <= t < j < nb ==> node.bufs@[t] != node.bufs@[j],
            store.bufs@.len() == old(store).bufs@.len(),
            store.consts == old(store).consts,
            forall|t: int| i <= t < nb ==> #[trigger] data.arrays@[t] == data0.arrays@[t],
            forall|t: int|
                0 <= t < i ==> #[trigger] store.bufs@[node.bufs@[t] as int] == data0.arrays@[t],
            forall|j: int|
                0 <= j < old(store).bufs@.len() && !(exists|t: int|
                    0 <= t < i && node.bufs@[t] == j) ==> store.bufs@[j] == old(store).bufs@[j],
        decreases nb - i,
    {
        let h = node.bufs[i];
        let b = crate::kernels::take_buf(&mut data.arrays, i);
        crate::kernels::put_buf(&mut store.bufs, h, b);
        i += 1;
    }
}

/// After a gather, kernel run and scatter in which only operand slot
/// `w` was rewritten, the store view is the original with the one
/// written handle updated.
proof fn lemma_one_write_view(
    v0: Seq<Seq<i64>>,
    h: Seq<usize>,
    pre: Seq<Vec<i64>>,
    post: Seq<Vec<i64>>,
    sv: Seq<Seq<i64>>,
    w: int,
)
    requires
        sv.len() == v0.len(),
        pre.len() == h.len(),
        post.len() == h.len(),
        forall|i: int| 0 <= i < h.len() ==> (#[trigger] h[i] as int) < v0.len(),
        forall|i: int, j: int| 0 <= i < j < h.len() ==> h[i] != h[j],
        0 <= w < h.len(),
        forall|t: int| 0 <= t < h.len() ==> (#[trigger] pre[t])@ == v0[h[t] as int],
        forall|t: int| 0 <= t < h.len() && t != w ==> post[t] == pre[t],
        forall|t: int| 0 <= t < h.len() ==> sv[h[t] as int] == (#[trigger] post[t])@,
        forall|j: int| 0 <= j < v0.len() && !handle_mem(j, h) ==> sv[j] == v0[j],
    ensures
        sv == v0.update(h[w] as int, post[w]@),
{
    assert forall|j: int| 0 <= j < v0.len() implies sv[j] == v0.update(h[w] as int, post[w]@)[j] by {
        if handle_mem(j, h) {
            let t = choose|t: int| 0 <= t < h.len() && h[t] == j;
            if t != w {
                assert(post[t] == pre[t]);
                if t < w {
                    assert(h[t] != h[w]);
                } else {
                    assert(h[w] != h[t]);
                }
            }
        }
    }
    assert(sv =~= v0.update(h[w] as int, post[w]@));
}

/// As [`lemma_one_write_view`], for a kernel that rewrote the two
/// operand slots `w1` and `w2`.
proof fn lemma_two_write_view(
    v0: Seq<Seq<i64>>,
    h: Seq<usize>,
    pre: Seq<Vec<i64>>,
    post: Seq<Vec<i64>>,
    sv: Seq<Seq<i64>>,
    w1: int,
    w2: int,
)
    requires
        sv.len() == v0.len(),
        pre.len() == h.len(),
        post.len() == h.len(),
        forall|i: int| 0 <= i < h.len() ==> (#[trigger] h[i] as int) < v0.len(),
        forall|i: int, j: int| 0 <= i < j < h.len() ==> h[i] != h[j],
        0 <= w1 < h.len(),
        0 <= w2 < h.len(),
        w1 != w2,
        forall|t: int| 0 <= t < h.len() ==> (#[trigger] pre[t])@ == v0[h[t] as int],
        forall|t: int| 0 <= t < h.len() && t != w1 && t != w2 ==> post[t] == pre[t],
        forall|t: int| 0 <= t < h.len() ==> sv[h[t] as int] == (#[trigger] post[t])@,
        forall|j: int| 0 <= j < v0.len() && !handle_mem(j, h) ==> sv[j] == v0[j],
    ensures
        sv == v0.update(h[w1] as int, post[w1]@).update(h[w2] as int, post[w2]@),
{
    let expect = v0.update(h[w1] as int, post[w1]@).update(h[w2] as int, post[w2]@);
    assert forall|j: int| 0 <= j < v0.len() implies sv[j] == expect[j] by {
        if handle_mem(j, h) {
            let t = choose|t: int| 0 <= t < h.len() && h[t] == j;
            assert forall|u: int, v: int|
                0 <= u < h.len() && 0 <= v < h.len() && u != v implies h[u] != h[v] by {
                if u < v {
                    assert(h[u] != h[v]);
                } else {
                    assert(h[v] != h[u]);
                }
            }
            if t != w1 && t != w2 {
                assert(post[t] == pre[t]);
            }
        }
    }
    assert(sv =~= expect);
}

/// As [`lemma_one_write_view`], for a kernel that rewrote nothing.
proof fn lemma_no_write_view(
    v0: Seq<Seq<i64>>,
    h: Seq<usize>,
    pre: Seq<Vec<i64>>,
    post: Seq<Vec<i64>>,
    sv: Seq<Seq<i64>>,
)
    requires
        sv.len() == v0.len(),
        pre.len() == h.len(),
        post.len() == h.len(),
        forall|i: int| 0 <= i < h.len() ==> (#[trigger] h[i] as int) < v0.len(),
        forall|t: int| 0 <= t < h.len() ==> (#[trigger] pre[t])@ == v0[h[t] as int],
        forall|t: int| 0 <= t < h.len() ==> (#[trigger] post[t])@ == pre[t]@,
        forall|t: int| 0 <= t < h.len() ==> sv[h[t] as int] == (#[trigger] post[t])@,
        forall|j: int| 0 <= j < v0.len() && !handle_mem(j, h) ==> sv[j] == v0[j],
    ensures
        sv == v0,
{
    assert forall|j: int| 0 <= j < v0.len() implies sv[j] == v0[j] by {
        if handle_mem(j, h) {
            let t = choose|t: int| 0 <= t < h.len() && h[t] == j;
            assert(h[t] == j);
            assert(sv[h[t] as int] == post[t]@);
            assert(post[t]@ == pre[t]@);
            assert(pre[t]@ == v0[h[t] as int]);
        }
    }
    assert(sv =~= v0);
}

/// Execute one node against the store: fetch its operands, run its
/// kernel, return the operands. Only a gather node can fail; it then
/// leaves every buffer as it stood.
pub fn run_node(store: &mut Store, node: &OpNode) -> (r: Result<(), KernelError>)
    requires
        node_wf(*node, store_view(*old(store)), old(store).consts@.len() as int),
        store_wf(*old(store)),
    ensures
        final(store).consts == old(store).consts,
        final(store).bufs@.len() == old(store).bufs@.len(),
        r.is_ok() <==> node_val_ok(*node, store_view(*old(store))),
        r.is_ok() ==> store_view(*final(store)) == node_sem(
            *node,
            store_view(*old(store)),
            old(store).consts@,
        ),
        r.is_err() ==> store_view(*final(store)) == store_view(*old(store)),
{
    let ghost v0 = store_view(*old(store));
    let ghost cs = old(store).consts@;
    let ghost h = node.bufs@;
    let mut data = gather_data(store, node);
    let ghost pre = data.arrays@;
    proof {
        assert forall|t: int| 0 <= t < h.len() implies (#[trigger] pre[t])@ == v0[h[t] as int] by {
            assert(pre[t] == old(store).bufs@[h[t] as int]);
        }
        assert(buf_in_range(v0[h[0] as int]) ==> buf_in_range(pre[0]@));
    }
    let result: Result<(), KernelError> = match node.kind {
        Kernel::ElementwiseMultiply => {
            let mut kernel = ElementwiseMultiplyF32;
            kernel.run(&mut data);
            Ok(())
        },
        Kernel::ElementwiseDivide => {
            let mut kernel = ElementwiseDivideF32;
            kernel.run(&mut data);
            Ok(())
        },
        Kernel::Add => {
            let mut kernel = AddF32;
            kernel.run(&mut data);
            Ok(())
        },
        Kernel::Copy => {
            let mut kernel = CopyF32;
            kernel.run(&mut data);
            Ok(())
        },
        Kernel::ScalarMultiply => {
            let mut kernel = ScalarMultiplyF32;
            kernel.run(&mut data);
            Ok(())
        },
        Kernel::ScalarAdd => {
            let mut kernel = ScalarAddF32;
            kernel.run(&mut data);
            Ok(())
        },
        Kernel::Modulo => {
            let mut kernel = ModF32;
            kernel.run(&mut data);
            Ok(())
        },
        Kernel::Sin => {
            let mut kernel = SinF32;
            kernel.run(&mut data);
            Ok(())
        },
        Kernel::Cos => {
            let mut kernel = CosF32;
            kernel.run(&mut data);
            Ok(())
        },
        Kernel::Sqrt => {
            let mut kernel = SqrtF32;
            kernel.run(&mut data);
            Ok(())
        },
        Kernel::Convolution => {
            let mut kernel = ConvolutionF32;
            kernel.run(&mut data);
            Ok(())
        },
        Kernel::Fetch => {
            let mut kernel = FetchF32;
            kernel.run(&mut data)
        },
        Kernel::Dft => {
            let mut kernel = DFTF32;
            kernel.run(&mut data);
            Ok(())
        },
        Kernel::Idft => {
            let mut kernel = IDFTF32;
            kernel.run(&mut data);
            Ok(())
        },
    };
    let ghost post = data.arrays@;
    scatter_data(store, node, data);
    proof {
        let sv = store_view(*store);
        assert(sv.len() == v0.len());
        assert forall|t: int| 0 <= t < h.len() implies sv[h[t] as int] == (#[trigger] post[t])@ by {
            assert(store.bufs@[h[t] as int] == post[t]);
        }
        assert forall|j: int| 0 <= j < v0.len() && !handle_mem(j, h) implies sv[j] == v0[j] by {
            assert(store.bufs@[j] == old(store).bufs@[j]);
        }
        match node.kind {
            Kernel::ElementwiseMultiply | Kernel::ElementwiseDivide | Kernel::Add
                | Kernel::Copy => {
                lemma_one_write_view(v0, h, pre, post, sv, 1);
            },
            Kernel::ScalarMultiply | Kernel::ScalarAdd | Kernel::Modulo | Kernel::Sin
                | Kernel::Cos | Kernel::Sqrt => {
                lemma_one_write_view(v0, h, pre, post, sv, 0);
            },
            Kernel::Convolution => {
                lemma_one_write_view(v0, h, pre, post, sv, 2);
            },
            Kernel::Fetch => {
                if result.is_ok() {
                    lemma_one_write_view(v0, h, pre, post, sv, 2);
                } else {
                    lemma_no_write_view(v0, h, pre, post, sv);
                }
            },
            Kernel::Dft | Kernel::Idft => {
                lemma_two_write_view(v0, h, pre, post, sv, 2, 3);
            },
        }
    }
    result
}

/// Running a graph's first `t` nodes equals running the first `m`
/// and then `t - m` more from where they left off, provided the first
/// `m` succeeded.
proof fn lemma_run_upto_skip(nodes: Seq<OpNode>, bufs: Seq<Seq<i64>>, consts: Seq<i64>, m: nat, t: nat)
    requires
        m <= t <= nodes.len(),
        run_upto(nodes, bufs, consts, m).1,
    ensures
        run_upto(nodes, bufs, consts, t) == run_upto(
            nodes.skip(m as int),
            run_upto(nodes, bufs, consts, m).0,
            consts,
            (t - m) as nat,
        ),
    decreases t - m,
{
    if t == m {
        assert(run_upto(nodes.skip(m as int), run_upto(nodes, bufs, consts, m).0, consts, 0)
            == (run_upto(nodes, bufs, consts, m).0, true));
    } else {
        lemma_run_upto_skip(nodes, bufs, consts, m, (t - 1) as nat);
        assert(0 <= (t - 1 - m) as int && ((t - 1 - m) as int) < nodes.skip(m as int).len());
        assert(nodes.skip(m as int)[(t - 1 - m) as int] == nodes[(t - 1 - m) as int + m as int]);
    }
}

/// A whole tick over a graph whose first `m` nodes succeed equals
/// running those `m` nodes and then the remaining suffix as a graph
/// of its own over the intermediate buffers.
pub proof fn lemma_graph_sem_suffix(nodes: Seq<OpNode>, bufs: Seq<Seq<i64>>, consts: Seq<i64>, m: nat)
    requires
        m <= nodes.len(),
        run_upto(nodes, bufs, consts, m).1,
    ensures
        graph_sem(nodes, bufs, consts) == graph_sem(
            nodes.skip(m as int),
            run_upto(nodes, bufs, consts, m).0,
            consts,
        ),
{
    lemma_run_upto_skip(nodes, bufs, consts, m, nodes.len());
}

/// Once a node has failed, the remainder of the tick changes nothing.
proof fn lemma_run_upto_stuck(
    nodes: Seq<OpNode>,
    bufs: Seq<Seq<i64>>,
    consts: Seq<i64>,
    t: nat,
    n: nat,
)
    requires
        t <= n,
        !run_upto(nodes, bufs, consts, t).1,
    ensures
        run_upto(nodes, bufs, consts, n) == run_upto(nodes, bufs, consts, t),
    decreases n,
{
    if n > t {
        lemma_run_upto_stuck(nodes, bufs, consts, t, (n - 1) as nat);
    }
}

/// The graph builder: the ordered, append-only sequence of operation
/// nodes recorded during an element's setup phase, replayed unchanged
/// every tick.
pub struct WorkflowBuilder {
    /// The recorded nodes, in append order.
    pub nodes: Vec<OpNode>,
}

impl WorkflowBuilder {
    /// An empty graph.
    pub fn new() -> (b: WorkflowBuilder)
        ensures
            b.nodes@.len() == 0,
    {
        WorkflowBuilder { nodes: Vec::new() }
    }

    /// Replay the recorded nodes once, in order, against the store's
    /// current contents. A node whose runtime precondition fails stops
    /// the tick there, with the store as the earlier nodes left it.
    pub fn run_tick(&self, store: &mut Store) -> (r: Result<(), KernelError>)
        requires
            graph_wf(self.nodes@, store_view(*old(store)), old(store).consts@.len() as int),
            store_wf(*old(store)),
        ensures
            final(store).consts == old(store).consts,
            store_wf(*final(store)),
            store_view(*final(store)) == graph_sem(
                self.nodes@,
                store_view(*old(store)),
                old(store).consts@,
            ).0,
            r.is_ok() == graph_sem(self.nodes@, store_view(*old(store)), old(store).consts@).1,
            store_lens(store_view(*final(store))) == store_lens(store_view(*old(store))),
    {
        let ghost v0 = store_view(*old(store));
        let ghost cs = old(store).consts@;
        let n = self.nodes.len();
        let mut i: usize = 0;
        while i < n
            invariant
                n == self.nodes@.len(),
                0 <= i <= n,
                store.consts == old(store).consts,
                graph_wf(self.nodes@, v0, cs.len() as int),
                v0 == store_view(*old(store)),
                cs == old(store).consts@,
                store_wf(*old(store)),
                store_wf(*store),
                store_lens(store_view(*store)) == store_lens(v0),
                store_view(*store) == run_upto(self.nodes@, v0, cs, i as nat).0,
                run_upto(self.nodes@, v0, cs, i as nat).1,
            decreases n - i,
        {
            let node = &self.nodes[i];
            proof {
                assert(node_wf(self.nodes@[i as int], v0, cs.len() as int));
                lemma_node_wf_lens(
                    self.nodes@[i as int],
                    v0,
                    store_view(*store),
                    cs.len() as int,
                );
            }
            let ghost view_i = store_view(*store);
            let r = run_node(store, node);
            proof {
                lemma_node_sem_preserves(self.nodes@[i as int], view_i, cs);
            }
            if let Err(e) = r {
                proof {
                    lemma_run_upto_stuck(self.nodes@, v0, cs, (i + 1) as nat, n as nat);
                }
                return Err(e);
            }
            i += 1;
        }
        Ok(())
    }
}

/// A configuration error caught while assembling a graph: the node is
/// refused and the graph is left as it was.
#[derive(Clone, Copy, Debug, PartialEq, Eq, Structural)]
pub enum BuildError {
    /// An operand handle does not name a registered buffer or scalar.
    InvalidHandle,
    /// One buffer is named twice among a node's operands.
    DuplicateHandle,
    /// The operand lengths do not satisfy the kernel's arity contract.
    ShapeMismatch,
    /// A numeric configuration value is outside what setup accepts.
    InvalidParameter,
}

impl WorkflowBuilder {
    /// Validate a node against the store and append it. The node is
    /// accepted exactly when it is well formed over the store.
    fn append_node(
        &mut self,
        store: &Store,
        kind: Kernel,
        handles: Vec<usize>,
        consts: Vec<usize>,
    ) -> (r: Result<(), BuildError>)
        ensures
            r.is_err() ==> final(self).nodes == old(self).nodes,
            r.is_ok() ==> final(self).nodes@.len() == old(self).nodes@.len() + 1,
            forall|j: int|
                0 <= j < old(self).nodes@.len() ==> final(self).nodes@[j] == old(self).nodes@[j],
            r.is_ok() ==> final(self).nodes@.last().kind == kind && final(self).nodes@.last().bufs@ == handles@ && final(self).nodes@.last().consts@ == consts@,
            r.is_ok() <==> shape_wf(
                kind,
                handles@,
                consts@,
                store_view(*store),
                store.consts@.len() as int,
            ),
    {
                let nb = store.bufs.len();
        let nh = handles.len();
        let mut i: usize = 0;
        while i < nh
            invariant
                nh == handles@.len(),
                0 <= i <= nh,
                nb == store.bufs@.len(),
                forall|t: int| 0 <= t < i ==> (#[trigger] handles@[t] as int) < nb,
            decreases nh - i,
        {
            if handles[i] >= nb {
                return Err(BuildError::InvalidHandle);
            }
            i += 1;
        }
        let mut i: usize = 0;
        while i < nh
            invariant
                nh == handles@.len(),
                0 <= i <= nh,
                forall|t: int, u: int| 0 <= t < u < nh && t < i ==> handles@[t] != handles@[u],
            decreases nh - i,
        {
            let mut j: usize = i + 1;
            while j < nh
                invariant
                    nh == handles@.len(),
                    0 <= i < j <= nh,
                    forall|u: int| i < u < j ==> handles@[i as int] != handles@[u],
                decreases nh - j,
            {
                if handles[i] == handles[j] {
                    proof {
                        assert(!shape_wf(kind, handles@, consts@, store_view(*store), store.consts@.len() as int))
                            by {
                            if shape_wf(kind, handles@, consts@, store_view(*store), store.consts@.len() as int) {
                                assert(handles@[i as int] != handles@[j as int]);
                            }
                        }
                    }
                    return Err(BuildError::DuplicateHandle);
                }
                j += 1;
            }
            i += 1;
        }
        let ncs = store.consts.len();
        let mut i: usize = 0;
        while i < consts.len()
            invariant
                0 <= i <= consts@.len(),
                ncs == store.consts@.len(),
                forall|t: int| 0 <= t < i ==> (#[trigger] consts@[t] as int) < ncs,
            decreases consts@.len() - i,
        {
            if consts[i] >= ncs {
                proof {
                    assert(!shape_wf(kind, handles@, consts@, store_view(*store), store.consts@.len() as int)) by {
                        if shape_wf(kind, handles@, consts@, store_view(*store), store.consts@.len() as int) {
                            assert((consts@[i as int] as int) < store.consts@.len() as int);
                        }
                    }
                }
                return Err(BuildError::InvalidHandle);
            }
            i += 1;
        }
        let shape_ok: bool = match kind {
            Kernel::ElementwiseMultiply | Kernel::ElementwiseDivide | Kernel::Add
                | Kernel::Copy => {
                nh == 2 && store.buffer_len(handles[0]) == store.buffer_len(handles[1])
            },
            Kernel::ScalarMultiply | Kernel::ScalarAdd | Kernel::Modulo => {
                nh == 1 && consts.len() == 1
            },
            Kernel::Sin | Kernel::Cos | Kernel::Sqrt => { nh == 1 },
            Kernel::Convolution => {
                nh == 3 && store.buffer_len(handles[0]) >= 1 && store.buffer_len(handles[1])
                    >= 1 && (store.buffer_len(handles[2]) as u128) == (store.buffer_len(
                    handles[0],
                ) as u128) + (store.buffer_len(handles[1]) as u128) - 1
            },
            Kernel::Fetch => {
                nh == 3 && store.buffer_len(handles[2]) == store.buffer_len(handles[1])
                    && (store.buffer_len(handles[0]) as u64) < 0x7fff_ffff_ffff_ffff
            },
            Kernel::Dft | Kernel::Idft => {
                nh == 4 && store.buffer_len(handles[1]) == store.buffer_len(handles[0])
                    && store.buffer_len(handles[2]) == store.buffer_len(handles[0])
                    && store.buffer_len(handles[3]) == store.buffer_len(handles[0])
                    && store.buffer_len(handles[0]) <= DFT_MAX_LEN
            },
        };
        if !shape_ok {
            return Err(BuildError::ShapeMismatch);
        }
        self.nodes.push(OpNode { kind, bufs: handles, consts });
        Ok(())
    }
}

/// The typed builder entry points, one per kernel kind.
impl WorkflowBuilder {
    /// Append a pointwise multiply: buffer `b` accumulates its product with `a`.
    /// Validates the operands against the store; on any mismatch the
    /// graph is left unchanged.
    pub fn pointwise_multiply_f32(&mut self, store: &Store, a: usize, b: usize) -> (r: Result<
        (),
        BuildError,
    >)
        ensures
            r.is_err() ==> final(self).nodes == old(self).nodes,
            r.is_ok() ==> final(self).nodes@.len() == old(self).nodes@.len() + 1,
            forall|j: int|
                0 <= j < old(self).nodes@.len() ==> final(self).nodes@[j] == old(self).nodes@[j],
            r.is_ok() <==> shape_wf(
                Kernel::ElementwiseMultiply,
                seq![a, b],
                Seq::<usize>::empty(),
                store_view(*store),
                store.consts@.len() as int,
            ),
            r.is_ok() ==> final(self).nodes@.last().kind == Kernel::ElementwiseMultiply && final(self).nodes@.last().bufs@ == seq![a, b] && final(self).nodes@.last().consts@ == Seq::<usize>::empty(),
    {
        let mut handles: Vec<usize> = Vec::new();
        handles.push(a);
        handles.push(b);
        let mut consts: Vec<usize> = Vec::new();

        proof {
            assert(handles@ =~= seq![a, b]);
            assert(consts@ =~= Seq::<usize>::empty());
        }
        self.append_node(store, Kernel::ElementwiseMultiply, handles, consts)
    }

    /// Append an elementwise divide: buffer `b` is divided by `a`.
    /// Validates the operands against the store; on any mismatch the
    /// graph is left unchanged.
    pub fn elementwise_divide_f32(&mut self, store: &Store, a: usize, b: usize) -> (r: Result<
        (),
        BuildError,
    >)
        ensures
            r.is_err() ==> final(self).nodes == old(self).nodes,
            r.is_ok() ==> final(self).nodes@.len() == old(self).nodes@.len() + 1,
            forall|j: int|
                0 <= j < old(self).nodes@.len() ==> final(self).nodes@[j] == old(self).nodes@[j],
            r.is_ok() <==> shape_wf(
                Kernel::ElementwiseDivide,
                seq![a, b],
                Seq::<usize>::empty(),
                store_view(*store),
                store.consts@.len() as int,
            ),
            r.is_ok() ==> final(self).nodes@.last().kind == Kernel::ElementwiseDivide && final(self).nodes@.last().bufs@ == seq![a, b] && final(self).nodes@.last().consts@ == Seq::<usize>::empty(),
    {
        let mut handles: Vec<usize> = Vec::new();
        handles.push(a);
        handles.push(b);
        let mut consts: Vec<usize> = Vec::new();

        proof {
            assert(handles@ =~= seq![a, b]);
            assert(consts@ =~= Seq::<usize>::empty());
        }
        self.append_node(store, Kernel::ElementwiseDivide, handles, consts)
    }

    /// Append an elementwise add: buffer `b` accumulates `a`.
    /// Validates the operands against the store; on any mismatch the
    /// graph is left unchanged.
    pub fn add_f32(&mut self, store: &Store, a: usize, b: usize) -> (r: Result<
        (),
        BuildError,
    >)
        ensures
            r.is_err() ==> final(self).nodes == old(self).nodes,
            r.is_ok() ==> final(self).nodes@.len() == old(self).nodes@.len() + 1,
            forall|j: int|
                0 <= j < old(self).nodes@.len() ==> final(self).nodes@[j] == old(self).nodes@[j],
            r.is_ok() <==> shape_wf(
                Kernel::Add,
                seq![a, b],
                Seq::<usize>::empty(),
                store_view(*store),
                store.consts@.len() as int,
            ),
            r.is_ok() ==> final(self).nodes@.last().kind == Kernel::Add && final(self).nodes@.last().bufs@ == seq![a, b] && final(self).nodes@.last().consts@ == Seq::<usize>::empty(),
    {
        let mut handles: Vec<usize> = Vec::new();
        handles.push(a);
        handles.push(b);
        let mut consts: Vec<usize> = Vec::new();

        proof {
            assert(handles@ =~= seq![a, b]);
            assert(consts@ =~= Seq::<usize>::empty());
        }
        self.append_node(store, Kernel::Add, handles, consts)
    }

    /// Append a copy of buffer `a` into `b`.
    /// Validates the operands against the store; on any mismatch the
    /// graph is left unchanged.
    pub fn copy_f32(&mut self, store: &Store, a: usize, b: usize) -> (r: Result<
        (),
        BuildError,
    >)
        ensures
            r.is_err() ==> final(self).nodes == old(self).nodes,
            r.is_ok() ==> final(self).nodes@.len() == old(self).nodes@.len() + 1,
            forall|j: int|
                0 <= j < old(self).nodes@.len() ==> final(self).nodes@[j] == old(self).nodes@[j],
            r.is_ok() <==> shape_wf(
                Kernel::Copy,
                seq![a, b],
                Seq::<usize>::empty(),
                store_view(*store),
                store.consts@.len() as int,
            ),
            r.is_ok() ==> final(self).nodes@.last().kind == Kernel::Copy && final(self).nodes@.last().bufs@ == seq![a, b] && final(self).nodes@.last().consts@ == Seq::<usize>::empty(),
    {
        let mut handles: Vec<usize> = Vec::new();
        handles.push(a);
        handles.push(b);
        let mut consts: Vec<usize> = Vec::new();

        proof {
            assert(handles@ =~= seq![a, b]);
            assert(consts@ =~= Seq::<usize>::empty());
        }
        self.append_node(store, Kernel::Copy, handles, consts)
    }

    /// Append a full linear convolution of `a` and `b` into `dest`.
    /// Validates the operands against the store; on any mismatch the
    /// graph is left unchanged.
    pub fn convolution_f32(&mut self, store: &Store, a: usize, b: usize, dest: usize) -> (r: Result<
        (),
        BuildError,
    >)
        ensures
            r.is_err() ==> final(self).nodes == old(self).nodes,
            r.is_ok() ==> final(self).nodes@.len() == old(self).nodes@.len() + 1,
            forall|j: int|
                0 <= j < old(self).nodes@.len() ==> final(self).nodes@[j] == old(self).nodes@[j],
            r.is_ok() <==> shape_wf(
                Kernel::Convolution,
                seq![a, b, dest],
                Seq::<usize>::empty(),
                store_view(*store),
                store.consts@.len() as int,
            ),
            r.is_ok() ==> final(self).nodes@.last().kind == Kernel::Convolution && final(self).nodes@.last().bufs@ == seq![a, b, dest] && final(self).nodes@.last().consts@ == Seq::<usize>::empty(),
    {
        let mut handles: Vec<usize> = Vec::new();
        handles.push(a);
        handles.push(b);
        handles.push(dest);
        let mut consts: Vec<usize> = Vec::new();

        proof {
            assert(handles@ =~= seq![a, b, dest]);
            assert(consts@ =~= Seq::<usize>::empty());
        }
        self.append_node(store, Kernel::Convolution, handles, consts)
    }

    /// Append a scalar multiply of buffer `a` by constant `s`.
    /// Validates the operands against the store; on any mismatch the
    /// graph is left unchanged.
    pub fn scalar_multiply_f32(&mut self, store: &Store, a: usize, s: usize) -> (r: Result<
        (),
        BuildError,
    >)
        ensures
            r.is_err() ==> final(self).nodes == old(self).nodes,
            r.is_ok() ==> final(self).nodes@.len() == old(self).nodes@.len() + 1,
            forall|j: int|
                0 <= j < old(self).nodes@.len() ==> final(self).nodes@[j] == old(self).nodes@[j],
            r.is_ok() <==> shape_wf(
                Kernel::ScalarMultiply,
                seq![a],
                seq![s],
                store_view(*store),
                store.consts@.len() as int,
            ),
            r.is_ok() ==> final(self).nodes@.last().kind == Kernel::ScalarMultiply && final(self).nodes@.last().bufs@ == seq![a] && final(self).nodes@.last().consts@ == seq![s],
    {
        let mut handles: Vec<usize> = Vec::new();
        handles.push(a);
        let mut consts: Vec<usize> = Vec::new();
        consts.push(s);
        proof {
            assert(handles@ =~= seq![a]);
            assert(consts@ =~= seq![s]);
        }
        self.append_node(store, Kernel::ScalarMultiply, handles, consts)
    }

    /// Append a scalar add of constant `s` into buffer `a`.
    /// Validates the operands against the store; on any mismatch the
    /// graph is left unchanged.
    pub fn scalar_add_f32(&mut self, store: &Store, a: usize, s: usize) -> (r: Result<
        (),
        BuildError,
    >)
        ensures
            r.is_err() ==> final(self).nodes == old(self).nodes,
            r.is_ok() ==> final(self).nodes@.len() == old(self).nodes@.len() + 1,
            forall|j: int|
                0 <= j < old(self).nodes@.len() ==> final(self).nodes@[j] == old(self).nodes@[j],
            r.is_ok() <==> shape_wf(
                Kernel::ScalarAdd,
                seq![a],
                seq![s],
                store_view(*store),
                store.consts@.len() as int,
            ),
            r.is_ok() ==> final(self).nodes@.last().kind == Kernel::ScalarAdd && final(self).nodes@.last().bufs@ == seq![a] && final(self).nodes@.last().consts@ == seq![s],
    {
        let mut handles: Vec<usize> = Vec::new();
        handles.push(a);
        let mut consts: Vec<usize> = Vec::new();
        consts.push(s);
        proof {
            assert(handles@ =~= seq![a]);
            assert(consts@ =~= seq![s]);
        }
        self.append_node(store, Kernel::ScalarAdd, handles, consts)
    }

    /// Append a reduction of buffer `a` modulo constant `s`.
    /// Validates the operands against the store; on any mismatch the
    /// graph is left unchanged.
    pub fn mod_f32(&mut self, store: &Store, a: usize, s: usize) -> (r: Result<
        (),
        BuildError,
    >)
        ensures
            r.is_err() ==> final(self).nodes == old(self).nodes,
            r.is_ok() ==> final(self).nodes@.len() == old(self).nodes@.len() + 1,
            forall|j: int|
                0 <= j < old(self).nodes@.len() ==> final(self).nodes@[j] == old(self).nodes@[j],
            r.is_ok() <==> shape_wf(
                Kernel::Modulo,
                seq![a],
                seq![s],
                store_view(*store),
                store.consts@.len() as int,
            ),
            r.is_ok() ==> final(self).nodes@.last().kind == Kernel::Modulo && final(self).nodes@.last().bufs@ == seq![a] && final(self).nodes@.last().consts@ == seq![s],
    {
        let mut handles: Vec<usize> = Vec::new();
        handles.push(a);
        let mut consts: Vec<usize> = Vec::new();
        consts.push(s);
        proof {
            assert(handles@ =~= seq![a]);
            assert(consts@ =~= seq![s]);
        }
        self.append_node(store, Kernel::Modulo, handles, consts)
    }

    /// Append an in-place sine map over buffer `a`.
    /// Validates the operands against the store; on any mismatch the
    /// graph is left unchanged.
    pub fn sin_f32(&mut self, store: &Store, a: usize) -> (r: Result<
        (),
        BuildError,
    >)
        ensures
            r.is_err() ==> final(self).nodes == old(self).nodes,
            r.is_ok() ==> final(self).nodes@.len() == old(self).nodes@.len() + 1,
            forall|j: int|
                0 <= j < old(self).nodes@.len() ==> final(self).nodes@[j] == old(self).nodes@[j],
            r.is_ok() <==> shape_wf(
                Kernel::Sin,
                seq![a],
                Seq::<usize>::empty(),
                store_view(*store),
                store.consts@.len() as int,
            ),
            r.is_ok() ==> final(self).nodes@.last().kind == Kernel::Sin && final(self).nodes@.last().bufs@ == seq![a] && final(self).nodes@.last().consts@ == Seq::<usize>::empty(),
    {
        let mut handles: Vec<usize> = Vec::new();
        handles.push(a);
        let mut consts: Vec<usize> = Vec::new();

        proof {
            assert(handles@ =~= seq![a]);
            assert(consts@ =~= Seq::<usize>::empty());
        }
        self.append_node(store, Kernel::Sin, handles, consts)
    }

    /// Append an in-place cosine map over buffer `a`.
    /// Validates the operands against the store; on any mismatch the
    /// graph is left unchanged.
    pub fn cos_f32(&mut self, store: &Store, a: usize) -> (r: Result<
        (),
        BuildError,
    >)
        ensures
            r.is_err() ==> final(self).nodes == old(self).nodes,
            r.is_ok() ==> final(self).nodes@.len() == old(self).nodes@.len() + 1,
            forall|j: int|
                0 <= j < old(self).nodes@.len() ==> final(self).nodes@[j] == old(self).nodes@[j],
            r.is_ok() <==> shape_wf(
                Kernel::Cos,
                seq![a],
                Seq::<usize>::empty(),
                store_view(*store),
                store.consts@.len() as int,
            ),
            r.is_ok() ==> final(self).nodes@.last().kind == Kernel::Cos && final(self).nodes@.last().bufs@ == seq![a] && final(self).nodes@.last().consts@ == Seq::<usize>::empty(),
    {
        let mut handles: Vec<usize> = Vec::new();
        handles.push(a);
        let mut consts: Vec<usize> = Vec::new();

        proof {
            assert(handles@ =~= seq![a]);
            assert(consts@ =~= Seq::<usize>::empty());
        }
        self.append_node(store, Kernel::Cos, handles, consts)
    }

    /// Append an in-place square-root map over buffer `a`.
    /// Validates the operands against the store; on any mismatch the
    /// graph is left unchanged.
    pub fn sqrt_f32(&mut self, store: &Store, a: usize) -> (r: Result<
        (),
        BuildError,
    >)
        ensures
            r.is_err() ==> final(self).nodes == old(self).nodes,
            r.is_ok() ==> final(self).nodes@.len() == old(self).nodes@.len() + 1,
            forall|j: int|
                0 <= j < old(self).nodes@.len() ==> final(self).nodes@[j] == old(self).nodes@[j],
            r.is_ok() <==> shape_wf(
                Kernel::Sqrt,
                seq![a],
                Seq::<usize>::empty(),
                store_view(*store),
                store.consts@.len() as int,
            ),
            r.is_ok() ==> final(self).nodes@.last().kind == Kernel::Sqrt && final(self).nodes@.last().bufs@ == seq![a] && final(self).nodes@.last().consts@ == Seq::<usize>::empty(),
    {
        let mut handles: Vec<usize> = Vec::new();
        handles.push(a);
        let mut consts: Vec<usize> = Vec::new();

        proof {
            assert(handles@ =~= seq![a]);
            assert(consts@ =~= Seq::<usize>::empty());
        }
        self.append_node(store, Kernel::Sqrt, handles, consts)
    }

    /// Append a gather of `src` elements selected by `idx` into `dest`.
    /// Validates the operands against the store; on any mismatch the
    /// graph is left unchanged.
    pub fn fetch_f32(&mut self, store: &Store, src: usize, idx: usize, dest: usize) -> (r: Result<
        (),
        BuildError,
    >)
        ensures
            r.is_err() ==> final(self).nodes == old(self).nodes,
            r.is_ok() ==> final(self).nodes@.len() == old(self).nodes@.len() + 1,
            forall|j: int|
                0 <= j < old(self).nodes@.len() ==> final(self).nodes@[j] == old(self).nodes@[j],
            r.is_ok() <==> shape_wf(
                Kernel::Fetch,
                seq![src, idx, dest],
                Seq::<usize>::empty(),
                store_view(*store),
                store.consts@.len() as int,
            ),
            r.is_ok() ==> final(self).nodes@.last().kind == Kernel::Fetch && final(self).nodes@.last().bufs@ == seq![src, idx, dest] && final(self).nodes@.last().consts@ == Seq::<usize>::empty(),
    {
        let mut handles: Vec<usize> = Vec::new();
        handles.push(src);
        handles.push(idx);
        handles.push(dest);
        let mut consts: Vec<usize> = Vec::new();

        proof {
            assert(handles@ =~= seq![src, idx, dest]);
            assert(consts@ =~= Seq::<usize>::empty());
        }
        self.append_node(store, Kernel::Fetch, handles, consts)
    }

    /// Append a forward transform of the complex source into the complex destination.
    /// Validates the operands against the store; on any mismatch the
    /// graph is left unchanged.
    pub fn dft_f32(&mut self, store: &Store, i_src: usize, q_src: usize, i_dest: usize, q_dest: usize) -> (r: Result<
        (),
        BuildError,
    >)
        ensures
            r.is_err() ==> final(self).nodes == old(self).nodes,
            r.is_ok() ==> final(self).nodes@.len() == old(self).nodes@.len() + 1,
            forall|j: int|
                0 <= j < old(self).nodes@.len() ==> final(self).nodes@[j] == old(self).nodes@[j],
            r.is_ok() <==> shape_wf(
                Kernel::Dft,
                seq![i_src, q_src, i_dest, q_dest],
                Seq::<usize>::empty(),
                store_view(*store),
                store.consts@.len() as int,
            ),
            r.is_ok() ==> final(self).nodes@.last().kind == Kernel::Dft && final(self).nodes@.last().bufs@ == seq![i_src, q_src, i_dest, q_dest] && final(self).nodes@.last().consts@ == Seq::<usize>::empty(),
    {
        let mut handles: Vec<usize> = Vec::new();
        handles.push(i_src);
        handles.push(q_src);
        handles.push(i_dest);
        handles.push(q_dest);
        let mut consts: Vec<usize> = Vec::new();

        proof {
            assert(handles@ =~= seq![i_src, q_src, i_dest, q_dest]);
            assert(consts@ =~= Seq::<usize>::empty());
        }
        self.append_node(store, Kernel::Dft, handles, consts)
    }

    /// Append an inverse transform of the complex source into the complex destination.
    /// Validates the operands against the store; on any mismatch the
    /// graph is left unchanged.
    pub fn idft_f32(&mut self, store: &Store, i_src: usize, q_src: usize, i_dest: usize, q_dest: usize) -> (r: Result<
        (),
        BuildError,
    >)
        ensures
            r.is_err() ==> final(self).nodes == old(self).nodes,
            r.is_ok() ==> final(self).nodes@.len() == old(self).nodes@.len() + 1,
            forall|j: int|
                0 <= j < old(self).nodes@.len() ==> final(self).nodes@[j] == old(self).nodes@[j],
            r.is_ok() <==> shape_wf(
                Kernel::Idft,
                seq![i_src, q_src, i_dest, q_dest],
                Seq::<usize>::empty(),
                store_view(*store),
                store.consts@.len() as int,
            ),
            r.is_ok() ==> final(self).nodes@.last().kind == Kernel::Idft && final(self).nodes@.last().bufs@ == seq![i_src, q_src, i_dest, q_dest] && final(self).nodes@.last().consts@ == Seq::<usize>::empty(),
    {
        let mut handles: Vec<usize> = Vec::new();
        handles.push(i_src);
        handles.push(q_src);
        handles.push(i_dest);
        handles.push(q_dest);
        let mut consts: Vec<usize> = Vec::new();

        proof {
            assert(handles@ =~= seq![i_src, q_src, i_dest, q_dest]);
            assert(consts@ =~= Seq::<usize>::empty());
        }
        self.append_node(store, Kernel::Idft, handles, consts)
    }

}

} // verus!
