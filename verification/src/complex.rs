//! The complex array view: a pairing of one real and one imaginary
//! buffer handle of equal length, representing one logical complex
//! sequence over existing store buffers.

use vstd::prelude::*;

use crate::fixed::in_range;
use crate::graph::{Store, store_view, store_wf};
use crate::kernels::buf_in_range;

verus! {

/// One complex sample: a real and an imaginary fixed-point value.
#[derive(Clone, Copy, PartialEq, Eq, Structural)]
pub struct Cpx {
    /// The real component.
    pub re: i64,
    /// The imaginary component.
    pub im: i64,
}

/// Every component of a complex sample sequence is representable.
pub open spec fn cpx_in_range(s: Seq<Cpx>) -> bool {
    forall|i: int|
        0 <= i < s.len() ==> in_range((#[trigger] s[i]).re as int) && in_range(s[i].im as int)
}

/// A pairing of a real and an imaginary buffer handle of equal length
/// `len`; it owns no storage of its own.
pub struct ComplexArrayView {
    /// The handle of the real-component buffer.
    pub re: usize,
    /// The handle of the imaginary-component buffer.
    pub im: usize,
    /// The common length of the two buffers.
    pub len: usize,
}

/// The view names two distinct registered buffers of length `len`.
pub open spec fn view_wf(v: ComplexArrayView, s: Store) -> bool {
    &&& (v.re as int) < store_view(s).len()
    &&& (v.im as int) < store_view(s).len()
    &&& v.re != v.im
    &&& store_view(s)[v.re as int].len() == v.len
    &&& store_view(s)[v.im as int].len() == v.len
}

impl ComplexArrayView {
    /// Register the components of `samples` as two fresh buffers and
    /// pair them.
    pub fn new(store: &mut Store, samples: &Vec<Cpx>) -> (v: ComplexArrayView)
        requires
            cpx_in_range(samples@),
        ensures
            view_wf(v, *final(store)),
            v.len == samples@.len(),
            final(store).bufs@.len() == old(store).bufs@.len() + 2,
            final(store).consts == old(store).consts,
            v.re as int == old(store).bufs@.len(),
            v.im as int == old(store).bufs@.len() + 1,
            store_view(*final(store))[v.re as int] == samples@.map_values(|c: Cpx| c.re),
            store_view(*final(store))[v.im as int] == samples@.map_values(|c: Cpx| c.im),
            forall|j: int|
                0 <= j < old(store).bufs@.len() ==> store_view(*final(store))[j] == store_view(
                    *old(store),
                )[j],
            store_wf(*old(store)) ==> store_wf(*final(store)),
    {
        let n = samples.len();
        let mut re_buf: Vec<i64> = Vec::new();
        let mut im_buf: Vec<i64> = Vec::new();
        let mut i: usize = 0;
        while i < n
            invariant
                n == samples@.len(),
                0 <= i <= n,
                cpx_in_range(samples@),
                re_buf@.len() == i,
                im_buf@.len() == i,
                forall|j: int| 0 <= j < i ==> re_buf@[j] == samples@[j].re,
                forall|j: int| 0 <= j < i ==> im_buf@[j] == samples@[j].im,
                buf_in_range(re_buf@),
                buf_in_range(im_buf@),
            decreases n - i,
        {
            re_buf.push(samples[i].re);
            im_buf.push(samples[i].im);
            i += 1;
        }
        proof {
            assert(re_buf@ =~= samples@.map_values(|c: Cpx| c.re));
            assert(im_buf@ =~= samples@.map_values(|c: Cpx| c.im));
        }
        let re = store.register_buffer(re_buf);
        let im = store.register_buffer(im_buf);
        ComplexArrayView { re, im, len: n }
    }

    /// The handle of the real-component buffer, for use as a kernel
    /// operand.
    pub fn get_real_array_wrapped(&self) -> (h: usize)
        ensures
            h == self.re,
    {
        self.re
    }

    /// The handle of the imaginary-component buffer, for use as a
    /// kernel operand.
    pub fn get_imag_array_wrapped(&self) -> (h: usize)
        ensures
            h == self.im,
    {
        self.im
    }

    /// Read the paired buffers back as a complex sample sequence.
    pub fn to_vec(&self, store: &Store) -> (r: Vec<Cpx>)
        requires
            view_wf(*self, *store),
        ensures
            r@.len() == self.len,
            forall|j: int|
                0 <= j < self.len ==> (#[trigger] r@[j]).re == store_view(*store)[self.re as int][j]
                    && r@[j].im == store_view(*store)[self.im as int][j],
    {
        let mut out: Vec<Cpx> = Vec::new();
        let n = self.len;
        let mut i: usize = 0;
        while i < n
            invariant
                n == self.len,
                view_wf(*self, *store),
                0 <= i <= n,
                out@.len() == i,
                forall|j: int|
                    0 <= j < i ==> (#[trigger] out@[j]).re == store_view(*store)[self.re as int][j]
                        && out@[j].im == store_view(*store)[self.im as int][j],
            decreases n - i,
        {
            let re = store.bufs[self.re][i];
            let im = store.bufs[self.im][i];
            out.push(Cpx { re, im });
            i += 1;
        }
        out
    }
}

} // verus!
