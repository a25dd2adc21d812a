//! Pipeline elements built over the core: the waterfall chart's
//! spectral computation and the low-pass filter element.

use vstd::prelude::*;

use crate::fixed::{
    in_range, tdiv, fx_add, fx_mul, fx_sqrt, add_fx, mul_fx, sqrt_fx, tdiv_i64, ONE,
};
use crate::graph::{Store, WorkflowBuilder, BuildError, store_view, store_wf, graph_wf, Kernel};
use crate::kernels::{buf_in_range, DFT_MAX_LEN};
use crate::complex::{Cpx, ComplexArrayView, view_wf, cpx_in_range};
use crate::fir::{shift_amount, shift_amount_of, rotate_right, fir_lpf_dft, filter_pipeline_appended, lpf_val, zero_seq, shift_index_seq};

verus! {

/// The pixel intensity of one spectral bin: the magnitude of the
/// complex value, divided by the bin count, scaled to the eight-bit
/// range and truncated to it.
pub open spec fn pixel_val(re: i64, im: i64, len: int) -> int {
    let mag = fx_sqrt(fx_add(fx_mul(re, re), fx_mul(im, im)));
    let t = tdiv(mag as int, len);
    let p = tdiv(t * 255, ONE as int);
    if p < 0 {
        0
    } else if p > 255 {
        255
    } else {
        p
    }
}

/// A spectral display element: it owns a complex result pair into
/// which its graph nodes write the transform of the incoming samples,
/// and turns those bins into pixel intensities each tick.
pub struct WaterfallChart {
    /// The number of spectral bins displayed.
    pub len: usize,
    /// The complex pair holding the latest transform output.
    pub arr: ComplexArrayView,
}

impl WaterfallChart {
    /// Create the element, registering its result pair in the store.
    pub fn new(store: &mut Store, len: usize) -> (w: WaterfallChart)
        ensures
            w.len == len,
            w.arr.len == len,
            view_wf(w.arr, *final(store)),
            final(store).bufs@.len() == old(store).bufs@.len() + 2,
            final(store).consts == old(store).consts,
            forall|j: int|
                0 <= j < old(store).bufs@.len() ==> store_view(*final(store))[j] == store_view(
                    *old(store),
                )[j],
            store_view(*final(store))[w.arr.re as int] == zero_seq(len as int),
            store_view(*final(store))[w.arr.im as int] == zero_seq(len as int),
            store_wf(*old(store)) ==> store_wf(*final(store)),
    {
        let mut zeros: Vec<Cpx> = Vec::new();
        let mut i: usize = 0;
        while i < len
            invariant
                0 <= i <= len,
                zeros@.len() == i,
                cpx_in_range(zeros@),
                forall|t: int| 0 <= t < i ==> (#[trigger] zeros@[t]).re == 0 && zeros@[t].im == 0,
            decreases len - i,
        {
            zeros.push(Cpx { re: 0, im: 0 });
            i += 1;
        }
        let arr = ComplexArrayView::new(store, &zeros);
        proof {
            assert(store_view(*store)[arr.re as int] =~= zero_seq(len as int));
            assert(store_view(*store)[arr.im as int] =~= zero_seq(len as int));
        }
        WaterfallChart { len, arr }
    }

    /// Append this element's setup to the graph: reset the result
    /// pair from a fresh zero pair, then transform the incoming
    /// samples into it.
    pub fn init(
        &self,
        builder: &mut WorkflowBuilder,
        store: &mut Store,
        samples: &ComplexArrayView,
    ) -> (r: Result<(), BuildError>)
        requires
            view_wf(self.arr, *old(store)),
            view_wf(*samples, *old(store)),
            samples.len == self.len,
            self.arr.len == self.len,
            0 < self.len <= DFT_MAX_LEN,
            store_wf(*old(store)),
            samples.re != self.arr.re,
            samples.re != self.arr.im,
            samples.im != self.arr.re,
            samples.im != self.arr.im,
        ensures
            r.is_ok(),
            store_wf(*final(store)),
            final(store).consts == old(store).consts,
            final(store).bufs@.len() == old(store).bufs@.len() + 2,
            forall|j: int|
                0 <= j < old(store).bufs@.len() ==> store_view(*final(store))[j] == store_view(
                    *old(store),
                )[j],
            final(builder).nodes@.len() == old(builder).nodes@.len() + 3,
            forall|j: int|
                0 <= j < old(builder).nodes@.len() ==> final(builder).nodes@[j] == old(
                    builder,
                ).nodes@[j],
            final(builder).nodes@[old(builder).nodes@.len() as int].kind == Kernel::Copy,
            final(builder).nodes@[old(builder).nodes@.len() as int].bufs@ == seq![
                old(store).bufs@.len() as usize,
                self.arr.re,
            ],
            final(builder).nodes@[old(builder).nodes@.len() + 1 as int].kind == Kernel::Copy,
            final(builder).nodes@[old(builder).nodes@.len() + 1 as int].bufs@ == seq![
                (old(store).bufs@.len() + 1) as usize,
                self.arr.im,
            ],
            final(builder).nodes@[old(builder).nodes@.len() + 2 as int].kind == Kernel::Dft,
            final(builder).nodes@[old(builder).nodes@.len() + 2 as int].bufs@ == seq![
                samples.re,
                samples.im,
                self.arr.re,
                self.arr.im,
            ],
            store_view(*final(store))[old(store).bufs@.len() as int] == zero_seq(self.len as int),
            store_view(*final(store))[(old(store).bufs@.len() + 1) as int] == zero_seq(
                self.len as int,
            ),
            graph_wf(
                old(builder).nodes@,
                store_view(*old(store)),
                old(store).consts@.len() as int,
            ) ==> graph_wf(
                final(builder).nodes@,
                store_view(*final(store)),
                final(store).consts@.len() as int,
            ),
    {
        let ghost v0 = store_view(*old(store));
        let mut zeros: Vec<Cpx> = Vec::new();
        let mut i: usize = 0;
        while i < self.len
            invariant
                0 <= i <= self.len,
                zeros@.len() == i,
                cpx_in_range(zeros@),
                forall|t: int| 0 <= t < i ==> (#[trigger] zeros@[t]).re == 0 && zeros@[t].im == 0,
            decreases self.len - i,
        {
            zeros.push(Cpx { re: 0, im: 0 });
            i += 1;
        }
        let zero_arr = ComplexArrayView::new(store, &zeros);
        proof {
            assert(store_view(*store)[zero_arr.re as int] =~= zero_seq(self.len as int));
            assert(store_view(*store)[zero_arr.im as int] =~= zero_seq(self.len as int));
        }
        let r1 = builder.copy_f32(store, zero_arr.re, self.arr.re);
        let r2 = builder.copy_f32(store, zero_arr.im, self.arr.im);
        let r3 = builder.dft_f32(store, samples.re, samples.im, self.arr.re, self.arr.im);
        proof {
            assert(r1.is_ok());
            assert(r2.is_ok());
            assert(r3.is_ok());
            if graph_wf(old(builder).nodes@, v0, old(store).consts@.len() as int) {
                crate::fir::lemma_graph_wf_grow(
                    old(builder).nodes@,
                    v0,
                    store_view(*store),
                    old(store).consts@.len() as int,
                );
            }
        }
        Ok(())
    }

    /// Compute one display row from the element's result pair: the
    /// bins are spectrally shifted so the zero frequency is centered,
    /// and each becomes an eight-bit magnitude.
    pub fn pixel_row(&self, store: &Store) -> (r: Vec<u8>)
        requires
            view_wf(self.arr, *store),
            self.arr.len == self.len,
            0 < self.len <= DFT_MAX_LEN,
            store_wf(*store),
        ensures
            r@.len() == self.len,
            forall|j: int|
                0 <= j < self.len ==> (#[trigger] r@[j]) as int == pixel_val(
                    rotate_right(
                        store_view(*store)[self.arr.re as int],
                        shift_amount(self.len as int),
                    )[j],
                    rotate_right(
                        store_view(*store)[self.arr.im as int],
                        shift_amount(self.len as int),
                    )[j],
                    self.len as int,
                ),
    {
        let n = self.len;
        let k = shift_amount_of(n);
        let ghost res = rotate_right(store_view(*store)[self.arr.re as int], k as int);
        let ghost ims = rotate_right(store_view(*store)[self.arr.im as int], k as int);
        let mut out: Vec<u8> = Vec::new();
        let mut j: usize = 0;
        while j < n
            invariant
                n == self.len,
                0 < n <= DFT_MAX_LEN,
                k as int == shift_amount(n as int),
                k <= n,
                view_wf(self.arr, *store),
                self.arr.len == n,
                store_wf(*store),
                res == rotate_right(store_view(*store)[self.arr.re as int], k as int),
                ims == rotate_right(store_view(*store)[self.arr.im as int], k as int),
                0 <= j <= n,
                out@.len() == j,
                forall|t: int|
                    0 <= t < j ==> (#[trigger] out@[t]) as int == pixel_val(
                        res[t],
                        ims[t],
                        n as int,
                    ),
            decreases n - j,
        {
            let src = (j + n - k) % n;
            let re = store.bufs[self.arr.re][src];
            let im = store.bufs[self.arr.im][src];
            proof {
                assert(buf_in_range(store_view(*store)[self.arr.re as int]));
                assert(buf_in_range(store_view(*store)[self.arr.im as int]));
                assert(res[j as int] == re && ims[j as int] == im);
            }
            let mag = sqrt_fx(add_fx(mul_fx(re, re), mul_fx(im, im)));
            let t = tdiv_i64(mag, n as i64);
            let p = tdiv_i64(t * 255, ONE);
            let px: u8 = if p < 0 {
                0
            } else if p > 255 {
                255
            } else {
                p as u8
            };
            out.push(px);
            j += 1;
        }
        out
    }

    /// This element finishes the pipeline segment it displays.
    pub fn halt(&self) -> (r: bool)
        ensures
            r,
    {
        true
    }

    /// This element consumes samples; it produces none.
    pub fn is_source(&self) -> (r: bool)
        ensures
            !r,
    {
        false
    }
}

/// A low-pass filter element: plain numeric configuration applied to
/// the samples through the frequency-domain pipeline at setup.
pub struct LPF {
    /// The linear attenuation slope beyond the cutoff.
    pub roll_off: i64,
    /// The stream's sample rate.
    pub sample_rate: i64,
    /// The frequency above which the mask attenuates.
    pub cutoff_frequency: i64,
}

impl LPF {
    /// Create the element from its configuration.
    pub fn new(cutoff_frequency: i64, sample_rate: i64, roll_off: i64) -> (r: LPF)
        ensures
            r.cutoff_frequency == cutoff_frequency,
            r.sample_rate == sample_rate,
            r.roll_off == roll_off,
    {
        LPF { roll_off, sample_rate, cutoff_frequency }
    }

    /// Append this element's setup: the low-pass pipeline over the
    /// samples, at full passband gain.
    pub fn init(
        &self,
        builder: &mut WorkflowBuilder,
        store: &mut Store,
        samples: &ComplexArrayView,
    ) -> (r: Result<(), BuildError>)
        requires
            view_wf(*samples, *old(store)),
            0 < samples.len <= 0x10000,
            store_wf(*old(store)),
            self.sample_rate > 0,
            in_range(self.sample_rate as int),
            in_range(self.cutoff_frequency as int),
            in_range(self.roll_off as int),
        ensures
            r.is_ok(),
            store_wf(*final(store)),
            final(store).consts == old(store).consts,
            final(store).bufs@.len() == old(store).bufs@.len() + 7,
            forall|j: int|
                0 <= j < old(store).bufs@.len() ==> store_view(*final(store))[j] == store_view(
                    *old(store),
                )[j],
            view_wf(*samples, *final(store)),
            store_view(*final(store))[old(store).bufs@.len() as int] == Seq::new(
                samples.len as nat,
                |i: int|
                    lpf_val(
                        i,
                        samples.len as int,
                        self.sample_rate,
                        self.cutoff_frequency,
                        self.roll_off,
                        ONE,
                    ),
            ),
            final(builder).nodes@.len() == old(builder).nodes@.len() + 12,
            forall|j: int|
                0 <= j < old(builder).nodes@.len() ==> final(builder).nodes@[j] == old(
                    builder,
                ).nodes@[j],
            filter_pipeline_appended(
                final(builder).nodes@,
                old(builder).nodes@.len() as int,
                samples.re,
                samples.im,
                old(store).bufs@.len() as usize,
                (old(store).bufs@.len() + 1) as int,
            ),
            store_view(*final(store))[(old(store).bufs@.len() + 1) as int] == zero_seq(
                samples.len as int,
            ),
            store_view(*final(store))[(old(store).bufs@.len() + 2) as int] == zero_seq(
                samples.len as int,
            ),
            store_view(*final(store))[(old(store).bufs@.len() + 3) as int] == shift_index_seq(
                samples.len as int,
                shift_amount(samples.len as int),
            ),
            store_view(*final(store))[(old(store).bufs@.len() + 5) as int] == shift_index_seq(
                samples.len as int,
                shift_amount(samples.len as int),
            ),
            graph_wf(
                old(builder).nodes@,
                store_view(*old(store)),
                old(store).consts@.len() as int,
            ) ==> graph_wf(
                final(builder).nodes@,
                store_view(*final(store)),
                final(store).consts@.len() as int,
            ),
    {
        fir_lpf_dft(
            builder,
            store,
            samples,
            self.sample_rate,
            self.cutoff_frequency,
            self.roll_off,
            ONE,
        )
    }

    /// This element does not finish the pipeline.
    pub fn halt(&self) -> (r: bool)
        ensures
            !r,
    {
        false
    }

    /// This element consumes samples; it produces none.
    pub fn is_source(&self) -> (r: bool)
        ensures
            !r,
    {
        false
    }
}

/// A source element that mixes a generated carrier wave into the
/// stream. The oscillator that produces the wave is an outside
/// collaborator of this core; setup takes its output pair and appends
/// the mixing nodes.
pub struct SignalAdder {
    /// Samples per tick of the generated wave.
    pub sps: usize,
    /// The stream's sample rate.
    pub sample_rate: i64,
    /// The carrier frequency to mix in.
    pub frequency: i64,
}

impl SignalAdder {
    /// Create the element from its configuration.
    pub fn new(frequency: i64, sample_rate: i64, sps: usize) -> (r: SignalAdder)
        ensures
            r.frequency == frequency,
            r.sample_rate == sample_rate,
            r.sps == sps,
    {
        SignalAdder { sps, sample_rate, frequency }
    }

    /// Append this element's setup: accumulate the generated wave's
    /// components into the stream's components.
    pub fn init(
        &self,
        builder: &mut WorkflowBuilder,
        store: &Store,
        samples: &ComplexArrayView,
        wave: &ComplexArrayView,
    ) -> (r: Result<(), BuildError>)
        requires
            view_wf(*samples, *store),
            view_wf(*wave, *store),
            wave.len == samples.len,
            wave.re != samples.re,
            wave.im != samples.im,
        ensures
            r.is_ok(),
            final(builder).nodes@.len() == old(builder).nodes@.len() + 2,
            forall|j: int|
                0 <= j < old(builder).nodes@.len() ==> final(builder).nodes@[j] == old(
                    builder,
                ).nodes@[j],
            final(builder).nodes@[old(builder).nodes@.len() as int].kind == Kernel::Add,
            final(builder).nodes@[old(builder).nodes@.len() as int].bufs@ == seq![
                wave.re,
                samples.re,
            ],
            final(builder).nodes@[old(builder).nodes@.len() + 1 as int].kind == Kernel::Add,
            final(builder).nodes@[old(builder).nodes@.len() + 1 as int].bufs@ == seq![
                wave.im,
                samples.im,
            ],
            graph_wf(
                old(builder).nodes@,
                store_view(*store),
                store.consts@.len() as int,
            ) ==> graph_wf(
                final(builder).nodes@,
                store_view(*store),
                store.consts@.len() as int,
            ),
    {
        let r1 = builder.add_f32(store, wave.re, samples.re);
        let r2 = builder.add_f32(store, wave.im, samples.im);
        proof {
            assert(r1.is_ok());
            assert(r2.is_ok());
        }
        Ok(())
    }

    /// This element does not finish the pipeline.
    pub fn halt(&self) -> (r: bool)
        ensures
            !r,
    {
        false
    }

    /// This element never asks the pipeline to stop.
    pub fn stop(&self) -> (r: bool)
        ensures
            !r,
    {
        false
    }

    /// This element produces samples.
    pub fn is_source(&self) -> (r: bool)
        ensures
            r,
    {
        true
    }
}

/// A source element whose output is a generated carrier wave. The
/// oscillator itself is an outside collaborator of this core: setup
/// hands the stream the oscillator's output pair unchanged, so this
/// element only carries its configuration.
pub struct SignalGenerator {
    /// Samples per tick of the generated wave.
    pub sps: usize,
    /// The stream's sample rate.
    pub sample_rate: i64,
    /// The carrier frequency to generate.
    pub frequency: i64,
}

impl SignalGenerator {
    /// Create the element from its configuration.
    pub fn new(frequency: i64, sample_rate: i64, sps: usize) -> (r: SignalGenerator)
        ensures
            r.frequency == frequency,
            r.sample_rate == sample_rate,
            r.sps == sps,
    {
        SignalGenerator { sps, sample_rate, frequency }
    }

    /// This element does not finish the pipeline.
    pub fn halt(&self) -> (r: bool)
        ensures
            !r,
    {
        false
    }

    /// This element produces samples.
    pub fn is_source(&self) -> (r: bool)
        ensures
            r,
    {
        true
    }
}

} // verus!
