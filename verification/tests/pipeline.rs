//! End-to-end tests of the graph pipeline: transforms, spectral
//! shifts, convolution and the frequency-domain filters.

use dsp_graph::complex::{ComplexArrayView, Cpx};
use dsp_graph::fixed::ONE;
use dsp_graph::graph::{Store, WorkflowBuilder};
use dsp_graph::fir::{fft_shift, fir_lpf_dft};

fn cpx_vec(pairs: &[(i64, i64)]) -> Vec<Cpx> {
    let mut out = Vec::new();
    for &(re, im) in pairs {
        out.push(Cpx { re, im });
    }
    out
}

#[test]
fn convolution_of_small_sequences() {
    let mut store = Store::new();
    let mut builder = WorkflowBuilder::new();
    let ha = store.register_buffer(vec![ONE, 2 * ONE]);
    let hb = store.register_buffer(vec![ONE, ONE]);
    let hd = store.register_buffer(vec![0, 0, 0]);
    builder.convolution_f32(&store, ha, hb, hd).unwrap();
    builder.run_tick(&mut store).unwrap();
    assert_eq!(store.read_buffer(hd), vec![ONE, 3 * ONE, 2 * ONE]);
}

#[test]
fn dft_of_constant_signal_concentrates_in_bin_zero() {
    let mut store = Store::new();
    let mut builder = WorkflowBuilder::new();
    let samples = cpx_vec(&[(ONE, 0), (ONE, 0), (ONE, 0), (ONE, 0)]);
    let view = ComplexArrayView::new(&mut store, &samples);
    let dest = ComplexArrayView::new(&mut store, &cpx_vec(&[(0, 0); 4]));
    builder
        .dft_f32(&store, view.re, view.im, dest.re, dest.im)
        .unwrap();
    builder.run_tick(&mut store).unwrap();
    let re = store.read_buffer(dest.re);
    let im = store.read_buffer(dest.im);
    assert_eq!(re[0], 4 * ONE);
    assert_eq!(im[0], 0);
    for k in 1..4 {
        assert!(re[k].abs() < 600, "bin {} leaked {}", k, re[k]);
        assert!(im[k].abs() < 600, "bin {} leaked {}", k, im[k]);
    }
}

#[test]
fn forward_then_inverse_transform_round_trips() {
    let mut store = Store::new();
    let mut builder = WorkflowBuilder::new();
    let input = [
        (ONE, 0),
        (ONE / 2, ONE / 4),
        (-3 * ONE / 4, ONE / 2),
        (ONE / 4, -ONE),
    ];
    let view = ComplexArrayView::new(&mut store, &cpx_vec(&input));
    let spec = ComplexArrayView::new(&mut store, &cpx_vec(&[(0, 0); 4]));
    let back = ComplexArrayView::new(&mut store, &cpx_vec(&[(0, 0); 4]));
    builder
        .dft_f32(&store, view.re, view.im, spec.re, spec.im)
        .unwrap();
    builder
        .idft_f32(&store, spec.re, spec.im, back.re, back.im)
        .unwrap();
    builder.run_tick(&mut store).unwrap();
    let re = store.read_buffer(back.re);
    let im = store.read_buffer(back.im);
    for n in 0..4 {
        assert!(
            (re[n] - input[n].0).abs() < 2000,
            "re[{}] was {} expected {}",
            n,
            re[n],
            input[n].0
        );
        assert!(
            (im[n] - input[n].1).abs() < 2000,
            "im[{}] was {} expected {}",
            n,
            im[n],
            input[n].1
        );
    }
}

#[test]
fn spectral_shift_twice_restores_even_length_order() {
    let mut store = Store::new();
    let mut builder = WorkflowBuilder::new();
    let samples = cpx_vec(&[(10, 1), (20, 2), (30, 3), (40, 4), (50, 5), (60, 6), (70, 7), (80, 8)]);
    let view = ComplexArrayView::new(&mut store, &samples);
    fft_shift(&mut builder, &mut store, &view).unwrap();
    fft_shift(&mut builder, &mut store, &view).unwrap();
    builder.run_tick(&mut store).unwrap();
    assert_eq!(
        store.read_buffer(view.re),
        vec![10, 20, 30, 40, 50, 60, 70, 80]
    );
    assert_eq!(store.read_buffer(view.im), vec![1, 2, 3, 4, 5, 6, 7, 8]);
}

#[test]
fn spectral_shift_centers_bin_zero() {
    let mut store = Store::new();
    let mut builder = WorkflowBuilder::new();
    let samples = cpx_vec(&[(11, 0), (22, 0), (33, 0), (44, 0), (55, 0)]);
    let view = ComplexArrayView::new(&mut store, &samples);
    fft_shift(&mut builder, &mut store, &view).unwrap();
    builder.run_tick(&mut store).unwrap();
    // length five rotates right by three, so bin zero lands at index three
    assert_eq!(store.read_buffer(view.re), vec![33, 44, 55, 11, 22]);
}

#[test]
fn low_pass_pipeline_keeps_mean_and_removes_high_bins() {
    let mut store = Store::new();
    let mut builder = WorkflowBuilder::new();
    let view = ComplexArrayView::new(&mut store, &cpx_vec(&[(ONE, 0); 8]));
    fir_lpf_dft(&mut builder, &mut store, &view, 8 * ONE, 0, ONE, ONE).unwrap();
    builder.run_tick(&mut store).unwrap();
    let re = store.read_buffer(view.re);
    let im = store.read_buffer(view.im);
    for n in 0..8 {
        assert!(
            (re[n] - ONE).abs() < 2000,
            "re[{}] was {} expected about {}",
            n,
            re[n],
            ONE
        );
        assert!(im[n].abs() < 2000, "im[{}] was {}", n, im[n]);
    }
}

#[test]
fn gather_with_out_of_range_index_stops_the_tick() {
    let mut store = Store::new();
    let mut builder = WorkflowBuilder::new();
    let hsrc = store.register_buffer(vec![5, 6]);
    let hidx = store.register_buffer(vec![10 * ONE, 0]);
    let hdst = store.register_buffer(vec![0, 0]);
    builder.fetch_f32(&store, hsrc, hidx, hdst).unwrap();
    assert!(builder.run_tick(&mut store).is_err());
    // the failed node left the destination untouched
    assert_eq!(store.read_buffer(hdst), vec![0, 0]);
}

#[test]
fn builder_rejects_mismatched_lengths_and_duplicates() {
    let mut store = Store::new();
    let mut builder = WorkflowBuilder::new();
    let h2 = store.register_buffer(vec![0, 0]);
    let h3 = store.register_buffer(vec![0, 0, 0]);
    assert!(builder.add_f32(&store, h2, h3).is_err());
    assert!(builder.add_f32(&store, h2, h2).is_err());
    assert!(builder.add_f32(&store, h2, 99).is_err());
    assert!(builder.scalar_multiply_f32(&store, h2, 7).is_err());
    assert_eq!(builder.run_tick(&mut store), Ok(()));
}
