//! Value-level tests: filter masks, the window shape, and the kernel
//! catalog's arithmetic.

use dsp_graph::complex::{ComplexArrayView, Cpx};
use dsp_graph::fixed::{ONE, VAL_MAX, HALF_PI_FX, PI_FX};
use dsp_graph::fir::{build_bpf_mask, build_hpf_mask, build_lpf_mask};
use dsp_graph::graph::{Store, WorkflowBuilder};
use dsp_graph::window::Hann;
use dsp_graph::elements::{WaterfallChart, LPF, SignalAdder, SignalGenerator};

#[test]
fn low_pass_mask_rolls_off_beyond_cutoff() {
    let mask = build_lpf_mask(8, 8 * ONE, 0, ONE, ONE).unwrap();
    assert_eq!(mask, vec![ONE, ONE, ONE, ONE, ONE, 0, 0, 0]);
    // never negative, non-increasing on the positive side
    for i in 0..7 {
        assert!(mask[i] >= 0);
        if i >= 4 {
            assert!(mask[i + 1] <= mask[i]);
        }
    }
}

#[test]
fn low_pass_mask_partial_attenuation() {
    // a gentler slope: half-strength roll-off leaves intermediate values
    let mask = build_lpf_mask(8, 8 * ONE, 0, ONE / 2, ONE).unwrap();
    assert_eq!(
        mask,
        vec![ONE, ONE, ONE, ONE, ONE, ONE / 2, 0, 0]
    );
}

#[test]
fn high_pass_mask_is_zero_below_and_scale_above() {
    let mask = build_hpf_mask(8, 8 * ONE, 0, ONE, 3 * ONE).unwrap();
    assert_eq!(
        mask,
        vec![0, 0, 0, 0, 3 * ONE, 3 * ONE, 3 * ONE, 3 * ONE]
    );
    for i in 0..8 {
        assert!(mask[i] <= 3 * ONE);
        if i < 7 {
            assert!(mask[i] <= mask[i + 1]);
        }
    }
}

#[test]
fn band_pass_mask_is_one_inside_the_band() {
    let mask = build_bpf_mask(8, 8 * ONE, ONE, -ONE, ONE).unwrap();
    assert_eq!(mask, vec![0, 0, 0, ONE, ONE, ONE, 0, 0]);
    for v in mask {
        assert!(v >= 0);
    }
}

#[test]
fn mask_rejects_bad_configuration() {
    assert!(build_lpf_mask(0, 8 * ONE, 0, ONE, ONE).is_err());
    assert!(build_lpf_mask(8, 0, 0, ONE, ONE).is_err());
    assert!(build_hpf_mask(8, -ONE, 0, ONE, ONE).is_err());
    assert!(build_bpf_mask(0, 8 * ONE, ONE, 0, ONE).is_err());
}

#[test]
fn hann_window_endpoints_and_symmetry() {
    let half = ONE / 2;
    let shape = Hann::generate_shape(8, half);
    assert_eq!(shape.len(), 8);
    assert_eq!(shape[0].re, 0);
    // at the midpoint the taper reaches twice the parameter
    assert_eq!(shape[4].re, 2 * half);
    for c in &shape {
        assert_eq!(c.re, c.im);
    }
}

#[test]
fn sine_and_cosine_kernels_hit_exact_quarter_turns() {
    let mut store = Store::new();
    let mut builder = WorkflowBuilder::new();
    let hs = store.register_buffer(vec![0, HALF_PI_FX, PI_FX, PI_FX + HALF_PI_FX]);
    let hc = store.register_buffer(vec![0, HALF_PI_FX, PI_FX, PI_FX + HALF_PI_FX]);
    builder.sin_f32(&store, hs).unwrap();
    builder.cos_f32(&store, hc).unwrap();
    builder.run_tick(&mut store).unwrap();
    let sines = store.read_buffer(hs);
    assert_eq!(sines[0], 0);
    assert_eq!(sines[1], ONE);
    assert_eq!(sines[2], 0);
    assert_eq!(sines[3], -ONE);
    let cosines = store.read_buffer(hc);
    assert_eq!(cosines[0], ONE);
    assert_eq!(cosines[1], 0);
    assert_eq!(cosines[2], -ONE);
    assert_eq!(cosines[3], 0);
}

#[test]
fn square_root_kernel_on_perfect_squares() {
    let mut store = Store::new();
    let mut builder = WorkflowBuilder::new();
    let h = store.register_buffer(vec![4 * ONE, 9 * ONE, ONE, 0, -ONE]);
    builder.sqrt_f32(&store, h).unwrap();
    builder.run_tick(&mut store).unwrap();
    // a negative input maps to zero
    assert_eq!(
        store.read_buffer(h),
        vec![2 * ONE, 3 * ONE, ONE, 0, 0]
    );
}

#[test]
fn scalar_and_elementwise_kernel_arithmetic() {
    let mut store = Store::new();
    let mut builder = WorkflowBuilder::new();
    let ha = store.register_buffer(vec![ONE, 2 * ONE]);
    let hb = store.register_buffer(vec![3 * ONE, ONE / 2]);
    let hm = store.register_buffer(vec![ONE, -ONE]);
    let s2 = store.register_scalar(2 * ONE);
    builder.add_f32(&store, ha, hb).unwrap();
    builder.scalar_multiply_f32(&store, hb, s2).unwrap();
    builder.pointwise_multiply_f32(&store, hm, hb).unwrap();
    builder.run_tick(&mut store).unwrap();
    // b = ((b + a) * 2) * m, elementwise
    assert_eq!(store.read_buffer(hb), vec![8 * ONE, -5 * ONE]);
}

#[test]
fn divide_kernel_saturates_on_zero_divisor() {
    let mut store = Store::new();
    let mut builder = WorkflowBuilder::new();
    let ha = store.register_buffer(vec![2 * ONE, 0, 0]);
    let hb = store.register_buffer(vec![ONE, ONE, -ONE]);
    builder.elementwise_divide_f32(&store, ha, hb).unwrap();
    builder.run_tick(&mut store).unwrap();
    assert_eq!(store.read_buffer(hb), vec![ONE / 2, VAL_MAX, -VAL_MAX]);
}

#[test]
fn modulo_kernel_keeps_the_dividend_sign() {
    let mut store = Store::new();
    let mut builder = WorkflowBuilder::new();
    let ha = store.register_buffer(vec![5 * ONE + ONE / 2, -(5 * ONE + ONE / 2)]);
    let s = store.register_scalar(2 * ONE);
    builder.mod_f32(&store, ha, s).unwrap();
    builder.run_tick(&mut store).unwrap();
    assert_eq!(
        store.read_buffer(ha),
        vec![ONE + ONE / 2, -(ONE + ONE / 2)]
    );
}

#[test]
fn scalar_add_and_copy_kernels() {
    let mut store = Store::new();
    let mut builder = WorkflowBuilder::new();
    let ha = store.register_buffer(vec![ONE, -ONE]);
    let hb = store.register_buffer(vec![0, 0]);
    let s = store.register_scalar(ONE / 4);
    builder.scalar_add_f32(&store, ha, s).unwrap();
    builder.copy_f32(&store, ha, hb).unwrap();
    builder.run_tick(&mut store).unwrap();
    assert_eq!(
        store.read_buffer(hb),
        vec![ONE + ONE / 4, -ONE + ONE / 4]
    );
}

#[test]
fn fetch_kernel_gathers_by_truncated_index() {
    let mut store = Store::new();
    let mut builder = WorkflowBuilder::new();
    let hsrc = store.register_buffer(vec![10, 20, 30]);
    // indices 2.5, 0.0 and -1.0: truncation and the zero floor apply
    let hidx = store.register_buffer(vec![2 * ONE + ONE / 2, 0, -ONE]);
    let hdst = store.register_buffer(vec![0, 0, 0]);
    builder.fetch_f32(&store, hsrc, hidx, hdst).unwrap();
    builder.run_tick(&mut store).unwrap();
    assert_eq!(store.read_buffer(hdst), vec![30, 10, 10]);
}

#[test]
fn waterfall_chart_renders_the_centered_spectrum() {
    let mut store = Store::new();
    let mut builder = WorkflowBuilder::new();
    let ones = vec![Cpx { re: ONE, im: 0 }, Cpx { re: ONE, im: 0 }, Cpx { re: ONE, im: 0 }, Cpx {
        re: ONE,
        im: 0,
    }];
    let samples = ComplexArrayView::new(&mut store, &ones);
    let chart = WaterfallChart::new(&mut store, 4);
    assert!(chart.halt());
    assert!(!chart.is_source());
    chart.init(&mut builder, &mut store, &samples).unwrap();
    builder.run_tick(&mut store).unwrap();
    let row = chart.pixel_row(&store);
    assert_eq!(row.len(), 4);
    // the constant signal concentrates in the centered bin at full brightness
    assert_eq!(row[2], 255);
    assert!(row[0] < 10 && row[1] < 10 && row[3] < 10);
}

#[test]
fn lpf_element_appends_the_pipeline_and_filters() {
    let mut store = Store::new();
    let mut builder = WorkflowBuilder::new();
    let ones = vec![Cpx { re: ONE, im: 0 }; 8];
    let samples = ComplexArrayView::new(&mut store, &ones);
    let element = LPF::new(0, 8 * ONE, ONE);
    assert!(!element.halt());
    assert!(!element.is_source());
    element.init(&mut builder, &mut store, &samples).unwrap();
    builder.run_tick(&mut store).unwrap();
    let re = store.read_buffer(samples.re);
    for n in 0..8 {
        assert!((re[n] - ONE).abs() < 2000);
    }
}

#[test]
fn signal_adder_mixes_a_wave_into_the_stream() {
    let mut store = Store::new();
    let mut builder = WorkflowBuilder::new();
    let stream = ComplexArrayView::new(
        &mut store,
        &vec![Cpx { re: ONE, im: 0 }, Cpx { re: 0, im: ONE }],
    );
    let wave = ComplexArrayView::new(
        &mut store,
        &vec![Cpx { re: ONE / 2, im: ONE / 4 }, Cpx { re: -ONE, im: 0 }],
    );
    let adder = SignalAdder::new(3 * ONE, 8 * ONE, 2);
    assert!(adder.is_source());
    assert!(!adder.halt());
    assert!(!adder.stop());
    adder.init(&mut builder, &store, &stream, &wave).unwrap();
    builder.run_tick(&mut store).unwrap();
    assert_eq!(
        store.read_buffer(stream.re),
        vec![ONE + ONE / 2, -ONE]
    );
    assert_eq!(store.read_buffer(stream.im), vec![ONE / 4, ONE]);
}

#[test]
fn signal_generator_carries_its_configuration() {
    let generator = SignalGenerator::new(5 * ONE, 16 * ONE, 64);
    assert_eq!(generator.frequency, 5 * ONE);
    assert_eq!(generator.sample_rate, 16 * ONE);
    assert_eq!(generator.sps, 64);
    assert!(generator.is_source());
    assert!(!generator.halt());
}
