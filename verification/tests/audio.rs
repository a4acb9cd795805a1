use sim_core::audio::{
    all_finite, clamp_volume, feeder_should_wait, next_output_sample, push_block, ring_capacity,
    swap_ir, Action, ConvolutionEngine, Event, OutputFormat, Phase, PipelineControl, BLOCK_SIZE,
    DEFAULT_SAMPLE_RATE, HIGH_WATER_BLOCKS,
};
use sim_core::sample::{OrderedSample, Sample};
use std::collections::VecDeque;

/// Double-precision samples, the format that audio hardware is driven with.
#[derive(Clone, Copy, Debug, PartialEq)]
struct Real(f64);

impl Sample for Real {
    fn zero_value() -> Real {
        Real(0.0)
    }
    fn one_value() -> Real {
        Real(1.0)
    }
    fn sum(a: Real, b: Real) -> Real {
        Real(a.0 + b.0)
    }
    fn difference(a: Real, b: Real) -> Real {
        Real(a.0 - b.0)
    }
    fn product(a: Real, b: Real) -> Real {
        Real(a.0 * b.0)
    }
    fn finite(self) -> bool {
        self.0.is_finite()
    }
    fn count_value(n: usize) -> Real {
        Real(n as f64)
    }
    fn zero() -> Real {
        Real(0.0)
    }
    fn one() -> Real {
        Real(1.0)
    }
    fn plus(self, other: Real) -> Real {
        Real(self.0 + other.0)
    }
    fn minus(self, other: Real) -> Real {
        Real(self.0 - other.0)
    }
    fn times(self, other: Real) -> Real {
        Real(self.0 * other.0)
    }
    fn is_finite(self) -> bool {
        self.0.is_finite()
    }
    fn from_count(n: usize) -> Real {
        Real(n as f64)
    }
}

impl OrderedSample for Real {
    fn below(a: Real, b: Real) -> bool {
        a.0 < b.0
    }

    fn less_than(self, other: Real) -> bool {
        self.0 < other.0
    }
}

fn reals(values: &[f64]) -> Vec<Real> {
    values.iter().map(|&v| Real(v)).collect()
}

fn floats(values: &[Real]) -> Vec<f64> {
    values.iter().map(|v| v.0).collect()
}

/// Direct convolution of a whole signal, the reference that block-wise
/// processing is held against.
fn full_convolution(input: &[f64], ir: &[f64]) -> Vec<f64> {
    let mut out = vec![0.0; input.len() + ir.len() - 1];
    for (i, &x) in input.iter().enumerate() {
        for (j, &h) in ir.iter().enumerate() {
            out[i + j] += x * h;
        }
    }
    out
}

#[test]
fn test_convolution_delta_passthrough() {
    let mut engine: ConvolutionEngine<Real> = ConvolutionEngine::new(8);
    let input = vec![1.0, 2.0, 3.0, 4.0, 5.0, 6.0, 7.0, 8.0];
    let output = floats(&engine.process(&reals(&input)));
    assert_eq!(output.len(), input.len());
    for (a, b) in output.iter().zip(input.iter()) {
        assert!((a - b).abs() < 1e-12, "delta passthrough failed: {a} != {b}");
    }
}

#[test]
fn test_convolution_overlap_continuity() {
    let mut engine: ConvolutionEngine<Real> = ConvolutionEngine::new(4);
    engine.set_impulse_response(reals(&[0.5, 0.5]));

    let block1 = vec![1.0, 0.0, 0.0, 0.0];
    let out1 = floats(&engine.process(&reals(&block1)));
    assert_eq!(out1.len(), 4);
    assert!((out1[0] - 0.5).abs() < 1e-12);
    assert!((out1[1] - 0.5).abs() < 1e-12);
    assert!((out1[2] - 0.0).abs() < 1e-12);
    assert!((out1[3] - 0.0).abs() < 1e-12);

    let block2 = vec![0.0, 0.0, 1.0, 0.0];
    let out2 = floats(&engine.process(&reals(&block2)));
    assert_eq!(out2.len(), 4);
    assert!((out2[0] - 0.0).abs() < 1e-12);
    assert!((out2[1] - 0.0).abs() < 1e-12);
    assert!((out2[2] - 0.5).abs() < 1e-12);
    assert!((out2[3] - 0.5).abs() < 1e-12);
}

#[test]
fn test_convolution_empty_ir() {
    let mut engine: ConvolutionEngine<Real> = ConvolutionEngine::new(4);
    engine.set_impulse_response(Vec::new());
    let input = vec![1.0, 2.0, 3.0, 4.0];
    let output = floats(&engine.process(&reals(&input)));
    assert_eq!(output.len(), 4);
    for &s in &output {
        assert!((s - 0.0).abs() < 1e-12);
    }
}

#[test]
fn test_convolution_single_sample_ir() {
    let mut engine: ConvolutionEngine<Real> = ConvolutionEngine::new(4);
    engine.set_impulse_response(reals(&[2.0]));
    let input = vec![1.0, 2.0, 3.0, 4.0];
    let output = floats(&engine.process(&reals(&input)));
    assert_eq!(output.len(), 4);
    for (i, &s) in output.iter().enumerate() {
        let expected = input[i] * 2.0;
        assert!((s - expected).abs() < 1e-12, "sample {i}: {s} != {expected}");
    }
}

#[test]
fn new_engine_holds_unit_impulse_and_no_tail() {
    let engine: ConvolutionEngine<Real> = ConvolutionEngine::new(512);
    assert_eq!(floats(engine.impulse_response()), vec![1.0]);
    assert!(engine.overlap().is_empty());
    assert_eq!(engine.block_size(), 512);
}

#[test]
fn boundary_energy_is_carried_into_the_next_block() {
    let mut engine: ConvolutionEngine<Real> = ConvolutionEngine::new(4);
    engine.set_impulse_response(reals(&[0.5, 0.5]));
    let stream = [1.0, 2.0, 3.0, 4.0, 5.0, 6.0, 7.0, 8.0];
    let whole = full_convolution(&stream, &[0.5, 0.5]);
    assert_eq!(whole, vec![0.5, 1.5, 2.5, 3.5, 4.5, 5.5, 6.5, 7.5, 4.0]);

    let out1 = floats(&engine.process(&reals(&stream[..4])));
    assert_eq!(out1, vec![0.5, 1.5, 2.5, 3.5]);
    assert_eq!(floats(engine.overlap()), vec![2.0]);

    let out2 = floats(&engine.process(&reals(&stream[4..])));
    assert_eq!(out2, vec![4.5, 5.5, 6.5, 7.5]);
    assert_eq!(floats(engine.overlap()), vec![4.0]);
}

#[test]
fn empty_block_returns_nothing_and_keeps_the_tail() {
    let mut engine: ConvolutionEngine<Real> = ConvolutionEngine::new(4);
    engine.set_impulse_response(reals(&[1.0, 0.25, 0.125]));
    let _ = engine.process(&reals(&[8.0]));
    assert_eq!(floats(engine.overlap()), vec![2.0, 1.0]);
    let out = engine.process(&[]);
    assert!(out.is_empty());
    assert_eq!(floats(engine.overlap()), vec![2.0, 1.0]);
}

#[test]
fn empty_response_keeps_the_pending_tail() {
    let mut engine: ConvolutionEngine<Real> = ConvolutionEngine::new(4);
    engine.set_impulse_response(reals(&[1.0, 0.5]));
    let _ = engine.process(&reals(&[4.0, 2.0]));
    assert_eq!(floats(engine.overlap()), vec![1.0]);
    engine.set_impulse_response(Vec::new());
    let out = floats(&engine.process(&reals(&[9.0, 9.0, 9.0])));
    assert_eq!(out, vec![0.0, 0.0, 0.0]);
    assert_eq!(floats(engine.overlap()), vec![1.0]);
}

#[test]
fn shrinking_response_carries_the_long_tail_forward() {
    // A five-tap response leaves four pending samples behind a one-sample block.
    let mut engine: ConvolutionEngine<Real> = ConvolutionEngine::new(1);
    engine.set_impulse_response(reals(&[1.0, 2.0, 3.0, 4.0, 5.0]));
    let out = floats(&engine.process(&reals(&[1.0])));
    assert_eq!(out, vec![1.0]);
    assert_eq!(floats(engine.overlap()), vec![2.0, 3.0, 4.0, 5.0]);

    // Swapped to two taps, one sample in: the convolution has two positions,
    // the tail has four. Two are consumed, two are carried and merged with
    // the one-sample spill.
    engine.set_impulse_response(reals(&[10.0, 20.0]));
    let out = floats(&engine.process(&reals(&[1.0])));
    assert_eq!(out, vec![12.0]);
    assert_eq!(floats(engine.overlap()), vec![27.0, 5.0]);

    // Swapped to one tap: nothing spills, the unconsumed rest stays as it is.
    engine.set_impulse_response(reals(&[1.0]));
    let out = floats(&engine.process(&reals(&[0.5])));
    assert_eq!(out, vec![27.5]);
    assert_eq!(floats(engine.overlap()), vec![5.0]);
}

#[test]
fn streaming_equals_whole_convolution_in_exact_arithmetic() {
    let ir: Vec<i64> = vec![3, -1, 4, 1, -5];
    let stream: Vec<i64> = vec![2, 7, -1, 8, 2, -8, 1, 8, 2, 8, -4];
    let mut whole = vec![0i64; stream.len() + ir.len() - 1];
    for (i, &x) in stream.iter().enumerate() {
        for (j, &h) in ir.iter().enumerate() {
            whole[i + j] += x * h;
        }
    }
    let mut engine: ConvolutionEngine<i64> = ConvolutionEngine::new(4);
    engine.set_impulse_response(ir.clone());
    let mut out = Vec::new();
    for block in stream.chunks(4) {
        out.extend(engine.process(block));
    }
    assert_eq!(out, whole[..stream.len()].to_vec());
    assert_eq!(engine.overlap().clone(), whole[stream.len()..].to_vec());
}

#[test]
fn exact_samples_wrap_instead_of_overflowing() {
    let mut engine: ConvolutionEngine<i64> = ConvolutionEngine::new(2);
    engine.set_impulse_response(vec![i64::MAX, 2]);
    let out = engine.process(&[2, 1]);
    assert_eq!(out, vec![-2, i64::MAX.wrapping_add(4)]);
    assert_eq!(engine.overlap().clone(), vec![2]);
    assert_eq!(<i64 as Sample>::minus(i64::MIN, 1), i64::MAX);
    assert!(<i64 as Sample>::is_finite(i64::MIN));
}

#[test]
fn test_pipeline_creation() {
    let pipeline = PipelineControl::new();
    assert!(!pipeline.is_playing());
}

#[test]
fn new_control_is_stopped_with_defaults() {
    let control = PipelineControl::new();
    assert_eq!(control.phase, Phase::Stopped);
    assert_eq!(control.block_size, 512);
    assert_eq!(control.sample_rate, 44_100);
    assert_eq!(BLOCK_SIZE, 512);
    assert_eq!(HIGH_WATER_BLOCKS, 8);
    assert_eq!(DEFAULT_SAMPLE_RATE, 44_100);
    assert!(!control.feeder_running());
}

#[test]
fn test_pipeline_volume() {
    let mut volume = clamp_volume(Real(0.75));
    assert!((volume.0 - 0.75).abs() < 1e-12);

    // Clamping
    volume = clamp_volume(Real(1.5));
    assert!((volume.0 - 1.0).abs() < 1e-12);
    volume = clamp_volume(Real(-0.5));
    assert!((volume.0 - 0.0).abs() < 1e-12);
}

#[test]
fn volume_that_does_not_compare_is_kept() {
    assert!(clamp_volume(Real(f64::NAN)).0.is_nan());
    assert_eq!(clamp_volume(Real(0.0)).0, 0.0);
    assert_eq!(clamp_volume(Real(1.0)).0, 1.0);
    assert_eq!(clamp_volume(7i64), 1);
    assert_eq!(clamp_volume(-7i64), 0);
}

#[test]
fn test_pipeline_swap_ir() {
    let mut slot = reals(&[1.0]);
    let new_ir = vec![0.5, 0.3, 0.1];
    assert!(swap_ir(&mut slot, reals(&new_ir)));
    let stored = floats(&slot);
    assert_eq!(stored, new_ir);
}

#[test]
fn swap_ir_rejects_values_that_are_not_finite() {
    let mut slot = reals(&[0.5, 0.3, 0.1]);
    assert!(!swap_ir(&mut slot, reals(&[1.0, f64::NAN])));
    assert_eq!(floats(&slot), vec![0.5, 0.3, 0.1]);
    assert!(!swap_ir(&mut slot, reals(&[f64::INFINITY])));
    assert_eq!(floats(&slot), vec![0.5, 0.3, 0.1]);
    assert!(!swap_ir(&mut slot, reals(&[0.0, f64::NEG_INFINITY, 0.0])));
    assert_eq!(floats(&slot), vec![0.5, 0.3, 0.1]);
    assert!(swap_ir(&mut slot, Vec::new()));
    assert!(slot.is_empty());
}

#[test]
fn all_finite_looks_at_every_value() {
    assert!(all_finite::<Real>(&[]));
    assert!(all_finite(&reals(&[0.0, -1.0, f64::MAX, f64::MIN_POSITIVE])));
    assert!(!all_finite(&reals(&[0.0, 1.0, f64::NAN])));
    assert!(!all_finite(&reals(&[f64::INFINITY, 1.0])));
    assert!(all_finite(&[i64::MIN, 0, i64::MAX]));
}

#[test]
fn play_walks_through_the_phases() {
    let mut control = PipelineControl::new();
    assert_eq!(control.step(Event::PlayRequested), Action::OpenDevice);
    assert_eq!(control.phase, Phase::Stopped);
    assert_eq!(control.step(Event::DeviceOpened { sample_rate: 48_000 }), Action::SpawnFeeder);
    assert_eq!(control.phase, Phase::Starting);
    assert_eq!(control.sample_rate, 48_000);
    assert!(control.feeder_running());
    assert!(!control.is_playing());
    assert_eq!(
        control.step(Event::FormatKnown { format: OutputFormat::Signed16 }),
        Action::StartStream
    );
    assert_eq!(control.phase, Phase::Starting);
    assert_eq!(control.step(Event::StreamStarted), Action::Nothing);
    assert!(control.is_playing());
    assert!(control.feeder_running());
    assert_eq!(control.block_size, 512);
}

#[test]
fn play_while_playing_does_nothing() {
    let mut control = PipelineControl { phase: Phase::Playing, sample_rate: 48_000, block_size: 512 };
    assert_eq!(control.step(Event::PlayRequested), Action::Nothing);
    assert_eq!(control.step(Event::DeviceOpened { sample_rate: 8_000 }), Action::Nothing);
    assert_eq!(
        control,
        PipelineControl { phase: Phase::Playing, sample_rate: 48_000, block_size: 512 }
    );
}

#[test]
fn stop_shuts_down_once() {
    let mut control = PipelineControl { phase: Phase::Playing, sample_rate: 44_100, block_size: 512 };
    assert_eq!(control.step(Event::StopRequested), Action::Shutdown);
    assert_eq!(control.phase, Phase::Stopped);
    assert!(!control.feeder_running());
    assert_eq!(control.step(Event::StopRequested), Action::Nothing);
    assert_eq!(control.phase, Phase::Stopped);
}

#[test]
fn unsupported_format_tears_the_feeder_down() {
    let mut control = PipelineControl::new();
    control.step(Event::PlayRequested);
    control.step(Event::DeviceOpened { sample_rate: 44_100 });
    assert_eq!(
        control.step(Event::FormatKnown { format: OutputFormat::Unsupported }),
        Action::JoinFeeder
    );
    assert_eq!(control.phase, Phase::Stopped);
    assert!(!control.is_playing());
    assert!(!control.feeder_running());
}

#[test]
fn failed_stream_tears_the_feeder_down() {
    let mut control = PipelineControl::new();
    control.step(Event::DeviceOpened { sample_rate: 44_100 });
    control.step(Event::FormatKnown { format: OutputFormat::Float32 });
    assert_eq!(control.step(Event::StreamFailed), Action::JoinFeeder);
    assert_eq!(control.phase, Phase::Stopped);
}

#[test]
fn formats_the_pipeline_writes() {
    assert!(OutputFormat::Float32.is_supported());
    assert!(OutputFormat::Signed16.is_supported());
    assert!(OutputFormat::Unsigned16.is_supported());
    assert!(!OutputFormat::Unsupported.is_supported());
}

#[test]
fn feeder_pauses_at_eight_blocks() {
    assert!(!feeder_should_wait(0, 512));
    assert!(!feeder_should_wait(4095, 512));
    assert!(feeder_should_wait(4096, 512));
    assert!(feeder_should_wait(5000, 512));
    assert!(feeder_should_wait(0, 0));
    assert!(!feeder_should_wait(usize::MAX, usize::MAX));
    assert!(feeder_should_wait(usize::MAX, usize::MAX / 8));
}

#[test]
fn ring_holds_a_tenth_of_a_second() {
    assert_eq!(ring_capacity(44_100), 4410);
    assert_eq!(ring_capacity(48_000), 4800);
    assert_eq!(ring_capacity(9), 0);
}

#[test]
fn blocks_queue_in_order_and_play_scaled() {
    let mut ring: VecDeque<Real> = VecDeque::new();
    push_block(&mut ring, &reals(&[1.0, 2.0]));
    push_block(&mut ring, &reals(&[3.0]));
    push_block(&mut ring, &[]);
    assert_eq!(ring.len(), 3);
    assert_eq!(next_output_sample(&mut ring, Real(0.5)).0, 0.5);
    assert_eq!(next_output_sample(&mut ring, Real(0.5)).0, 1.0);
    assert_eq!(ring.len(), 1);
    assert_eq!(next_output_sample(&mut ring, Real(2.0)).0, 6.0);
    assert!(ring.is_empty());
}

#[test]
fn empty_ring_plays_silence() {
    let mut ring: VecDeque<Real> = VecDeque::new();
    assert_eq!(next_output_sample(&mut ring, Real(0.8)).0, 0.0);
    assert_eq!(next_output_sample(&mut ring, Real(0.8)).0, 0.0);
    assert!(ring.is_empty());
    let mut exact: VecDeque<i64> = VecDeque::new();
    assert_eq!(next_output_sample(&mut exact, 3), 0);
    push_block(&mut exact, &[5]);
    assert_eq!(next_output_sample(&mut exact, 3), 15);
}

#[test]
fn hot_swaps_conserve_the_signal() {
    let responses: Vec<Vec<i64>> =
        vec![vec![1, 2, 3, 4, 5, 6, 7], vec![2, -1], vec![], vec![3], vec![1, 1, 1], vec![-4]];
    let blocks: Vec<Vec<i64>> =
        vec![vec![1], vec![2, 3], vec![7, 7, 7], vec![], vec![1, -1, 1, -1], vec![5]];
    let mut engine: ConvolutionEngine<i64> = ConvolutionEngine::new(4);
    for (ir, block) in responses.iter().zip(blocks.iter()) {
        engine.set_impulse_response(ir.clone());
        let before: i64 = engine.overlap().iter().sum();
        let out = engine.process(block);
        assert_eq!(out.len(), block.len());
        let after: i64 = engine.overlap().iter().sum();
        let produced: i64 = block.iter().sum::<i64>() * ir.iter().sum::<i64>();
        assert_eq!(out.iter().sum::<i64>() + after, before + produced);
    }
}
