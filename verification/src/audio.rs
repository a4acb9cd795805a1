//! Real-time audio: streaming convolution and the playback pipeline's
//! decisions.
pub mod conservation;
pub mod convolution;
pub mod pipeline;

pub use self::convolution::{ConvolutionEngine, EngineState};
pub use self::pipeline::{
    all_finite, clamp_volume, feeder_should_wait, next_output_sample, push_block, ring_capacity,
    swap_ir, Action, Event, OutputFormat, Phase, PipelineControl, BLOCK_SIZE,
    DEFAULT_SAMPLE_RATE, HIGH_WATER_BLOCKS,
};
