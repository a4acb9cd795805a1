//! The decisions of the playback pipeline: its play/stop life cycle, when
//! the producer pauses, what the output callback plays, and which impulse
//! responses may be swapped in. Devices, threads and locks are the owner's.
use crate::sample::{OrderedSample, Sample};
use std::collections::VecDeque;
use vstd::prelude::*;

verus! {

/// The block length that the pipeline's producer works in.
pub const BLOCK_SIZE: usize = 512;

/// The number of blocks that may wait in the ring before the producer pauses.
pub const HIGH_WATER_BLOCKS: usize = 8;

/// The sample rate that a pipeline assumes until a device reports its own.
pub const DEFAULT_SAMPLE_RATE: u32 = 44_100;

/// Whether every value of an impulse response is an ordinary number.
pub open spec fn all_finite_values<S: Sample>(values: Seq<S>) -> bool {
    forall|i: int| 0 <= i < values.len() ==> (#[trigger] values[i]).finite()
}

/// Tests whether every value is finite.
pub fn all_finite<S: Sample>(values: &[S]) -> (ok: bool)
    ensures
        ok == all_finite_values(values@),
{
    let mut i: usize = 0;
    while i < values.len()
        invariant
            i <= values.len(),
            forall|t: int| 0 <= t < i ==> (#[trigger] values@[t]).finite(),
        decreases values.len() - i,
    {
        if !values[i].is_finite() {
            return false;
        }
        i += 1;
    }
    true
}

/// Hot-swaps the impulse response held in `slot` for `candidate`. A candidate
/// with a value that is not finite is rejected and discarded, and the slot
/// keeps the response it had. Returns whether the candidate was accepted.
pub fn swap_ir<S: Sample>(slot: &mut Vec<S>, candidate: Vec<S>) -> (accepted: bool)
    ensures
        accepted == all_finite_values(candidate@),
        final(slot)@ == (if accepted {
            candidate@
        } else {
            old(slot)@
        }),
{
    if !all_finite(candidate.as_slice()) {
        return false;
    }
    *slot = candidate;
    true
}

/// A volume setting brought into the range from zero to one: values below
/// zero become zero, values above one become one, all others are kept (among
/// them a value that the format's order does not compare at all).
pub open spec fn clamped_volume<S: OrderedSample>(volume: S) -> S {
    if S::below(volume, S::zero_value()) {
        S::zero_value()
    } else if S::below(S::one_value(), volume) {
        S::one_value()
    } else {
        volume
    }
}

/// Clamps a requested volume to the range from zero to one.
pub fn clamp_volume<S: OrderedSample>(volume: S) -> (v: S)
    ensures
        v == clamped_volume(volume),
{
    if volume.less_than(S::zero()) {
        S::zero()
    } else if S::one().less_than(volume) {
        S::one()
    } else {
        volume
    }
}

/// The ring capacity reserved for a device that runs at `sample_rate` Hz:
/// a tenth of a second of audio.
pub fn ring_capacity(sample_rate: u32) -> (capacity: usize)
    ensures
        capacity == sample_rate / 10,
{
    (sample_rate / 10) as usize
}

/// Whether the producer has to pause: the ring already holds
/// `HIGH_WATER_BLOCKS` blocks of `block_size` samples, or more.
pub open spec fn ring_is_full(buffered: nat, block_size: nat) -> bool {
    buffered >= block_size * HIGH_WATER_BLOCKS
}

/// Decides whether the producer pauses instead of producing the next block.
pub fn feeder_should_wait(buffered: usize, block_size: usize) -> (wait: bool)
    ensures
        wait == ring_is_full(buffered as nat, block_size as nat),
{
    buffered / HIGH_WATER_BLOCKS >= block_size
}

/// Appends a processed block to the tail of the ring.
pub fn push_block<S: Sample>(ring: &mut VecDeque<S>, block: &[S])
    ensures
        final(ring)@ == old(ring)@ + block@,
{
    let mut i: usize = 0;
    while i < block.len()
        invariant
            i <= block.len(),
            ring@ == old(ring)@ + block@.take(i as int),
        decreases block.len() - i,
    {
        ring.push_back(block[i]);
        i += 1;
        assert(ring@ =~= old(ring)@ + block@.take(i as int));
    }
    assert(block@.take(i as int) =~= block@);
}

/// The sample that the output callback plays next: the head of the ring, or
/// silence if the ring is empty, scaled by the volume.
pub open spec fn played<S: Sample>(ring: Seq<S>, volume: S) -> S {
    if ring.len() > 0 {
        S::product(ring[0], volume)
    } else {
        S::product(S::zero_value(), volume)
    }
}

/// Takes the next sample for the output device off the head of the ring and
/// scales it by the volume. An empty ring gives silence and never blocks.
pub fn next_output_sample<S: Sample>(ring: &mut VecDeque<S>, volume: S) -> (sample: S)
    ensures
        sample == played(old(ring)@, volume),
        final(ring)@ == (if old(ring)@.len() > 0 {
            old(ring)@.skip(1)
        } else {
            old(ring)@
        }),
{
    let head = ring.pop_front();
    let raw = match head {
        Some(s) => s,
        None => S::zero(),
    };
    proof {
        if old(ring)@.len() > 0 {
            assert(ring@ =~= old(ring)@.skip(1));
        }
    }
    raw.times(volume)
}

/// The sample formats of an output device, as far as the pipeline tells them
/// apart.
#[derive(Clone, Copy, Debug, PartialEq, Eq, Structural)]
pub enum OutputFormat {
    /// 32-bit floating point.
    Float32,
    /// Signed 16-bit integers.
    Signed16,
    /// Unsigned 16-bit integers.
    Unsigned16,
    /// Any other format; the pipeline cannot drive such a device.
    Unsupported,
}

impl OutputFormat {
    /// Whether the pipeline can write this format.
    pub open spec fn supported(self) -> bool {
        !(self is Unsupported)
    }

    /// Whether the pipeline can write this format.
    pub fn is_supported(self) -> (ok: bool)
        ensures
            ok == self.supported(),
    {
        match self {
            OutputFormat::Unsupported => false,
            _ => true,
        }
    }
}

/// Where a pipeline stands between `play` and `stop`.
#[derive(Clone, Copy, Debug, PartialEq, Eq, Structural)]
pub enum Phase {
    /// Nothing runs.
    Stopped,
    /// A device is open and the producer thread runs, but no stream plays yet.
    Starting,
    /// The producer thread and the output stream both run.
    Playing,
}

/// What the owner of a pipeline reports to its control.
#[derive(Clone, Copy, Debug, PartialEq, Eq, Structural)]
pub enum Event {
    /// `play` was called.
    PlayRequested,
    /// The default output device was opened; it runs at `sample_rate` Hz.
    DeviceOpened { sample_rate: u32 },
    /// The producer thread was spawned, and the device asks for `format`.
    FormatKnown { format: OutputFormat },
    /// The output stream was built and started.
    StreamStarted,
    /// The output stream could not be built or started.
    StreamFailed,
    /// `stop` was called.
    StopRequested,
}

/// What the owner of a pipeline has to do next.
#[derive(Clone, Copy, Debug, PartialEq, Eq, Structural)]
pub enum Action {
    /// Nothing: the event does not apply in the current phase.
    Nothing,
    /// Open the default output device and report `DeviceOpened`.
    OpenDevice,
    /// Allocate the ring, spawn the producer thread and report `FormatKnown`.
    SpawnFeeder,
    /// Build and start the output stream, then report `StreamStarted` or
    /// `StreamFailed`.
    StartStream,
    /// Flag the producer thread to exit and join it.
    JoinFeeder,
    /// Flag the producer thread to exit, drop the stream, join the thread.
    Shutdown,
}

/// The phase that follows `phase` on `event`.
pub open spec fn next_phase(phase: Phase, event: Event) -> Phase {
    match (phase, event) {
        (Phase::Stopped, Event::DeviceOpened { .. }) => Phase::Starting,
        (Phase::Starting, Event::FormatKnown { format }) => if format.supported() {
            Phase::Starting
        } else {
            Phase::Stopped
        },
        (Phase::Starting, Event::StreamStarted) => Phase::Playing,
        (Phase::Starting, Event::StreamFailed) => Phase::Stopped,
        (Phase::Playing, Event::StopRequested) => Phase::Stopped,
        _ => phase,
    }
}

/// What is to be done on `event` in `phase`.
pub open spec fn action_on(phase: Phase, event: Event) -> Action {
    match (phase, event) {
        (Phase::Stopped, Event::PlayRequested) => Action::OpenDevice,
        (Phase::Stopped, Event::DeviceOpened { .. }) => Action::SpawnFeeder,
        (Phase::Starting, Event::FormatKnown { format }) => if format.supported() {
            Action::StartStream
        } else {
            Action::JoinFeeder
        },
        (Phase::Starting, Event::StreamFailed) => Action::JoinFeeder,
        (Phase::Playing, Event::StopRequested) => Action::Shutdown,
        _ => Action::Nothing,
    }
}

/// The sample rate on record after `event` in `phase`: a device that is
/// opened from the stopped phase replaces it by its own.
pub open spec fn next_sample_rate(phase: Phase, sample_rate: u32, event: Event) -> u32 {
    match (phase, event) {
        (Phase::Stopped, Event::DeviceOpened { sample_rate: device_rate }) => device_rate,
        _ => sample_rate,
    }
}

/// The play/stop life cycle of an audio pipeline. It decides; opening the
/// device, running the producer thread and driving the stream are its
/// owner's part.
#[derive(Clone, Copy, Debug, PartialEq, Eq, Structural)]
pub struct PipelineControl {
    pub phase: Phase,
    pub sample_rate: u32,
    pub block_size: usize,
}

impl PipelineControl {
    /// A stopped pipeline with the default block size and sample rate.
    pub fn new() -> (control: Self)
        ensures
            control == (PipelineControl {
                phase: Phase::Stopped,
                sample_rate: DEFAULT_SAMPLE_RATE,
                block_size: BLOCK_SIZE,
            }),
    {
        PipelineControl {
            phase: Phase::Stopped,
            sample_rate: DEFAULT_SAMPLE_RATE,
            block_size: BLOCK_SIZE,
        }
    }

    /// Whether audio is playing.
    pub fn is_playing(&self) -> (playing: bool)
        ensures
            playing == (self.phase == Phase::Playing),
    {
        match self.phase {
            Phase::Playing => true,
            _ => false,
        }
    }

    /// Whether the producer thread is meant to run: from the moment it is
    /// spawned until the pipeline is stopped again.
    pub fn feeder_running(&self) -> (running: bool)
        ensures
            running == (self.phase != Phase::Stopped),
    {
        match self.phase {
            Phase::Stopped => false,
            _ => true,
        }
    }

    /// Takes an event, moves to the phase that follows, and returns what the
    /// owner has to do. An event that does not apply in the current phase
    /// changes nothing.
    pub fn step(&mut self, event: Event) -> (action: Action)
        ensures
            action == action_on(old(self).phase, event),
            final(self).phase == next_phase(old(self).phase, event),
            final(self).sample_rate == next_sample_rate(
                old(self).phase,
                old(self).sample_rate,
                event,
            ),
            final(self).block_size == old(self).block_size,
    {
        match self.phase {
            Phase::Stopped => match event {
                Event::PlayRequested => Action::OpenDevice,
                Event::DeviceOpened { sample_rate } => {
                    self.sample_rate = sample_rate;
                    self.phase = Phase::Starting;
                    Action::SpawnFeeder
                },
                _ => Action::Nothing,
            },
            Phase::Starting => match event {
                Event::FormatKnown { format } => {
                    if format.is_supported() {
                        Action::StartStream
                    } else {
                        self.phase = Phase::Stopped;
                        Action::JoinFeeder
                    }
                },
                Event::StreamStarted => {
                    self.phase = Phase::Playing;
                    Action::Nothing
                },
                Event::StreamFailed => {
                    self.phase = Phase::Stopped;
                    Action::JoinFeeder
                },
                _ => Action::Nothing,
            },
            Phase::Playing => match event {
                Event::StopRequested => {
                    self.phase = Phase::Stopped;
                    Action::Shutdown
                },
                _ => Action::Nothing,
            },
        }
    }
}

/// `play` on a pipeline that already plays does nothing.
pub proof fn lemma_play_while_playing_is_noop()
    ensures
        next_phase(Phase::Playing, Event::PlayRequested) == Phase::Playing,
        action_on(Phase::Playing, Event::PlayRequested) == Action::Nothing,
{
}

/// `stop` is idempotent: a second `stop` finds nothing to do and leaves the
/// phase where the first one put it. From the playing and the stopped phase
/// that is the stopped phase.
pub proof fn lemma_stop_is_idempotent(phase: Phase)
    ensures
        next_phase(next_phase(phase, Event::StopRequested), Event::StopRequested) == next_phase(
            phase,
            Event::StopRequested,
        ),
        action_on(next_phase(phase, Event::StopRequested), Event::StopRequested)
            == Action::Nothing,
        phase != Phase::Starting ==> next_phase(phase, Event::StopRequested) == Phase::Stopped,
{
}

/// A start that fails, because the device's format is not supported or
/// because the stream cannot be started, ends in the stopped phase with the
/// producer thread joined.
pub proof fn lemma_failed_start_stops(format: OutputFormat)
    requires
        !format.supported(),
    ensures
        next_phase(Phase::Starting, Event::FormatKnown { format }) == Phase::Stopped,
        action_on(Phase::Starting, Event::FormatKnown { format }) == Action::JoinFeeder,
        next_phase(Phase::Starting, Event::StreamFailed) == Phase::Stopped,
        action_on(Phase::Starting, Event::StreamFailed) == Action::JoinFeeder,
{
}

/// The only way into the playing phase is a stream that started.
pub proof fn lemma_playing_needs_a_stream(phase: Phase, event: Event)
    requires
        phase != Phase::Playing,
        next_phase(phase, event) == Phase::Playing,
    ensures
        phase == Phase::Starting,
        event == Event::StreamStarted,
{
}

/// A start that meets no failure ends in the playing phase, with the
/// device's sample rate on record.
pub proof fn lemma_successful_start_plays(sample_rate: u32, format: OutputFormat)
    requires
        format.supported(),
    ensures
        next_phase(
            next_phase(
                next_phase(
                    next_phase(Phase::Stopped, Event::PlayRequested),
                    Event::DeviceOpened { sample_rate },
                ),
                Event::FormatKnown { format },
            ),
            Event::StreamStarted,
        ) == Phase::Playing,
        next_sample_rate(Phase::Stopped, DEFAULT_SAMPLE_RATE, Event::DeviceOpened { sample_rate })
            == sample_rate,
{
}

/// The ring stays bounded. A producer that pushes a block only when it need
/// not wait never leaves more than `HIGH_WATER_BLOCKS + 1` blocks in the
/// ring, whatever the callback takes out in the meantime.
pub proof fn lemma_ring_stays_bounded(buffered: nat, block_size: nat)
    requires
        !ring_is_full(buffered, block_size),
    ensures
        buffered + block_size < block_size * (HIGH_WATER_BLOCKS + 1),
{
    assert(block_size * (HIGH_WATER_BLOCKS + 1) == block_size * HIGH_WATER_BLOCKS + block_size)
        by (nonlinear_arith);
}

/// With exact integer samples, a clamped volume lies between zero and one,
/// and a volume that already does is kept.
pub proof fn lemma_clamped_volume_in_range(volume: i64)
    ensures
        0 <= clamped_volume(volume) <= 1,
        0 <= volume <= 1 ==> clamped_volume(volume) == volume,
{
}

} // verus!
