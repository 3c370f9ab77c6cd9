//! Sample storage, automation lanes and bounces: their limits, choices and
//! errors, and the order automation events are applied in.
use crate::audio::AudioError;
use vstd::prelude::*;

verus! {

/// Why sample storage could not be built.
#[derive(Clone, Copy, Debug, PartialEq, Eq)]
pub enum SampleError {
    /// The rate is zero or the source has no frames.
    Empty,
    /// At least one sample is not finite.
    NonFinite,
}

/// Interpolation used when source and output clocks do not align.
#[derive(Clone, Copy, Debug, Default, PartialEq, Eq)]
pub enum Interpolation {
    /// Two-point interpolation for inexpensive preview and scrubbing.
    Linear,
    /// Four-point interpolation for normal playback.
    #[default]
    Cubic,
}

/// Largest number of automation lanes published to the audio thread.
pub const MAX_AUTOMATION_LANES: usize = 1024;

/// A mixer parameter automation can move.
#[derive(Clone, Copy, Debug, PartialEq, Eq)]
pub enum Parameter {
    Volume,
    Pan,
    Mute,
    Solo,
}

/// Position of each parameter when events at the same offset on the same
/// track are put in order.
pub open spec fn parameter_rank(parameter: Parameter) -> u8 {
    match parameter {
        Parameter::Volume => 0,
        Parameter::Pan => 1,
        Parameter::Mute => 2,
        Parameter::Solo => 3,
    }
}

/// Position of `parameter` when events at the same offset on the same track
/// are put in order: volume, pan, mute, then solo.
pub fn parameter_order(parameter: Parameter) -> (rank: u8)
    ensures
        rank == parameter_rank(parameter),
{
    match parameter {
        Parameter::Volume => 0,
        Parameter::Pan => 1,
        Parameter::Mute => 2,
        Parameter::Solo => 3,
    }
}

/// Result of scheduling automation for one block.
#[derive(Clone, Copy, Debug, Default, PartialEq, Eq)]
pub struct Scheduled {
    /// Events written, in application order.
    pub count: usize,
    /// Events that did not fit.
    pub dropped: usize,
}

/// Why a bounce could not finish.
#[derive(Debug)]
pub enum BounceError {
    /// The beat range is empty, negative, or not finite.
    InvalidRange,
    /// The offline stream rejected its configuration or state.
    Audio(AudioError),
}

impl From<AudioError> for BounceError {
    fn from(error: AudioError) -> (bounce: Self) {
        BounceError::Audio(error)
    }
}

impl vstd::std_specs::convert::FromSpecImpl<AudioError> for BounceError {
    open spec fn obeys_from_spec() -> bool {
        true
    }

    open spec fn from_spec(error: AudioError) -> Self {
        BounceError::Audio(error)
    }
}

} // verus!
