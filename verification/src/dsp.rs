//! Choices the signal processors offer, and their errors.
//!
//! The processors themselves work on floating-point samples; what they are
//! configured with, and how they fail, is plain data.
use vstd::prelude::*;

verus! {

/// Response of the auto filter.
#[derive(Clone, Copy, Debug, PartialEq, Eq)]
pub enum Mode {
    LowPass,
    HighPass,
    BandPass,
    Notch,
}

/// Filter shapes of a second-order section.
#[derive(Clone, Copy, Debug, PartialEq, Eq)]
pub enum Kind {
    /// Passes below the cutoff.
    LowPass,
    /// Passes above the cutoff.
    HighPass,
    /// Passes a band around the center, unity at the peak.
    BandPass,
    /// Rejects a band around the center.
    Notch,
    /// Flat magnitude, frequency-dependent phase.
    AllPass,
    /// Boosts or cuts a band, flat elsewhere.
    Peaking,
    /// Boosts or cuts below the corner.
    LowShelf,
    /// Boosts or cuts above the corner.
    HighShelf,
}

/// Waveform of an oscillator.
#[derive(Clone, Copy, Debug, PartialEq, Eq, Default)]
pub enum Shape {
    /// Pure tone.
    #[default]
    Sine,
    /// Falling ramp, every harmonic.
    Saw,
    /// Square wave, odd harmonics.
    Square,
    /// Triangle, odd harmonics falling faster than a square.
    Triangle,
}

/// Nonlinear transfer curve of the saturator.
#[derive(Clone, Copy, Debug, Default, PartialEq, Eq)]
pub enum Curve {
    /// Cubic soft clipping with a hard bound outside unit amplitude.
    #[default]
    SoftClip,
    /// Hyperbolic tangent saturation.
    Tanh,
    /// Abrupt clipping at unit amplitude.
    HardClip,
    /// Asymmetric curve that introduces even harmonics.
    Diode,
}

/// Oversampling factor used around the saturator's nonlinear transfer.
#[derive(Clone, Copy, Debug, Default, PartialEq, Eq)]
pub enum Oversampling {
    /// One transfer evaluation per input sample.
    #[default]
    One,
    /// Two transfer evaluations per input sample.
    Two,
    /// Four transfer evaluations per input sample.
    Four,
}

/// Transfer evaluations per input sample for each setting.
pub open spec fn oversampling_factor(setting: Oversampling) -> usize {
    match setting {
        Oversampling::One => 1,
        Oversampling::Two => 2,
        Oversampling::Four => 4,
    }
}

impl Oversampling {
    /// Transfer evaluations per input sample.
    pub fn factor(self) -> (factor: usize)
        ensures
            factor == oversampling_factor(self),
    {
        match self {
            Oversampling::One => 1,
            Oversampling::Two => 2,
            Oversampling::Four => 4,
        }
    }
}

/// Why a limiter could not be built or run.
#[derive(Clone, Copy, Debug, PartialEq, Eq)]
pub enum LimiterError {
    InvalidSampleRate,
    InvalidParameter,
    StorageTooSmall,
    BufferSize,
}

} // verus!
