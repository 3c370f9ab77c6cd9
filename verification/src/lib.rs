//! Core of a digital audio workstation: device descriptions, stream
//! configuration, offline streams, host identifiers, the transport and the
//! block scheduler's integer bookkeeping.
use vstd::prelude::*;

pub mod audio;
pub mod offline;
pub mod schedule;
pub mod engine;
pub mod delay;
pub mod exchange;
pub mod host;
pub mod alsa;
pub mod wasapi;
pub mod coreaudio;
pub mod dsp;
pub mod routing;
pub mod recording;
pub mod media;
pub mod worker;
pub mod voices;
pub mod timeline;

verus! {
} // verus!
