//! The WASAPI host's decisions, once its endpoints have been listed.
//!
//! Endpoints are identified by the hash of the host's identifier string, and
//! a shared-mode client converts for the engine, so every supported rate can
//! be asked for. Streams are stereo and are given a buffer four blocks long.
use crate::audio::{StreamConfig, config_is_valid};
use crate::engine::MAX_FRAMES;
use vstd::prelude::*;

pub use crate::host::identifier;

verus! {

/// Most devices one listing describes.
pub const MAX_DEVICES: usize = 32;
/// Units of the host's buffer durations in one second.
pub const TICKS_PER_SECOND: i64 = 10_000_000;

/// The status the host's calls return on success.
pub const S_OK: i32 = 0;
/// The status that says the device went away.
pub const DEVICE_INVALIDATED: i32 = -2_004_287_484;
/// The packet flag that says a captured packet is silence.
pub const SILENT_PACKET: u32 = 0x0000_0002;

/// What a status returned by one of the host's calls means for a stream.
#[derive(Clone, Copy, Debug, PartialEq, Eq)]
pub enum CallOutcome {
    /// The call succeeded.
    Succeeded,
    /// The device went away: the stream is lost and ends.
    Lost,
    /// The call failed otherwise.
    Failed,
}

/// Reads a status returned by one of the host's calls.
pub fn call_outcome(status: i32) -> (outcome: CallOutcome)
    ensures
        outcome == (if status == S_OK {
            CallOutcome::Succeeded
        } else if status == DEVICE_INVALIDATED {
            CallOutcome::Lost
        } else {
            CallOutcome::Failed
        }),
{
    if status == S_OK {
        CallOutcome::Succeeded
    } else if status == DEVICE_INVALIDATED {
        CallOutcome::Lost
    } else {
        CallOutcome::Failed
    }
}

/// What a stream thread does next, from whether the stream should run and
/// whether its device client is started.
#[derive(Clone, Copy, Debug, PartialEq, Eq)]
pub enum ThreadStep {
    /// Stop the client, which is running though the stream was stopped.
    StopDevice,
    /// Wait a little, doing nothing with the device.
    Idle,
    /// Reset and start the client for a stream that was just started.
    StartDevice,
    /// Wait for the device and serve what it asks for.
    Serve,
}

/// The next step of a stream thread.
pub fn thread_step(running: bool, started: bool) -> (step: ThreadStep)
    ensures
        step == (if !running {
            if started {
                ThreadStep::StopDevice
            } else {
                ThreadStep::Idle
            }
        } else if !started {
            ThreadStep::StartDevice
        } else {
            ThreadStep::Serve
        }),
{
    if !running {
        if started {
            ThreadStep::StopDevice
        } else {
            ThreadStep::Idle
        }
    } else if !started {
        ThreadStep::StartDevice
    } else {
        ThreadStep::Serve
    }
}

/// Whether a captured packet is handed on as silence: the device flagged
/// it so, or gave no memory for it.
pub fn silent_packet(flags: u32, no_memory: bool) -> (silent: bool)
    ensures
        silent == ((flags & SILENT_PACKET) != 0 || no_memory),
{
    (flags & SILENT_PACKET) != 0 || no_memory
}

/// Frames of a captured packet handed to the capturer at once, with
/// `remaining` frames of it left and room for `block` at a time.
pub fn capture_chunk(remaining: usize, block: usize) -> (frames: usize)
    ensures
        frames == (if remaining < block {
            remaining
        } else {
            block
        }),
{
    if remaining < block {
        remaining
    } else {
        block
    }
}

/// The WASAPI host.
#[derive(Clone, Copy, Debug, Default)]
pub struct WasapiBackend;

impl WasapiBackend {
    /// The backend.
    pub fn new() -> (backend: Self) {
        Self
    }

    /// The block a stream runs with when the device's buffer holds
    /// `buffer_frames` frames: the whole buffer, at least one frame and at
    /// most [`MAX_FRAMES`].
    pub fn stream_block(buffer_frames: u32) -> (block: usize)
        ensures
            block == (if buffer_frames < 1 {
                1
            } else if buffer_frames > MAX_FRAMES {
                MAX_FRAMES as int
            } else {
                buffer_frames as int
            }),
    {
        if buffer_frames < 1 {
            1
        } else if buffer_frames > MAX_FRAMES as u32 {
            MAX_FRAMES
        } else {
            buffer_frames as usize
        }
    }

    /// Frames the render thread writes when the device's buffer holds
    /// `buffer_frames` frames of which `padding` still wait to be played:
    /// the room left, at most one block of `block` frames. Zero means there
    /// is no room yet.
    pub fn frames_to_render(buffer_frames: u32, padding: u32, block: usize) -> (frames: usize)
        ensures
            frames == (if padding >= buffer_frames {
                0
            } else if buffer_frames - padding < block {
                buffer_frames - padding
            } else {
                block as int
            }),
    {
        if padding >= buffer_frames {
            return 0;
        }
        let available = buffer_frames - padding;
        if (available as usize) < block {
            available as usize
        } else {
            block
        }
    }

    /// Name of the host interface.
    pub fn name(&self) -> (name: &'static str)
        ensures
            name@ == "WASAPI"@,
    {
        "WASAPI"
    }

    /// The buffer a stream with `config` asks the host for, in the host's
    /// ticks: four blocks, rounded down.
    pub fn buffer_duration(config: &StreamConfig) -> (ticks: i64)
        requires
            config_is_valid(*config),
        ensures
            ticks == (config.block_frames * 4 * TICKS_PER_SECOND) / (config.sample_rate as int),
    {
        let frames = config.block_frames as i64;
        assert(frames * 4 * TICKS_PER_SECOND <= 2048 * 4 * 10_000_000);
        frames * 4 * TICKS_PER_SECOND / (config.sample_rate as i64)
    }
}

} // verus!
