//! Capture into a file: the queue that sits between the audio thread and
//! the file thread, and what a finished recording reports.
use crate::audio::AudioError;
use std::path::PathBuf;
use vstd::prelude::*;

verus! {

#[verifier::external_type_specification]
#[verifier::external_body]
pub struct ExPathBuf(PathBuf);

/// `PathBuf::clone`, which copies a path; nothing is claimed about the copy.
pub assume_specification[ <PathBuf as Clone>::clone ](path: &PathBuf) -> PathBuf;

/// Default number of maximum-sized input blocks held between the audio and
/// file threads.
pub const DEFAULT_QUEUE_BLOCKS: usize = 256;
/// Largest queue accepted, limiting preallocated capture storage to 64 MiB.
pub const MAX_QUEUE_BLOCKS: usize = 4096;

/// Why a recording could not be opened or completed.
#[derive(Debug)]
pub enum RecordingError {
    /// The audio host refused the input stream.
    Audio(AudioError),
    /// The file thread could not be created or did not finish normally.
    Thread,
}

impl From<AudioError> for RecordingError {
    fn from(error: AudioError) -> (recording: Self) {
        RecordingError::Audio(error)
    }
}

impl vstd::std_specs::convert::FromSpecImpl<AudioError> for RecordingError {
    open spec fn obeys_from_spec() -> bool {
        true
    }

    open spec fn from_spec(error: AudioError) -> Self {
        RecordingError::Audio(error)
    }
}

/// Result of a finished recording.
#[derive(Clone, Debug, PartialEq, Eq)]
pub struct RecordingReport {
    /// File containing the captured material.
    pub path: PathBuf,
    /// Frames written to the file.
    pub frames: u64,
    /// Frames per second stored in the file.
    pub sample_rate: u32,
    /// Blocks rejected because the queue was full.
    pub lost_blocks: u64,
    /// Frames contained by rejected blocks.
    pub lost_frames: u64,
}

/// Whether a queue of `queue_blocks` blocks can be used.
pub open spec fn usable_queue_size(queue_blocks: usize) -> bool {
    0 < queue_blocks <= MAX_QUEUE_BLOCKS
}

/// Refuses a queue that is empty or larger than [`MAX_QUEUE_BLOCKS`].
pub fn validate_queue_size(queue_blocks: usize) -> (result: Result<(), RecordingError>)
    ensures
        usable_queue_size(queue_blocks) ==> result is Ok,
        !usable_queue_size(queue_blocks) ==> (result matches Err(RecordingError::Audio(error))
            && error == AudioError::Unsupported("recording queue size")),
{
    if queue_blocks == 0 || queue_blocks > MAX_QUEUE_BLOCKS {
        Err(RecordingError::Audio(AudioError::Unsupported("recording queue size")))
    } else {
        Ok(())
    }
}

} // verus!
