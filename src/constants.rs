//! Tuning constants of the correction engine and its request lanes.

use vstd::prelude::*;

verus! {

/// Sample rate, in Hz, of every chunk handed to the engine.
pub const SAMPLE_RATE: usize = 16000;

/// Minimum number of samples an inference request carries (1.5 s at 16 kHz);
/// shorter buffers are padded.
pub const MIN_WHISPER_SAMPLES: usize = 24000;

/// Consecutive silent chunks after which the accumulated speech is committed.
pub const COMMIT_SILENCE_CHUNKS: usize = 5;

/// Silent chunks still appended to the commit buffer after speech, to keep a
/// natural pause without feeding the engine enough silence to hallucinate.
pub const MAX_TRAILING_SILENCE_CHUNKS: usize = 2;

/// Speech chunks since the last commit before a live preview is requested.
pub const LIVE_PREVIEW_DELAY_CHUNKS: usize = 5;

/// Capacity of each lane's inbound queue.
pub const MAX_PENDING_REQUESTS: usize = 2;

/// Bound on the cancelled-id bookkeeping of one lane.
pub const MAX_CANCELLED_IDS: usize = 100;

/// Length of the sliding context window (5 s at 16 kHz).
pub const CONTEXT_WINDOW_SAMPLES: usize = 80000;

/// Consecutive silent chunks after which the offline simulation commits.
pub const SIMULATION_COMMIT_SILENCE_CHUNKS: usize = 3;

/// Speech chunks since the last commit before the offline simulation asks
/// for a preview.
pub const SIMULATION_PREVIEW_DELAY_CHUNKS: usize = 3;

} // verus!
