//! Audio subsystem modes.
//!
//! The engine itself is synchronous; the mode only records how the stream of
//! sample blocks is produced by the caller.

use vstd::prelude::*;

verus! {

/// How the audio subsystem operates.
#[derive(Debug, Clone, Copy, PartialEq, Eq, Structural)]
pub enum AudioMode {
    /// Capture the host audio output with low latency.
    Live,
    /// Use pre-analysed data derived from an audio file.
    Precomputed,
}

} // verus!
