//! Replicated audio cues.
//!
//! The server tells clients which sound to play by asset path; playback
//! itself happens outside the simulation core.

use vstd::prelude::*;

verus! {

/// "Play this sound" — the path of the audio asset to play.
#[derive(Clone, Debug, PartialEq)]
pub struct AudioMessage {
    pub source: String,
}

impl AudioMessage {
    pub fn new(source: String) -> (r: AudioMessage)
        ensures
            r.source@ == source@,
    {
        AudioMessage { source }
    }
}

} // verus!
