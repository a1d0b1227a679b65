//! Settings for the audio backend.

use vstd::prelude::*;

verus! {

/// Configures the audio backend when it is created.
///
/// It needs to be in place before the audio output is set up and is consumed by it. Settings
/// cannot be changed at run-time.
#[derive(Debug, Clone, Copy, PartialEq, Eq, Hash)]
pub struct AudioSettings {
    /// The maximum number of sounds that can play on the main track; channel tracks set their own.
    pub sound_capacity: usize,
    /// The maximum number of sub-tracks on the main track; channel tracks set their own.
    pub sub_track_capacity: usize,
}

impl Default for AudioSettings {
    fn default() -> (settings: Self)
        ensures
            settings.sound_capacity == 128,
            settings.sub_track_capacity == 128,
    {
        Self { sound_capacity: 128, sub_track_capacity: 128 }
    }
}

} // verus!
