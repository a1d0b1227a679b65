//! Verified core of an audio plugin built on the kira engine.
//!
//! The library keeps the bookkeeping of an audio output: which sound instances play on which
//! channel, the state each channel is in, the tracks that carry channel and per-sound effects,
//! and how long a per-sound track outlives its sound so that reverb and delay tails can ring out.
//! Everything that talks to kira goes through the trusted items of [`engine`].

pub mod audio_output;
pub mod backend_settings;
pub mod command_queue;
pub mod effect;
pub mod engine;
pub mod instance_track;
