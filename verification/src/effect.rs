//! Tracks carrying effects.

use vstd::prelude::*;
use kira::track::TrackBuilder;
use kira::Decibels;
use vstd::std_specs::convert::IntoSpec;
use crate::engine::{
    builder_effect_count, builder_persists, builder_volume, builder_sound_capacity, builder_sub_track_capacity, track_builder_new,
    track_builder_persist, track_builder_sound_capacity, track_builder_sub_track_capacity,
    track_builder_volume,
};

verus! {

/// How long a sound's own effects keep running after the sound itself has stopped, in
/// nanoseconds: two seconds.
///
/// Effects like reverb and delay go on producing sound after their input has gone quiet. A sound
/// with effects of its own plays on a track of its own, and tearing that track down the moment
/// the sound ends would cut those tails off mid-ring. The track is therefore kept for this long
/// afterwards, unless the sound asks for another tail.
pub const DEFAULT_EFFECT_TAIL: u64 = 2_000_000_000;

/// A track that sounds are played on, carrying a chain of effects.
///
/// A channel built with such a track applies its effects to every sound played on it.
pub struct AudioTrack(TrackBuilder);

impl AudioTrack {
    /// The builder the track is made from.
    pub closed spec fn builder(&self) -> TrackBuilder {
        self.0
    }

    /// How many sounds the track holds at a time.
    pub open spec fn spec_sound_capacity(&self) -> usize {
        builder_sound_capacity(self.builder())
    }

    /// How many sub-tracks the track holds at a time.
    pub open spec fn spec_sub_track_capacity(&self) -> usize {
        builder_sub_track_capacity(self.builder())
    }

    /// The fixed volume the track plays at, if it is set to a fixed level.
    pub open spec fn spec_volume(&self) -> Option<Decibels> {
        builder_volume(self.builder())
    }

    /// How many effects the track carries.
    pub open spec fn spec_effect_count(&self) -> usize {
        builder_effect_count(self.builder())
    }

    /// Whether the track waits for its sounds to finish once its handle is gone.
    pub open spec fn spec_persists(&self) -> bool {
        builder_persists(self.builder())
    }

    /// Create a new track with no effects.
    pub fn new() -> (track: Self)
        ensures
            track.spec_sound_capacity() == 128,
            track.spec_sub_track_capacity() == 128,
            !track.spec_persists(),
            track.spec_effect_count() == 0,
    {
        Self(track_builder_new())
    }

    /// Create the track carrying a single sound instance's own effects.
    ///
    /// Such a track hosts exactly the one sound: nothing can be nested under it.
    pub fn for_instance() -> (track: Self)
        ensures
            track.spec_sound_capacity() == 1,
            track.spec_sub_track_capacity() == 0,
            !track.spec_persists(),
            track.spec_effect_count() == 0,
    {
        Self(track_builder_sub_track_capacity(track_builder_sound_capacity(track_builder_new(), 1), 0))
    }

    /// Set the volume of this track in Decibels.
    pub fn volume<V: Into<Decibels>>(self, volume: V) -> (track: Self)
        ensures
            V::obeys_into_spec() ==> track.spec_volume() == Some(volume.into_spec()),
            track.spec_sound_capacity() == self.spec_sound_capacity(),
            track.spec_sub_track_capacity() == self.spec_sub_track_capacity(),
            track.spec_persists() == self.spec_persists(),
            track.spec_effect_count() == self.spec_effect_count(),
    {
        let volume: Decibels = volume.into();
        Self(track_builder_volume(self.0, volume))
    }

    /// Set the maximum number of sounds that can play on this track at a time.
    pub fn sound_capacity(self, capacity: usize) -> (track: Self)
        ensures
            track.spec_sound_capacity() == capacity,
            track.spec_sub_track_capacity() == self.spec_sub_track_capacity(),
            track.spec_persists() == self.spec_persists(),
            track.spec_volume() == self.spec_volume(),
            track.spec_effect_count() == self.spec_effect_count(),
    {
        Self(track_builder_sound_capacity(self.0, capacity))
    }

    /// Set the maximum number of sub-tracks this track can hold.
    ///
    /// Every sound played on a channel of this track with effects of its own runs on a
    /// sub-track of this one and takes a slot for as long as it plays, plus its effect tail.
    pub fn sub_track_capacity(self, capacity: usize) -> (track: Self)
        ensures
            track.spec_sound_capacity() == self.spec_sound_capacity(),
            track.spec_sub_track_capacity() == capacity,
            track.spec_persists() == self.spec_persists(),
            track.spec_volume() == self.spec_volume(),
            track.spec_effect_count() == self.spec_effect_count(),
    {
        Self(track_builder_sub_track_capacity(self.0, capacity))
    }

    /// Keep the track alive until all sounds on it have finished playing.
    pub fn persist_until_sounds_finish(self, persist: bool) -> (track: Self)
        ensures
            track.spec_sound_capacity() == self.spec_sound_capacity(),
            track.spec_sub_track_capacity() == self.spec_sub_track_capacity(),
            track.spec_persists() == persist,
            track.spec_volume() == self.spec_volume(),
            track.spec_effect_count() == self.spec_effect_count(),
    {
        Self(track_builder_persist(self.0, persist))
    }

    /// The builder, to add effects to.
    ///
    /// Effects are trait objects; they are added to the builder directly.
    pub fn builder_mut(&mut self) -> (builder: &mut TrackBuilder)
        ensures
            *builder == old(self).builder(),
            final(self).builder() == *final(builder),
    {
        &mut self.0
    }

    /// The builder the track is made from.
    pub fn into_inner(self) -> (builder: TrackBuilder)
        ensures
            builder == self.builder(),
    {
        self.0
    }
}

impl Default for AudioTrack {
    fn default() -> (track: Self)
        ensures
            track.spec_sound_capacity() == 128,
            track.spec_sub_track_capacity() == 128,
            !track.spec_persists(),
            track.spec_effect_count() == 0,
    {
        Self::new()
    }
}

} // verus!
