//! The kira engine as the library sees it.
//!
//! The items here are kira's types and thin calls into kira; their contracts say what kira's
//! source does. The types are declared so that the library can hold them and pass them on; what
//! its logic reads of them goes through the functions below.
//!
//! A [`TrackBuilder`] is the collection of a track's effects, made with limits of its own: how
//! many sounds and sub-tracks the track will hold, and whether it outlives its handle while
//! sounds still play on it. Those three are named here, and the builder functions say what each
//! of them does to them, as kira's source shows. The effects themselves are trait objects, and
//! the volume is a float: neither is named here.
//!
//! A track made from a builder, and the engine's main track, hold their sounds and sub-tracks in
//! arenas of a fixed size: the capacities they were made with, also named here. kira panics when
//! it adds to an arena of size zero, so the functions that add require room; whether an arena
//! of some room is full depends on what is alive in the engine, and is not stated.
//!
//! What a call hands to kira is named as the value of the engine, track or sound handle after
//! the call, taken as a function of its value before and of what was handed: the sound or track
//! queued, the command written. Where kira has no room, it reserves nothing and the engine or
//! track is as it was. What the audio thread then does with what it was handed is not stated.

use vstd::prelude::*;
use kira::sound::static_sound::{StaticSoundData, StaticSoundHandle};
use kira::track::{MainTrackBuilder, TrackBuilder, TrackHandle};
use kira::{
    AudioManager, AudioManagerSettings, Capacities, Decibels, DefaultBackend, Panning,
    PlaySoundError, PlaybackRate, ResourceLimitReached, Tween,
};
use crate::audio_output::SoundState;
use crate::backend_settings::AudioSettings;

verus! {

#[verifier::external_type_specification]
#[verifier::external_body]
pub struct ExTrackBuilder(TrackBuilder);

#[verifier::external_type_specification]
#[verifier::external_body]
pub struct ExTrackHandle(TrackHandle);

#[verifier::external_type_specification]
#[verifier::external_body]
pub struct ExStaticSoundData(StaticSoundData);

#[verifier::external_type_specification]
#[verifier::external_body]
pub struct ExStaticSoundHandle(StaticSoundHandle);

#[verifier::external_type_specification]
#[verifier::external_body]
#[verifier::reject_recursive_types(E)]
pub struct ExPlaySoundError<E>(PlaySoundError<E>);

#[verifier::external_type_specification]
#[verifier::external_body]
pub struct ExResourceLimitReached(ResourceLimitReached);

#[verifier::external_type_specification]
#[verifier::external_body]
pub struct ExDecibels(Decibels);

#[verifier::external_type_specification]
#[verifier::external_body]
pub struct ExPanning(Panning);

#[verifier::external_type_specification]
#[verifier::external_body]
pub struct ExPlaybackRate(PlaybackRate);

#[verifier::external_type_specification]
#[verifier::external_body]
pub struct ExTween(Tween);

/// How many sounds a track made from the builder can hold at a time.
pub uninterp spec fn builder_sound_capacity(builder: TrackBuilder) -> usize;

/// How many sub-tracks a track made from the builder can hold at a time.
pub uninterp spec fn builder_sub_track_capacity(builder: TrackBuilder) -> usize;

/// Whether a track made from the builder stays until the sounds on it finish, once its handle
/// is dropped.
pub uninterp spec fn builder_persists(builder: TrackBuilder) -> bool;

/// The fixed volume a track made from the builder plays at; `None` where its volume follows a
/// modulator rather than a fixed level.
pub uninterp spec fn builder_volume(builder: TrackBuilder) -> Option<Decibels>;

/// How many effects the builder holds: the length of its list of effects.
pub uninterp spec fn builder_effect_count(builder: TrackBuilder) -> usize;

/// kira's `TrackBuilder::new`: a builder for a track of 128 sounds and 128 sub-tracks, with no
/// effects, that goes away with its handle.
#[verifier::external_body]
pub(crate) fn track_builder_new() -> (builder: TrackBuilder)
    ensures
        builder_sound_capacity(builder) == 128,
        builder_sub_track_capacity(builder) == 128,
        !builder_persists(builder),
        builder_effect_count(builder) == 0,
{
    TrackBuilder::new()
}

/// kira's `TrackBuilder::sound_capacity`: sets how many sounds the track holds, and nothing else.
#[verifier::external_body]
pub(crate) fn track_builder_sound_capacity(builder: TrackBuilder, capacity: usize) -> (result:
    TrackBuilder)
    ensures
        builder_sound_capacity(result) == capacity,
        builder_sub_track_capacity(result) == builder_sub_track_capacity(builder),
        builder_persists(result) == builder_persists(builder),
        builder_volume(result) == builder_volume(builder),
        builder_effect_count(result) == builder_effect_count(builder),
{
    builder.sound_capacity(capacity)
}

/// kira's `TrackBuilder::sub_track_capacity`: sets how many sub-tracks the track holds, and
/// nothing else.
#[verifier::external_body]
pub(crate) fn track_builder_sub_track_capacity(builder: TrackBuilder, capacity: usize) -> (result:
    TrackBuilder)
    ensures
        builder_sound_capacity(result) == builder_sound_capacity(builder),
        builder_sub_track_capacity(result) == capacity,
        builder_persists(result) == builder_persists(builder),
        builder_volume(result) == builder_volume(builder),
        builder_effect_count(result) == builder_effect_count(builder),
{
    builder.sub_track_capacity(capacity)
}

/// kira's `TrackBuilder::persist_until_sounds_finish`: sets whether the track waits for its
/// sounds, and nothing else.
#[verifier::external_body]
pub(crate) fn track_builder_persist(builder: TrackBuilder, persist: bool) -> (result: TrackBuilder)
    ensures
        builder_sound_capacity(result) == builder_sound_capacity(builder),
        builder_sub_track_capacity(result) == builder_sub_track_capacity(builder),
        builder_persists(result) == persist,
        builder_volume(result) == builder_volume(builder),
        builder_effect_count(result) == builder_effect_count(builder),
{
    builder.persist_until_sounds_finish(persist)
}

/// kira's `TrackBuilder::volume`: sets the track's volume to the fixed level given and leaves
/// its limits be.
#[verifier::external_body]
pub(crate) fn track_builder_volume(builder: TrackBuilder, volume: Decibels) -> (result: TrackBuilder)
    ensures
        builder_sound_capacity(result) == builder_sound_capacity(builder),
        builder_sub_track_capacity(result) == builder_sub_track_capacity(builder),
        builder_persists(result) == builder_persists(builder),
        builder_volume(result) == Some(volume),
        builder_effect_count(result) == builder_effect_count(builder),
{
    builder.volume(volume)
}

/// How many sounds the track holds at a time: the sound capacity of the builder it was made from.
pub uninterp spec fn handle_sound_capacity(track: TrackHandle) -> usize;

/// How many sub-tracks the track holds at a time: the sub-track capacity of the builder it was
/// made from.
pub uninterp spec fn handle_sub_track_capacity(track: TrackHandle) -> usize;

/// The audio manager: the root of kira's mixer graph and the device it plays on.
///
/// kira's `AudioManager`, on the backend that kira uses by default. The manager's type
/// parameter is bound by kira's `Backend` trait, so the manager is kept inside this type, whose
/// contents only the functions below reach.
#[verifier::external_body]
pub struct Engine {
    manager: AudioManager<DefaultBackend>,
}

/// How many sounds the engine's main track holds at a time.
pub uninterp spec fn engine_sound_capacity(engine: Engine) -> usize;

/// How many sub-tracks hang off the engine's main track at most.
pub uninterp spec fn engine_sub_track_capacity(engine: Engine) -> usize;

/// The engine after a sound was queued on its main track: kira hands `sound` to the main
/// track's arena of sounds, from which the audio thread takes it.
pub uninterp spec fn engine_with_sound(engine: Engine, sound: StaticSoundData) -> Engine;

/// The engine after a track made from `builder` was queued under its main track.
pub uninterp spec fn engine_with_sub_track(engine: Engine, builder: TrackBuilder) -> Engine;

/// The track after a sound was queued on it.
pub uninterp spec fn track_with_sound(track: TrackHandle, sound: StaticSoundData) -> TrackHandle;

/// The track after a track made from `builder` was queued under it.
pub uninterp spec fn track_with_sub_track(track: TrackHandle, builder: TrackBuilder) -> TrackHandle;

/// The sound's handle after a stop with the fade `tween` was written to it.
pub uninterp spec fn stopped_with(sound: StaticSoundHandle, tween: Tween) -> StaticSoundHandle;

/// The sound's handle after a pause with the fade `tween` was written to it.
pub uninterp spec fn paused_with(sound: StaticSoundHandle, tween: Tween) -> StaticSoundHandle;

/// The sound's handle after a resume with the fade `tween` was written to it.
pub uninterp spec fn resumed_with(sound: StaticSoundHandle, tween: Tween) -> StaticSoundHandle;

/// The sound's handle after a change of volume to `volume`, with the fade `tween`, was written
/// to it.
pub uninterp spec fn volume_set_to(
    sound: StaticSoundHandle,
    volume: Decibels,
    tween: Tween,
) -> StaticSoundHandle;

/// The sound's handle after a change of panning to `panning`, with the fade `tween`, was
/// written to it.
pub uninterp spec fn panning_set_to(
    sound: StaticSoundHandle,
    panning: Panning,
    tween: Tween,
) -> StaticSoundHandle;

/// The sound's handle after a change of playback rate to `rate`, with the fade `tween`, was
/// written to it.
pub uninterp spec fn rate_set_to(
    sound: StaticSoundHandle,
    rate: PlaybackRate,
    tween: Tween,
) -> StaticSoundHandle;

impl Engine {
    /// kira's `AudioManager::new`, with the main track holding `settings.sound_capacity` sounds
    /// and the manager `settings.sub_track_capacity` sub-tracks, everything else at kira's
    /// defaults. Whether the backend starts depends on the machine; the engine it gives has the
    /// capacities asked for.
    #[verifier::external_body]
    pub(crate) fn start(settings: AudioSettings) -> (engine: Result<Engine, String>)
        ensures
            engine matches Ok(engine) ==> {
                &&& engine_sound_capacity(engine) == settings.sound_capacity
                &&& engine_sub_track_capacity(engine) == settings.sub_track_capacity
            },
    {
        let manager_settings = AudioManagerSettings::<DefaultBackend> {
            capacities: Capacities {
                sub_track_capacity: settings.sub_track_capacity,
                ..Capacities::default()
            },
            main_track_builder: MainTrackBuilder::new().sound_capacity(settings.sound_capacity),
            ..AudioManagerSettings::default()
        };
        AudioManager::new(manager_settings).map(|manager| Engine { manager }).map_err(
            |error| format!("{:?}", error),
        )
    }
}

/// kira's `MainTrackHandle::sound_capacity`, of the engine's main track.
#[verifier::external_body]
pub(crate) fn engine_main_sound_capacity(engine: &mut Engine) -> (capacity: usize)
    ensures
        capacity == engine_sound_capacity(*old(engine)),
        *final(engine) == *old(engine),
{
    engine.manager.main_track().sound_capacity()
}

/// kira's `AudioManager::sub_track_capacity`.
#[verifier::external_body]
pub(crate) fn engine_main_sub_track_capacity(engine: &Engine) -> (capacity: usize)
    ensures
        capacity == engine_sub_track_capacity(*engine),
{
    engine.manager.sub_track_capacity()
}

/// kira's `AudioManager::add_sub_track`: adds a track under the main track, made with the
/// builder's capacities. Whether there is room for it depends on the tracks alive in the
/// engine; where there is none, kira reserves no slot and changes nothing. kira panics where
/// the main track has no room for sub-tracks at all.
#[verifier::external_body]
pub(crate) fn engine_add_sub_track(engine: &mut Engine, builder: TrackBuilder) -> (result: Result<
    TrackHandle,
    ResourceLimitReached,
>)
    requires
        engine_sub_track_capacity(*old(engine)) > 0,
    ensures
        engine_sound_capacity(*final(engine)) == engine_sound_capacity(*old(engine)),
        engine_sub_track_capacity(*final(engine)) == engine_sub_track_capacity(*old(engine)),
        result matches Ok(track) ==> {
            &&& handle_sound_capacity(track) == builder_sound_capacity(builder)
            &&& handle_sub_track_capacity(track) == builder_sub_track_capacity(builder)
        },
        result is Ok ==> *final(engine) == engine_with_sub_track(*old(engine), builder),
        result is Err ==> *final(engine) == *old(engine),
{
    engine.manager.add_sub_track(builder)
}

/// kira's `AudioManager::play`: plays a sound on the main track. Whether there is room for it
/// depends on the sounds alive in the engine; where there is none, kira reserves no slot and
/// changes nothing. kira panics where the main track has no room for sounds at all.
#[verifier::external_body]
pub(crate) fn engine_play(engine: &mut Engine, sound: StaticSoundData) -> (result: Result<
    StaticSoundHandle,
    PlaySoundError<()>,
>)
    requires
        engine_sound_capacity(*old(engine)) > 0,
    ensures
        engine_sound_capacity(*final(engine)) == engine_sound_capacity(*old(engine)),
        engine_sub_track_capacity(*final(engine)) == engine_sub_track_capacity(*old(engine)),
        result is Ok ==> *final(engine) == engine_with_sound(*old(engine), sound),
        result is Err ==> *final(engine) == *old(engine),
{
    engine.manager.play(sound)
}

/// kira's `AudioManager::num_sub_tracks`: how many tracks hang off the main track. It depends
/// on the engine, so nothing is promised of it.
#[verifier::external_body]
pub(crate) fn engine_num_sub_tracks(engine: &Engine) -> (count: usize) {
    engine.manager.num_sub_tracks()
}

/// kira's `TrackHandle::sound_capacity`.
#[verifier::external_body]
pub(crate) fn track_sound_capacity(track: &TrackHandle) -> (capacity: usize)
    ensures
        capacity == handle_sound_capacity(*track),
{
    track.sound_capacity()
}

/// kira's `TrackHandle::sub_track_capacity`.
#[verifier::external_body]
pub(crate) fn track_sub_track_capacity(track: &TrackHandle) -> (capacity: usize)
    ensures
        capacity == handle_sub_track_capacity(*track),
{
    track.sub_track_capacity()
}

/// kira's `TrackHandle::add_sub_track`: adds a track under this one, made with the builder's
/// capacities. Whether there is room for it depends on the engine; where there is none, kira
/// reserves no slot and changes nothing. kira panics where this track has no room for
/// sub-tracks at all.
#[verifier::external_body]
pub(crate) fn track_add_sub_track(track: &mut TrackHandle, builder: TrackBuilder) -> (result: Result<
    TrackHandle,
    ResourceLimitReached,
>)
    requires
        handle_sub_track_capacity(*old(track)) > 0,
    ensures
        handle_sound_capacity(*final(track)) == handle_sound_capacity(*old(track)),
        handle_sub_track_capacity(*final(track)) == handle_sub_track_capacity(*old(track)),
        result matches Ok(sub_track) ==> {
            &&& handle_sound_capacity(sub_track) == builder_sound_capacity(builder)
            &&& handle_sub_track_capacity(sub_track) == builder_sub_track_capacity(builder)
        },
        result is Ok ==> *final(track) == track_with_sub_track(*old(track), builder),
        result is Err ==> *final(track) == *old(track),
{
    track.add_sub_track(builder)
}

/// kira's `TrackHandle::play`: plays a sound on this track. Whether there is room for it
/// depends on the engine; where there is none, kira reserves no slot and changes nothing. kira
/// panics where this track has no room for sounds at all.
#[verifier::external_body]
pub(crate) fn track_play(track: &mut TrackHandle, sound: StaticSoundData) -> (result: Result<
    StaticSoundHandle,
    PlaySoundError<()>,
>)
    requires
        handle_sound_capacity(*old(track)) > 0,
    ensures
        handle_sound_capacity(*final(track)) == handle_sound_capacity(*old(track)),
        handle_sub_track_capacity(*final(track)) == handle_sub_track_capacity(*old(track)),
        result is Ok ==> *final(track) == track_with_sound(*old(track), sound),
        result is Err ==> *final(track) == *old(track),
{
    track.play(sound)
}

/// kira's `TrackHandle::num_sub_tracks`: how many tracks hang off this one. It depends on the
/// engine, so nothing is promised of it.
#[verifier::external_body]
pub(crate) fn track_num_sub_tracks(track: &TrackHandle) -> (count: usize) {
    track.num_sub_tracks()
}

/// kira's `StaticSoundHandle::state`, told apart variant by variant. The state is the audio
/// thread's, so nothing is promised of it.
#[verifier::external_body]
pub(crate) fn sound_state(sound: &StaticSoundHandle) -> (state: SoundState) {
    match sound.state() {
        kira::sound::PlaybackState::Playing => SoundState::Playing,
        kira::sound::PlaybackState::Pausing => SoundState::Pausing,
        kira::sound::PlaybackState::Paused => SoundState::Paused,
        kira::sound::PlaybackState::WaitingToResume => SoundState::WaitingToResume,
        kira::sound::PlaybackState::Resuming => SoundState::Resuming,
        kira::sound::PlaybackState::Stopping => SoundState::Stopping,
        kira::sound::PlaybackState::Stopped => SoundState::Stopped,
    }
}

/// kira's `StaticSoundHandle::stop`: asks the audio thread to fade the sound out and stop it.
#[verifier::external_body]
pub(crate) fn sound_stop(sound: &mut StaticSoundHandle, tween: Tween)
    ensures
        *final(sound) == stopped_with(*old(sound), tween),
{
    sound.stop(tween)
}

/// kira's `StaticSoundHandle::pause`: asks the audio thread to fade the sound out and pause it.
#[verifier::external_body]
pub(crate) fn sound_pause(sound: &mut StaticSoundHandle, tween: Tween)
    ensures
        *final(sound) == paused_with(*old(sound), tween),
{
    sound.pause(tween)
}

/// kira's `StaticSoundHandle::resume`: asks the audio thread to fade the sound back in.
#[verifier::external_body]
pub(crate) fn sound_resume(sound: &mut StaticSoundHandle, tween: Tween)
    ensures
        *final(sound) == resumed_with(*old(sound), tween),
{
    sound.resume(tween)
}

/// kira's `StaticSoundHandle::set_volume`: asks the audio thread to move the sound's volume.
#[verifier::external_body]
pub(crate) fn sound_set_volume(sound: &mut StaticSoundHandle, volume: Decibels, tween: Tween)
    ensures
        *final(sound) == volume_set_to(*old(sound), volume, tween),
{
    sound.set_volume(volume, tween)
}

/// kira's `StaticSoundHandle::set_panning`: asks the audio thread to move the sound's panning.
#[verifier::external_body]
pub(crate) fn sound_set_panning(sound: &mut StaticSoundHandle, panning: Panning, tween: Tween)
    ensures
        *final(sound) == panning_set_to(*old(sound), panning, tween),
{
    sound.set_panning(panning, tween)
}

/// kira's `StaticSoundHandle::set_playback_rate`: asks the audio thread to move the sound's
/// playback rate.
#[verifier::external_body]
pub(crate) fn sound_set_playback_rate(
    sound: &mut StaticSoundHandle,
    rate: PlaybackRate,
    tween: Tween,
)
    ensures
        *final(sound) == rate_set_to(*old(sound), rate, tween),
{
    sound.set_playback_rate(rate, tween)
}

/// kira's `Tween::default`: a short linear fade starting at once.
pub assume_specification[ <Tween as core::default::Default>::default ]() -> Tween;

/// kira's `Decibels::default`: the volume that leaves a signal as it is.
pub assume_specification[ <Decibels as core::default::Default>::default ]() -> Decibels;

/// kira's `Panning::default`: the centre.
pub assume_specification[ <Panning as core::default::Default>::default ]() -> Panning;

/// kira's `PlaybackRate::default`: the normal rate.
pub assume_specification[ <PlaybackRate as core::default::Default>::default ]() -> PlaybackRate;

} // verus!
