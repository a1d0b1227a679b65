//! The audio output: which sounds play where.

use vstd::prelude::*;
use std::collections::{HashMap, HashSet};
use kira::sound::static_sound::{StaticSoundData, StaticSoundHandle};
use kira::track::{TrackBuilder, TrackHandle};
use kira::{Decibels, Panning, PlaybackRate, Tween};
use crate::backend_settings::AudioSettings;
use crate::effect::{AudioTrack, DEFAULT_EFFECT_TAIL};
use crate::engine::{
    builder_sound_capacity, engine_add_sub_track, engine_main_sound_capacity,
    engine_main_sub_track_capacity, engine_num_sub_tracks, engine_play, engine_sound_capacity,
    engine_sub_track_capacity, engine_with_sound, engine_with_sub_track, handle_sound_capacity,
    handle_sub_track_capacity, panning_set_to, paused_with, rate_set_to, resumed_with,
    sound_pause, sound_resume, sound_set_panning, sound_set_playback_rate, sound_set_volume,
    sound_state, sound_stop, stopped_with, track_add_sub_track, track_num_sub_tracks, track_play,
    track_sound_capacity, track_sub_track_capacity, track_with_sound, track_with_sub_track,
    volume_set_to, Engine,
};
use crate::instance_track::InstanceTrack;
use vstd::std_specs::hash::spec_keys_iter;
use vstd::std_specs::iter::IteratorSpec;

verus! {

/// Where a sound is in its playback, as kira reports it.
#[derive(Debug, Clone, Copy, PartialEq, Eq)]
pub enum SoundState {
    /// The sound is playing normally.
    Playing,
    /// The sound is fading out, and pauses once the fade is over.
    Pausing,
    /// Playback is paused.
    Paused,
    /// The sound is paused, but is scheduled to resume.
    WaitingToResume,
    /// The sound is fading back in after a pause.
    Resuming,
    /// The sound is fading out, and stops once the fade is over.
    Stopping,
    /// The sound has stopped and can no longer be resumed.
    Stopped,
}

impl SoundState {
    /// Whether a pause applies to a sound in this state: only to one that is playing.
    pub open spec fn spec_pausable(self) -> bool {
        self == SoundState::Playing
    }

    /// Whether a resume applies to a sound in this state: to one that is paused, or fading out
    /// towards a pause or a stop.
    pub open spec fn spec_resumable(self) -> bool {
        self == SoundState::Paused || self == SoundState::Pausing || self == SoundState::Stopping
    }

    /// Whether a pause applies to a sound in this state.
    pub fn pausable(self) -> (pausable: bool)
        ensures
            pausable == self.spec_pausable(),
    {
        match self {
            SoundState::Playing => true,
            _ => false,
        }
    }

    /// Whether a resume applies to a sound in this state.
    pub fn resumable(self) -> (resumable: bool)
        ensures
            resumable == self.spec_resumable(),
    {
        match self {
            SoundState::Paused | SoundState::Pausing | SoundState::Stopping => true,
            _ => false,
        }
    }
}

/// The settings a channel applies to every sound played on it.
#[derive(Clone, Copy)]
pub struct ChannelState {
    /// Whether the channel is paused: sounds started on it wait, paused.
    pub paused: bool,
    /// The volume of the channel's sounds.
    pub volume: Decibels,
    /// The panning of the channel's sounds.
    pub panning: Panning,
    /// The playback rate of the channel's sounds.
    pub playback_rate: PlaybackRate,
}

impl Default for ChannelState {
    /// A channel no command has changed: playing, at kira's default volume, panning and rate.
    fn default() -> (state: Self)
        ensures
            !state.paused,
    {
        ChannelState {
            paused: false,
            volume: Decibels::default(),
            panning: Panning::default(),
            playback_rate: PlaybackRate::default(),
        }
    }
}

/// A change applied to every sound of a channel.
#[derive(Clone, Copy)]
pub enum SoundCommand {
    /// Fade out and stop.
    Stop(Tween),
    /// Fade out and pause.
    Pause(Tween),
    /// Fade back in.
    Resume(Tween),
    /// Move to a volume.
    SetVolume(Decibels, Tween),
    /// Move to a panning.
    SetPanning(Panning, Tween),
    /// Move to a playback rate.
    SetPlaybackRate(PlaybackRate, Tween),
}

/// A sound's handle after `command` was written to it.
pub open spec fn handed(command: SoundCommand, sound: StaticSoundHandle) -> StaticSoundHandle {
    match command {
        SoundCommand::Stop(tween) => stopped_with(sound, tween),
        SoundCommand::Pause(tween) => paused_with(sound, tween),
        SoundCommand::Resume(tween) => resumed_with(sound, tween),
        SoundCommand::SetVolume(volume, tween) => volume_set_to(sound, volume, tween),
        SoundCommand::SetPanning(panning, tween) => panning_set_to(sound, panning, tween),
        SoundCommand::SetPlaybackRate(rate, tween) => rate_set_to(sound, rate, tween),
    }
}

/// The handles after `command` was written, in turn, to the handle of each of `targets` that
/// has one; a target listed twice gets it twice.
pub open spec fn commanded_handles(
    handles: Map<u64, StaticSoundHandle>,
    targets: Seq<u64>,
    command: SoundCommand,
) -> Map<u64, StaticSoundHandle>
    decreases targets.len(),
{
    if targets.len() == 0 {
        handles
    } else {
        let before = commanded_handles(handles, targets.drop_last(), command);
        if before.contains_key(targets.last()) {
            before.insert(targets.last(), handed(command, before[targets.last()]))
        } else {
            before
        }
    }
}

/// Writing a command to some handles keeps the set of handles, and leaves every handle that is
/// not a target as it was.
pub proof fn lemma_commanded_frame(
    handles: Map<u64, StaticSoundHandle>,
    targets: Seq<u64>,
    command: SoundCommand,
)
    ensures
        commanded_handles(handles, targets, command).dom() == handles.dom(),
        forall|id: u64|
            #![trigger commanded_handles(handles, targets, command)[id]]
            handles.contains_key(id) && !targets.contains(id) ==> commanded_handles(
                handles,
                targets,
                command,
            )[id] == handles[id],
    decreases targets.len(),
{
    if targets.len() > 0 {
        lemma_commanded_frame(handles, targets.drop_last(), command);
        assert(commanded_handles(handles, targets, command).dom() =~= handles.dom());
        assert forall|id: u64|
            handles.contains_key(id) && !targets.contains(id) implies #[trigger] commanded_handles(
            handles,
            targets,
            command,
        )[id] == handles[id] by {
            assert(targets =~= targets.drop_last().push(targets.last()));
            vstd::seq_lib::lemma_seq_contains_after_push(targets.drop_last(), targets.last(), id);
        }
    }
}

/// What became of a request for a channel's own track.
#[derive(Debug, Clone, Copy, PartialEq, Eq)]
pub enum ChannelTrackOutcome {
    /// The channel got its track.
    Added,
    /// The channel had a track, and the new one took its place: effect handles of the old
    /// track no longer control the channel.
    Replaced,
    /// The engine had no room for the track.
    Refused,
    /// There is no engine to add the track to.
    NoEngine,
}

/// Where the track carrying a sound's own effects hangs in the mixer graph.
#[derive(Debug, Clone, Copy, PartialEq, Eq)]
pub enum TrackParent {
    /// Under the channel's own track, so that the channel's effects run after the sound's.
    ChannelTrack,
    /// Directly under the main track.
    MainTrack,
}

/// Where a sound is played.
#[derive(Debug, Clone, Copy, PartialEq, Eq)]
pub enum SoundRoute {
    /// On a track of its own, carrying its own effects.
    InstanceTrack,
    /// On its channel's track, through the channel's effects.
    ChannelTrack,
    /// On the main track.
    MainTrack,
}

/// How a sound asks to be played, besides its sound data.
pub struct PlayRequest {
    /// Whether the sound starts paused.
    pub paused: bool,
    /// The playback rate the sound asks for, if any.
    pub playback_rate: Option<PlaybackRate>,
    /// How long its own effects may ring on after it stops, in nanoseconds; the default tail
    /// if `None`.
    pub effect_tail: Option<u64>,
    /// The track carrying the sound's own effects, if it has any.
    pub track: Option<AudioTrack>,
}

/// The audio output.
///
/// It holds the engine to play through and keeps track of the sound instances playing on each
/// channel, the state of each channel, and the tracks carrying channel and instance effects.
/// Channels and instances are known by number.
pub struct AudioOutput {
    manager: Option<Engine>,
    instances: HashMap<u64, Vec<u64>>,
    channels: HashMap<u64, ChannelState>,
    channel_tracks: HashMap<u64, TrackHandle>,
    instance_tracks: HashMap<u64, InstanceTrack>,
    channel_defaults: ChannelState,
    default_fade: Tween,
    normal_rate: PlaybackRate,
}

impl AudioOutput {
    /// The engine played through, if there is one.
    pub closed spec fn spec_engine(&self) -> Option<Engine> {
        self.manager
    }

    /// The tracks of the channels that have one, by channel.
    pub closed spec fn channel_track_map(&self) -> Map<u64, TrackHandle> {
        self.channel_tracks@
    }

    /// kira's default fade: the one a command given no fade uses, and the one with which a
    /// sound that starts held is paused and set to its rate.
    pub closed spec fn spec_default_fade(&self) -> Tween {
        self.default_fade
    }

    /// The rate that a sound asking for none is set to once it is held: kira's normal rate.
    pub closed spec fn spec_normal_rate(&self) -> PlaybackRate {
        self.normal_rate
    }

    /// Whether there is an engine to play through.
    pub open spec fn spec_has_engine(&self) -> bool {
        self.spec_engine() is Some
    }

    /// The instances playing on each channel, in the order in which they started.
    pub closed spec fn instance_lists(&self) -> Map<u64, Seq<u64>> {
        self.instances@.map_values(|ids: Vec<u64>| ids@)
    }

    /// The state of each channel that a command has touched.
    pub closed spec fn channel_states(&self) -> Map<u64, ChannelState> {
        self.channels@
    }

    /// The channels that have a track of their own.
    pub open spec fn channels_with_tracks(&self) -> Set<u64> {
        self.channel_track_map().dom()
    }

    /// The tracks carrying instances' own effects, by instance.
    pub closed spec fn instance_track_map(&self) -> Map<u64, InstanceTrack> {
        self.instance_tracks@
    }

    /// The state of a channel that no command has touched yet.
    pub closed spec fn default_channel_state(&self) -> ChannelState {
        self.channel_defaults
    }

    /// The state a command on `channel` starts from.
    pub open spec fn base_state(&self, channel: u64) -> ChannelState {
        state_or(self.channel_states(), self.default_channel_state(), channel)
    }

    /// The engine and the channel tracks are as in `other`.
    pub open spec fn same_mixer(&self, other: &AudioOutput) -> bool {
        &&& self.spec_engine() == other.spec_engine()
        &&& self.channel_track_map() == other.channel_track_map()
    }

    /// What never changes after the output is made is as in `other`.
    pub open spec fn same_constants(&self, other: &AudioOutput) -> bool {
        &&& self.default_channel_state() == other.default_channel_state()
        &&& self.spec_default_fade() == other.spec_default_fade()
        &&& self.spec_normal_rate() == other.spec_normal_rate()
    }

    /// Everything but the channel states is as in `other`.
    pub open spec fn same_but_channel_states(&self, other: &AudioOutput) -> bool {
        &&& self.same_mixer(other)
        &&& self.same_constants(other)
        &&& self.instance_lists() == other.instance_lists()
        &&& self.instance_track_map() == other.instance_track_map()
    }

    /// An output playing through `engine`, with no channel touched and no sound playing.
    pub fn new(engine: Option<Engine>) -> (output: Self)
        ensures
            output.spec_engine() == engine,
            output.spec_has_engine() == engine is Some,
            engine matches Some(engine) ==> {
                &&& output.main_sound_capacity() == engine_sound_capacity(engine)
                &&& output.main_sub_track_capacity() == engine_sub_track_capacity(engine)
            },
            output.instance_lists().is_empty(),
            output.channel_states().is_empty(),
            output.channels_with_tracks().is_empty(),
            output.instance_track_map().is_empty(),
            !output.default_channel_state().paused,
    {
        let output = AudioOutput {
            manager: engine,
            instances: HashMap::new(),
            channels: HashMap::new(),
            channel_tracks: HashMap::new(),
            instance_tracks: HashMap::new(),
            channel_defaults: ChannelState::default(),
            default_fade: Tween::default(),
            normal_rate: PlaybackRate::default(),
        };
        assert(output.instance_lists() =~= Map::empty());
        output
    }

    /// Start the engine with `settings` and build the output on it.
    ///
    /// Where the engine does not start, the output has none and the error is handed back: no
    /// sound will play.
    pub fn from_settings(settings: AudioSettings) -> (result: (Self, Option<String>))
        ensures
            result.0.spec_has_engine() <==> result.1 is None,
            result.0.spec_has_engine() ==> {
                &&& result.0.main_sound_capacity() == settings.sound_capacity
                &&& result.0.main_sub_track_capacity() == settings.sub_track_capacity
            },
            result.0.instance_lists().is_empty(),
            result.0.channel_states().is_empty(),
            result.0.channels_with_tracks().is_empty(),
            result.0.instance_track_map().is_empty(),
            !result.0.default_channel_state().paused,
    {
        match Engine::start(settings) {
            Ok(engine) => (Self::new(Some(engine)), None),
            Err(error) => (Self::new(None), Some(error)),
        }
    }

    /// Whether there is an engine to play through.
    pub fn has_engine(&self) -> (has: bool)
        ensures
            has == self.spec_has_engine(),
    {
        self.manager.is_some()
    }

    /// The state of a channel, if a command has touched it.
    pub fn channel_state(&self, channel: u64) -> (state: Option<&ChannelState>)
        ensures
            state == (if self.channel_states().contains_key(channel) {
                Some(&self.channel_states()[channel])
            } else {
                None
            }),
    {
        broadcast use vstd::std_specs::hash::group_hash_axioms;
        self.channels.get(&channel)
    }

    /// The instances playing on a channel, oldest first.
    pub fn instances_on(&self, channel: u64) -> (ids: Option<&Vec<u64>>)
        ensures
            match ids {
                Some(ids) => self.instance_lists().contains_key(channel) && ids@
                    == self.instance_lists()[channel],
                None => !self.instance_lists().contains_key(channel),
            },
    {
        broadcast use vstd::std_specs::hash::group_hash_axioms;
        self.instances.get(&channel)
    }

    /// How many instances have a track of their own.
    pub fn instance_track_count(&self) -> (count: usize)
        ensures
            count == self.instance_track_map().len(),
    {
        broadcast use vstd::std_specs::hash::group_hash_axioms;
        self.instance_tracks.len()
    }

    /// How many channels have a track of their own.
    pub fn channel_track_count(&self) -> (count: usize)
        ensures
            count == self.channels_with_tracks().len(),
    {
        broadcast use vstd::std_specs::hash::group_hash_axioms;
        self.channel_tracks.len()
    }

    /// The track carrying an instance's own effects, if it has one.
    pub fn instance_track(&self, instance: u64) -> (track: Option<&InstanceTrack>)
        ensures
            track == (if self.instance_track_map().contains_key(instance) {
                Some(&self.instance_track_map()[instance])
            } else {
                None
            }),
    {
        broadcast use vstd::std_specs::hash::group_hash_axioms;
        self.instance_tracks.get(&instance)
    }

    /// How many tracks hang off a channel's own track, if it has one. The count is the
    /// engine's.
    pub fn channel_sub_tracks(&self, channel: u64) -> (count: Option<usize>)
        ensures
            count is Some <==> self.channels_with_tracks().contains(channel),
    {
        broadcast use vstd::std_specs::hash::group_hash_axioms;
        match self.channel_tracks.get(&channel) {
            Some(track) => Some(track_num_sub_tracks(track)),
            None => None,
        }
    }

    /// How many tracks hang off the main track, if there is an engine. The count is the
    /// engine's.
    pub fn main_sub_tracks(&self) -> (count: Option<usize>)
        ensures
            count is Some <==> self.spec_has_engine(),
    {
        match &self.manager {
            Some(engine) => Some(engine_num_sub_tracks(engine)),
            None => None,
        }
    }

    /// The track of `channel`, if it has one.
    pub open spec fn channel_track(&self, channel: u64) -> TrackHandle {
        self.channel_track_map()[channel]
    }

    /// How many sub-tracks the track of `channel` holds at most, if the channel has one.
    pub open spec fn channel_track_sub_capacity(&self, channel: u64) -> usize {
        handle_sub_track_capacity(self.channel_track(channel))
    }

    /// How many sounds the engine's main track holds at a time, if there is an engine.
    pub open spec fn main_sound_capacity(&self) -> usize {
        engine_sound_capacity(self.spec_engine()->0)
    }

    /// How many sub-tracks the engine's main track holds at most, if there is an engine.
    pub open spec fn main_sub_track_capacity(&self) -> usize {
        engine_sub_track_capacity(self.spec_engine()->0)
    }

    /// Whether `instance` plays on `channel`.
    pub open spec fn plays_on(&self, channel: u64, instance: u64) -> bool {
        self.instance_lists().contains_key(channel) && self.instance_lists()[channel].contains(
            instance,
        )
    }

    /// The instances listed on `channel`, oldest first; none where nothing played on it.
    pub open spec fn listed(&self, channel: u64) -> Seq<u64> {
        if self.instance_lists().contains_key(channel) {
            self.instance_lists()[channel]
        } else {
            Seq::empty()
        }
    }

    /// The instances of `channel` that have a handle, oldest first, each with the state its
    /// handle reports. The states are the audio thread's.
    fn reported_states(
        &self,
        channel: u64,
        audio_instances: &HashMap<u64, StaticSoundHandle>,
    ) -> (reported: Vec<(u64, SoundState)>)
        ensures
            ids_of(reported@) == among(self.listed(channel), audio_instances@.dom()),
    {
        broadcast use vstd::std_specs::hash::group_hash_axioms;
        let mut reported: Vec<(u64, SoundState)> = Vec::new();
        match self.instances.get(&channel) {
            None => {
                assert(ids_of(reported@) =~= Seq::<u64>::empty());
            },
            Some(ids) => {
                let mut i: usize = 0;
                while i < ids.len()
                    invariant
                        i <= ids.len(),
                        ids@ == self.listed(channel),
                        ids_of(reported@) == among(ids@.take(i as int), audio_instances@.dom()),
                    decreases ids.len() - i,
                {
                    let id = ids[i];
                    assert(ids@.take(i + 1).drop_last() =~= ids@.take(i as int));
                    let ghost before = reported@;
                    if let Some(sound) = audio_instances.get(&id) {
                        reported.push((id, sound_state(sound)));
                        assert(ids_of(reported@) =~= ids_of(before).push(id));
                    }
                    i = i + 1;
                }
                assert(ids@.take(ids@.len() as int) =~= ids@);
            },
        }
        reported
    }

    /// Apply `command` to the sounds of `channel` that have a handle and whose reported state
    /// `filter` admits; the instances handed the command, oldest first.
    fn command_channel_sounds(
        &self,
        channel: u64,
        audio_instances: &mut HashMap<u64, StaticSoundHandle>,
        command: SoundCommand,
        filter: SoundFilter,
    ) -> (commanded: Vec<u64>)
        ensures
            final(audio_instances)@ == commanded_handles(old(audio_instances)@, commanded@, command),
            final(audio_instances)@.dom() == old(audio_instances)@.dom(),
            exists|reported: Seq<(u64, SoundState)>|
                ids_of(reported) == among(self.listed(channel), old(audio_instances)@.dom())
                    && commanded@ == admitted(reported, filter),
            filter == SoundFilter::Every ==> commanded@ == among(
                self.listed(channel),
                old(audio_instances)@.dom(),
            ),
            forall|id: u64| #[trigger]
                commanded@.contains(id) ==> self.listed(channel).contains(id) && old(
                    audio_instances,
                )@.contains_key(id),
            forall|id: u64|
                #![trigger final(audio_instances)@[id]]
                old(audio_instances)@.contains_key(id) && !commanded@.contains(id) ==> final(audio_instances)@[id] == old(audio_instances)@[id],
    {
        let reported = self.reported_states(channel, audio_instances);
        let commanded = admitted_instances(&reported, filter);
        proof {
            lemma_every_admitted(reported@);
            assert forall|id: u64| #[trigger]
                commanded@.contains(id) implies self.listed(channel).contains(id) && old(
                    audio_instances,
                )@.contains_key(id) by {
                lemma_admitted_within(reported@, filter, id);
                lemma_among_contains(self.listed(channel), old(audio_instances)@.dom(), id);
            }
        }
        hand_command(audio_instances, &commanded, command);
        proof {
            lemma_commanded_frame(old(audio_instances)@, commanded@, command);
        }
        commanded
    }

    /// The fade of a command: the one given, or kira's default.
    pub fn fade_of(&self, tween: &Option<Tween>) -> (fade: Tween)
        ensures
            fade == fade_or(*tween, self.spec_default_fade()),
    {
        match tween {
            Some(tween) => *tween,
            None => self.default_fade,
        }
    }

    /// The state a command on `channel` starts from.
    fn base_state_of(&self, channel: u64) -> (state: ChannelState)
        ensures
            state == self.base_state(channel),
    {
        broadcast use vstd::std_specs::hash::group_hash_axioms;
        match self.channels.get(&channel) {
            Some(state) => *state,
            None => self.channel_defaults,
        }
    }

    /// Stop every sound of the channel that has a handle, with the fade `tween`; the instances
    /// handed the stop, oldest first.
    pub fn stop(
        &self,
        channel: u64,
        audio_instances: &mut HashMap<u64, StaticSoundHandle>,
        tween: Tween,
    ) -> (commanded: Vec<u64>)
        ensures
            commanded@ == among(self.listed(channel), old(audio_instances)@.dom()),
            final(audio_instances)@ == commanded_handles(
                old(audio_instances)@,
                commanded@,
                SoundCommand::Stop(tween),
            ),
            final(audio_instances)@.dom() == old(audio_instances)@.dom(),
            forall|id: u64| #[trigger]
                commanded@.contains(id) ==> self.listed(channel).contains(id) && old(
                    audio_instances,
                )@.contains_key(id),
            forall|id: u64|
                #![trigger final(audio_instances)@[id]]
                old(audio_instances)@.contains_key(id) && !commanded@.contains(id) ==> final(audio_instances)@[id] == old(audio_instances)@[id],
    {
        self.command_channel_sounds(
            channel,
            audio_instances,
            SoundCommand::Stop(tween),
            SoundFilter::Every,
        )
    }

    /// Pause, with the fade `tween`, every sound of the channel whose handle reports it
    /// playing, and the channel: sounds started on it from now on start paused. The instances
    /// handed the pause, oldest first.
    pub fn pause(
        &mut self,
        channel: u64,
        audio_instances: &mut HashMap<u64, StaticSoundHandle>,
        tween: Tween,
    ) -> (commanded: Vec<u64>)
        ensures
            final(self).channel_states() == with_paused(
                old(self).channel_states(),
                old(self).default_channel_state(),
                channel,
                true,
            ),
            final(self).same_but_channel_states(old(self)),
            exists|reported: Seq<(u64, SoundState)>|
                ids_of(reported) == among(old(self).listed(channel), old(audio_instances)@.dom())
                    && commanded@ == admitted(reported, SoundFilter::Pausable),
            final(audio_instances)@ == commanded_handles(
                old(audio_instances)@,
                commanded@,
                SoundCommand::Pause(tween),
            ),
            final(audio_instances)@.dom() == old(audio_instances)@.dom(),
            forall|id: u64| #[trigger]
                commanded@.contains(id) ==> old(self).listed(channel).contains(id) && old(
                    audio_instances,
                )@.contains_key(id),
            forall|id: u64|
                #![trigger final(audio_instances)@[id]]
                old(audio_instances)@.contains_key(id) && !commanded@.contains(id) ==> final(audio_instances)@[id] == old(audio_instances)@[id],
    {
        broadcast use vstd::std_specs::hash::group_hash_axioms;
        let commanded = self.command_channel_sounds(
            channel,
            audio_instances,
            SoundCommand::Pause(tween),
            SoundFilter::Pausable,
        );
        let state = self.base_state_of(channel);
        self.channels.insert(channel, ChannelState { paused: true, ..state });
        commanded
    }

    /// Resume, with the fade `tween`, every sound of the channel whose handle reports it
    /// paused, or fading out towards a pause or a stop, and the channel. The instances handed
    /// the resume, oldest first.
    pub fn resume(
        &mut self,
        channel: u64,
        audio_instances: &mut HashMap<u64, StaticSoundHandle>,
        tween: Tween,
    ) -> (commanded: Vec<u64>)
        ensures
            final(self).channel_states() == with_paused(
                old(self).channel_states(),
                old(self).default_channel_state(),
                channel,
                false,
            ),
            final(self).same_but_channel_states(old(self)),
            exists|reported: Seq<(u64, SoundState)>|
                ids_of(reported) == among(old(self).listed(channel), old(audio_instances)@.dom())
                    && commanded@ == admitted(reported, SoundFilter::Resumable),
            final(audio_instances)@ == commanded_handles(
                old(audio_instances)@,
                commanded@,
                SoundCommand::Resume(tween),
            ),
            final(audio_instances)@.dom() == old(audio_instances)@.dom(),
            forall|id: u64| #[trigger]
                commanded@.contains(id) ==> old(self).listed(channel).contains(id) && old(
                    audio_instances,
                )@.contains_key(id),
            forall|id: u64|
                #![trigger final(audio_instances)@[id]]
                old(audio_instances)@.contains_key(id) && !commanded@.contains(id) ==> final(audio_instances)@[id] == old(audio_instances)@[id],
    {
        broadcast use vstd::std_specs::hash::group_hash_axioms;
        let commanded = self.command_channel_sounds(
            channel,
            audio_instances,
            SoundCommand::Resume(tween),
            SoundFilter::Resumable,
        );
        let state = self.base_state_of(channel);
        self.channels.insert(channel, ChannelState { paused: false, ..state });
        commanded
    }

    /// Set the volume of every sound of the channel that has a handle, with the fade `tween`,
    /// and of sounds started on it from now on. The instances handed the volume, oldest first.
    pub fn set_volume(
        &mut self,
        channel: u64,
        audio_instances: &mut HashMap<u64, StaticSoundHandle>,
        volume: Decibels,
        tween: Tween,
    ) -> (commanded: Vec<u64>)
        ensures
            final(self).channel_states() == old(self).channel_states().insert(
                channel,
                ChannelState { volume, ..old(self).base_state(channel) },
            ),
            final(self).same_but_channel_states(old(self)),
            commanded@ == among(old(self).listed(channel), old(audio_instances)@.dom()),
            final(audio_instances)@ == commanded_handles(
                old(audio_instances)@,
                commanded@,
                SoundCommand::SetVolume(volume, tween),
            ),
            final(audio_instances)@.dom() == old(audio_instances)@.dom(),
            forall|id: u64| #[trigger]
                commanded@.contains(id) ==> old(self).listed(channel).contains(id) && old(
                    audio_instances,
                )@.contains_key(id),
            forall|id: u64|
                #![trigger final(audio_instances)@[id]]
                old(audio_instances)@.contains_key(id) && !commanded@.contains(id) ==> final(audio_instances)@[id] == old(audio_instances)@[id],
    {
        broadcast use vstd::std_specs::hash::group_hash_axioms;
        let commanded = self.command_channel_sounds(
            channel,
            audio_instances,
            SoundCommand::SetVolume(volume, tween),
            SoundFilter::Every,
        );
        let state = self.base_state_of(channel);
        self.channels.insert(channel, ChannelState { volume, ..state });
        commanded
    }

    /// Set the panning of every sound of the channel that has a handle, with the fade `tween`,
    /// and of sounds started on it from now on. The instances handed the panning, oldest first.
    pub fn set_panning(
        &mut self,
        channel: u64,
        audio_instances: &mut HashMap<u64, StaticSoundHandle>,
        panning: Panning,
        tween: Tween,
    ) -> (commanded: Vec<u64>)
        ensures
            final(self).channel_states() == old(self).channel_states().insert(
                channel,
                ChannelState { panning, ..old(self).base_state(channel) },
            ),
            final(self).same_but_channel_states(old(self)),
            commanded@ == among(old(self).listed(channel), old(audio_instances)@.dom()),
            final(audio_instances)@ == commanded_handles(
                old(audio_instances)@,
                commanded@,
                SoundCommand::SetPanning(panning, tween),
            ),
            final(audio_instances)@.dom() == old(audio_instances)@.dom(),
            forall|id: u64| #[trigger]
                commanded@.contains(id) ==> old(self).listed(channel).contains(id) && old(
                    audio_instances,
                )@.contains_key(id),
            forall|id: u64|
                #![trigger final(audio_instances)@[id]]
                old(audio_instances)@.contains_key(id) && !commanded@.contains(id) ==> final(audio_instances)@[id] == old(audio_instances)@[id],
    {
        broadcast use vstd::std_specs::hash::group_hash_axioms;
        let commanded = self.command_channel_sounds(
            channel,
            audio_instances,
            SoundCommand::SetPanning(panning, tween),
            SoundFilter::Every,
        );
        let state = self.base_state_of(channel);
        self.channels.insert(channel, ChannelState { panning, ..state });
        commanded
    }

    /// Set the playback rate of every sound of the channel that has a handle, with the fade `tween`,
    /// and of sounds started on it from now on. The instances handed the playback rate, oldest first.
    pub fn set_playback_rate(
        &mut self,
        channel: u64,
        audio_instances: &mut HashMap<u64, StaticSoundHandle>,
        playback_rate: PlaybackRate,
        tween: Tween,
    ) -> (commanded: Vec<u64>)
        ensures
            final(self).channel_states() == old(self).channel_states().insert(
                channel,
                ChannelState { playback_rate, ..old(self).base_state(channel) },
            ),
            final(self).same_but_channel_states(old(self)),
            commanded@ == among(old(self).listed(channel), old(audio_instances)@.dom()),
            final(audio_instances)@ == commanded_handles(
                old(audio_instances)@,
                commanded@,
                SoundCommand::SetPlaybackRate(playback_rate, tween),
            ),
            final(audio_instances)@.dom() == old(audio_instances)@.dom(),
            forall|id: u64| #[trigger]
                commanded@.contains(id) ==> old(self).listed(channel).contains(id) && old(
                    audio_instances,
                )@.contains_key(id),
            forall|id: u64|
                #![trigger final(audio_instances)@[id]]
                old(audio_instances)@.contains_key(id) && !commanded@.contains(id) ==> final(audio_instances)@[id] == old(audio_instances)@[id],
    {
        broadcast use vstd::std_specs::hash::group_hash_axioms;
        let commanded = self.command_channel_sounds(
            channel,
            audio_instances,
            SoundCommand::SetPlaybackRate(playback_rate, tween),
            SoundFilter::Every,
        );
        let state = self.base_state_of(channel);
        self.channels.insert(channel, ChannelState { playback_rate, ..state });
        commanded
    }
}

/// The state of `channel` among `states`, or `defaults` if it has none yet.
pub open spec fn state_or(states: Map<u64, ChannelState>, defaults: ChannelState, channel: u64) -> ChannelState {
    if states.contains_key(channel) {
        states[channel]
    } else {
        defaults
    }
}

/// `states` with `channel` paused or resumed, its other settings as they were.
pub open spec fn with_paused(
    states: Map<u64, ChannelState>,
    defaults: ChannelState,
    channel: u64,
    paused: bool,
) -> Map<u64, ChannelState> {
    states.insert(channel, ChannelState { paused, ..state_or(states, defaults, channel) })
}

/// Resuming a channel after pausing it leaves it as resuming it alone would: playing, with the
/// volume, panning and playback rate it had before the pause. No other channel is touched.
pub proof fn law_resume_undoes_pause(
    states: Map<u64, ChannelState>,
    defaults: ChannelState,
    channel: u64,
)
    ensures
        with_paused(with_paused(states, defaults, channel, true), defaults, channel, false)
            == with_paused(states, defaults, channel, false),
        ({
            let after = with_paused(
                with_paused(states, defaults, channel, true),
                defaults,
                channel,
                false,
            );
            let before = state_or(states, defaults, channel);
            &&& !after[channel].paused
            &&& after[channel].volume == before.volume
            &&& after[channel].panning == before.panning
            &&& after[channel].playback_rate == before.playback_rate
            &&& forall|other: u64|
                other != channel ==> (#[trigger] after.contains_key(other) == states.contains_key(
                    other,
                ) && (states.contains_key(other) ==> after[other] == states[other]))
        }),
{
    assert(with_paused(with_paused(states, defaults, channel, true), defaults, channel, false)
        =~= with_paused(states, defaults, channel, false));
}

/// `lists` with `instance` added last to the instances of `channel`.
pub open spec fn with_instance(lists: Map<u64, Seq<u64>>, channel: u64, instance: u64) -> Map<
    u64,
    Seq<u64>,
> {
    lists.insert(
        channel,
        if lists.contains_key(channel) {
            lists[channel].push(instance)
        } else {
            seq![instance]
        },
    )
}

/// Where the track carrying a sound's own effects hangs, given whether its channel has a track.
pub open spec fn spec_track_parent(channel_has_track: bool) -> TrackParent {
    if channel_has_track {
        TrackParent::ChannelTrack
    } else {
        TrackParent::MainTrack
    }
}

/// Where a sound is played, given whether it has effects of its own and whether its channel
/// has a track.
pub open spec fn spec_sound_route(own_effects: bool, channel_has_track: bool) -> SoundRoute {
    if own_effects {
        SoundRoute::InstanceTrack
    } else if channel_has_track {
        SoundRoute::ChannelTrack
    } else {
        SoundRoute::MainTrack
    }
}

/// `after` is `before` with a track made from `builder` queued under the parent that
/// [`spec_track_parent`] names for `channel`: the channel's track, or else the main track. The
/// rest of the mixer is as it was.
pub open spec fn sub_track_queued(
    before: &AudioOutput,
    after: &AudioOutput,
    channel: u64,
    builder: TrackBuilder,
) -> bool {
    match spec_track_parent(before.channels_with_tracks().contains(channel)) {
        TrackParent::ChannelTrack => {
            &&& after.spec_engine() == before.spec_engine()
            &&& after.channel_track_map() == before.channel_track_map().insert(
                channel,
                track_with_sub_track(before.channel_track(channel), builder),
            )
        },
        TrackParent::MainTrack => {
            &&& after.channel_track_map() == before.channel_track_map()
            &&& after.spec_engine() == Some(engine_with_sub_track(before.spec_engine()->0, builder))
        },
    }
}

/// `after` is `before` with `sound`, which has no effects of its own, queued on the track that
/// [`spec_sound_route`] names for `channel`: the channel's track, or else the main track. The
/// rest of the mixer is as it was.
pub open spec fn sound_queued(
    before: &AudioOutput,
    after: &AudioOutput,
    channel: u64,
    sound: StaticSoundData,
) -> bool {
    match spec_sound_route(false, before.channels_with_tracks().contains(channel)) {
        SoundRoute::ChannelTrack => {
            &&& after.spec_engine() == before.spec_engine()
            &&& after.channel_track_map() == before.channel_track_map().insert(
                channel,
                track_with_sound(before.channel_track(channel), sound),
            )
        },
        SoundRoute::MainTrack => {
            &&& after.channel_track_map() == before.channel_track_map()
            &&& after.spec_engine() == Some(engine_with_sound(before.spec_engine()->0, sound))
        },
        SoundRoute::InstanceTrack => false,
    }
}

/// `tween`, or `default` where there is none.
pub open spec fn fade_or(tween: Option<Tween>, default: Tween) -> Tween {
    match tween {
        Some(tween) => tween,
        None => default,
    }
}

/// What a play leaves behind, given the sound handed to the engine and the track of its own
/// it had, if any: either the engine refused it, nothing was recorded and the mixer is as
/// [`refused_mixer`] says; or the instance was recorded last on its channel, and the sound (or
/// its own track) was queued where [`sound_queued`] (or [`sub_track_queued`]) says.
pub open spec fn played_or_refused(
    before: &AudioOutput,
    after: &AudioOutput,
    channel: u64,
    instance: u64,
    track: Option<AudioTrack>,
    sound: StaticSoundData,
) -> bool {
    ||| {
        &&& after.instance_lists() == before.instance_lists()
        &&& after.instance_track_map() == before.instance_track_map()
        &&& refused_mixer(before, after, channel, track)
    }
    ||| {
        &&& after.instance_lists() == with_instance(before.instance_lists(), channel, instance)
        &&& match track {
            Some(track) => {
                &&& sub_track_queued(before, after, channel, track.builder())
                &&& after.instance_track_map().contains_key(instance)
            },
            None => {
                &&& sound_queued(before, after, channel, sound)
                &&& after.instance_track_map() == before.instance_track_map()
            },
        }
    }
}

/// The mixer after a sound was refused: as it was, or, for a sound with a `track` of its own,
/// with that track queued where [`sub_track_queued`] says (the engine took the track but not
/// the sound).
pub open spec fn refused_mixer(
    before: &AudioOutput,
    after: &AudioOutput,
    channel: u64,
    track: Option<AudioTrack>,
) -> bool {
    ||| after.same_mixer(before)
    ||| match track {
        Some(track) => sub_track_queued(before, after, channel, track.builder()),
        None => false,
    }
}

/// A sound's handle after, for each of `steps` in turn, a pause with the fade `fade` and then a
/// change of playback rate to the step's (`normal` where it has none), with the same fade.
pub open spec fn held(
    sound: StaticSoundHandle,
    steps: Seq<Option<PlaybackRate>>,
    fade: Tween,
    normal: PlaybackRate,
) -> StaticSoundHandle
    decreases steps.len(),
{
    if steps.len() == 0 {
        sound
    } else {
        let before = held(sound, steps.drop_last(), fade, normal);
        rate_set_to(
            paused_with(before, fade),
            match steps.last() {
                Some(rate) => rate,
                None => normal,
            },
            fade,
        )
    }
}

/// Where a played sound went. A sound with effects of its own plays on a track of its own; on
/// a channel with a track that track is queued under the channel's track, so the sound runs
/// through its own effects and then through the channel's, and on a channel without one under
/// the main track. A sound without effects of its own is queued on its channel's track if there
/// is one, and on the main track otherwise. Either way the rest of the mixer is left as it was.
pub proof fn law_sound_routing(
    before: &AudioOutput,
    after: &AudioOutput,
    channel: u64,
    instance: u64,
    track: Option<AudioTrack>,
    sound: StaticSoundData,
)
    requires
        played_or_refused(before, after, channel, instance, track, sound),
        after.instance_lists() != before.instance_lists(),
    ensures
        track is Some && before.channels_with_tracks().contains(channel) ==> {
            &&& after.spec_engine() == before.spec_engine()
            &&& after.channel_track_map() == before.channel_track_map().insert(
                channel,
                track_with_sub_track(before.channel_track(channel), track->0.builder()),
            )
        },
        track is Some && !before.channels_with_tracks().contains(channel) ==> {
            &&& after.channel_track_map() == before.channel_track_map()
            &&& after.spec_engine() == Some(
                engine_with_sub_track(before.spec_engine()->0, track->0.builder()),
            )
        },
        track is None && before.channels_with_tracks().contains(channel) ==> {
            &&& after.spec_engine() == before.spec_engine()
            &&& after.channel_track_map() == before.channel_track_map().insert(
                channel,
                track_with_sound(before.channel_track(channel), sound),
            )
        },
        track is None && !before.channels_with_tracks().contains(channel) ==> {
            &&& after.channel_track_map() == before.channel_track_map()
            &&& after.spec_engine() == Some(engine_with_sound(before.spec_engine()->0, sound))
        },
{
}


/// The tail of the track of a sound played with `request`.
pub open spec fn requested_tail(request: &PlayRequest) -> u64 {
    match request.effect_tail {
        Some(tail) => tail,
        None => DEFAULT_EFFECT_TAIL,
    }
}

/// What became of a sound handed to the engine.
#[derive(Debug)]
pub enum PlayOutcome {
    /// The engine took the sound, which was recorded. `holds` lists the pauses it was given on
    /// starting, in order, each with the playback rate it was then set to (`None`: kira's normal
    /// rate).
    Played { holds: Vec<Option<PlaybackRate>> },
    /// The engine had no room for the sound or its track: the sound was dropped.
    Refused,
}

/// The pauses a sound started on a channel in `channel_state` (`None`: one no command touched)
/// is given once it plays, each with the playback rate it is then set to (`None`: kira's normal
/// rate). A paused channel pauses it and sets the rate asked for, else the channel's; a request
/// to start paused pauses it and sets the rate asked for, else the normal one. Either way the
/// rate it was held at while the pause went through is replaced.
pub open spec fn hold_plan(
    channel_state: Option<ChannelState>,
    paused: bool,
    playback_rate: Option<PlaybackRate>,
) -> Seq<Option<PlaybackRate>> {
    let for_channel = match channel_state {
        Some(state) => if state.paused {
            seq![
                Some(
                    match playback_rate {
                        Some(rate) => rate,
                        None => state.playback_rate,
                    },
                ),
            ]
        } else {
            Seq::empty()
        },
        None => Seq::empty(),
    };
    if paused {
        for_channel.push(playback_rate)
    } else {
        for_channel
    }
}

/// Pause `sound` with the fade `fade` once for each of `steps`, each time then setting its
/// playback rate to the step's, or to `normal` where the step has none, with the same fade.
fn hold_sound(
    sound: &mut StaticSoundHandle,
    steps: &Vec<Option<PlaybackRate>>,
    fade: Tween,
    normal: PlaybackRate,
)
    ensures
        *final(sound) == held(*old(sound), steps@, fade, normal),
{
    let mut i: usize = 0;
    while i < steps.len()
        invariant
            i <= steps.len(),
            *sound == held(*old(sound), steps@.take(i as int), fade, normal),
        decreases steps.len() - i,
    {
        assert(steps@.take(i + 1).drop_last() =~= steps@.take(i as int));
        sound_pause(sound, fade);
        let rate = match steps[i] {
            Some(rate) => rate,
            None => normal,
        };
        sound_set_playback_rate(sound, rate, fade);
        i = i + 1;
    }
    assert(steps@.take(steps@.len() as int) =~= steps@);
}

impl AudioOutput {
    /// Everything is as in `other`.
    pub open spec fn same_model(&self, other: &AudioOutput) -> bool {
        &&& self.same_but_channel_states(other)
        &&& self.channel_states() == other.channel_states()
    }

    /// Everything but the instances and their tracks is as in `other`.
    pub open spec fn same_channels(&self, other: &AudioOutput) -> bool {
        &&& self.same_mixer(other)
        &&& self.same_settings(other)
    }

    /// The channel states and what never changes are as in `other`.
    pub open spec fn same_settings(&self, other: &AudioOutput) -> bool {
        &&& self.channel_states() == other.channel_states()
        &&& self.same_constants(other)
    }

    /// Whether a sound started on `channel` waits, paused: if the channel is paused or the sound
    /// asks to start paused.
    pub open spec fn spec_starts_held(&self, channel: u64, paused: bool) -> bool {
        paused || (self.channel_states().contains_key(channel)
            && self.channel_states()[channel].paused)
    }

    /// What a sound started on `channel` is made ready against: the channel's state, where a
    /// command touched it, and whether the sound starts held ([`Self::spec_starts_held`]).
    pub fn preparation_inputs(&self, channel: u64, paused: bool) -> (inputs: (
        Option<ChannelState>,
        bool,
    ))
        ensures
            inputs.0 == self.touched_state(channel),
            inputs.1 == self.spec_starts_held(channel, paused),
    {
        let held = self.starts_held(channel, paused);
        let channel_state = match self.channel_state(channel) {
            Some(state) => Some(*state),
            None => None,
        };
        (channel_state, held)
    }

    /// Whether a sound started on `channel` waits, paused. Its playback rate is held at zero
    /// until the pause goes through, so that the audio thread does not start it meanwhile.
    pub fn starts_held(&self, channel: u64, paused: bool) -> (held: bool)
        ensures
            held == self.spec_starts_held(channel, paused),
    {
        broadcast use vstd::std_specs::hash::group_hash_axioms;
        if paused {
            return true;
        }
        match self.channels.get(&channel) {
            Some(state) => state.paused,
            None => false,
        }
    }

    /// Where the track carrying a sound's own effects hangs for `channel`.
    ///
    /// It hangs under the channel's track when the channel has one, so that the channel's
    /// effects still run after the sound's: kira processes a track's children before the track's
    /// own effects, which makes the chain sound, instance effects, channel effects, main track.
    pub fn track_parent(&self, channel: u64) -> (parent: TrackParent)
        ensures
            parent == spec_track_parent(self.channels_with_tracks().contains(channel)),
    {
        broadcast use vstd::std_specs::hash::group_hash_axioms;
        if self.channel_tracks.contains_key(&channel) {
            TrackParent::ChannelTrack
        } else {
            TrackParent::MainTrack
        }
    }

    /// Where a sound on `channel` is played.
    pub fn sound_route(&self, channel: u64, own_effects: bool) -> (route: SoundRoute)
        ensures
            route == spec_sound_route(own_effects, self.channels_with_tracks().contains(channel)),
    {
        broadcast use vstd::std_specs::hash::group_hash_axioms;
        if own_effects {
            SoundRoute::InstanceTrack
        } else if self.channel_tracks.contains_key(&channel) {
            SoundRoute::ChannelTrack
        } else {
            SoundRoute::MainTrack
        }
    }

    /// Create the sub-track carrying one sound's own effects, where [`Self::track_parent`]
    /// says. Whether the parent has room for it is the engine's to say; a parent made with no
    /// room for sub-tracks has none. `None` where there is no room.
    pub fn add_instance_track(&mut self, channel: u64, track: AudioTrack) -> (result: Option<
        TrackHandle,
    >)
        requires
            old(self).spec_has_engine() || old(self).channels_with_tracks().contains(channel),
        ensures
            final(self).same_settings(old(self)),
            final(self).instance_lists() == old(self).instance_lists(),
            final(self).instance_track_map() == old(self).instance_track_map(),
            result is Some ==> sub_track_queued(old(self), final(self), channel, track.builder()),
            result is None ==> final(self).same_mixer(old(self)),
            result matches Some(handle) ==> handle_sound_capacity(handle)
                == track.spec_sound_capacity(),
            old(self).channels_with_tracks().contains(channel) && old(self).channel_track_sub_capacity(channel) == 0 ==> result is None,
            !old(self).channels_with_tracks().contains(channel) && old(self).main_sub_track_capacity() == 0 ==> result is None,
    {
        broadcast use vstd::std_specs::hash::group_hash_axioms;
        let builder = track.into_inner();
        match self.track_parent(channel) {
            TrackParent::ChannelTrack => {
                let mut parent = self.channel_tracks.remove(&channel).unwrap();
                let result = add_sub_track_under(&mut parent, builder);
                self.channel_tracks.insert(channel, parent);
                assert(result is None ==> self.channel_track_map() =~= old(self).channel_track_map());
                assert(result is Some ==> self.channel_track_map() =~= old(
                    self,
                ).channel_track_map().insert(
                    channel,
                    track_with_sub_track(old(self).channel_track(channel), builder),
                ));
                result
            },
            TrackParent::MainTrack => match &mut self.manager {
                Some(engine) => add_sub_track_under_main(engine, builder),
                None => vstd::pervasive::unreached(),
            },
        }
    }

    /// Note that `instance` plays on `channel`, after the instances already there.
    fn record_instance(&mut self, channel: u64, instance: u64)
        ensures
            final(self).instance_lists() == with_instance(
                old(self).instance_lists(),
                channel,
                instance,
            ),
            final(self).same_channels(old(self)),
            final(self).instance_track_map() == old(self).instance_track_map(),
    {
        broadcast use vstd::std_specs::hash::group_hash_axioms;
        match self.instances.remove(&channel) {
            Some(mut ids) => {
                assert(ids@ == old(self).instance_lists()[channel]);
                ids.push(instance);
                self.instances.insert(channel, ids);
            },
            None => {
                let ids = vec![instance];
                assert(ids@ =~= seq![instance]);
                self.instances.insert(channel, ids);
            },
        }
        assert(self.instance_lists() =~= with_instance(
            old(self).instance_lists(),
            channel,
            instance,
        ));
    }

    /// The state of `channel` if a command has touched it.
    pub open spec fn touched_state(&self, channel: u64) -> Option<ChannelState> {
        if self.channel_states().contains_key(channel) {
            Some(self.channel_states()[channel])
        } else {
            None
        }
    }

    /// The pauses a sound started on `channel` is given once it plays, each with the playback
    /// rate it is then set to.
    fn hold_steps(&self, channel: u64, paused: bool, playback_rate: Option<PlaybackRate>) -> (steps:
        Vec<Option<PlaybackRate>>)
        ensures
            steps@ == hold_plan(self.touched_state(channel), paused, playback_rate),
    {
        broadcast use vstd::std_specs::hash::group_hash_axioms;
        let mut steps: Vec<Option<PlaybackRate>> = Vec::new();
        if let Some(state) = self.channels.get(&channel) {
            if state.paused {
                let rate = match playback_rate {
                    Some(rate) => rate,
                    None => state.playback_rate,
                };
                steps.push(Some(rate));
            }
        }
        if paused {
            steps.push(playback_rate);
        }
        assert(steps@ =~= hold_plan(self.touched_state(channel), paused, playback_rate));
        steps
    }

    /// Note that `sound` plays on `channel` as instance `instance`, after the instances already
    /// there, and keep the track carrying its own effects, if it has one, for a tail of `tail`
    /// nanoseconds once it stops.
    pub fn record_played(
        &mut self,
        channel: u64,
        instance: u64,
        sound: StaticSoundHandle,
        track: Option<TrackHandle>,
        tail: u64,
        audio_instances: &mut HashMap<u64, StaticSoundHandle>,
    )
        ensures
            final(audio_instances)@ == old(audio_instances)@.insert(instance, sound),
            final(self).instance_lists() == with_instance(
                old(self).instance_lists(),
                channel,
                instance,
            ),
            final(self).same_channels(old(self)),
            match track {
                Some(track) => {
                    &&& final(self).instance_track_map().dom() == old(
                        self,
                    ).instance_track_map().dom().insert(instance)
                    &&& final(self).instance_track_map().remove(instance) == old(
                        self,
                    ).instance_track_map().remove(instance)
                    &&& final(self).instance_track_map()[instance].spec_handle() == track
                    &&& final(self).instance_track_map()[instance].spec_tail() == tail
                    &&& final(self).instance_track_map()[instance].spec_expires_at() is None
                },
                None => final(self).instance_track_map() == old(self).instance_track_map(),
            },
    {
        broadcast use vstd::std_specs::hash::group_hash_axioms;
        if let Some(track) = track {
            self.instance_tracks.insert(instance, InstanceTrack::new(track, tail));
            assert(self.instance_track_map().remove(instance) =~= old(
                self,
            ).instance_track_map().remove(instance));
        }
        audio_instances.insert(instance, sound);
        self.record_instance(channel, instance);
    }

    /// Take over the handle `started` of a sound that the engine started on `channel` as
    /// `instance`: hold it as `holds` says (each step a pause and then a change of rate, with
    /// kira's default fade; `None` is kira's normal rate), and record it as
    /// [`Self::record_played`] does. The handle recorded is `started` after exactly those steps:
    /// with no step, `started` itself.
    pub fn start_played(
        &mut self,
        channel: u64,
        instance: u64,
        started: StaticSoundHandle,
        holds: &Vec<Option<PlaybackRate>>,
        track: Option<TrackHandle>,
        tail: u64,
        audio_instances: &mut HashMap<u64, StaticSoundHandle>,
    )
        ensures
            final(audio_instances)@ == old(audio_instances)@.insert(
                instance,
                held(started, holds@, old(self).spec_default_fade(), old(self).spec_normal_rate()),
            ),
            holds@.len() == 0 ==> final(audio_instances)@ == old(audio_instances)@.insert(
                instance,
                started,
            ),
            final(self).instance_lists() == with_instance(
                old(self).instance_lists(),
                channel,
                instance,
            ),
            final(self).same_channels(old(self)),
            match track {
                Some(track) => {
                    &&& final(self).instance_track_map().dom() == old(
                        self,
                    ).instance_track_map().dom().insert(instance)
                    &&& final(self).instance_track_map().remove(instance) == old(
                        self,
                    ).instance_track_map().remove(instance)
                    &&& final(self).instance_track_map()[instance].spec_handle() == track
                    &&& final(self).instance_track_map()[instance].spec_tail() == tail
                    &&& final(self).instance_track_map()[instance].spec_expires_at() is None
                },
                None => final(self).instance_track_map() == old(self).instance_track_map(),
            },
    {
        let mut handle = started;
        hold_sound(&mut handle, holds, self.default_fade, self.normal_rate);
        self.record_played(channel, instance, handle, track, tail, audio_instances);
    }

    /// Play a sound on `channel` as instance `instance`.
    ///
    /// `sound` is ready to play: the channel's settings and the sound's own are applied to it,
    /// and its playback rate is held at zero if [`Self::starts_held`] says so. A sound with
    /// effects of its own plays on a fresh track, queued under the track that
    /// [`Self::track_parent`] names, and kept for its effect tail once the sound stops; any
    /// other sound plays where [`Self::sound_route`] says. A paused channel, or a request to
    /// start paused, pauses the sound and then sets its playback rate, as [`hold_plan`] says.
    ///
    /// Whether the engine has room for the track and the sound is the engine's to say: where
    /// it has not, the sound is dropped and nothing is recorded. A track made with no room at
    /// all refuses the sound as a full one does.
    pub fn play(
        &mut self,
        channel: u64,
        sound: StaticSoundData,
        request: PlayRequest,
        instance: u64,
        audio_instances: &mut HashMap<u64, StaticSoundHandle>,
    ) -> (outcome: PlayOutcome)
        requires
            old(self).spec_has_engine() || old(self).channels_with_tracks().contains(channel),
        ensures
            final(self).same_settings(old(self)),
            final(self).spec_has_engine() == old(self).spec_has_engine(),
            final(self).channels_with_tracks() == old(self).channels_with_tracks(),
            played_or_refused(old(self), final(self), channel, instance, request.track, sound),
            outcome is Refused ==> {
                &&& final(self).instance_lists() == old(self).instance_lists()
                &&& final(self).instance_track_map() == old(self).instance_track_map()
                &&& final(audio_instances)@ == old(audio_instances)@
                &&& refused_mixer(old(self), final(self), channel, request.track)
            },
            match outcome {
                PlayOutcome::Refused => true,
                PlayOutcome::Played { holds } => {
                    &&& holds@ == hold_plan(
                        old(self).touched_state(channel),
                        request.paused,
                        request.playback_rate,
                    )
                    &&& final(self).instance_lists() == with_instance(
                        old(self).instance_lists(),
                        channel,
                        instance,
                    )
                    &&& final(audio_instances)@.contains_key(instance)
                    &&& final(audio_instances)@.remove(instance) == old(audio_instances)@.remove(
                        instance,
                    )
                    &&& exists|started: StaticSoundHandle|
                        #[trigger] held(
                            started,
                            hold_plan(
                                old(self).touched_state(channel),
                                request.paused,
                                request.playback_rate,
                            ),
                            old(self).spec_default_fade(),
                            old(self).spec_normal_rate(),
                        ) == final(audio_instances)@[instance]
                    &&& match request.track {
                        Some(track) => {
                            &&& sub_track_queued(old(self), final(self), channel, track.builder())
                            &&& final(self).instance_track_map().dom() == old(
                                self,
                            ).instance_track_map().dom().insert(instance)
                            &&& final(self).instance_track_map().remove(instance) == old(
                                self,
                            ).instance_track_map().remove(instance)
                            &&& exists|made: TrackHandle|
                                handle_sound_capacity(made) == track.spec_sound_capacity()
                                    && final(self).instance_track_map()[instance].spec_handle()
                                    == track_with_sound(made, sound)
                            &&& final(self).instance_track_map()[instance].spec_tail()
                                == requested_tail(&request)
                            &&& final(self).instance_track_map()[instance].spec_expires_at() is None
                        },
                        None => {
                            &&& sound_queued(old(self), final(self), channel, sound)
                            &&& final(self).instance_track_map() == old(self).instance_track_map()
                        },
                    }
                },
            },
    {
        broadcast use vstd::std_specs::hash::group_hash_axioms;
        let tail = match request.effect_tail {
            Some(tail) => tail,
            None => DEFAULT_EFFECT_TAIL,
        };
        let PlayRequest { paused, playback_rate, effect_tail: _, track } = request;
        let holds = self.hold_steps(channel, paused, playback_rate);
        let ghost start = *self;
        let ghost mut made_track: Option<TrackHandle> = None;
        let (played, instance_track) = match self.sound_route(channel, track.is_some()) {
            SoundRoute::InstanceTrack => {
                let track = track.unwrap();
                match self.add_instance_track(channel, track) {
                    Some(mut track_handle) => {
                        proof {
                            made_track = Some(track_handle);
                        }
                        let result = play_on_track(&mut track_handle, sound);
                        (result, Some(track_handle))
                    },
                    None => {
                        return PlayOutcome::Refused;
                    },
                }
            },
            SoundRoute::ChannelTrack => {
                let mut channel_track = self.channel_tracks.remove(&channel).unwrap();
                let result = play_on_track(&mut channel_track, sound);
                self.channel_tracks.insert(channel, channel_track);
                assert(result is None ==> self.channel_track_map() =~= start.channel_track_map());
                assert(result is Some ==> self.channel_track_map() =~= start.channel_track_map().insert(
                    channel,
                    track_with_sound(start.channel_track(channel), sound),
                ));
                (result, None)
            },
            SoundRoute::MainTrack => match &mut self.manager {
                Some(engine) => (play_on_main_track(engine, sound), None),
                None => vstd::pervasive::unreached(),
            },
        };
        let handle = match played {
            Some(handle) => handle,
            None => {
                return PlayOutcome::Refused;
            },
        };
        let ghost started = handle;
        self.start_played(channel, instance, handle, &holds, instance_track, tail, audio_instances);
        proof {
            if request.track is Some {
                let made = made_track->0;
                assert(handle_sound_capacity(made) == request.track->0.spec_sound_capacity());
                assert(self.instance_track_map()[instance].spec_handle() == track_with_sound(
                    made,
                    sound,
                ));
            }
            assert(held(
                started,
                hold_plan(old(self).touched_state(channel), paused, playback_rate),
                old(self).spec_default_fade(),
                old(self).spec_normal_rate(),
            ) == audio_instances@[instance]);
        }
        PlayOutcome::Played { holds }
    }

    /// Give `channel` the track the engine made for it, or note that the engine made none.
    pub fn install_channel_track(&mut self, channel: u64, track: Option<TrackHandle>) -> (outcome:
        ChannelTrackOutcome)
        ensures
            final(self).spec_engine() == old(self).spec_engine(),
            final(self).same_settings(old(self)),
            final(self).instance_lists() == old(self).instance_lists(),
            final(self).instance_track_map() == old(self).instance_track_map(),
            match track {
                Some(track) => {
                    &&& outcome == (if old(self).channels_with_tracks().contains(channel) {
                        ChannelTrackOutcome::Replaced
                    } else {
                        ChannelTrackOutcome::Added
                    })
                    &&& final(self).channel_track_map() == old(self).channel_track_map().insert(
                        channel,
                        track,
                    )
                },
                None => {
                    &&& outcome == ChannelTrackOutcome::Refused
                    &&& final(self).channel_track_map() == old(self).channel_track_map()
                },
            },
    {
        broadcast use vstd::std_specs::hash::group_hash_axioms;
        match track {
            Some(track) => match self.channel_tracks.insert(channel, track) {
                Some(_) => ChannelTrackOutcome::Replaced,
                None => ChannelTrackOutcome::Added,
            },
            None => ChannelTrackOutcome::Refused,
        }
    }

    /// Give `channel` a track of its own, whose effects apply to every sound played on it. The
    /// track hangs under the main track, which must have room for it.
    pub fn create_channel_track(&mut self, channel: u64, track: AudioTrack) -> (outcome:
        ChannelTrackOutcome)
        ensures
            (outcome == ChannelTrackOutcome::NoEngine) <==> !old(self).spec_has_engine(),
            final(self).spec_has_engine() == old(self).spec_has_engine(),
            final(self).same_settings(old(self)),
            final(self).instance_lists() == old(self).instance_lists(),
            final(self).instance_track_map() == old(self).instance_track_map(),
            old(self).spec_has_engine() && old(self).main_sub_track_capacity() == 0 ==> outcome
                == ChannelTrackOutcome::Refused,
            outcome == ChannelTrackOutcome::Added ==> !old(self).channels_with_tracks().contains(
                channel,
            ),
            outcome == ChannelTrackOutcome::Replaced ==> old(self).channels_with_tracks().contains(
                channel,
            ),
            outcome == ChannelTrackOutcome::Added || outcome == ChannelTrackOutcome::Replaced ==> {
                &&& final(self).spec_engine() == Some(
                    engine_with_sub_track(old(self).spec_engine()->0, track.builder()),
                )
                &&& exists|made: TrackHandle|
                    handle_sound_capacity(made) == track.spec_sound_capacity()
                        && final(self).channel_track_map() == old(
                        self,
                    ).channel_track_map().insert(channel, made)
            },
            outcome == ChannelTrackOutcome::Refused || outcome == ChannelTrackOutcome::NoEngine
                ==> final(self).same_mixer(old(self)),
    {
        match &mut self.manager {
            Some(engine) => {
                let made = add_sub_track_under_main(engine, track.into_inner());
                let ghost answer = made;
                let outcome = self.install_channel_track(channel, made);
                assert(answer matches Some(m) ==> handle_sound_capacity(m)
                    == track.spec_sound_capacity() && self.channel_track_map() == old(
                    self,
                ).channel_track_map().insert(channel, m));
                outcome
            },
            None => ChannelTrackOutcome::NoEngine,
        }
    }

    /// The state of every instance on `channel`, oldest first; an instance without a handle is
    /// taken as stopped. `None` where no instance has played on the channel.
    pub fn instance_states(
        &self,
        channel: u64,
        audio_instances: &HashMap<u64, StaticSoundHandle>,
    ) -> (states: Option<Vec<(u64, SoundState)>>)
        ensures
            states is Some <==> self.instance_lists().contains_key(channel),
            states matches Some(states) ==> {
                let ids = self.instance_lists()[channel];
                &&& states@.len() == ids.len()
                &&& forall|i: int|
                    0 <= i < ids.len() ==> {
                        &&& (#[trigger] states@[i]).0 == ids[i]
                        &&& !audio_instances@.contains_key(ids[i]) ==> states@[i].1
                            == SoundState::Stopped
                    }
            },
    {
        broadcast use vstd::std_specs::hash::group_hash_axioms;
        match self.instances.get(&channel) {
            None => None,
            Some(ids) => {
                let mut states: Vec<(u64, SoundState)> = Vec::new();
                let mut i: usize = 0;
                while i < ids.len()
                    invariant
                        i <= ids.len(),
                        ids@ == self.instance_lists()[channel],
                        states@.len() == i,
                        forall|k: int|
                            0 <= k < i ==> {
                                &&& (#[trigger] states@[k]).0 == ids@[k]
                                &&& !audio_instances@.contains_key(ids@[k]) ==> states@[k].1
                                    == SoundState::Stopped
                            },
                    decreases ids.len() - i,
                {
                    let id = ids[i];
                    let state = match audio_instances.get(&id) {
                        Some(sound) => sound_state(sound),
                        None => SoundState::Stopped,
                    };
                    states.push((id, state));
                    i = i + 1;
                }
                Some(states)
            },
        }
    }
}

/// The instances of `ids` that are in `live`, in their order.
pub open spec fn among(ids: Seq<u64>, live: Set<u64>) -> Seq<u64>
    decreases ids.len(),
{
    if ids.len() == 0 {
        Seq::empty()
    } else {
        let rest = among(ids.drop_last(), live);
        if live.contains(ids.last()) {
            rest.push(ids.last())
        } else {
            rest
        }
    }
}

/// The instances listed on some channel.
pub open spec fn listed_anywhere(lists: Map<u64, Seq<u64>>) -> Set<u64> {
    Set::new(
        |id: u64|
            exists|channel: u64|
                lists.contains_key(channel) && #[trigger] lists[channel].contains(id),
    )
}

/// The instances of a report of states whose sound has not stopped.
pub open spec fn still_playing(reported: Seq<(u64, SoundState)>) -> Set<u64>
    decreases reported.len(),
{
    if reported.len() == 0 {
        Set::empty()
    } else {
        let rest = still_playing(reported.drop_last());
        if reported.last().1 == SoundState::Stopped {
            rest
        } else {
            rest.insert(reported.last().0)
        }
    }
}

/// The instances of `reported` whose sound has not stopped.
pub fn still_playing_instances(reported: &Vec<(u64, SoundState)>) -> (live: HashSet<u64>)
    ensures
        live@ == still_playing(reported@),
{
    broadcast use vstd::std_specs::hash::group_hash_axioms;
    let mut live: HashSet<u64> = HashSet::new();
    let mut i: usize = 0;
    while i < reported.len()
        invariant
            i <= reported.len(),
            live@ == still_playing(reported@.take(i as int)),
        decreases reported.len() - i,
    {
        assert(reported@.take(i + 1).drop_last() =~= reported@.take(i as int));
        let (id, state) = reported[i];
        match state {
            SoundState::Stopped => {},
            _ => {
                live.insert(id);
            },
        }
        i = i + 1;
    }
    assert(reported@.take(reported@.len() as int) =~= reported@);
    live
}

/// An element is in a concatenation exactly if it is in one of its parts.
proof fn lemma_contains_in_concat(a: Seq<u64>, b: Seq<u64>, x: u64)
    ensures
        (a + b).contains(x) <==> (a.contains(x) || b.contains(x)),
{
    if a.contains(x) {
        let i = choose|i: int| 0 <= i < a.len() && a[i] == x;
        assert((a + b)[i] == x);
    }
    if b.contains(x) {
        let i = choose|i: int| 0 <= i < b.len() && b[i] == x;
        assert((a + b)[a.len() + i] == x);
    }
    if (a + b).contains(x) {
        let i = choose|i: int| 0 <= i < (a + b).len() && (a + b)[i] == x;
        if i < a.len() {
            assert(a[i] == x);
        } else {
            assert(b[i - a.len()] == x);
        }
    }
}

/// The instances listed on some channel that are no longer playing.
pub open spec fn stopped_instances(lists: Map<u64, Seq<u64>>, live: Set<u64>) -> Set<u64> {
    Set::new(
        |id: u64|
            exists|channel: u64|
                #![trigger lists[channel].contains(id)]
                lists.contains_key(channel) && lists[channel].contains(id) && !live.contains(id),
    )
}

/// The instance tracks with the tails of the `stopped` instances started at `now`.
pub open spec fn tails_started(tracks: Map<u64, InstanceTrack>, stopped: Set<u64>, now: u64) -> Map<
    u64,
    InstanceTrack,
> {
    Map::new(
        |id: u64| tracks.contains_key(id),
        |id: u64|
            if stopped.contains(id) {
                tracks[id].started(now)
            } else {
                tracks[id]
            },
    )
}

/// The instance tracks that are still to be kept at `now`.
pub open spec fn still_kept(tracks: Map<u64, InstanceTrack>, now: u64) -> Map<u64, InstanceTrack> {
    Map::new(|id: u64| tracks.contains_key(id) && tracks[id].kept_at(now), |id: u64| tracks[id])
}

/// `after` is `before` cleaned up at `now`, where the instances in `live` still play: every
/// channel keeps only its instances that still play, in order; the tail of every listed
/// instance that no longer plays starts at `now` (unless it already runs); and the instance
/// tracks whose tail has run out by `now` are gone, which removes them from the mixer graph.
pub open spec fn cleaned_up(before: &AudioOutput, after: &AudioOutput, live: Set<u64>, now: u64) -> bool {
    &&& after.same_channels(before)
    &&& after.instance_lists() == before.instance_lists().map_values(
        |ids: Seq<u64>| among(ids, live),
    )
    &&& after.instance_track_map() == still_kept(
        tails_started(
            before.instance_track_map(),
            stopped_instances(before.instance_lists(), live),
            now,
        ),
        now,
    )
}

/// An instance stays on its channel through a cleanup exactly if it is still playing.
pub proof fn lemma_among_contains(ids: Seq<u64>, live: Set<u64>, id: u64)
    ensures
        among(ids, live).contains(id) <==> (ids.contains(id) && live.contains(id)),
    decreases ids.len(),
{
    if ids.len() > 0 {
        lemma_among_contains(ids.drop_last(), live, id);
        vstd::seq_lib::lemma_seq_contains_after_push(
            among(ids.drop_last(), live),
            ids.last(),
            id,
        );
        assert(ids =~= ids.drop_last().push(ids.last()));
        vstd::seq_lib::lemma_seq_contains_after_push(ids.drop_last(), ids.last(), id);
    }
}

/// What a cleanup does to a channel's instances and to an instance's track.
///
/// An instance stays on its channel exactly if it is still playing, and no instance joins a
/// channel. The track of an instance whose sound still plays (or was never listed) stays as it
/// is. The track of a listed instance that stopped gets its tail started now, and stays exactly
/// if that tail is not zero. A track whose tail had already started stays exactly until the
/// deadline it had. After a cleanup, no track is left whose tail has run out.
pub proof fn law_cleanup(before: &AudioOutput, after: &AudioOutput, live: Set<u64>, now: u64)
    requires
        before.tails_fit_for(stopped_instances(before.instance_lists(), live), now),
        cleaned_up(before, after, live, now),
    ensures
        after.instance_lists().dom() == before.instance_lists().dom(),
        forall|channel: u64, id: u64|
            #![trigger after.instance_lists()[channel].contains(id)]
            before.instance_lists().contains_key(channel) ==> (after.instance_lists()[channel].contains(id)
                <==> (before.instance_lists()[channel].contains(id) && live.contains(id))),
        forall|id: u64|
            #![trigger before.instance_track_map()[id]]
            before.instance_track_map().contains_key(id) && before.instance_track_map()[id].spec_expires_at() is None
                && !stopped_instances(before.instance_lists(), live).contains(id) ==> {
                &&& after.instance_track_map().contains_key(id)
                &&& after.instance_track_map()[id] == before.instance_track_map()[id]
            },
        forall|id: u64|
            #![trigger before.instance_track_map()[id]]
            before.instance_track_map().contains_key(id) && before.instance_track_map()[id].spec_expires_at() is None
                && stopped_instances(before.instance_lists(), live).contains(id) ==> {
                &&& after.instance_track_map().contains_key(id) <==> before.instance_track_map()[id].spec_tail() > 0
                &&& after.instance_track_map().contains_key(id) ==> after.instance_track_map()[id].spec_expires_at()
                    == Some((now + before.instance_track_map()[id].spec_tail()) as u64)
            },
        forall|id: u64|
            #![trigger before.instance_track_map()[id]]
            before.instance_track_map().contains_key(id) && before.instance_track_map()[id].spec_expires_at() is Some
                ==> (after.instance_track_map().contains_key(id) <==> now
                < before.instance_track_map()[id].spec_expires_at()->0),
        forall|id: u64| #[trigger]
            after.instance_track_map().contains_key(id) ==> after.instance_track_map()[id].kept_at(now),
{
    assert forall|channel: u64, id: u64|
        before.instance_lists().contains_key(channel) implies (#[trigger] after.instance_lists()[channel].contains(id)
            <==> (before.instance_lists()[channel].contains(id) && live.contains(id))) by {
        lemma_among_contains(before.instance_lists()[channel], live, id);
    }
    assert forall|id: u64| #[trigger] before.instance_track_map().contains_key(id)
        && stopped_instances(before.instance_lists(), live).contains(id) implies
        before.instance_track_map()[id].started(now).spec_tail() == before.instance_track_map()[id].spec_tail()
        && before.instance_track_map()[id].started(now).spec_expires_at() == (match before.instance_track_map()[id].spec_expires_at() {
            Some(e) => Some(e),
            None => Some((now + before.instance_track_map()[id].spec_tail()) as u64),
        }) by {
        before.instance_track_map()[id].lemma_started(now);
    }
}

/// A tail runs from the first cleanup that finds its sound stopped. A later cleanup neither
/// starts it again nor drops the track before it has run out: after two cleanups, at `first`
/// and then at `then`, the track of an instance that the first found stopped is still there
/// exactly if its tail is not zero and has not run out by `then`, counted from `first`.
pub proof fn law_tail_counts_from_first_cleanup(
    before: &AudioOutput,
    between: &AudioOutput,
    after: &AudioOutput,
    live_first: Set<u64>,
    first: u64,
    live_then: Set<u64>,
    then: u64,
    id: u64,
)
    requires
        before.tails_fit_for(stopped_instances(before.instance_lists(), live_first), first),
        cleaned_up(before, between, live_first, first),
        between.tails_fit_for(stopped_instances(between.instance_lists(), live_then), then),
        cleaned_up(between, after, live_then, then),
        before.instance_track_map().contains_key(id),
        before.instance_track_map()[id].spec_expires_at() is None,
        stopped_instances(before.instance_lists(), live_first).contains(id),
    ensures
        after.instance_track_map().contains_key(id) <==> (before.instance_track_map()[id].spec_tail()
            > 0 && then < first + before.instance_track_map()[id].spec_tail()),
        after.instance_track_map().contains_key(id) ==> after.instance_track_map()[id].spec_expires_at()
            == Some((first + before.instance_track_map()[id].spec_tail()) as u64),
{
    law_cleanup(before, between, live_first, first);
    law_cleanup(between, after, live_then, then);
    let tail = before.instance_track_map()[id].spec_tail();
    assert(before.instance_track_map()[id].can_start(first));
    if between.instance_track_map().contains_key(id) {
        let track = between.instance_track_map()[id];
        assert(track.spec_expires_at() == Some((first + tail) as u64));
        assert(track.can_start(then));
        track.lemma_started(then);
        if after.instance_track_map().contains_key(id) {
            assert(after.instance_track_map()[id] == track || after.instance_track_map()[id]
                == track.started(then));
        }
    }
}

impl AudioOutput {
    /// Whether the tail of the track of every instance among `ids` can start at `now` without
    /// its deadline overflowing.
    pub open spec fn tails_fit_for(&self, ids: Set<u64>, now: u64) -> bool {
        forall|id: u64| #[trigger]
            self.instance_track_map().contains_key(id) && ids.contains(id)
                ==> self.instance_track_map()[id].can_start(now)
    }

    /// Whether the tail of the track of every instance listed on a channel, which a cleanup at
    /// `now` may find stopped, can start at `now` without its deadline overflowing.
    pub open spec fn tails_fit(&self, now: u64) -> bool {
        self.tails_fit_for(listed_anywhere(self.instance_lists()), now)
    }

    /// Whether `id` is listed on some channel.
    fn is_listed(&self, id: u64) -> (listed: bool)
        ensures
            listed == listed_anywhere(self.instance_lists()).contains(id),
    {
        broadcast use vstd::std_specs::hash::group_hash_axioms;
        let channels = keys_of(&self.instances);
        let mut k: usize = 0;
        while k < channels.len()
            invariant
                k <= channels.len(),
                channels@.to_set() == self.instances@.dom(),
                forall|j: int|
                    0 <= j < k ==> !(#[trigger] self.instance_lists()[channels@[j]]).contains(id),
            decreases channels.len() - k,
        {
            assert(channels@.to_set().contains(channels@[k as int]));
            let ids = self.instances.get(&channels[k]).unwrap();
            assert(ids@ == self.instance_lists()[channels@[k as int]]);
            let mut j: usize = 0;
            while j < ids.len()
                invariant
                    j <= ids.len(),
                    k < channels.len(),
                    self.instances@.contains_key(channels@[k as int]),
                    ids@ == self.instance_lists()[channels@[k as int]],
                    forall|m: int| 0 <= m < j ==> ids@[m] != id,
                decreases ids.len() - j,
            {
                if ids[j] == id {
                    assert(self.instance_lists().contains_key(channels@[k as int]));
                    assert(self.instance_lists()[channels@[k as int]][j as int] == id);
                    assert(self.instance_lists()[channels@[k as int]].contains(id));
                    return true;
                }
                j = j + 1;
            }
            k = k + 1;
        }
        assert forall|c: u64|
            self.instance_lists().contains_key(c) implies !(#[trigger] self.instance_lists()[c]).contains(
            id,
        ) by {
            assert(channels@.to_set().contains(c));
            let j = choose|j: int| 0 <= j < channels@.len() && channels@[j] == c;
            assert(!self.instance_lists()[channels@[j]].contains(id));
        }
        false
    }

    /// Whether the tail of the track of every instance listed on a channel can start at `now`
    /// without its deadline overflowing.
    pub fn tails_fit_at(&self, now: u64) -> (fits: bool)
        ensures
            fits == self.tails_fit(now),
    {
        broadcast use vstd::std_specs::hash::group_hash_axioms;
        let ids = keys_of(&self.instance_tracks);
        let mut i: usize = 0;
        while i < ids.len()
            invariant
                i <= ids.len(),
                ids@.to_set() == self.instance_track_map().dom(),
                forall|k: int|
                    0 <= k < i && listed_anywhere(self.instance_lists()).contains(ids@[k])
                        ==> #[trigger] self.instance_track_map()[ids@[k]].can_start(now),
            decreases ids.len() - i,
        {
            assert(ids@.to_set().contains(ids@[i as int]));
            let track = self.instance_tracks.get(&ids[i]).unwrap();
            if track.expires_at().is_none() && track.tail() > u64::MAX - now && self.is_listed(
                ids[i],
            ) {
                return false;
            }
            i = i + 1;
        }
        assert forall|id: u64| #[trigger]
            self.instance_track_map().contains_key(id) && listed_anywhere(
                self.instance_lists(),
            ).contains(id) implies self.instance_track_map()[id].can_start(now) by {
            assert(ids@.to_set().contains(id));
            let k = choose|k: int| 0 <= k < ids@.len() && ids@[k] == id;
            assert(self.instance_track_map()[ids@[k]].can_start(now));
        }
        true
    }

    /// Drop the instances that no longer play from their channels, start the tails of their
    /// tracks at `now`, and tear down the tracks whose tail has run out.
    ///
    /// An instance still plays if it has a handle whose sound its handle reports as not
    /// stopped. The states are the audio thread's: `reported` stands for what the handles of
    /// the listed instances said.
    pub fn cleanup_stopped_instances(
        &mut self,
        audio_instances: &HashMap<u64, StaticSoundHandle>,
        now: u64,
    )
        requires
            old(self).tails_fit(now),
        ensures
            exists|reported: Seq<(u64, SoundState)>|
                (forall|id: u64|
                    #![trigger ids_of(reported).contains(id)]
                    ids_of(reported).contains(id) <==> (listed_anywhere(
                        old(self).instance_lists(),
                    ).contains(id) && audio_instances@.contains_key(id))) && cleaned_up(
                    old(self),
                    final(self),
                    still_playing(reported),
                    now,
                ),
    {
        let reported = self.listed_reports(audio_instances);
        let live = still_playing_instances(&reported);
        assert(self.tails_fit_for(stopped_instances(self.instance_lists(), live@), now));
        self.retire_stopped(&live, now);
    }

    /// The state reported by the handle of every instance listed on some channel that has one.
    /// The states are the audio thread's.
    fn listed_reports(&self, audio_instances: &HashMap<u64, StaticSoundHandle>) -> (reported: Vec<
        (u64, SoundState),
    >)
        ensures
            forall|id: u64|
                #![trigger ids_of(reported@).contains(id)]
                ids_of(reported@).contains(id) <==> (listed_anywhere(self.instance_lists()).contains(
                    id,
                ) && audio_instances@.contains_key(id)),
    {
        broadcast use vstd::std_specs::hash::group_hash_axioms;
        broadcast use vstd::seq_lib::lemma_seq_contains_after_push;
        let channels = keys_of(&self.instances);
        let mut reported: Vec<(u64, SoundState)> = Vec::new();
        let mut k: usize = 0;
        while k < channels.len()
            invariant
                k <= channels.len(),
                channels@.to_set() == self.instances@.dom(),
                forall|id: u64|
                    #![trigger ids_of(reported@).contains(id)]
                    ids_of(reported@).contains(id) <==> exists|j: int|
                        0 <= j < k && #[trigger] among(
                            self.listed(channels@[j]),
                            audio_instances@.dom(),
                        ).contains(id),
            decreases channels.len() - k,
        {
            let on_channel = self.reported_states(channels[k], audio_instances);
            let ghost before = reported@;
            let mut i: usize = 0;
            while i < on_channel.len()
                invariant
                    i <= on_channel.len(),
                    reported@ == before + on_channel@.take(i as int),
                decreases on_channel.len() - i,
            {
                reported.push(on_channel[i]);
                assert(reported@ =~= before + on_channel@.take(i + 1));
                i = i + 1;
            }
            assert(on_channel@.take(on_channel@.len() as int) =~= on_channel@);
            assert(ids_of(reported@) =~= ids_of(before) + ids_of(on_channel@));
            assert forall|id: u64| #[trigger]
                ids_of(reported@).contains(id) <==> exists|j: int|
                    0 <= j < k + 1 && #[trigger] among(
                        self.listed(channels@[j]),
                        audio_instances@.dom(),
                    ).contains(id) by {
                lemma_contains_in_concat(ids_of(before), ids_of(on_channel@), id);
                if among(self.listed(channels@[k as int]), audio_instances@.dom()).contains(id) {
                    assert(ids_of(on_channel@).contains(id));
                }
            }
            k = k + 1;
        }
        assert forall|id: u64| #[trigger]
            ids_of(reported@).contains(id) <==> (listed_anywhere(self.instance_lists()).contains(id)
                && audio_instances@.contains_key(id)) by {
            if ids_of(reported@).contains(id) {
                let j = choose|j: int|
                    0 <= j < channels@.len() && #[trigger] among(
                        self.listed(channels@[j]),
                        audio_instances@.dom(),
                    ).contains(id);
                lemma_among_contains(self.listed(channels@[j]), audio_instances@.dom(), id);
                assert(channels@.to_set().contains(channels@[j]));
                assert(self.instance_lists()[channels@[j]].contains(id));
            }
            if listed_anywhere(self.instance_lists()).contains(id) && audio_instances@.contains_key(
                id,
            ) {
                let c = choose|c: u64|
                    self.instance_lists().contains_key(c) && #[trigger] self.instance_lists()[c].contains(
                        id,
                    );
                assert(channels@.to_set().contains(c));
                let j = choose|j: int| 0 <= j < channels@.len() && channels@[j] == c;
                lemma_among_contains(self.listed(c), audio_instances@.dom(), id);
                assert(among(self.listed(channels@[j]), audio_instances@.dom()).contains(id));
            }
        }
        reported
    }

    /// Drop from their channels the instances that are not in `live`, start the tails of
    /// their tracks at `now`, and tear down the tracks whose tail has run out.
    pub fn retire_stopped(&mut self, live: &HashSet<u64>, now: u64)
        requires
            old(self).tails_fit_for(stopped_instances(old(self).instance_lists(), live@), now),
        ensures
            cleaned_up(old(self), final(self), live@, now),
    {
        broadcast use vstd::std_specs::hash::group_hash_axioms;
        let ghost old_lists = self.instance_lists();
        let ghost old_tracks = self.instance_track_map();
        let channels = keys_of(&self.instances);
        let ghost targets = old_lists.map_values(|ids: Seq<u64>| among(ids, live@));
        let mut stopped: Vec<u64> = Vec::new();
        let mut k: usize = 0;
        while k < channels.len()
            invariant
                channels@.to_set() == old_lists.dom(),
                channels@.no_duplicates(),
                k <= channels.len(),
                self.same_channels(old(self)),
                self.instance_track_map() == old_tracks,
                self.instance_lists().dom() == old_lists.dom(),
                targets == old_lists.map_values(|ids: Seq<u64>| among(ids, live@)),
                forall|c: u64| #[trigger]
                    old_lists.contains_key(c) ==> self.instance_lists()[c] == (if channels@.take(
                        k as int,
                    ).contains(c) {
                        targets[c]
                    } else {
                        old_lists[c]
                    }),
                forall|id: u64|
                    #[trigger] stopped@.contains(id) <==> exists|j: int|
                        0 <= j < k && #[trigger] old_lists[channels@[j]].contains(id)
                            && !live@.contains(id),
            decreases channels.len() - k,
        {
            let channel = channels[k];
            assert(channels@.to_set().contains(channel));
            let ids = self.instances.remove(&channel).unwrap();
            let ghost prior = stopped@;
            let mut kept: Vec<u64> = Vec::new();
            let mut j: usize = 0;
            while j < ids.len()
                invariant
                    j <= ids.len(),
                    ids@ == old_lists[channel],
                    kept@ == among(ids@.take(j as int), live@),
                    forall|id: u64|
                        #[trigger] stopped@.contains(id) <==> (prior.contains(id) || exists|m: int|
                            0 <= m < j && ids@[m] == id && !live@.contains(id)),
                decreases ids.len() - j,
            {
                let id = ids[j];
                assert(ids@.take(j + 1).drop_last() =~= ids@.take(j as int));
                let ghost before = stopped@;
                if live.contains(&id) {
                    kept.push(id);
                } else {
                    stopped.push(id);
                }
                assert forall|x: u64|
                    #[trigger] stopped@.contains(x) <==> (prior.contains(x) || exists|m: int|
                        0 <= m < j + 1 && ids@[m] == x && !live@.contains(x)) by {
                    vstd::seq_lib::lemma_seq_contains_after_push(before, id, x);
                    if exists|m: int| 0 <= m < j + 1 && ids@[m] == x && !live@.contains(x) {
                        let m = choose|m: int| 0 <= m < j + 1 && ids@[m] == x && !live@.contains(x);
                        if m < j {
                            assert(exists|m: int| 0 <= m < j && ids@[m] == x && !live@.contains(x));
                        }
                    }
                    if x == id && !live@.contains(x) {
                        assert(ids@[j as int] == x);
                    }
                }
                j = j + 1;
            }
            assert(ids@.take(ids@.len() as int) =~= ids@);
            self.instances.insert(channel, kept);
            assert(channels@.take(k + 1) =~= channels@.take(k as int).push(channel));
            assert forall|c: u64| #[trigger]
                old_lists.contains_key(c) implies self.instance_lists()[c] == (if channels@.take(
                k + 1,
            ).contains(c) {
                targets[c]
            } else {
                old_lists[c]
            }) by {
                if c == channel {
                    assert(channels@.take(k + 1)[k as int] == channel);
                } else {
                    assert(channels@.take(k + 1).contains(c) == channels@.take(k as int).contains(
                        c,
                    ));
                }
            }
            assert forall|id: u64|
                #[trigger] stopped@.contains(id) implies exists|jj: int|
                    0 <= jj < k + 1 && #[trigger] old_lists[channels@[jj]].contains(id)
                        && !live@.contains(id) by {
                if !prior.contains(id) {
                    let m = choose|m: int| 0 <= m < ids@.len() && ids@[m] == id && !live@.contains(id);
                    assert(old_lists[channels@[k as int]].contains(id));
                }
            }
            assert forall|id: u64|
                (exists|jj: int|
                    0 <= jj < k + 1 && #[trigger] old_lists[channels@[jj]].contains(id)
                        && !live@.contains(id)) implies #[trigger] stopped@.contains(id) by {
                let jj = choose|jj: int|
                    0 <= jj < k + 1 && #[trigger] old_lists[channels@[jj]].contains(id)
                        && !live@.contains(id);
                if jj == k {
                    let m = choose|m: int| 0 <= m < ids@.len() && ids@[m] == id;
                    assert(0 <= m < ids@.len() && ids@[m] == id && !live@.contains(id));
                }
            }
            k = k + 1;
        }
        assert(channels@.take(channels@.len() as int) =~= channels@);
        assert(self.instance_lists() =~= targets);
        let ghost stopped_set = stopped_instances(old_lists, live@);
        assert forall|id: u64| #[trigger] stopped@.contains(id) <==> stopped_set.contains(id) by {
            if stopped@.contains(id) {
                let jj = choose|jj: int|
                    0 <= jj < channels@.len() && #[trigger] old_lists[channels@[jj]].contains(id)
                        && !live@.contains(id);
                assert(channels@.to_set().contains(channels@[jj]));
            }
            if stopped_set.contains(id) {
                let c = choose|c: u64|
                    #![trigger old_lists[c].contains(id)]
                    old_lists.contains_key(c) && old_lists[c].contains(id) && !live@.contains(id);
                assert(channels@.to_set().contains(c));
                let jj = choose|jj: int| 0 <= jj < channels@.len() && channels@[jj] == c;
                assert(old_lists[channels@[jj]].contains(id));
            }
        }
        assert(stopped@.to_set() =~= stopped_set);
        self.start_tails(&stopped, now);
        self.drop_expired_tracks(now);
    }

    /// Start at `now` the tails of the tracks of the `stopped` instances.
    fn start_tails(&mut self, stopped: &Vec<u64>, now: u64)
        requires
            old(self).tails_fit_for(stopped@.to_set(), now),
        ensures
            final(self).same_channels(old(self)),
            final(self).instance_lists() == old(self).instance_lists(),
            final(self).instance_track_map() == tails_started(
                old(self).instance_track_map(),
                stopped@.to_set(),
                now,
            ),
    {
        broadcast use vstd::std_specs::hash::group_hash_axioms;
        let ghost old_tracks = self.instance_track_map();
        let mut i: usize = 0;
        while i < stopped.len()
            invariant
                i <= stopped.len(),
                self.same_channels(old(self)),
                self.instance_lists() == old(self).instance_lists(),
                forall|id: u64| #[trigger]
                    old_tracks.contains_key(id) && stopped@.contains(id) ==> old_tracks[id].can_start(
                        now,
                    ),
                self.instance_track_map() == tails_started(
                    old_tracks,
                    stopped@.take(i as int).to_set(),
                    now,
                ),
            decreases stopped.len() - i,
        {
            let id = stopped[i];
            assert(stopped@.contains(id)) by {
                assert(stopped@[i as int] == id);
            }
            let ghost before = self.instance_track_map();
            if let Some(mut track) = self.instance_tracks.remove(&id) {
                proof {
                    old_tracks[id].lemma_started(now);
                    crate::instance_track::law_tail_starts_once(old_tracks[id], now, now);
                }
                track.start_tail(now);
                self.instance_tracks.insert(id, track);
            }
            assert(stopped@.take(i + 1).to_set() =~= stopped@.take(i as int).to_set().insert(id)) by {
                assert(stopped@.take(i + 1) =~= stopped@.take(i as int).push(id));
                stopped@.take(i as int).lemma_push_to_set_commute(id);
            }
            assert(self.instance_track_map() =~= tails_started(
                old_tracks,
                stopped@.take(i + 1).to_set(),
                now,
            ));
            i = i + 1;
        }
        assert(stopped@.take(stopped@.len() as int) =~= stopped@);
    }

    /// Tear down the instance tracks whose tail has run out by `now`.
    fn drop_expired_tracks(&mut self, now: u64)
        ensures
            final(self).same_channels(old(self)),
            final(self).instance_lists() == old(self).instance_lists(),
            final(self).instance_track_map() == still_kept(old(self).instance_track_map(), now),
    {
        broadcast use vstd::std_specs::hash::group_hash_axioms;
        let ghost old_tracks = self.instance_track_map();
        let ids = keys_of(&self.instance_tracks);
        let mut i: usize = 0;
        while i < ids.len()
            invariant
                i <= ids.len(),
                ids@.to_set() == old_tracks.dom(),
                ids@.no_duplicates(),
                self.same_channels(old(self)),
                self.instance_lists() == old(self).instance_lists(),
                self.instance_track_map() == Map::new(
                    |id: u64|
                        old_tracks.contains_key(id) && (!ids@.take(i as int).contains(id)
                            || old_tracks[id].kept_at(now)),
                    |id: u64| old_tracks[id],
                ),
            decreases ids.len() - i,
        {
            let id = ids[i];
            assert(ids@.to_set().contains(id));
            assert(!ids@.take(i as int).contains(id)) by {
                if ids@.take(i as int).contains(id) {
                    let m = choose|m: int| 0 <= m < i && ids@.take(i as int)[m] == id;
                    assert(ids@[m] == ids@[i as int]);
                }
            }
            let track = self.instance_tracks.remove(&id).unwrap();
            if track.keep_alive(now) {
                self.instance_tracks.insert(id, track);
            }
            assert(ids@.take(i + 1) =~= ids@.take(i as int).push(id));
            assert forall|x: u64| #[trigger]
                ids@.take(i + 1).contains(x) <==> (ids@.take(i as int).contains(x) || x == id) by {
                vstd::seq_lib::lemma_seq_contains_after_push(ids@.take(i as int), id, x);
            }
            assert(self.instance_track_map() =~= Map::new(
                |x: u64|
                    old_tracks.contains_key(x) && (!ids@.take(i + 1).contains(x)
                        || old_tracks[x].kept_at(now)),
                |x: u64| old_tracks[x],
            ));
            i = i + 1;
        }
        assert(ids@.take(ids@.len() as int) =~= ids@);
        assert(self.instance_track_map() =~= still_kept(old_tracks, now));
    }
}

/// Add a track made from `builder` under `track`, if it has room. A track made with no room for
/// sub-tracks refuses them, as a full one does.
fn add_sub_track_under(track: &mut TrackHandle, builder: TrackBuilder) -> (sub_track: Option<
    TrackHandle,
>)
    ensures
        handle_sound_capacity(*final(track)) == handle_sound_capacity(*old(track)),
        handle_sub_track_capacity(*final(track)) == handle_sub_track_capacity(*old(track)),
        sub_track matches Some(sub_track) ==> handle_sound_capacity(sub_track)
            == builder_sound_capacity(builder),
        handle_sub_track_capacity(*old(track)) == 0 ==> sub_track is None,
        sub_track is Some ==> *final(track) == track_with_sub_track(*old(track), builder),
        sub_track is None ==> *final(track) == *old(track),
{
    if track_sub_track_capacity(track) == 0 {
        return None;
    }
    match track_add_sub_track(track, builder) {
        Ok(sub_track) => Some(sub_track),
        Err(_) => None,
    }
}

/// Add a track made from `builder` under the main track, if it has room. A main track made with
/// no room for sub-tracks refuses them, as a full one does.
fn add_sub_track_under_main(engine: &mut Engine, builder: TrackBuilder) -> (sub_track: Option<
    TrackHandle,
>)
    ensures
        engine_sound_capacity(*final(engine)) == engine_sound_capacity(*old(engine)),
        engine_sub_track_capacity(*final(engine)) == engine_sub_track_capacity(*old(engine)),
        sub_track matches Some(sub_track) ==> handle_sound_capacity(sub_track)
            == builder_sound_capacity(builder),
        engine_sub_track_capacity(*old(engine)) == 0 ==> sub_track is None,
        sub_track is Some ==> *final(engine) == engine_with_sub_track(*old(engine), builder),
        sub_track is None ==> *final(engine) == *old(engine),
{
    if engine_main_sub_track_capacity(engine) == 0 {
        return None;
    }
    match engine_add_sub_track(engine, builder) {
        Ok(sub_track) => Some(sub_track),
        Err(_) => None,
    }
}

/// Play `sound` on `track`, if it has room. A track made with no room for sounds refuses them,
/// as a full one does.
fn play_on_track(track: &mut TrackHandle, sound: StaticSoundData) -> (handle: Option<
    StaticSoundHandle,
>)
    ensures
        handle_sound_capacity(*final(track)) == handle_sound_capacity(*old(track)),
        handle_sub_track_capacity(*final(track)) == handle_sub_track_capacity(*old(track)),
        handle_sound_capacity(*old(track)) == 0 ==> handle is None,
        handle is Some ==> *final(track) == track_with_sound(*old(track), sound),
        handle is None ==> *final(track) == *old(track),
{
    if track_sound_capacity(track) == 0 {
        return None;
    }
    match track_play(track, sound) {
        Ok(handle) => Some(handle),
        Err(_) => None,
    }
}

/// Play `sound` on the main track, if it has room. A main track made with no room for sounds
/// refuses them, as a full one does.
fn play_on_main_track(engine: &mut Engine, sound: StaticSoundData) -> (handle: Option<
    StaticSoundHandle,
>)
    ensures
        engine_sound_capacity(*final(engine)) == engine_sound_capacity(*old(engine)),
        engine_sub_track_capacity(*final(engine)) == engine_sub_track_capacity(*old(engine)),
        engine_sound_capacity(*old(engine)) == 0 ==> handle is None,
        handle is Some ==> *final(engine) == engine_with_sound(*old(engine), sound),
        handle is None ==> *final(engine) == *old(engine),
{
    if engine_main_sound_capacity(engine) == 0 {
        return None;
    }
    match engine_play(engine, sound) {
        Ok(handle) => Some(handle),
        Err(_) => None,
    }
}

/// Which sounds of a channel a command goes to, by the state their handle reports.
#[derive(Debug, Clone, Copy, PartialEq, Eq)]
pub enum SoundFilter {
    /// Every sound.
    Every,
    /// The sounds a pause applies to.
    Pausable,
    /// The sounds a resume applies to.
    Resumable,
}

impl SoundFilter {
    /// Whether a sound in `state` passes the filter.
    pub open spec fn admits(self, state: SoundState) -> bool {
        match self {
            SoundFilter::Every => true,
            SoundFilter::Pausable => state.spec_pausable(),
            SoundFilter::Resumable => state.spec_resumable(),
        }
    }

    /// Whether a sound in `state` passes the filter.
    pub fn admits_state(self, state: SoundState) -> (admitted: bool)
        ensures
            admitted == self.admits(state),
    {
        match self {
            SoundFilter::Every => true,
            SoundFilter::Pausable => state.pausable(),
            SoundFilter::Resumable => state.resumable(),
        }
    }
}

/// The instances of a report of states, in order.
pub open spec fn ids_of(reported: Seq<(u64, SoundState)>) -> Seq<u64> {
    reported.map_values(|entry: (u64, SoundState)| entry.0)
}

/// The instances of a report of states whose state `filter` admits, in order.
pub open spec fn admitted(reported: Seq<(u64, SoundState)>, filter: SoundFilter) -> Seq<u64>
    decreases reported.len(),
{
    if reported.len() == 0 {
        Seq::empty()
    } else {
        let rest = admitted(reported.drop_last(), filter);
        if filter.admits(reported.last().1) {
            rest.push(reported.last().0)
        } else {
            rest
        }
    }
}

/// A filter keeps only instances of the report.
pub proof fn lemma_admitted_within(reported: Seq<(u64, SoundState)>, filter: SoundFilter, id: u64)
    ensures
        admitted(reported, filter).contains(id) ==> ids_of(reported).contains(id),
    decreases reported.len(),
{
    if reported.len() > 0 {
        lemma_admitted_within(reported.drop_last(), filter, id);
        assert(ids_of(reported) =~= ids_of(reported.drop_last()).push(reported.last().0));
        vstd::seq_lib::lemma_seq_contains_after_push(
            admitted(reported.drop_last(), filter),
            reported.last().0,
            id,
        );
        vstd::seq_lib::lemma_seq_contains_after_push(
            ids_of(reported.drop_last()),
            reported.last().0,
            id,
        );
    }
}

/// A filter that admits every state keeps every instance of the report.
pub proof fn lemma_every_admitted(reported: Seq<(u64, SoundState)>)
    ensures
        admitted(reported, SoundFilter::Every) == ids_of(reported),
    decreases reported.len(),
{
    if reported.len() > 0 {
        lemma_every_admitted(reported.drop_last());
        assert(ids_of(reported) =~= ids_of(reported.drop_last()).push(reported.last().0));
    }
}

/// The instances of `reported` whose state `filter` admits, in order.
pub fn admitted_instances(reported: &Vec<(u64, SoundState)>, filter: SoundFilter) -> (ids: Vec<
    u64,
>)
    ensures
        ids@ == admitted(reported@, filter),
{
    let mut ids: Vec<u64> = Vec::new();
    let mut i: usize = 0;
    while i < reported.len()
        invariant
            i <= reported.len(),
            ids@ == admitted(reported@.take(i as int), filter),
        decreases reported.len() - i,
    {
        assert(reported@.take(i + 1).drop_last() =~= reported@.take(i as int));
        let (id, state) = reported[i];
        if filter.admits_state(state) {
            ids.push(id);
        }
        i = i + 1;
    }
    assert(reported@.take(reported@.len() as int) =~= reported@);
    ids
}

/// Hand `command` to the handles of the `targets` instances, in turn.
fn hand_command(
    audio_instances: &mut HashMap<u64, StaticSoundHandle>,
    targets: &Vec<u64>,
    command: SoundCommand,
)
    ensures
        final(audio_instances)@ == commanded_handles(old(audio_instances)@, targets@, command),
{
    broadcast use vstd::std_specs::hash::group_hash_axioms;
    let mut i: usize = 0;
    while i < targets.len()
        invariant
            i <= targets.len(),
            audio_instances@ == commanded_handles(
                old(audio_instances)@,
                targets@.take(i as int),
                command,
            ),
        decreases targets.len() - i,
    {
        let id = targets[i];
        assert(targets@.take(i + 1).drop_last() =~= targets@.take(i as int));
        let ghost before = audio_instances@;
        if let Some(mut sound) = audio_instances.remove(&id) {
            match command {
                SoundCommand::Stop(tween) => sound_stop(&mut sound, tween),
                SoundCommand::Pause(tween) => sound_pause(&mut sound, tween),
                SoundCommand::Resume(tween) => sound_resume(&mut sound, tween),
                SoundCommand::SetVolume(volume, tween) => sound_set_volume(&mut sound, volume, tween),
                SoundCommand::SetPanning(panning, tween) => sound_set_panning(
                    &mut sound,
                    panning,
                    tween,
                ),
                SoundCommand::SetPlaybackRate(rate, tween) => sound_set_playback_rate(
                    &mut sound,
                    rate,
                    tween,
                ),
            }
            audio_instances.insert(id, sound);
            assert(audio_instances@ =~= before.insert(id, handed(command, before[id])));
        } else {
            assert(audio_instances@ =~= before);
        }
        i = i + 1;
    }
    assert(targets@.take(targets@.len() as int) =~= targets@);
}

/// The keys of a map, each once.
fn keys_of<V>(map: &HashMap<u64, V>) -> (keys: Vec<u64>)
    ensures
        keys@.to_set() == map@.dom(),
        keys@.no_duplicates(),
{
    broadcast use vstd::std_specs::hash::group_hash_axioms;
    let ghost all = spec_keys_iter(map).remaining().unref();
    let mut keys: Vec<u64> = Vec::new();
    for key in it: map.keys()
        invariant
            it.seq() == spec_keys_iter(map).remaining(),
            all == it.seq().unref(),
            keys@.len() == it.index(),
            forall|i: int| 0 <= i < it.index() ==> keys@[i] == all[i],
        ensures
            keys@.len() == all.len(),
            forall|i: int| 0 <= i < all.len() ==> keys@[i] == all[i],
    {
        keys.push(*key);
    }
    assert(keys@ =~= all);
    assert(forall|i: int, j: int|
        0 <= i < all.len() && 0 <= j < all.len() && i != j ==> spec_keys_iter(map).remaining()[i]
            != spec_keys_iter(map).remaining()[j]);
    keys
}

} // verus!
