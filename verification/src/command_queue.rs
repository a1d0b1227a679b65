//! Running the commands queued on a channel.
//!
//! Commands are queued at the front and taken from the back, oldest first. A command that
//! cannot run yet (its sound has not loaded) asks to be retried and goes back into the queue, so
//! that it runs on a later pass, in the same order relative to the other retried commands.

use vstd::prelude::*;
use std::collections::{HashMap, VecDeque};
use kira::sound::static_sound::{StaticSoundData, StaticSoundHandle};
use kira::{Decibels, Panning, PlaybackRate, Tween};
use crate::audio_output::{
    admitted, among, commanded_handles, fade_or, with_instance, ids_of, played_or_refused, state_or, with_paused, AudioOutput,
    ChannelState, PlayRequest, SoundCommand, SoundFilter, SoundState,
};
use crate::effect::AudioTrack;

verus! {

/// What running a command asks of the queue.
#[derive(Debug, Clone, Copy, PartialEq, Eq)]
pub enum AudioCommandResult {
    /// The command is done with.
    Done,
    /// The command could not run yet and is to be queued again.
    Retry,
}

/// What became of one command of a pass.
#[derive(Debug, Clone, Copy, PartialEq, Eq)]
pub struct CommandOutcome {
    /// Whether the command stops every sound of its channel.
    pub stop: bool,
    /// What running it asked of the queue.
    pub result: AudioCommandResult,
}

/// A command queued on a channel. `P` describes what a play command plays.
pub enum AudioCommand<P> {
    /// Play a sound.
    Play(P),
    /// Stop every sound of the channel, with the given fade or a short default one.
    Stop(Option<Tween>),
    /// Pause the channel and its sounds.
    Pause(Option<Tween>),
    /// Resume the channel and its sounds.
    Resume(Option<Tween>),
    /// Set the volume of the channel and its sounds.
    SetVolume(Decibels, Option<Tween>),
    /// Set the panning of the channel and its sounds.
    SetPanning(Panning, Option<Tween>),
    /// Set the playback rate of the channel and its sounds.
    SetPlaybackRate(PlaybackRate, Option<Tween>),
}

impl<P> AudioCommand<P> {
    /// Whether the command stops every sound of the channel.
    pub open spec fn spec_is_stop(&self) -> bool {
        self is Stop
    }

    /// Whether the command plays a sound.
    pub open spec fn spec_is_play(&self) -> bool {
        self is Play
    }

    /// Whether the command stops every sound of the channel.
    pub fn is_stop(&self) -> (stop: bool)
        ensures
            stop == self.spec_is_stop(),
    {
        match self {
            AudioCommand::Stop(_) => true,
            _ => false,
        }
    }
}

/// A request to play a loaded source on a channel as a new instance. `S` carries the rest of
/// what the sound asks for (its volume, panning and the like), which only a
/// [`SoundPreparation`] reads.
pub struct PlayCommand<S> {
    /// The source to play.
    pub source: u64,
    /// The instance the sound becomes.
    pub instance: u64,
    /// Whether the sound starts paused.
    pub paused: bool,
    /// The playback rate the sound asks for.
    pub playback_rate: Option<PlaybackRate>,
    /// How long the sound's own effects ring on after it stops, in nanoseconds.
    pub effect_tail: Option<u64>,
    /// The rest of the sound's settings.
    pub settings: S,
}

/// Makes the sound data of play commands ready to play.
pub trait SoundPreparation<S> {
    /// `source` with the settings of a channel in `channel_state` (`None`: one no command
    /// touched) and the sound's own `settings` applied; where `held`, played at a rate of zero.
    fn prepare(
        &mut self,
        source: &StaticSoundData,
        channel_state: Option<ChannelState>,
        held: bool,
        settings: &S,
    ) -> StaticSoundData;

    /// The track carrying the sound's own effects, taken out of its `settings`, if it has one.
    fn take_track(&mut self, settings: &S) -> Option<AudioTrack>;
}

/// Whether `command` waits for a source that has not loaded: a play of a source that
/// `sources` lacks.
pub open spec fn waits_for_source<S>(
    command: AudioCommand<PlayCommand<S>>,
    sources: Map<u64, StaticSoundData>,
) -> bool {
    match command {
        AudioCommand::Play(play) => !sources.contains_key(play.source),
        _ => false,
    }
}


/// The commands held for retrying after the first `n` commands of a pass ran, in the order in
/// which they ran. With `clear_on_stop`, a stop command first drops those held before it.
pub open spec fn retried<C>(
    commands: Seq<C>,
    outcomes: Seq<CommandOutcome>,
    clear_on_stop: bool,
    n: int,
) -> Seq<C>
    decreases n,
{
    if n <= 0 {
        Seq::empty()
    } else {
        let before = retried(commands, outcomes, clear_on_stop, n - 1);
        let kept = if clear_on_stop && outcomes[n - 1].stop {
            Seq::empty()
        } else {
            before
        };
        if outcomes[n - 1].result == AudioCommandResult::Retry {
            kept.push(commands[n - 1])
        } else {
            kept
        }
    }
}

/// The commands among the `lo`-th up to the `hi`-th (exclusive) that asked to be retried, in
/// their order.
pub open spec fn asked_to_retry<C>(
    commands: Seq<C>,
    outcomes: Seq<CommandOutcome>,
    lo: int,
    hi: int,
) -> Seq<C>
    decreases hi - lo,
{
    if hi <= lo {
        Seq::empty()
    } else {
        let before = asked_to_retry(commands, outcomes, lo, hi - 1);
        if outcomes[hi - 1].result == AudioCommandResult::Retry {
            before.push(commands[hi - 1])
        } else {
            before
        }
    }
}

/// The position of the last stop command among the first `n`, or `0` if there is none.
pub open spec fn last_stop(outcomes: Seq<CommandOutcome>, n: int) -> int
    decreases n,
{
    if n <= 0 {
        0
    } else if outcomes[n - 1].stop {
        n - 1
    } else {
        last_stop(outcomes, n - 1)
    }
}

/// The commands a pass queues again are exactly those that asked to be retried, in the order in
/// which they ran; where stop commands drop the retries held before them, only the commands from
/// the last stop on count.
pub proof fn law_retried_in_order<C>(commands: Seq<C>, outcomes: Seq<CommandOutcome>, n: int)
    requires
        0 <= n <= outcomes.len(),
        n <= commands.len(),
    ensures
        retried(commands, outcomes, false, n) == asked_to_retry(commands, outcomes, 0, n),
        retried(commands, outcomes, true, n) == asked_to_retry(
            commands,
            outcomes,
            last_stop(outcomes, n),
            n,
        ),
        0 <= last_stop(outcomes, n) <= n,
    decreases n,
{
    if n > 0 {
        law_retried_in_order(commands, outcomes, n - 1);
        if outcomes[n - 1].stop {
            assert(asked_to_retry(commands, outcomes, n - 1, n - 1) =~= Seq::<C>::empty());
        }
    }
}

/// The channel states after `command` ran on `channel`: a pause or resume pauses or resumes the
/// channel, a change of volume, panning or rate sets it, and the other commands leave the
/// states as they are.
pub open spec fn command_states<P>(
    states: Map<u64, ChannelState>,
    defaults: ChannelState,
    channel: u64,
    command: AudioCommand<P>,
) -> Map<u64, ChannelState> {
    match command {
        AudioCommand::Pause(_) => with_paused(states, defaults, channel, true),
        AudioCommand::Resume(_) => with_paused(states, defaults, channel, false),
        AudioCommand::SetVolume(volume, _) => states.insert(
            channel,
            ChannelState { volume, ..state_or(states, defaults, channel) },
        ),
        AudioCommand::SetPanning(panning, _) => states.insert(
            channel,
            ChannelState { panning, ..state_or(states, defaults, channel) },
        ),
        AudioCommand::SetPlaybackRate(playback_rate, _) => states.insert(
            channel,
            ChannelState { playback_rate, ..state_or(states, defaults, channel) },
        ),
        _ => states,
    }
}

/// The channel states after the first `n` of `commands` ran on `channel`, in order.
pub open spec fn states_after<P>(
    states: Map<u64, ChannelState>,
    defaults: ChannelState,
    channel: u64,
    commands: Seq<AudioCommand<P>>,
    n: int,
) -> Map<u64, ChannelState>
    decreases n,
{
    if n <= 0 {
        states
    } else {
        command_states(
            states_after(states, defaults, channel, commands, n - 1),
            defaults,
            channel,
            commands[n - 1],
        )
    }
}

/// The instance that `command` may add to its channel: that of a play whose source is among
/// `sources`.
pub open spec fn played_instance<S>(
    command: AudioCommand<PlayCommand<S>>,
    sources: Map<u64, StaticSoundData>,
) -> Option<u64> {
    match command {
        AudioCommand::Play(play) => if sources.contains_key(play.source) {
            Some(play.instance)
        } else {
            None
        },
        _ => None,
    }
}

/// Whether the instance lists `after` can follow from `before` once `command` ran on
/// `channel`: a play whose source is among `sources` may add its instance last to the channel.
pub open spec fn lists_step<S>(
    before: Map<u64, Seq<u64>>,
    after: Map<u64, Seq<u64>>,
    channel: u64,
    command: AudioCommand<PlayCommand<S>>,
    sources: Map<u64, StaticSoundData>,
) -> bool {
    ||| after == before
    ||| match played_instance(command, sources) {
        Some(instance) => after == with_instance(before, channel, instance),
        None => false,
    }
}

/// Whether the instance lists `after` can follow from `before` once the first `n` of
/// `commands` ran on `channel`, one after the other as [`lists_step`] says: each play whose
/// source is among `sources` added its instance last to the channel, unless the engine refused
/// its sound, and no other command touched the lists.
pub open spec fn lists_after<S>(
    before: Map<u64, Seq<u64>>,
    after: Map<u64, Seq<u64>>,
    channel: u64,
    commands: Seq<AudioCommand<PlayCommand<S>>>,
    sources: Map<u64, StaticSoundData>,
    n: int,
) -> bool {
    exists|trail: Seq<Map<u64, Seq<u64>>>| #[trigger]
        lists_trail(trail, before, after, channel, commands, sources, n)
}

/// `trail` holds the instance lists before each of the first `n` of `commands` ran, and after
/// the last, each following from the one before as [`lists_step`] says.
pub open spec fn lists_trail<S>(
    trail: Seq<Map<u64, Seq<u64>>>,
    before: Map<u64, Seq<u64>>,
    after: Map<u64, Seq<u64>>,
    channel: u64,
    commands: Seq<AudioCommand<PlayCommand<S>>>,
    sources: Map<u64, StaticSoundData>,
    n: int,
) -> bool {
    &&& trail.len() == n + 1
    &&& trail[0] == before
    &&& trail[n] == after
    &&& forall|k: int|
        0 <= k < n ==> lists_step(#[trigger] trail[k], trail[k + 1], channel, commands[k], sources)
}

/// The commands among the `lo`-th up to the `hi`-th (exclusive) that wait for a source that is
/// not among `sources`, in their order.
pub open spec fn waiting<S>(
    commands: Seq<AudioCommand<PlayCommand<S>>>,
    sources: Map<u64, StaticSoundData>,
    lo: int,
    hi: int,
) -> Seq<AudioCommand<PlayCommand<S>>>
    decreases hi - lo,
{
    if hi <= lo {
        Seq::empty()
    } else {
        let before = waiting(commands, sources, lo, hi - 1);
        if waits_for_source(commands[hi - 1], sources) {
            before.push(commands[hi - 1])
        } else {
            before
        }
    }
}

/// The position of the last stop command among the first `n` commands, or `0` if there is none.
pub open spec fn last_stop_command<C>(commands: Seq<AudioCommand<C>>, n: int) -> int
    decreases n,
{
    if n <= 0 {
        0
    } else if commands[n - 1].spec_is_stop() {
        n - 1
    } else {
        last_stop_command(commands, n - 1)
    }
}

/// What a pass queues again follows from the commands and the loaded sources alone: exactly the
/// plays whose source has not loaded, in the order in which they ran; where stop commands drop
/// the retries held before them, only those from the last stop on.
pub proof fn law_pass_requeues_waiting_plays<S>(
    commands: Seq<AudioCommand<PlayCommand<S>>>,
    outcomes: Seq<CommandOutcome>,
    sources: Map<u64, StaticSoundData>,
    n: int,
)
    requires
        0 <= n <= outcomes.len(),
        n <= commands.len(),
        forall|i: int|
            0 <= i < n ==> (#[trigger] outcomes[i]).stop == commands[i].spec_is_stop() && ((
            outcomes[i].result == AudioCommandResult::Retry) <==> waits_for_source(
                commands[i],
                sources,
            )),
    ensures
        retried(commands, outcomes, false, n) == waiting(commands, sources, 0, n),
        retried(commands, outcomes, true, n) == waiting(
            commands,
            sources,
            last_stop_command(commands, n),
            n,
        ),
{
    law_retried_in_order(commands, outcomes, n);
    lemma_last_stop_is_the_commands(commands, outcomes, n);
    lemma_asked_are_waiting(commands, outcomes, sources, 0, n);
    lemma_asked_are_waiting(commands, outcomes, sources, last_stop(outcomes, n), n);
}

/// The last stop among the outcomes is the last stop among the commands.
proof fn lemma_last_stop_is_the_commands<S>(
    commands: Seq<AudioCommand<PlayCommand<S>>>,
    outcomes: Seq<CommandOutcome>,
    n: int,
)
    requires
        0 <= n <= outcomes.len(),
        n <= commands.len(),
        forall|i: int| 0 <= i < n ==> (#[trigger] outcomes[i]).stop == commands[i].spec_is_stop(),
    ensures
        last_stop(outcomes, n) == last_stop_command(commands, n),
    decreases n,
{
    if n > 0 {
        lemma_last_stop_is_the_commands(commands, outcomes, n - 1);
        assert(outcomes[n - 1].stop == commands[n - 1].spec_is_stop());
    }
}

/// The commands that asked to be retried are those that wait for their source.
proof fn lemma_asked_are_waiting<S>(
    commands: Seq<AudioCommand<PlayCommand<S>>>,
    outcomes: Seq<CommandOutcome>,
    sources: Map<u64, StaticSoundData>,
    lo: int,
    hi: int,
)
    requires
        0 <= lo,
        hi <= outcomes.len(),
        hi <= commands.len(),
        forall|i: int|
            lo <= i < hi ==> (((#[trigger] outcomes[i]).result == AudioCommandResult::Retry)
                <==> waits_for_source(commands[i], sources)),
    ensures
        asked_to_retry(commands, outcomes, lo, hi) == waiting(commands, sources, lo, hi),
    decreases hi - lo,
{
    if hi > lo {
        lemma_asked_are_waiting(commands, outcomes, sources, lo, hi - 1);
        assert(outcomes[hi - 1].result == AudioCommandResult::Retry <==> waits_for_source(
            commands[hi - 1],
            sources,
        ));
    }
}

/// What is left of `queue` after a pass of a channel created at run time: the plays whose
/// source is not among `sources`, in order, where there is an engine; all of it otherwise.
pub open spec fn requeued<S>(
    queue: Seq<AudioCommand<PlayCommand<S>>>,
    sources: Map<u64, StaticSoundData>,
    has_engine: bool,
) -> Seq<AudioCommand<PlayCommand<S>>> {
    if has_engine {
        waiting(queue.reverse(), sources, 0, queue.len() as int).reverse()
    } else {
        queue
    }
}

impl AudioOutput {
    /// Run one command on `channel`.
    ///
    /// A play command whose source is not among `audio_sources` (it has not loaded yet) asks
    /// to be retried and changes nothing; every other command is done with once it ran. A play
    /// command whose source has loaded is made ready by `preparation` against the channel's
    /// state and handed to [`AudioOutput::play`].
    pub fn run_audio_command<S, P: SoundPreparation<S>>(
        &mut self,
        audio_command: &AudioCommand<PlayCommand<S>>,
        audio_sources: &HashMap<u64, StaticSoundData>,
        preparation: &mut P,
        audio_instances: &mut HashMap<u64, StaticSoundHandle>,
        channel: u64,
    ) -> (result: AudioCommandResult)
        requires
            audio_command.spec_is_play() ==> old(self).spec_has_engine() || old(
                self,
            ).channels_with_tracks().contains(channel),
        ensures
            final(self).spec_has_engine() == old(self).spec_has_engine(),
            final(self).channels_with_tracks() == old(self).channels_with_tracks(),
            final(self).same_constants(old(self)),
            (result == AudioCommandResult::Retry) <==> waits_for_source(
                *audio_command,
                audio_sources@,
            ),
            final(self).channel_states() == command_states(
                old(self).channel_states(),
                old(self).default_channel_state(),
                channel,
                *audio_command,
            ),
            !audio_command.spec_is_play() ==> {
                &&& final(self).same_mixer(old(self))
                &&& final(self).instance_lists() == old(self).instance_lists()
                &&& final(self).instance_track_map() == old(self).instance_track_map()
                &&& final(audio_instances)@.dom() == old(audio_instances)@.dom()
                &&& forall|id: u64|
                    #![trigger final(audio_instances)@[id]]
                    old(audio_instances)@.contains_key(id) && !old(self).listed(channel).contains(
                        id,
                    ) ==> final(audio_instances)@[id] == old(audio_instances)@[id]
            },
            audio_command matches AudioCommand::Play(play) ==> {
                &&& result == AudioCommandResult::Retry ==> {
                    &&& final(self).same_model(old(self))
                    &&& final(audio_instances)@ == old(audio_instances)@
                }
                &&& result == AudioCommandResult::Done ==> {
                    &&& exists|track: Option<AudioTrack>, sound: StaticSoundData|
                        #[trigger] played_or_refused(
                            old(self),
                            final(self),
                            channel,
                            play.instance,
                            track,
                            sound,
                        )
                    &&& {
                        ||| {
                            &&& final(self).instance_lists() == old(self).instance_lists()
                            &&& final(audio_instances)@ == old(audio_instances)@
                        }
                        ||| {
                            &&& final(self).instance_lists() == with_instance(
                                old(self).instance_lists(),
                                channel,
                                play.instance,
                            )
                            &&& final(audio_instances)@.contains_key(play.instance)
                            &&& final(audio_instances)@.remove(play.instance) == old(
                                audio_instances,
                            )@.remove(play.instance)
                        }
                    }
                }
            },
            audio_command matches AudioCommand::Stop(tween) ==> final(audio_instances)@
                == commanded_handles(
                old(audio_instances)@,
                among(old(self).listed(channel), old(audio_instances)@.dom()),
                SoundCommand::Stop(fade_or(*tween, old(self).spec_default_fade())),
            ),
            audio_command matches AudioCommand::Pause(tween) ==> exists|
                reported: Seq<(u64, SoundState)>,
            |
                ids_of(reported) == among(old(self).listed(channel), old(audio_instances)@.dom())
                    && final(audio_instances)@ == commanded_handles(
                    old(audio_instances)@,
                    #[trigger] admitted(reported, SoundFilter::Pausable),
                    SoundCommand::Pause(fade_or(*tween, old(self).spec_default_fade())),
                ),
            audio_command matches AudioCommand::Resume(tween) ==> exists|
                reported: Seq<(u64, SoundState)>,
            |
                ids_of(reported) == among(old(self).listed(channel), old(audio_instances)@.dom())
                    && final(audio_instances)@ == commanded_handles(
                    old(audio_instances)@,
                    #[trigger] admitted(reported, SoundFilter::Resumable),
                    SoundCommand::Resume(fade_or(*tween, old(self).spec_default_fade())),
                ),
            audio_command matches AudioCommand::SetVolume(volume, tween) ==> final(audio_instances)@ == commanded_handles(
                old(audio_instances)@,
                among(old(self).listed(channel), old(audio_instances)@.dom()),
                SoundCommand::SetVolume(*volume, fade_or(*tween, old(self).spec_default_fade())),
            ),
            audio_command matches AudioCommand::SetPanning(panning, tween) ==> final(audio_instances)@ == commanded_handles(
                old(audio_instances)@,
                among(old(self).listed(channel), old(audio_instances)@.dom()),
                SoundCommand::SetPanning(*panning, fade_or(*tween, old(self).spec_default_fade())),
            ),
            audio_command matches AudioCommand::SetPlaybackRate(playback_rate, tween) ==> final(audio_instances)@ == commanded_handles(
                old(audio_instances)@,
                among(old(self).listed(channel), old(audio_instances)@.dom()),
                SoundCommand::SetPlaybackRate(
                    *playback_rate,
                    fade_or(*tween, old(self).spec_default_fade()),
                ),
            ),
    {
        broadcast use vstd::std_specs::hash::group_hash_axioms;
        match audio_command {
            AudioCommand::Play(play) => match audio_sources.get(&play.source) {
                None => AudioCommandResult::Retry,
                Some(source) => {
                    let (channel_state, held) = self.preparation_inputs(channel, play.paused);
                    let sound = preparation.prepare(source, channel_state, held, &play.settings);
                    let track = preparation.take_track(&play.settings);
                    let ghost own_track = track;
                    let ghost prepared = sound;
                    let request = PlayRequest {
                        paused: play.paused,
                        playback_rate: play.playback_rate,
                        effect_tail: play.effect_tail,
                        track,
                    };
                    self.play(channel, sound, request, play.instance, audio_instances);
                    assert(played_or_refused(
                        old(self),
                        self,
                        channel,
                        play.instance,
                        own_track,
                        prepared,
                    ));
                    AudioCommandResult::Done
                },
            },
            AudioCommand::Stop(tween) => {
                self.stop(channel, audio_instances, self.fade_of(tween));
                AudioCommandResult::Done
            },
            AudioCommand::Pause(tween) => {
                self.pause(channel, audio_instances, self.fade_of(tween));
                AudioCommandResult::Done
            },
            AudioCommand::Resume(tween) => {
                self.resume(channel, audio_instances, self.fade_of(tween));
                AudioCommandResult::Done
            },
            AudioCommand::SetVolume(volume, tween) => {
                self.set_volume(channel, audio_instances, *volume, self.fade_of(tween));
                AudioCommandResult::Done
            },
            AudioCommand::SetPanning(panning, tween) => {
                self.set_panning(channel, audio_instances, *panning, self.fade_of(tween));
                AudioCommandResult::Done
            },
            AudioCommand::SetPlaybackRate(playback_rate, tween) => {
                self.set_playback_rate(
                    channel,
                    audio_instances,
                    *playback_rate,
                    self.fade_of(tween),
                );
                AudioCommandResult::Done
            },
        }
    }

/// Run every command queued when the pass starts, oldest first, and queue again those that ask
/// to be retried.
///
/// With `clear_retries_on_stop`, a stop command drops the retried commands that ran before it:
/// a sound that has not loaded by the time its channel is stopped is never played.
fn run_command_pass<S, P: SoundPreparation<S>>(
    &mut self,
    audio_sources: &HashMap<u64, StaticSoundData>,
    preparation: &mut P,
    queue: &mut VecDeque<AudioCommand<PlayCommand<S>>>,
    audio_instances: &mut HashMap<u64, StaticSoundHandle>,
    channel: u64,
    clear_retries_on_stop: bool,
) -> (outcomes: Vec<CommandOutcome>)
    requires
        old(self).spec_has_engine(),
    ensures
        final(self).spec_has_engine(),
        final(self).channels_with_tracks() == old(self).channels_with_tracks(),
        final(self).same_constants(old(self)),
        final(self).channel_states() == states_after(
            old(self).channel_states(),
            old(self).default_channel_state(),
            channel,
            old(queue)@.reverse(),
            old(queue)@.len() as int,
        ),
        lists_after(
            old(self).instance_lists(),
            final(self).instance_lists(),
            channel,
            old(queue)@.reverse(),
            audio_sources@,
            old(queue)@.len() as int,
        ),
        forall|i: int|
            0 <= i < outcomes@.len() ==> (#[trigger] outcomes@[i]).stop == old(queue)@.reverse()[i].spec_is_stop() && ((outcomes@[i].result == AudioCommandResult::Retry) <==> waits_for_source(old(queue)@.reverse()[i], audio_sources@)),
        outcomes.len() == old(queue)@.len(),
        final(queue)@ == retried(
            old(queue)@.reverse(),
            outcomes@,
            clear_retries_on_stop,
            old(queue)@.len() as int,
        ).reverse(),
{
    broadcast use vstd::std_specs::vecdeque::group_vec_dequeue_axioms;

    let len = queue.len();
    let ghost commands = old(queue)@.reverse();
    let mut retry: Vec<AudioCommand<PlayCommand<S>>> = Vec::new();
    let mut outcomes: Vec<CommandOutcome> = Vec::new();
    let ghost mut trail: Seq<Map<u64, Seq<u64>>> = seq![self.instance_lists()];
    let mut i: usize = 0;
    while i < len
        invariant
            len == old(queue)@.len(),
            commands == old(queue)@.reverse(),
            i <= len,
            queue@ == old(queue)@.subrange(0, len - i),
            outcomes@.len() == i,
            retry@ == retried(commands, outcomes@, clear_retries_on_stop, i as int),
            self.spec_has_engine(),
            self.channels_with_tracks() == old(self).channels_with_tracks(),
            self.same_constants(old(self)),
            self.channel_states() == states_after(
                old(self).channel_states(),
                old(self).default_channel_state(),
                channel,
                commands,
                i as int,
            ),
            lists_trail(
                trail,
                old(self).instance_lists(),
                self.instance_lists(),
                channel,
                commands,
                audio_sources@,
                i as int,
            ),
            forall|k: int|
                0 <= k < i ==> (#[trigger] outcomes@[k]).stop == commands[k].spec_is_stop() && ((outcomes@[k].result
                    == AudioCommandResult::Retry) <==> waits_for_source(commands[k], audio_sources@)),
        decreases len - i,
    {
        let command = queue.pop_back().unwrap();
        assert(command == commands[i as int]);
        let ghost lists_before = self.instance_lists();
        let result = self.run_audio_command(&command, audio_sources, preparation, audio_instances, channel);
        proof {
            if self.instance_lists() != lists_before {
                let play = command->Play_0;
                assert(played_instance(commands[i as int], audio_sources@) == Some(play.instance));
            }
            assert(lists_step(lists_before, self.instance_lists(), channel, commands[i as int], audio_sources@));
            let grown = trail.push(self.instance_lists());
            assert forall|k: int| 0 <= k < i + 1 implies lists_step(
                #[trigger] grown[k],
                grown[k + 1],
                channel,
                commands[k],
                audio_sources@,
            ) by {
                if k < i {
                    assert(grown[k] == trail[k] && grown[k + 1] == trail[k + 1]);
                }
            }
            trail = grown;
        }
        let stop = command.is_stop();
        if clear_retries_on_stop && stop {
            retry.clear();
        }
        let ghost before = outcomes@;
        outcomes.push(CommandOutcome { stop, result });
        assert forall|k: int| 0 <= k <= i implies #[trigger] retried(
            commands,
            outcomes@,
            clear_retries_on_stop,
            k,
        ) == retried(commands, before, clear_retries_on_stop, k) by {
            lemma_retried_prefix(commands, before, outcomes@, clear_retries_on_stop, k);
        }
        assert(retried(commands, outcomes@, clear_retries_on_stop, i as int) == retried(
            commands,
            before,
            clear_retries_on_stop,
            i as int,
        ));
        assert(outcomes@[i as int] == CommandOutcome { stop, result });
        match result {
            AudioCommandResult::Retry => retry.push(command),
            AudioCommandResult::Done => {},
        }
        assert(retry@ == retried(commands, outcomes@, clear_retries_on_stop, i + 1));
        i = i + 1;
    }
    assert(queue@ =~= Seq::<AudioCommand<PlayCommand<S>>>::empty());
    assert(lists_trail(
        trail,
        old(self).instance_lists(),
        self.instance_lists(),
        channel,
        commands,
        audio_sources@,
        len as int,
    ));
    let ghost held = retry@;
    while retry.len() > 0
        invariant
            held == retried(commands, outcomes@, clear_retries_on_stop, len as int),
            retry@.len() <= held.len(),
            retry@ == held.subrange(0, retry@.len() as int),
            queue@ == held.subrange(retry@.len() as int, held.len() as int).reverse(),
        decreases retry.len(),
    {
        let command = retry.pop().unwrap();
        queue.push_back(command);
        assert(queue@ =~= held.subrange(retry@.len() as int, held.len() as int).reverse());
    }
    assert(held.subrange(0, held.len() as int) =~= held);
    outcomes
}

/// Run the commands queued on a channel of the application's own, if there is an engine to
/// play through; without one the queue is left as it is.
///
/// Commands run oldest first, and those that ask to be retried go back into the queue in the
/// same order. A stop command drops the retries held before it: a sound that has not loaded by
/// the time its channel is stopped is never played.
pub fn play_channel<S, P: SoundPreparation<S>>(
    &mut self,
    audio_sources: &HashMap<u64, StaticSoundData>,
    preparation: &mut P,
    queue: &mut VecDeque<AudioCommand<PlayCommand<S>>>,
    audio_instances: &mut HashMap<u64, StaticSoundHandle>,
    channel: u64,
) -> (outcomes: Vec<CommandOutcome>)
    ensures
        final(self).spec_has_engine() == old(self).spec_has_engine(),
        final(self).channels_with_tracks() == old(self).channels_with_tracks(),
        final(self).same_constants(old(self)),
        !old(self).spec_has_engine() ==> {
            &&& outcomes@.len() == 0
            &&& final(queue)@ == old(queue)@
            &&& final(self).same_model(old(self))
            &&& final(audio_instances)@ == old(audio_instances)@
        },
        old(self).spec_has_engine() ==> {
            &&& final(self).channel_states() == states_after(
                old(self).channel_states(),
                old(self).default_channel_state(),
                channel,
                old(queue)@.reverse(),
                old(queue)@.len() as int,
            )
            &&& lists_after(
                old(self).instance_lists(),
                final(self).instance_lists(),
                channel,
                old(queue)@.reverse(),
                audio_sources@,
                old(queue)@.len() as int,
            )
            &&& outcomes@.len() == old(queue)@.len()
            &&& forall|i: int|
                0 <= i < outcomes@.len() ==> (#[trigger] outcomes@[i]).stop == old(queue)@.reverse()[i].spec_is_stop() && ((outcomes@[i].result == AudioCommandResult::Retry) <==> waits_for_source(old(queue)@.reverse()[i], audio_sources@))
            &&& final(queue)@ == retried(
                old(queue)@.reverse(),
                outcomes@,
                true,
                old(queue)@.len() as int,
            ).reverse()
            &&& final(queue)@ == waiting(
                old(queue)@.reverse(),
                audio_sources@,
                last_stop_command(old(queue)@.reverse(), old(queue)@.len() as int),
                old(queue)@.len() as int,
            ).reverse()
        },
{
    if !self.has_engine() {
        return Vec::new();
    }
    let outcomes = self.run_command_pass(
        audio_sources,
        preparation,
        queue,
        audio_instances,
        channel,
        true,
    );
    proof {
        law_pass_requeues_waiting_plays(
            old(queue)@.reverse(),
            outcomes@,
            audio_sources@,
            old(queue)@.len() as int,
        );
    }
    outcomes
}

/// Run the commands queued on a channel created at run time, if there is an engine to play
/// through; without one the queue is left as it is.
///
/// Unlike [`Self::play_channel`], a stop command drops no retries: every command that asks to
/// be retried goes back into the queue.
pub fn play_dynamic_channel<S, P: SoundPreparation<S>>(
    &mut self,
    audio_sources: &HashMap<u64, StaticSoundData>,
    preparation: &mut P,
    queue: &mut VecDeque<AudioCommand<PlayCommand<S>>>,
    audio_instances: &mut HashMap<u64, StaticSoundHandle>,
    channel: u64,
) -> (outcomes: Vec<CommandOutcome>)
    ensures
        final(self).spec_has_engine() == old(self).spec_has_engine(),
        final(self).channels_with_tracks() == old(self).channels_with_tracks(),
        final(self).same_constants(old(self)),
        !old(self).spec_has_engine() ==> {
            &&& outcomes@.len() == 0
            &&& final(queue)@ == old(queue)@
            &&& final(self).same_model(old(self))
            &&& final(audio_instances)@ == old(audio_instances)@
        },
        old(self).spec_has_engine() ==> {
            &&& final(self).channel_states() == states_after(
                old(self).channel_states(),
                old(self).default_channel_state(),
                channel,
                old(queue)@.reverse(),
                old(queue)@.len() as int,
            )
            &&& lists_after(
                old(self).instance_lists(),
                final(self).instance_lists(),
                channel,
                old(queue)@.reverse(),
                audio_sources@,
                old(queue)@.len() as int,
            )
            &&& outcomes@.len() == old(queue)@.len()
            &&& forall|i: int|
                0 <= i < outcomes@.len() ==> (#[trigger] outcomes@[i]).stop == old(queue)@.reverse()[i].spec_is_stop() && ((outcomes@[i].result == AudioCommandResult::Retry) <==> waits_for_source(old(queue)@.reverse()[i], audio_sources@))
            &&& final(queue)@ == retried(
                old(queue)@.reverse(),
                outcomes@,
                false,
                old(queue)@.len() as int,
            ).reverse()
            &&& final(queue)@ == waiting(
                old(queue)@.reverse(),
                audio_sources@,
                0,
                old(queue)@.len() as int,
            ).reverse()
        },
{
    if !self.has_engine() {
        return Vec::new();
    }
    let outcomes = self.run_command_pass(
        audio_sources,
        preparation,
        queue,
        audio_instances,
        channel,
        false,
    );
    proof {
        law_pass_requeues_waiting_plays(
            old(queue)@.reverse(),
            outcomes@,
            audio_sources@,
            old(queue)@.len() as int,
        );
    }
    outcomes
}

/// Run the commands queued on each channel created at run time, one channel after the other,
/// as [`Self::play_dynamic_channel`] does. Each channel comes back with its queue, in the order
/// given.
pub fn play_dynamic_channels<S, P: SoundPreparation<S>>(
    &mut self,
    audio_sources: &HashMap<u64, StaticSoundData>,
    preparation: &mut P,
    channels: Vec<(u64, VecDeque<AudioCommand<PlayCommand<S>>>)>,
    audio_instances: &mut HashMap<u64, StaticSoundHandle>,
) -> (after: Vec<(u64, VecDeque<AudioCommand<PlayCommand<S>>>)>)
    ensures
        final(self).spec_has_engine() == old(self).spec_has_engine(),
        final(self).channels_with_tracks() == old(self).channels_with_tracks(),
        after@.len() == channels@.len(),
        forall|i: int|
            0 <= i < channels@.len() ==> {
                &&& (#[trigger] after@[i]).0 == channels@[i].0
                &&& after@[i].1@ == requeued(
                    channels@[i].1@,
                    audio_sources@,
                    old(self).spec_has_engine(),
                )
            },
{
    let ghost engine = self.spec_has_engine();
    let ghost n = channels@.len();
    let mut rest = channels;
    let mut done: Vec<(u64, VecDeque<AudioCommand<PlayCommand<S>>>)> = Vec::new();
    while rest.len() > 0
        invariant
            rest@ == channels@.take(rest@.len() as int),
            rest@.len() + done@.len() == n,
            n == channels@.len(),
            self.spec_has_engine() == engine,
            engine == old(self).spec_has_engine(),
            self.channels_with_tracks() == old(self).channels_with_tracks(),
            forall|k: int|
                0 <= k < done@.len() ==> {
                    &&& (#[trigger] done@[k]).0 == channels@[n - 1 - k].0
                    &&& done@[k].1@ == requeued(channels@[n - 1 - k].1@, audio_sources@, engine)
                },
        decreases rest.len(),
    {
        let (channel, mut queue) = rest.pop().unwrap();
        let ghost at = rest@.len() as int;
        assert(channels@[at] == (channel, queue));
        self.play_dynamic_channel(audio_sources, preparation, &mut queue, audio_instances, channel);
        done.push((channel, queue));
        assert(rest@ =~= channels@.take(rest@.len() as int));
    }
    let mut after: Vec<(u64, VecDeque<AudioCommand<PlayCommand<S>>>)> = Vec::new();
    while done.len() > 0
        invariant
            done@.len() + after@.len() == n,
            n == channels@.len(),
            forall|k: int|
                0 <= k < done@.len() ==> {
                    &&& (#[trigger] done@[k]).0 == channels@[n - 1 - k].0
                    &&& done@[k].1@ == requeued(channels@[n - 1 - k].1@, audio_sources@, engine)
                },
            forall|k: int|
                0 <= k < after@.len() ==> {
                    &&& (#[trigger] after@[k]).0 == channels@[k].0
                    &&& after@[k].1@ == requeued(channels@[k].1@, audio_sources@, engine)
                },
        decreases done.len(),
    {
        let entry = done.pop().unwrap();
        after.push(entry);
    }
    after
}
}

/// What was held for retrying after the first `k` commands depends on their outcomes alone.
proof fn lemma_retried_prefix<C>(
    commands: Seq<C>,
    a: Seq<CommandOutcome>,
    b: Seq<CommandOutcome>,
    clear_on_stop: bool,
    k: int,
)
    requires
        0 <= k <= a.len(),
        k <= b.len(),
        forall|j: int| 0 <= j < k ==> a[j] == b[j],
    ensures
        retried(commands, b, clear_on_stop, k) == retried(commands, a, clear_on_stop, k),
    decreases k,
{
    if k > 0 {
        lemma_retried_prefix(commands, a, b, clear_on_stop, k - 1);
    }
}

} // verus!
