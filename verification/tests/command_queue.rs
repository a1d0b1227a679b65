use bevy_kira_audio::audio_output::{AudioOutput, ChannelState};
use bevy_kira_audio::backend_settings::AudioSettings;
use bevy_kira_audio::command_queue::{
    AudioCommand, AudioCommandResult, CommandOutcome, PlayCommand, SoundPreparation,
};
use bevy_kira_audio::effect::AudioTrack;
use kira::sound::static_sound::{StaticSoundData, StaticSoundHandle, StaticSoundSettings};
use kira::{Decibels, Frame, Tween};
use std::collections::{HashMap, VecDeque};
use std::sync::Arc;

/// The channel that the main audio channel plays on.
const MAIN_CHANNEL: u64 = 0;

fn audio_output() -> AudioOutput {
    AudioOutput::from_settings(AudioSettings::default()).0
}

fn sound() -> StaticSoundData {
    StaticSoundData {
        sample_rate: 44_100,
        frames: Arc::from(vec![Frame::from_mono(1.0); 441]),
        settings: StaticSoundSettings::default(),
        slice: None,
    }
}

/// Plays sources as they are, with no track of their own, and notes what it was asked.
#[derive(Default)]
struct AsTheyAre {
    held: Vec<bool>,
}

impl SoundPreparation<()> for AsTheyAre {
    fn prepare(
        &mut self,
        source: &StaticSoundData,
        _channel_state: Option<ChannelState>,
        held: bool,
        _settings: &(),
    ) -> StaticSoundData {
        self.held.push(held);
        source.clone()
    }

    fn take_track(&mut self, _settings: &()) -> Option<AudioTrack> {
        None
    }
}

/// No source has loaded yet.
fn nothing_loaded() -> HashMap<u64, StaticSoundData> {
    HashMap::new()
}

/// Only `loaded` has loaded.
fn only(loaded: u64) -> HashMap<u64, StaticSoundData> {
    HashMap::from([(loaded, sound())])
}

/// Queue a command the way a channel does: at the front.
fn queue(commands: &mut VecDeque<AudioCommand<PlayCommand<()>>>, command: AudioCommand<PlayCommand<()>>) {
    commands.push_front(command);
}

/// Play `source` as instance `instance`, with no settings of its own.
fn play_as(source: u64, instance: u64) -> AudioCommand<PlayCommand<()>> {
    AudioCommand::Play(PlayCommand {
        source,
        instance,
        paused: false,
        playback_rate: None,
        effect_tail: None,
        settings: (),
    })
}

fn play(source: u64) -> AudioCommand<PlayCommand<()>> {
    play_as(source, 1000 + source)
}

fn queued_plays(commands: &VecDeque<AudioCommand<PlayCommand<()>>>) -> Vec<u64> {
    commands
        .iter()
        .map(|command| match command {
            AudioCommand::Play(play) => play.source,
            _ => panic!("Wrong audio command"),
        })
        .collect()
}

#[test]
fn keeps_order_of_commands_to_retry() {
    let mut audio_output = audio_output();
    let mut audio_instance_assets: HashMap<u64, StaticSoundHandle> = HashMap::new();
    let audio_handle_one = 1;
    let audio_handle_two = 2;

    let mut commands = VecDeque::new();
    queue(&mut commands, play(audio_handle_one));
    queue(&mut commands, play(audio_handle_two));

    audio_output.play_channel(
        &nothing_loaded(),
        &mut AsTheyAre::default(),
        &mut commands,
        &mut audio_instance_assets,
        MAIN_CHANNEL,
    );

    let command_one = commands.pop_back().unwrap();
    match command_one {
        AudioCommand::Play(play) => assert_eq!(play.source, audio_handle_one),
        _ => panic!("Wrong audio command"),
    }
    let command_two = commands.pop_back().unwrap();
    match command_two {
        AudioCommand::Play(play) => assert_eq!(play.source, audio_handle_two),
        _ => panic!("Wrong audio command"),
    }
}

#[test]
fn stop_command_removes_previous_play_commands() {
    let mut audio_output = audio_output();
    let mut audio_instance_assets: HashMap<u64, StaticSoundHandle> = HashMap::new();
    let audio_handle_one = 1;
    let audio_handle_two = 2;

    let mut commands = VecDeque::new();
    queue(&mut commands, play(audio_handle_one));
    queue(&mut commands, AudioCommand::Stop(None));
    queue(&mut commands, play(audio_handle_two));

    audio_output.play_channel(
        &nothing_loaded(),
        &mut AsTheyAre::default(),
        &mut commands,
        &mut audio_instance_assets,
        MAIN_CHANNEL,
    );

    let command = commands.pop_back().unwrap();
    match command {
        AudioCommand::Play(play) => assert_eq!(play.source, audio_handle_two),
        _ => panic!("Wrong audio command"),
    }
    assert!(commands.pop_back().is_none());
}

#[test]
fn a_pass_runs_every_command_once_oldest_first() {
    let mut audio_output = audio_output();
    let mut instances = HashMap::new();
    let mut commands = VecDeque::new();
    queue(&mut commands, play(1));
    queue(&mut commands, AudioCommand::Stop(Some(Tween::default())));
    queue(&mut commands, play(2));

    let outcomes =
        audio_output.play_channel(
            &nothing_loaded(),
            &mut AsTheyAre::default(),
            &mut commands,
            &mut instances,
            MAIN_CHANNEL,
        );

    assert_eq!(
        outcomes,
        vec![
            CommandOutcome { stop: false, result: AudioCommandResult::Retry },
            CommandOutcome { stop: true, result: AudioCommandResult::Done },
            CommandOutcome { stop: false, result: AudioCommandResult::Retry },
        ]
    );
}

#[test]
fn a_dynamic_channel_keeps_retries_across_a_stop() {
    let mut audio_output = audio_output();
    let mut instances = HashMap::new();
    let mut commands = VecDeque::new();
    queue(&mut commands, play(1));
    queue(&mut commands, AudioCommand::Stop(None));
    queue(&mut commands, play(2));

    audio_output.play_dynamic_channel(
        &nothing_loaded(),
        &mut AsTheyAre::default(),
        &mut commands,
        &mut instances,
        5,
    );

    assert_eq!(queued_plays(&commands), vec![2, 1]);
}

#[test]
fn commands_that_ran_are_not_queued_again() {
    let mut audio_output = audio_output();
    let mut instances = HashMap::new();
    let mut commands = VecDeque::new();
    queue(&mut commands, play(1));
    queue(&mut commands, play_as(7, 100));
    queue(&mut commands, play(2));
    queue(&mut commands, play_as(7, 101));

    let mut preparation = AsTheyAre::default();
    audio_output.play_channel(&only(7), &mut preparation, &mut commands, &mut instances, MAIN_CHANNEL);

    assert_eq!(queued_plays(&commands), vec![2, 1]);
    assert_eq!(audio_output.instances_on(MAIN_CHANNEL), Some(&vec![100, 101]));
    assert_eq!(instances.len(), 2);
}

#[test]
fn nothing_runs_without_an_engine() {
    let mut audio_output = AudioOutput::new(None);
    let mut instances = HashMap::new();
    let mut commands = VecDeque::new();
    queue(&mut commands, play(1));
    queue(&mut commands, AudioCommand::Stop(None));

    let outcomes =
        audio_output.play_channel(
            &nothing_loaded(),
            &mut AsTheyAre::default(),
            &mut commands,
            &mut instances,
            MAIN_CHANNEL,
        );

    assert!(outcomes.is_empty());
    assert_eq!(commands.len(), 2);
    assert!(matches!(commands.pop_back(), Some(AudioCommand::Play(PlayCommand { source: 1, .. }))));
    assert!(matches!(commands.pop_back(), Some(AudioCommand::Stop(None))));
}

#[test]
fn an_empty_queue_stays_empty() {
    let mut audio_output = audio_output();
    let mut instances = HashMap::new();
    let mut commands: VecDeque<AudioCommand<PlayCommand<()>>> = VecDeque::new();

    let outcomes = audio_output.play_dynamic_channel(
        &nothing_loaded(),
        &mut AsTheyAre::default(),
        &mut commands,
        &mut instances,
        1,
    );

    assert!(outcomes.is_empty());
    assert!(commands.is_empty());
}

#[test]
fn channel_commands_change_the_channel_state() {
    let mut audio_output = audio_output();
    let mut instances = HashMap::new();
    let mut commands = VecDeque::new();
    queue(&mut commands, AudioCommand::SetVolume(Decibels(-12.0), None));
    queue(&mut commands, AudioCommand::Pause(None));

    let outcomes =
        audio_output.play_channel(
            &nothing_loaded(),
            &mut AsTheyAre::default(),
            &mut commands,
            &mut instances,
            3,
        );

    assert!(outcomes.iter().all(|outcome| outcome.result == AudioCommandResult::Done));
    assert!(commands.is_empty());
    let state = audio_output.channel_state(3).unwrap();
    assert!(state.paused);
    assert_eq!(state.volume, Decibels(-12.0));

    let result = audio_output.run_audio_command(
        &AudioCommand::<PlayCommand<()>>::Resume(None),
        &nothing_loaded(),
        &mut AsTheyAre::default(),
        &mut instances,
        3,
    );
    assert_eq!(result, AudioCommandResult::Done);
    assert!(!audio_output.channel_state(3).unwrap().paused);
}

#[test]
fn a_play_command_whose_source_has_not_loaded_asks_to_be_retried() {
    let mut audio_output = audio_output();
    let mut instances = HashMap::new();

    let result = audio_output.run_audio_command(
        &play(4),
        &nothing_loaded(),
        &mut AsTheyAre::default(),
        &mut instances,
        0,
    );

    assert_eq!(result, AudioCommandResult::Retry);
    assert_eq!(audio_output.instances_on(0), None);
}

#[test]
fn a_play_command_whose_source_has_loaded_plays_it() {
    let mut audio_output = audio_output();
    let mut instances = HashMap::new();
    let mut preparation = AsTheyAre::default();

    let result =
        audio_output.run_audio_command(&play_as(4, 40), &only(4), &mut preparation, &mut instances, 0);

    assert_eq!(result, AudioCommandResult::Done);
    assert_eq!(audio_output.instances_on(0), Some(&vec![40]));
    assert!(instances.contains_key(&40));
    assert_eq!(preparation.held, vec![false]);
}

#[test]
fn a_play_on_a_paused_channel_is_prepared_held() {
    let mut audio_output = audio_output();
    let mut instances = HashMap::new();
    let mut preparation = AsTheyAre::default();
    let mut commands = VecDeque::new();
    queue(&mut commands, AudioCommand::Pause(None));
    queue(&mut commands, play_as(4, 40));

    let outcomes =
        audio_output.play_channel(&only(4), &mut preparation, &mut commands, &mut instances, 2);

    assert!(outcomes.iter().all(|outcome| outcome.result == AudioCommandResult::Done));
    assert_eq!(preparation.held, vec![true]);
    assert_eq!(audio_output.instances_on(2), Some(&vec![40]));
}

#[test]
fn a_stop_command_leaves_other_channels_sounds_alone() {
    let mut audio_output = audio_output();
    let mut instances: HashMap<u64, StaticSoundHandle> = HashMap::new();
    let mut preparation = AsTheyAre::default();
    let sources = only(4);
    audio_output.run_audio_command(&play_as(4, 40), &sources, &mut preparation, &mut instances, 1);
    audio_output.run_audio_command(&play_as(4, 50), &sources, &mut preparation, &mut instances, 2);

    let result = audio_output.run_audio_command(
        &AudioCommand::Stop(Some(Tween::default())),
        &sources,
        &mut preparation,
        &mut instances,
        1,
    );

    assert_eq!(result, AudioCommandResult::Done);
    assert_eq!(instances.len(), 2);
    assert_eq!(audio_output.instances_on(1), Some(&vec![40]));
    assert_eq!(audio_output.instances_on(2), Some(&vec![50]));
}

#[test]
fn every_dynamic_channel_keeps_exactly_its_waiting_plays() {
    let mut audio_output = audio_output();
    let mut instances = HashMap::new();
    let mut first = VecDeque::new();
    queue(&mut first, play_as(1, 10));
    queue(&mut first, play_as(7, 11));
    let mut second = VecDeque::new();
    queue(&mut second, play_as(7, 20));
    queue(&mut second, AudioCommand::Stop(None));
    queue(&mut second, play_as(2, 21));

    let after = audio_output.play_dynamic_channels(
        &only(7),
        &mut AsTheyAre::default(),
        vec![(5, first), (6, second)],
        &mut instances,
    );

    assert_eq!(after.len(), 2);
    assert_eq!(after[0].0, 5);
    assert_eq!(queued_plays(&after[0].1), vec![1]);
    assert_eq!(after[1].0, 6);
    assert_eq!(queued_plays(&after[1].1), vec![2]);
    assert_eq!(audio_output.instances_on(5), Some(&vec![11]));
    assert_eq!(audio_output.instances_on(6), Some(&vec![20]));
}
