use bevy_kira_audio::audio_output::{
    admitted_instances, still_playing_instances, AudioOutput, ChannelTrackOutcome, PlayOutcome, PlayRequest,
    SoundFilter, SoundRoute, SoundState, TrackParent,
};
use bevy_kira_audio::backend_settings::AudioSettings;
use bevy_kira_audio::effect::{AudioTrack, DEFAULT_EFFECT_TAIL};
use kira::effect::filter::FilterBuilder;
use kira::effect::reverb::ReverbBuilder;
use kira::sound::static_sound::{StaticSoundData, StaticSoundHandle, StaticSoundSettings};
use kira::{Decibels, Frame, Panning, PlaybackRate, Tween};
use std::collections::HashMap;
use std::sync::Arc;

const SAMPLE_RATE: u32 = 44_100;

fn audio_output() -> AudioOutput {
    let (output, error) = AudioOutput::from_settings(AudioSettings::default());
    assert!(error.is_none(), "the mock engine starts");
    output
}

/// A second of audio at full amplitude.
fn audio_source() -> StaticSoundData {
    StaticSoundData {
        sample_rate: SAMPLE_RATE,
        frames: Arc::from(vec![Frame::from_mono(1.0); SAMPLE_RATE as usize]),
        settings: StaticSoundSettings::default(),
        slice: None,
    }
}

/// The channel that the main audio channel plays on.
fn main_channel() -> u64 {
    0
}

/// A request to play a sound with no settings of its own.
fn plain() -> PlayRequest {
    PlayRequest { paused: false, playback_rate: None, effect_tail: None, track: None }
}

/// A request to play a sound through a filter of its own.
fn with_filter() -> PlayRequest {
    let mut track = AudioTrack::for_instance();
    track.builder_mut().add_effect(FilterBuilder::new());
    PlayRequest { track: Some(track), ..plain() }
}

fn reverb_track() -> AudioTrack {
    let mut track = AudioTrack::new();
    track.builder_mut().add_effect(ReverbBuilder::new());
    track
}

/// Play a single sound on the main channel as instance `instance`.
fn play_on_main_channel(
    audio_output: &mut AudioOutput,
    instances: &mut HashMap<u64, StaticSoundHandle>,
    instance: u64,
    request: PlayRequest,
) -> PlayOutcome {
    audio_output.play(main_channel(), audio_source(), request, instance, instances)
}

#[test]
fn instance_effects_run_on_a_sub_track_of_the_channel_track() {
    let mut audio_output = audio_output();
    audio_output.create_channel_track(main_channel(), reverb_track());

    let mut instances = HashMap::new();
    play_on_main_channel(&mut audio_output, &mut instances, 1, with_filter());

    assert_eq!(audio_output.instances_on(main_channel()).unwrap().len(), 1);
    assert_eq!(audio_output.instance_track_count(), 1);
    assert_eq!(audio_output.channel_sub_tracks(main_channel()), Some(1));
    // The channel's own track is the only one hanging off the main track.
    assert_eq!(audio_output.main_sub_tracks(), Some(1));
}

#[test]
fn instance_effects_run_on_a_manager_track_without_a_channel_track() {
    let mut audio_output = audio_output();

    let mut instances = HashMap::new();
    play_on_main_channel(&mut audio_output, &mut instances, 1, with_filter());

    assert_eq!(audio_output.instances_on(main_channel()).unwrap().len(), 1);
    assert_eq!(audio_output.instance_track_count(), 1);
    assert_eq!(audio_output.channel_track_count(), 0);
    assert_eq!(audio_output.main_sub_tracks(), Some(1));
}

#[test]
fn a_sound_without_effects_plays_on_the_channel_track_itself() {
    let mut audio_output = audio_output();
    audio_output.create_channel_track(main_channel(), reverb_track());

    let mut instances = HashMap::new();
    play_on_main_channel(&mut audio_output, &mut instances, 1, plain());

    assert_eq!(audio_output.instances_on(main_channel()).unwrap().len(), 1);
    assert_eq!(audio_output.instance_track_count(), 0);
    assert_eq!(audio_output.channel_sub_tracks(main_channel()), Some(0));
    assert_eq!(audio_output.main_sub_tracks(), Some(1));
}

#[test]
fn routes_follow_effects_and_channel_tracks() {
    let mut audio_output = audio_output();
    assert_eq!(audio_output.sound_route(3, false), SoundRoute::MainTrack);
    assert_eq!(audio_output.sound_route(3, true), SoundRoute::InstanceTrack);
    assert_eq!(audio_output.track_parent(3), TrackParent::MainTrack);

    audio_output.create_channel_track(3, reverb_track());

    assert_eq!(audio_output.sound_route(3, false), SoundRoute::ChannelTrack);
    assert_eq!(audio_output.sound_route(3, true), SoundRoute::InstanceTrack);
    assert_eq!(audio_output.track_parent(3), TrackParent::ChannelTrack);
    assert_eq!(audio_output.track_parent(4), TrackParent::MainTrack);
}

#[test]
fn played_instances_are_listed_in_order_and_get_a_handle() {
    let mut audio_output = audio_output();
    let mut instances = HashMap::new();

    for instance in [5, 3, 9] {
        let result = play_on_main_channel(&mut audio_output, &mut instances, instance, plain());
        assert!(matches!(result, PlayOutcome::Played { .. }));
    }

    assert_eq!(audio_output.instances_on(main_channel()), Some(&vec![5, 3, 9]));
    assert_eq!(audio_output.instances_on(1), None);
    assert_eq!(instances.len(), 3);
}

#[test]
fn an_instance_track_gets_the_default_tail_or_the_one_asked_for() {
    let mut audio_output = audio_output();
    let mut instances = HashMap::new();
    play_on_main_channel(&mut audio_output, &mut instances, 1, with_filter());
    play_on_main_channel(
        &mut audio_output,
        &mut instances,
        2,
        PlayRequest { effect_tail: Some(500_000_000), ..with_filter() },
    );

    let first = audio_output.instance_track(1).unwrap();
    assert_eq!(first.tail(), DEFAULT_EFFECT_TAIL);
    assert_eq!(DEFAULT_EFFECT_TAIL, 2_000_000_000);
    assert_eq!(first.expires_at(), None);
    assert_eq!(audio_output.instance_track(2).unwrap().tail(), 500_000_000);
    assert!(audio_output.instance_track(3).is_none());
}

#[test]
fn a_channel_track_without_room_for_sub_tracks_drops_sounds_with_effects() {
    let mut audio_output = audio_output();
    audio_output.create_channel_track(main_channel(), AudioTrack::new().sub_track_capacity(0));

    let mut instances = HashMap::new();
    let result = play_on_main_channel(&mut audio_output, &mut instances, 1, with_filter());

    assert!(matches!(result, PlayOutcome::Refused));
    assert_eq!(audio_output.instances_on(main_channel()), None);
    assert_eq!(audio_output.instance_track_count(), 0);
    assert!(instances.is_empty());
}

#[test]
fn an_instance_track_holds_nothing_under_it() {
    let mut audio_output = audio_output();
    let mut instances = HashMap::new();
    play_on_main_channel(&mut audio_output, &mut instances, 1, with_filter());

    // The instance track is the only sub-track of the main track, and it has room for no
    // sub-track of its own: a second sound with effects gets its own track beside it.
    play_on_main_channel(&mut audio_output, &mut instances, 2, with_filter());

    assert_eq!(audio_output.main_sub_tracks(), Some(2));
    assert_eq!(audio_output.instance_track_count(), 2);
}

#[test]
fn replacing_a_channel_track_is_reported() {
    let mut audio_output = audio_output();

    assert_eq!(
        audio_output.create_channel_track(main_channel(), reverb_track()),
        ChannelTrackOutcome::Added
    );
    assert_eq!(
        audio_output.create_channel_track(main_channel(), reverb_track()),
        ChannelTrackOutcome::Replaced
    );
    assert_eq!(audio_output.channel_track_count(), 1);
    // The replaced track is torn down once its handle is dropped; the new one hangs off the
    // main track beside it until the engine processes the removal.
    assert!(audio_output.main_sub_tracks().unwrap() >= 1);
}

#[test]
fn the_main_track_limit_comes_from_the_settings() {
    let settings = AudioSettings { sound_capacity: 128, sub_track_capacity: 1 };
    let (mut audio_output, error) = AudioOutput::from_settings(settings);
    assert!(error.is_none());

    assert_eq!(
        audio_output.create_channel_track(1, AudioTrack::new()),
        ChannelTrackOutcome::Added
    );
    assert_eq!(
        audio_output.create_channel_track(2, AudioTrack::new()),
        ChannelTrackOutcome::Refused
    );
    assert_eq!(audio_output.channel_track_count(), 1);
}

#[test]
fn without_an_engine_no_channel_track_is_made() {
    let mut audio_output = AudioOutput::new(None);

    assert!(!audio_output.has_engine());
    assert_eq!(
        audio_output.create_channel_track(1, AudioTrack::new()),
        ChannelTrackOutcome::NoEngine
    );
    assert_eq!(audio_output.main_sub_tracks(), None);
    assert_eq!(audio_output.channel_sub_tracks(1), None);
}

#[test]
fn pausing_a_channel_holds_new_sounds_and_resuming_lets_them_go() {
    let mut audio_output = audio_output();
    let mut instances = HashMap::new();

    assert!(audio_output.channel_state(2).is_none());
    assert!(!audio_output.starts_held(2, false));
    assert!(audio_output.starts_held(2, true));

    audio_output.pause(2, &mut instances, Tween::default());
    assert!(audio_output.channel_state(2).unwrap().paused);
    assert!(audio_output.starts_held(2, false));
    assert!(!audio_output.starts_held(3, false));

    audio_output.resume(2, &mut instances, Tween::default());
    assert!(!audio_output.channel_state(2).unwrap().paused);
    assert!(!audio_output.starts_held(2, false));
}

#[test]
fn channel_settings_are_kept_per_channel() {
    let mut audio_output = audio_output();
    let mut instances = HashMap::new();

    audio_output.set_volume(1, &mut instances, Decibels(-6.0), Tween::default());
    audio_output.set_panning(1, &mut instances, Panning(0.5), Tween::default());
    audio_output.set_playback_rate(2, &mut instances, PlaybackRate(2.0), Tween::default());
    audio_output.pause(1, &mut instances, Tween::default());

    let first = audio_output.channel_state(1).unwrap();
    assert!(first.paused);
    assert_eq!(first.volume, Decibels(-6.0));
    assert_eq!(first.panning, Panning(0.5));
    assert_eq!(first.playback_rate, PlaybackRate::default());

    let second = audio_output.channel_state(2).unwrap();
    assert!(!second.paused);
    assert_eq!(second.volume, Decibels::default());
    assert_eq!(second.playback_rate, PlaybackRate(2.0));

    audio_output.resume(1, &mut instances, Tween::default());
    let first = audio_output.channel_state(1).unwrap();
    assert!(!first.paused);
    assert_eq!(first.volume, Decibels(-6.0));
}

#[test]
fn commands_on_a_channel_keep_its_sounds() {
    let mut audio_output = audio_output();
    let mut instances = HashMap::new();
    play_on_main_channel(&mut audio_output, &mut instances, 1, plain());
    play_on_main_channel(&mut audio_output, &mut instances, 2, plain());

    audio_output.pause(main_channel(), &mut instances, Tween::default());
    audio_output.set_volume(main_channel(), &mut instances, Decibels(-3.0), Tween::default());
    audio_output.resume(main_channel(), &mut instances, Tween::default());
    let result = audio_output.stop(main_channel(), &mut instances, Tween::default());

    assert_eq!(result, vec![1, 2]);
    assert_eq!(instances.len(), 2);
    assert_eq!(audio_output.instances_on(main_channel()), Some(&vec![1, 2]));
}

#[test]
fn instance_states_report_missing_handles_as_stopped() {
    let mut audio_output = audio_output();
    let mut instances = HashMap::new();
    play_on_main_channel(&mut audio_output, &mut instances, 1, plain());
    play_on_main_channel(&mut audio_output, &mut instances, 2, plain());
    instances.remove(&1);

    let states = audio_output.instance_states(main_channel(), &instances).unwrap();

    assert_eq!(states.len(), 2);
    assert_eq!(states[0], (1, SoundState::Stopped));
    assert_eq!(states[1].0, 2);
    assert_ne!(states[1].1, SoundState::Stopped);
    assert!(audio_output.instance_states(7, &instances).is_none());
}

#[test]
fn cleanup_keeps_playing_instances_and_the_tracks_of_stopped_ones_for_their_tail() {
    let mut audio_output = audio_output();
    let mut instances = HashMap::new();
    play_on_main_channel(&mut audio_output, &mut instances, 1, with_filter());
    play_on_main_channel(&mut audio_output, &mut instances, 2, plain());
    play_on_main_channel(
        &mut audio_output,
        &mut instances,
        3,
        PlayRequest { effect_tail: Some(0), ..with_filter() },
    );
    // The handles of instances 1 and 3 are gone: their sounds count as stopped.
    instances.remove(&1);
    instances.remove(&3);

    let now = 1_000_000_000_000;
    audio_output.cleanup_stopped_instances(&instances, now);

    assert_eq!(audio_output.instances_on(main_channel()), Some(&vec![2]));
    let ringing = audio_output.instance_track(1).unwrap();
    assert_eq!(ringing.expires_at(), Some(now + DEFAULT_EFFECT_TAIL));
    assert!(audio_output.instance_track(3).is_none());
    assert_eq!(audio_output.instance_track_count(), 1);

    // The tail is counted from the first cleanup that saw the sound stopped.
    audio_output.cleanup_stopped_instances(&instances, now + DEFAULT_EFFECT_TAIL - 1);
    assert_eq!(audio_output.instance_track(1).unwrap().expires_at(), Some(now + DEFAULT_EFFECT_TAIL));

    audio_output.cleanup_stopped_instances(&instances, now + DEFAULT_EFFECT_TAIL);
    assert!(audio_output.instance_track(1).is_none());
    assert_eq!(audio_output.instance_track_count(), 0);
}

#[test]
fn the_track_of_a_playing_instance_survives_cleanup() {
    let mut audio_output = audio_output();
    let mut instances = HashMap::new();
    play_on_main_channel(&mut audio_output, &mut instances, 1, with_filter());

    audio_output.cleanup_stopped_instances(&instances, u64::MAX - DEFAULT_EFFECT_TAIL);

    assert_eq!(audio_output.instances_on(main_channel()), Some(&vec![1]));
    assert_eq!(audio_output.instance_track(1).unwrap().expires_at(), None);
}

#[test]
fn the_main_track_holds_as_many_sounds_as_the_settings_say() {
    let settings = AudioSettings { sound_capacity: 1, sub_track_capacity: 128 };
    let (mut audio_output, _) = AudioOutput::from_settings(settings);
    let mut instances = HashMap::new();

    play_on_main_channel(&mut audio_output, &mut instances, 1, plain());
    play_on_main_channel(&mut audio_output, &mut instances, 2, plain());

    assert_eq!(audio_output.instances_on(main_channel()), Some(&vec![1]));
    assert_eq!(instances.len(), 1);
}

#[test]
fn a_main_track_made_without_room_refuses_sounds_and_tracks() {
    let settings = AudioSettings { sound_capacity: 0, sub_track_capacity: 0 };
    let (mut audio_output, _) = AudioOutput::from_settings(settings);
    let mut instances = HashMap::new();

    play_on_main_channel(&mut audio_output, &mut instances, 1, plain());
    play_on_main_channel(&mut audio_output, &mut instances, 2, with_filter());

    assert_eq!(audio_output.instances_on(main_channel()), None);
    assert_eq!(audio_output.instance_track_count(), 0);
    assert_eq!(
        audio_output.create_channel_track(1, AudioTrack::new()),
        ChannelTrackOutcome::Refused
    );
}

#[test]
fn tails_fit_unless_the_deadline_would_overflow() {
    let mut audio_output = audio_output();
    let mut instances = HashMap::new();
    play_on_main_channel(&mut audio_output, &mut instances, 1, with_filter());

    assert!(audio_output.tails_fit_at(u64::MAX - DEFAULT_EFFECT_TAIL));
    assert!(!audio_output.tails_fit_at(u64::MAX - DEFAULT_EFFECT_TAIL + 1));
}

#[test]
fn only_playing_sounds_pause_and_only_paused_or_fading_ones_resume() {
    let all = [
        SoundState::Playing,
        SoundState::Pausing,
        SoundState::Paused,
        SoundState::WaitingToResume,
        SoundState::Resuming,
        SoundState::Stopping,
        SoundState::Stopped,
    ];
    let pausable: Vec<SoundState> = all.iter().copied().filter(|state| state.pausable()).collect();
    let resumable: Vec<SoundState> = all.iter().copied().filter(|state| state.resumable()).collect();

    assert_eq!(pausable, vec![SoundState::Playing]);
    assert_eq!(resumable, vec![SoundState::Pausing, SoundState::Paused, SoundState::Stopping]);
}

/// The pauses and rates a sound was given on starting, as `play` reports them.
fn holds(outcome: PlayOutcome) -> Vec<Option<PlaybackRate>> {
    match outcome {
        PlayOutcome::Played { holds } => holds,
        PlayOutcome::Refused => panic!("the sound was refused"),
    }
}

#[test]
fn a_sound_on_a_playing_channel_is_not_held() {
    let mut audio_output = audio_output();
    let mut instances = HashMap::new();

    let outcome = play_on_main_channel(&mut audio_output, &mut instances, 1, plain());

    assert_eq!(holds(outcome), vec![]);
}

#[test]
fn a_sound_on_a_paused_channel_is_paused_at_the_channel_rate() {
    let mut audio_output = audio_output();
    let mut instances = HashMap::new();
    audio_output.set_playback_rate(main_channel(), &mut instances, PlaybackRate(2.0), Tween::default());
    audio_output.pause(main_channel(), &mut instances, Tween::default());

    let outcome = play_on_main_channel(&mut audio_output, &mut instances, 1, plain());

    assert_eq!(holds(outcome), vec![Some(PlaybackRate(2.0))]);
}

#[test]
fn a_sound_asking_to_start_paused_is_paused_at_its_own_or_the_normal_rate() {
    let mut audio_output = audio_output();
    let mut instances = HashMap::new();

    let normal = play_on_main_channel(
        &mut audio_output,
        &mut instances,
        1,
        PlayRequest { paused: true, ..plain() },
    );
    let own = play_on_main_channel(
        &mut audio_output,
        &mut instances,
        2,
        PlayRequest { paused: true, playback_rate: Some(PlaybackRate(1.5)), ..plain() },
    );

    assert_eq!(holds(normal), vec![None]);
    assert_eq!(holds(own), vec![Some(PlaybackRate(1.5))]);
}

#[test]
fn a_paused_sound_on_a_paused_channel_is_held_twice_at_its_own_rate() {
    let mut audio_output = audio_output();
    let mut instances = HashMap::new();
    audio_output.pause(main_channel(), &mut instances, Tween::default());

    let outcome = play_on_main_channel(
        &mut audio_output,
        &mut instances,
        1,
        PlayRequest { paused: true, playback_rate: Some(PlaybackRate(0.5)), ..plain() },
    );

    assert_eq!(holds(outcome), vec![Some(PlaybackRate(0.5)), Some(PlaybackRate(0.5))]);
}

#[test]
fn a_channel_without_sounds_commands_none() {
    let mut audio_output = audio_output();
    let mut instances = HashMap::new();
    play_on_main_channel(&mut audio_output, &mut instances, 1, plain());

    assert_eq!(audio_output.stop(7, &mut instances, Tween::default()), Vec::<u64>::new());
    assert_eq!(
        audio_output.set_volume(7, &mut instances, Decibels(-3.0), Tween::default()),
        Vec::<u64>::new()
    );
    assert_eq!(
        audio_output.set_panning(main_channel(), &mut instances, Panning(0.5), Tween::default()),
        vec![1]
    );
}

#[test]
fn no_track_from_the_engine_is_a_refusal() {
    let mut audio_output = audio_output();

    assert_eq!(audio_output.install_channel_track(3, None), ChannelTrackOutcome::Refused);
    assert_eq!(audio_output.channel_track_count(), 0);
}

#[test]
fn only_sounds_reported_not_stopped_are_still_playing() {
    let reported = vec![
        (1, SoundState::Playing),
        (2, SoundState::Stopped),
        (3, SoundState::Paused),
        (4, SoundState::Stopping),
    ];

    let live = still_playing_instances(&reported);

    let mut live: Vec<u64> = live.into_iter().collect();
    live.sort();
    assert_eq!(live, vec![1, 3, 4]);
}

#[test]
fn pauses_go_to_playing_sounds_and_resumes_to_paused_or_fading_ones() {
    let reported = vec![
        (1, SoundState::Playing),
        (2, SoundState::Paused),
        (3, SoundState::Stopping),
        (4, SoundState::Resuming),
        (5, SoundState::Playing),
    ];

    assert_eq!(admitted_instances(&reported, SoundFilter::Pausable), vec![1, 5]);
    assert_eq!(admitted_instances(&reported, SoundFilter::Resumable), vec![2, 3]);
    assert_eq!(admitted_instances(&reported, SoundFilter::Every), vec![1, 2, 3, 4, 5]);
}

#[test]
fn a_command_without_a_fade_takes_the_default_one() {
    let audio_output = audio_output();
    let fade = Tween { duration: std::time::Duration::from_millis(250), ..Tween::default() };

    assert_eq!(audio_output.fade_of(&None), Tween::default());
    assert_eq!(audio_output.fade_of(&Some(fade)), fade);
}

#[test]
fn only_the_tails_of_listed_instances_must_fit() {
    let mut audio_output = audio_output();
    let mut instances = HashMap::new();
    play_on_main_channel(&mut audio_output, &mut instances, 1, with_filter());
    instances.remove(&1);
    audio_output.cleanup_stopped_instances(&instances, 0);

    // The track rings out with its deadline set; its instance is no longer listed.
    assert_eq!(audio_output.instance_track(1).unwrap().expires_at(), Some(DEFAULT_EFFECT_TAIL));
    assert!(audio_output.tails_fit_at(u64::MAX));
}
