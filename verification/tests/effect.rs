use bevy_kira_audio::audio_output::{AudioOutput, ChannelTrackOutcome, PlayRequest};
use bevy_kira_audio::backend_settings::AudioSettings;
use bevy_kira_audio::effect::AudioTrack;
use kira::sound::static_sound::{StaticSoundData, StaticSoundSettings};
use kira::Frame;
use std::collections::HashMap;
use std::sync::Arc;

fn sound() -> StaticSoundData {
    StaticSoundData {
        sample_rate: 44_100,
        frames: Arc::from(vec![Frame::from_mono(1.0); 441]),
        settings: StaticSoundSettings::default(),
        slice: None,
    }
}

fn output() -> AudioOutput {
    AudioOutput::from_settings(AudioSettings::default()).0
}

fn request(track: Option<AudioTrack>) -> PlayRequest {
    PlayRequest { paused: false, playback_rate: None, effect_tail: None, track }
}

#[test]
fn a_channel_track_holds_as_many_sounds_as_its_sound_capacity() {
    let mut output = output();
    output.create_channel_track(1, AudioTrack::new().sound_capacity(2).volume(-3.0));
    let mut instances = HashMap::new();

    for instance in 0..3 {
        output.play(1, sound(), request(None), instance, &mut instances);
    }

    // The third sound finds no room on the channel's track and is dropped.
    assert_eq!(output.instances_on(1), Some(&vec![0, 1]));
    assert_eq!(instances.len(), 2);
}

#[test]
fn an_instance_track_holds_exactly_its_one_sound() {
    let mut output = output();
    let mut instances = HashMap::new();

    output.play(1, sound(), request(Some(AudioTrack::for_instance())), 7, &mut instances);

    assert_eq!(output.instances_on(1), Some(&vec![7]));
    assert_eq!(output.instance_track_count(), 1);
}

#[test]
fn a_channel_track_holds_as_many_sub_tracks_as_its_sub_track_capacity() {
    let mut output = output();
    assert_eq!(
        output.create_channel_track(1, AudioTrack::new().sub_track_capacity(1)),
        ChannelTrackOutcome::Added
    );
    let mut instances = HashMap::new();

    output.play(1, sound(), request(Some(AudioTrack::for_instance())), 1, &mut instances);
    output.play(1, sound(), request(Some(AudioTrack::for_instance())), 2, &mut instances);

    assert_eq!(output.instances_on(1), Some(&vec![1]));
    assert_eq!(output.channel_sub_tracks(1), Some(1));
}

#[test]
fn default_tracks_hold_many_sounds_and_sub_tracks() {
    let mut output = output();
    output.create_channel_track(
        1,
        AudioTrack::default().persist_until_sounds_finish(true).persist_until_sounds_finish(false),
    );
    let mut instances = HashMap::new();

    for instance in 0..10 {
        output.play(1, sound(), request(Some(AudioTrack::for_instance())), instance, &mut instances);
    }

    assert_eq!(output.instances_on(1).unwrap().len(), 10);
    assert_eq!(output.channel_sub_tracks(1), Some(10));
}

#[test]
fn into_inner_hands_back_the_builder() {
    let track = AudioTrack::new().sound_capacity(3);
    let _builder: kira::track::TrackBuilder = track.into_inner();
}

#[test]
fn a_channel_track_made_without_room_for_sounds_drops_them() {
    let mut output = output();
    output.create_channel_track(1, AudioTrack::new().sound_capacity(0));
    let mut instances = HashMap::new();

    output.play(1, sound(), request(None), 1, &mut instances);

    assert_eq!(output.instances_on(1), None);
    assert!(instances.is_empty());
}

#[test]
fn an_instance_track_made_without_room_for_sounds_is_dropped_with_its_sound() {
    let mut output = output();
    let mut instances = HashMap::new();

    output.play(1, sound(), request(Some(AudioTrack::new().sound_capacity(0))), 1, &mut instances);

    assert_eq!(output.instances_on(1), None);
    assert_eq!(output.instance_track_count(), 0);
    assert!(instances.is_empty());
}
