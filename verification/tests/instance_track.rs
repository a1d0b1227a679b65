use bevy_kira_audio::instance_track::InstanceTrack;
use kira::backend::mock::MockBackend;
use kira::track::TrackBuilder;
use kira::{AudioManager, AudioManagerSettings};
use std::time::Duration;

/// Nanoseconds of a duration, the unit the library keeps time in.
fn nanos(duration: Duration) -> u64 {
    duration.as_nanos() as u64
}

/// A moment on the monotonic clock, well after its start.
const NOW: u64 = 1_000_000_000_000;

fn instance_track(tail: Duration) -> InstanceTrack {
    let mut manager = AudioManager::new(AudioManagerSettings::<MockBackend>::default()).unwrap();

    InstanceTrack::new(manager.add_sub_track(TrackBuilder::new()).unwrap(), nanos(tail))
}

#[test]
fn instance_track_is_kept_while_its_sound_plays() {
    let track = instance_track(Duration::from_millis(100));
    let now = NOW;

    assert!(track.keep_alive(now + nanos(Duration::from_secs(10))));
}

#[test]
fn instance_track_outlives_its_sound_by_the_effect_tail() {
    let mut track = instance_track(Duration::from_millis(100));
    let now = NOW;
    track.start_tail(now);

    assert!(track.keep_alive(now + nanos(Duration::from_millis(60))));
    assert!(track.keep_alive(now + nanos(Duration::from_millis(99))));
    assert!(!track.keep_alive(now + nanos(Duration::from_millis(100))));
}

#[test]
fn a_zero_effect_tail_drops_the_instance_track_right_away() {
    let mut track = instance_track(Duration::ZERO);
    let now = NOW;
    track.start_tail(now);

    assert!(!track.keep_alive(now));
}

#[test]
fn a_new_instance_track_has_its_tail_and_no_deadline() {
    let track = instance_track(Duration::from_millis(250));

    assert_eq!(track.tail(), 250_000_000);
    assert_eq!(track.expires_at(), None);
    assert!(track.keep_alive(0));
    assert!(track.keep_alive(u64::MAX));
}

#[test]
fn starting_the_tail_sets_the_deadline_to_now_plus_the_tail() {
    let mut track = instance_track(Duration::from_millis(100));
    track.start_tail(NOW);

    assert_eq!(track.expires_at(), Some(NOW + 100_000_000));
    assert!(track.keep_alive(NOW + 99_999_999));
    assert!(!track.keep_alive(NOW + 100_000_000));
}

#[test]
fn starting_the_tail_again_keeps_the_first_deadline() {
    let mut track = instance_track(Duration::from_millis(100));
    track.start_tail(NOW);
    track.start_tail(NOW + nanos(Duration::from_millis(80)));

    assert_eq!(track.expires_at(), Some(NOW + 100_000_000));
    assert!(!track.keep_alive(NOW + nanos(Duration::from_millis(150))));
}
