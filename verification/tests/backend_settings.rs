use bevy_kira_audio::backend_settings::AudioSettings;

#[test]
fn default_settings_allow_128_sounds_and_sub_tracks() {
    let settings = AudioSettings::default();

    assert_eq!(settings.sound_capacity, 128);
    assert_eq!(settings.sub_track_capacity, 128);
    assert_eq!(settings, AudioSettings { sound_capacity: 128, sub_track_capacity: 128 });
}
