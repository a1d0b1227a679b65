# bevy_kira_audio (verified core)

The bookkeeping of an audio plugin built on the kira engine, verified with Verus.

- `src/backend_settings.rs`: the settings the engine starts with.
- `src/effect.rs`: tracks carrying effects, and the tail that a sound's own effects get after
  it stops.
- `src/instance_track.rs`: the track of a single sound, kept until its tail has rung out.
- `src/command_queue.rs`: running the commands queued on a channel, and queueing again those
  whose sound has not loaded.
- `src/audio_output.rs`: which instances play on which channel, channel state, where sounds
  and their tracks go in kira's mixer graph, and the cleanup of stopped instances.
- `src/engine.rs`: the trusted interface to kira.

`app/` holds the rest: the bevy resource, the effect builders and handles (trait objects and
floats), the preparation of sound data (floats), and the glue that runs commands.

Time is kept in nanoseconds on a monotonic clock; channels, instances and sources are known by
number.
