//! The sub-track carrying one sound instance's effects.

use vstd::prelude::*;
use kira::track::TrackHandle;

verus! {

/// The sub-track carrying one sound instance's effects.
///
/// kira tears a track out of the audio graph as soon as its handle is dropped, without waiting
/// for anything still ringing on it to fade. Dropping the handle the moment playback stops would
/// silence reverb and delay tails instead of letting them ring out, so the handle is held for a
/// while longer.
///
/// Times are nanoseconds on a monotonic wall clock: effects ring out in real time, so the
/// deadline is not taken against a game clock that can be paused or scaled.
pub struct InstanceTrack {
    /// Held only for its `Drop`, which is what removes the sub-track from the audio graph.
    handle: TrackHandle,
    /// How long to hold on after the sound stops, in nanoseconds.
    tail: u64,
    /// When the tail runs out. `None` while the sound is still playing.
    expires_at: Option<u64>,
}

impl InstanceTrack {
    /// The handle of the sub-track.
    pub closed spec fn spec_handle(&self) -> TrackHandle {
        self.handle
    }

    /// How long the track is kept after its sound stops, in nanoseconds.
    pub closed spec fn spec_tail(&self) -> u64 {
        self.tail
    }

    /// When the track's tail runs out; `None` while its sound still plays.
    pub closed spec fn spec_expires_at(&self) -> Option<u64> {
        self.expires_at
    }

    /// The track as it is after its tail was started at `now`.
    pub closed spec fn started(self, now: u64) -> InstanceTrack {
        match self.expires_at {
            Some(_) => self,
            None => InstanceTrack { expires_at: Some((now + self.tail) as u64), ..self },
        }
    }

    /// Whether starting the tail at `now` keeps the deadline representable.
    pub open spec fn can_start(&self, now: u64) -> bool {
        self.spec_expires_at() is Some || now + self.spec_tail() <= u64::MAX
    }

    /// Whether the track is to be kept at `now`.
    pub open spec fn kept_at(&self, now: u64) -> bool {
        match self.spec_expires_at() {
            None => true,
            Some(expires_at) => now < expires_at,
        }
    }

    /// Starting the tail at `now` keeps the tail and sets the deadline to `now` plus the tail,
    /// unless a deadline is already set.
    pub proof fn lemma_started(self, now: u64)
        requires
            self.can_start(now),
        ensures
            self.started(now).spec_tail() == self.spec_tail(),
            self.started(now).spec_expires_at() == (match self.spec_expires_at() {
                Some(e) => Some(e),
                None => Some((now + self.spec_tail()) as u64),
            }),
    {
    }

    /// Wrap the handle of a freshly created track whose sound is playing.
    pub fn new(handle: TrackHandle, tail: u64) -> (track: Self)
        ensures
            track.spec_handle() == handle,
            track.spec_tail() == tail,
            track.spec_expires_at() is None,
    {
        Self { handle, tail, expires_at: None }
    }

    /// How long the track is kept after its sound stops, in nanoseconds.
    pub fn tail(&self) -> (tail: u64)
        ensures
            tail == self.spec_tail(),
    {
        self.tail
    }

    /// When the tail runs out, or `None` while the sound still plays.
    pub fn expires_at(&self) -> (expires_at: Option<u64>)
        ensures
            expires_at == self.spec_expires_at(),
    {
        self.expires_at
    }

    /// Start the countdown after which the track and its effects are torn down.
    ///
    /// Only the first call counts: once the countdown runs, later calls leave the deadline be.
    pub fn start_tail(&mut self, now: u64)
        requires
            old(self).can_start(now),
        ensures
            *final(self) == old(self).started(now),
    {
        if self.expires_at.is_none() {
            self.expires_at = Some(now + self.tail);
        }
    }

    /// Report whether the track should be kept at `now`.
    pub fn keep_alive(&self, now: u64) -> (keep: bool)
        ensures
            keep == self.kept_at(now),
    {
        match self.expires_at {
            None => true,
            Some(expires_at) => now < expires_at,
        }
    }
}

/// A track whose sound is still playing is kept at every moment.
pub proof fn law_kept_while_playing(track: InstanceTrack, now: u64)
    requires
        track.spec_expires_at() is None,
    ensures
        track.kept_at(now),
{
}

/// Once its tail starts at `start`, a track is kept exactly until `start` plus its tail: at
/// every moment before that deadline, and at no moment from it on.
pub proof fn law_kept_for_the_tail(track: InstanceTrack, start: u64, now: u64)
    requires
        track.spec_expires_at() is None,
        track.can_start(start),
    ensures
        track.started(start).kept_at(now) <==> now < start + track.spec_tail(),
{
    track.lemma_started(start);
}

/// The tail starts only once: starting it again, at any later moment, moves no deadline.
pub proof fn law_tail_starts_once(track: InstanceTrack, first: u64, again: u64)
    requires
        track.can_start(first),
    ensures
        track.started(first).started(again) == track.started(first),
        track.started(first).spec_tail() == track.spec_tail(),
{
    track.lemma_started(first);
    track.started(first).lemma_started(again);
}

} // verus!
