//! Playback decisions of a prepared video: when to restart from the
//! beginning, what end-of-stream and preroll messages lead to, and when a
//! preparation has taken too long.
use vstd::prelude::*;
use crate::text::owned;

verus! {

/// How long a video may take to prepare, in milliseconds.
pub const MEDIA_PREPARE_TIMEOUT_MS: u64 = 20000;

/// What the player is asked to do and what it has reported.
#[derive(Clone, Debug)]
pub struct MediaControl {
    pub desired_playing: bool,
    pub has_played: bool,
    pub looping: bool,
    pub prepare_timed_out: bool,
    pub eos_count: u64,
    pub async_done_count: u64,
    pub error: Option<String>,
}

/// What to do at the end of the stream.
#[derive(Clone, Copy, Debug, PartialEq, Eq, Structural)]
pub struct EosAction {
    /// Seek back to the start.
    pub rewind: bool,
    /// Set the player playing again.
    pub play: bool,
}

impl MediaControl {
    /// A video being prepared, paused.
    pub fn new(looping: bool) -> (m: MediaControl)
        ensures
            !m.desired_playing,
            !m.has_played,
            m.looping == looping,
            !m.prepare_timed_out,
            m.eos_count == 0,
            m.async_done_count == 0,
            m.error is None,
    {
        MediaControl {
            desired_playing: false,
            has_played: false,
            looping,
            prepare_timed_out: false,
            eos_count: 0,
            async_done_count: 0,
            error: None,
        }
    }

    /// Asks for playing or pausing. Returns whether the video must first
    /// seek back to its start: when it starts playing again after having
    /// played before.
    pub fn set_playing(&mut self, playing: bool) -> (rewind: bool)
        ensures
            rewind == (playing && !old(self).desired_playing && old(self).has_played),
            *final(self) == (MediaControl {
                desired_playing: playing,
                has_played: old(self).has_played || (playing && !old(self).desired_playing),
                ..*old(self)
            }),
    {
        let was_playing = self.desired_playing;
        self.desired_playing = playing;
        if playing && !was_playing {
            let played_before = self.has_played;
            self.has_played = true;
            played_before
        } else {
            false
        }
    }

    /// Sets whether the video starts over at its end.
    pub fn set_looping(&mut self, looping: bool)
        ensures
            *final(self) == (MediaControl { looping, ..*old(self) }),
    {
        self.looping = looping;
    }

    /// Records an error from the player.
    pub fn on_error(&mut self, message: String)
        ensures
            *final(self) == (MediaControl { error: Some(message), ..*old(self) }),
    {
        self.error = Some(message);
    }

    /// The stream ended: a looping video rewinds, and plays on if playing is
    /// wanted.
    pub fn on_eos(&mut self) -> (a: EosAction)
        ensures
            a == (EosAction { rewind: old(self).looping, play: old(self).looping && old(self).desired_playing }),
            *final(self) == (MediaControl { eos_count: old(self).eos_count.wrapping_add(1), ..*old(self) }),
    {
        self.eos_count = self.eos_count.wrapping_add(1);
        EosAction { rewind: self.looping, play: self.looping && self.desired_playing }
    }

    /// The player finished a state change: it is set playing where playing
    /// is wanted. Returns whether to do so.
    pub fn on_async_done(&mut self) -> (play: bool)
        ensures
            play == old(self).desired_playing,
            *final(self) == (MediaControl { async_done_count: old(self).async_done_count.wrapping_add(1), ..*old(self) }),
    {
        self.async_done_count = self.async_done_count.wrapping_add(1);
        self.desired_playing
    }

    /// Gives up a preparation that has run `elapsed_ms` milliseconds
    /// without the player reaching pause or play: once, after the timeout,
    /// and only without an earlier error. Returns whether it gave up, after
    /// which the player is to be stopped.
    pub fn expire_prepare(&mut self, elapsed_ms: u64, prepared_state: bool) -> (expired: bool)
        ensures
            expired == (elapsed_ms >= MEDIA_PREPARE_TIMEOUT_MS && !prepared_state && old(self).error is None
                && !old(self).prepare_timed_out),
            expired ==> (final(self).error matches Some(e) && e@ == "media preparation timed out after 20 seconds"@)
                && *final(self) == (MediaControl {
                    prepare_timed_out: true,
                    desired_playing: false,
                    error: final(self).error,
                    ..*old(self)
                }),
            !expired ==> *final(self) == *old(self),
    {
        if elapsed_ms < MEDIA_PREPARE_TIMEOUT_MS || prepared_state || self.error.is_some() {
            return false;
        }
        let already = self.prepare_timed_out;
        self.prepare_timed_out = true;
        if already {
            return false;
        }
        self.error = Some(owned("media preparation timed out after 20 seconds"));
        self.desired_playing = false;
        true
    }

    /// Whether the video is ready to show: it reached pause or play, or
    /// failed (a failed video shows its error).
    pub fn is_prepared(&self, prepared_state: bool) -> (r: bool)
        ensures
            r == (self.error is Some || prepared_state),
    {
        self.error.is_some() || prepared_state
    }
}

} // verus!
