//! The record that the playback loop and the presentation layer share.
//!
//! The presentation layer writes the intents (`play`, `skip`, `repeat`)
//! and the `message`; the playback loop writes the telemetry (`dir_name`,
//! `file_num`, `file_name`, `file_ext`, `sample_stats`) and clears `skip`
//! once it has acted on it. Each function here belongs to one of the two
//! sides and says which fields it leaves alone.

use crate::capture::{silence, SAMPLES};
use vstd::prelude::*;

verus! {

/// The shared state of the player.
#[derive(Debug, Clone)]
pub struct State {
    /// Whether the player is to play, not to pause.
    pub play: bool,
    /// Whether the present track is to be abandoned.
    pub skip: bool,
    /// Reserved: nothing reads it yet.
    pub repeat: bool,
    /// The name of the directory last seen.
    pub dir_name: String,
    /// The number of the present track within the present pass, from 1.
    pub file_num: usize,
    /// The name of the present track.
    pub file_name: String,
    /// The codec label of the present track.
    pub file_ext: String,
    /// The last event told to the user.
    pub message: String,
    /// The last captured window.
    pub sample_stats: [i16; SAMPLES],
}

/// A `State`, as mathematics.
pub struct StateView {
    pub play: bool,
    pub skip: bool,
    pub repeat: bool,
    pub dir_name: Seq<char>,
    pub file_num: nat,
    pub file_name: Seq<char>,
    pub file_ext: Seq<char>,
    pub message: Seq<char>,
    pub sample_stats: Seq<i16>,
}

impl View for State {
    type V = StateView;

    open spec fn view(&self) -> StateView {
        StateView {
            play: self.play,
            skip: self.skip,
            repeat: self.repeat,
            dir_name: self.dir_name@,
            file_num: self.file_num as nat,
            file_name: self.file_name@,
            file_ext: self.file_ext@,
            message: self.message@,
            sample_stats: self.sample_stats@,
        }
    }
}

impl StateView {
    /// The state at startup: playing, nothing loaded, no capture.
    pub open spec fn initial() -> StateView {
        StateView {
            play: true,
            skip: false,
            repeat: false,
            dir_name: "Directory not found"@,
            file_num: 0,
            file_name: "File not found"@,
            file_ext: "Unknown"@,
            message: "***"@,
            sample_stats: silence(),
        }
    }

    /// The state after the user asked to skip the present track. The
    /// request is taken only while playing; while paused it leaves
    /// everything but the message as it is.
    pub open spec fn skip_requested(self) -> StateView {
        if self.play {
            StateView { skip: true, message: "*** track skipped"@, ..self }
        } else {
            StateView { message: "*** unpause to skip"@, ..self }
        }
    }

    /// The state after the user asked to pause or to go on.
    pub open spec fn pause_toggled(self) -> StateView {
        if self.play {
            StateView { play: false, message: "*** paused: true"@, ..self }
        } else {
            StateView { play: true, message: "*** paused: false"@, ..self }
        }
    }

    /// Whether `self` and `other` agree on all telemetry.
    pub open spec fn same_telemetry(self, other: StateView) -> bool {
        &&& self.dir_name == other.dir_name
        &&& self.file_num == other.file_num
        &&& self.file_name == other.file_name
        &&& self.file_ext == other.file_ext
        &&& self.sample_stats == other.sample_stats
    }
}

impl State {
    /// The state at startup.
    pub fn new() -> (state: State)
        ensures
            state@ == StateView::initial(),
    {
        let state = State {
            play: true,
            skip: false,
            repeat: false,
            dir_name: "Directory not found".to_owned(),
            file_num: 0,
            file_name: "File not found".to_owned(),
            file_ext: "Unknown".to_owned(),
            message: "***".to_owned(),
            sample_stats: [0i16;SAMPLES],
        };
        assert(state.sample_stats@ == silence());
        state
    }

    /// The user asks to skip the present track. While playing the request
    /// is set for the playback loop; while paused it is not, and the message
    /// says so.
    pub fn request_skip(&mut self)
        ensures
            final(self)@ == old(self)@.skip_requested(),
    {
        if self.play {
            self.skip = true;
            self.message = "*** track skipped".to_owned();
        } else {
            self.message = "*** unpause to skip".to_owned();
        }
    }

    /// The user asks to pause, or to go on if paused.
    pub fn toggle_pause(&mut self)
        ensures
            final(self)@ == old(self)@.pause_toggled(),
    {
        if self.play {
            self.play = false;
            self.message = "*** paused: true".to_owned();
        } else {
            self.play = true;
            self.message = "*** paused: false".to_owned();
        }
    }
}

/// Neither request of the user touches the telemetry, and a request to
/// skip that comes while paused sets no intent: track number, track name
/// and captured window stay as they are.
pub proof fn lemma_requests_keep_telemetry(s: StateView)
    ensures
        s.skip_requested().same_telemetry(s),
        s.pause_toggled().same_telemetry(s),
        !s.play ==> s.skip_requested().skip == s.skip && s.skip_requested().play == s.play,
{
}

} // verus!
