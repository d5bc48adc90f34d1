//! The decisions of the playback loop.
//!
//! The loop itself lists the directory, opens and decodes files, feeds the
//! audio sink and sleeps. What it decides stands here: which track number
//! an entry gets (`Pass`), and what one tick writes into the shared state
//! and asks of the sink (`State::tick`).

use crate::capture::{silence, SAMPLES};
use crate::format::MusicFormat;
use crate::naming::{dir_name, directory_label, track_label, track_name};
use crate::state::{State, StateView};
use vstd::prelude::*;

verus! {

/// How the attempt to load a directory entry ended.
#[derive(Clone, Copy, Debug, PartialEq, Eq, Structural)]
pub enum Entry {
    /// The entry could not be opened.
    Unreadable,
    /// The entry was opened, and no decoder could be built for it.
    Undecodable,
    /// The entry was opened and a decoder built: it is a track.
    Playable,
}

/// The count of tracks after `entry` was taken note of at count `count`.
pub open spec fn counted(count: nat, entry: Entry) -> nat {
    if entry is Playable {
        count + 1
    } else {
        count
    }
}

/// The track number that `entry` is given at count `count`: the new count
/// for a track, none for any other entry.
pub open spec fn numbered(count: nat, entry: Entry) -> Option<nat> {
    if entry is Playable {
        Some(count + 1)
    } else {
        None
    }
}

/// The count of a pass that has taken note of `entries`, first to last.
pub open spec fn count_after(entries: Seq<Entry>) -> nat
    decreases entries.len(),
{
    if entries.len() == 0 {
        0
    } else {
        counted(count_after(entries.drop_last()), entries.last())
    }
}

/// The track numbers that a pass over `entries` gives out, in order.
pub open spec fn track_numbers(entries: Seq<Entry>) -> Seq<nat>
    decreases entries.len(),
{
    if entries.len() == 0 {
        Seq::empty()
    } else {
        let before = track_numbers(entries.drop_last());
        match numbered(count_after(entries.drop_last()), entries.last()) {
            Some(n) => before.push(n),
            None => before,
        }
    }
}

/// How many of `entries` are playable.
pub open spec fn playable(entries: Seq<Entry>) -> nat {
    entries.filter(|e: Entry| e is Playable).len()
}

/// A pass gives out as many track numbers as it has playable entries, and
/// they are 1, 2, 3 and so on: an entry that fails to open or to decode
/// takes no number.
pub proof fn lemma_track_numbers(entries: Seq<Entry>)
    ensures
        count_after(entries) == playable(entries),
        track_numbers(entries).len() == playable(entries),
        forall|k: int|
            0 <= k < track_numbers(entries).len() ==> #[trigger] track_numbers(entries)[k] == k
                + 1,
    decreases entries.len(),
{
    reveal(Seq::filter);
    if entries.len() > 0 {
        lemma_track_numbers(entries.drop_last());
    }
}

/// The track counter of one pass over the directory.
pub struct Pass {
    counter: usize,
}

impl View for Pass {
    type V = nat;

    closed spec fn view(&self) -> nat {
        self.counter as nat
    }
}

impl Pass {
    /// The counter at the start of a pass: no track yet.
    pub fn new() -> (pass: Pass)
        ensures
            pass@ == 0,
    {
        Pass { counter: 0 }
    }

    /// The number of tracks loaded so far in this pass.
    pub fn loaded(&self) -> (n: usize)
        ensures
            n == self@,
    {
        self.counter
    }

    /// Takes note of an entry. A playable one is counted and given its
    /// track number, the new count; any other leaves the count as it is and
    /// gets none.
    pub fn record(&mut self, entry: Entry) -> (number: Option<usize>)
        requires
            counted(old(self)@, entry) <= usize::MAX,
        ensures
            final(self)@ == counted(old(self)@, entry),
            match number {
                Some(n) => numbered(old(self)@, entry) == Some(n as nat),
                None => numbered(old(self)@, entry) is None,
            },
    {
        match entry {
            Entry::Playable => {
                self.counter = self.counter + 1;
                Some(self.counter)
            },
            _ => None,
        }
    }
}

/// What a tick asks of the audio sink.
#[derive(Clone, Copy, Debug, PartialEq, Eq, Structural)]
pub enum SinkAction {
    /// Go on playing.
    Play,
    /// Hold the sink.
    Pause,
    /// Go on playing, drop the present track, and end its ticks.
    Skip,
}

/// The view of a window that may have been received.
pub open spec fn received(window: Option<[i16; SAMPLES]>) -> Option<Seq<i16>> {
    match window {
        Some(w) => Some(w@),
        None => None,
    }
}

impl StateView {
    /// The state with the telemetry of the present track written: the
    /// directory at `dir`, track number `number`, the file at `path`, decoded
    /// as `format`.
    pub open spec fn published(
        self,
        dir: Seq<char>,
        path: Seq<char>,
        format: MusicFormat,
        number: nat,
    ) -> StateView {
        StateView {
            dir_name: directory_label(dir),
            file_num: number,
            file_name: track_label(path),
            file_ext: format.label(),
            ..self
        }
    }

    /// The state after one tick.
    ///
    /// The telemetry of the track is written in any case. While paused
    /// nothing else happens. While playing, a window that was received
    /// replaces the one shown; and a request to skip is cleared and the window
    /// shown becomes silence, whatever was received.
    pub open spec fn ticked(
        self,
        dir: Seq<char>,
        path: Seq<char>,
        format: MusicFormat,
        number: nat,
        window: Option<Seq<i16>>,
    ) -> StateView {
        let told = self.published(dir, path, format, number);
        if !self.play {
            told
        } else if self.skip {
            StateView { skip: false, sample_stats: silence(), ..told }
        } else {
            match window {
                Some(w) => StateView { sample_stats: w, ..told },
                None => told,
            }
        }
    }

    /// What a tick that finds this state asks of the sink.
    pub open spec fn action(self) -> SinkAction {
        if !self.play {
            SinkAction::Pause
        } else if self.skip {
            SinkAction::Skip
        } else {
            SinkAction::Play
        }
    }
}

impl State {
    /// The playback loop has come upon the directory at `dir`: its name is
    /// shown from now on.
    pub fn show_directory(&mut self, dir: &String)
        ensures
            final(self)@ == (StateView { dir_name: directory_label(dir@), ..old(self)@ }),
    {
        self.dir_name = dir_name(dir);
    }

    /// Whether the coming tick takes a window: the capture channel is read
    /// only while playing, so that nothing captured is lost to a pause.
    pub fn wants_window(&self) -> (wanted: bool)
        ensures
            wanted == self@.play,
    {
        self.play
    }

    /// One tick of the playback loop, made while track `number` of the pass,
    /// the file at `path` in the directory at `dir`, is in the sink. `window`
    /// is what the capture channel held, if `wants_window` had the caller
    /// look and something was there.
    pub fn tick(
        &mut self,
        dir: &String,
        path: &String,
        format: MusicFormat,
        number: usize,
        window: Option<[i16; SAMPLES]>,
    ) -> (action: SinkAction)
        ensures
            final(self)@ == old(self)@.ticked(dir@, path@, format, number as nat, received(window)),
            action == old(self)@.action(),
    {
        self.dir_name = dir_name(dir);
        self.file_num = number;
        self.file_name = track_name(path);
        self.file_ext = format.display();
        if self.play {
            match window {
                Some(w) => {
                    self.sample_stats = w;
                },
                None => {},
            }
            if self.skip {
                self.skip = false;
                self.sample_stats = [0i16;SAMPLES];
                assert(self.sample_stats@ == silence());
                SinkAction::Skip
            } else {
                SinkAction::Play
            }
        } else {
            SinkAction::Pause
        }
    }
}

/// The window shown after a tick is the window shown before it, the window
/// received, or silence, as a whole: a tick never mixes two windows.
pub proof fn lemma_tick_keeps_windows_whole(
    s: StateView,
    dir: Seq<char>,
    path: Seq<char>,
    format: MusicFormat,
    number: nat,
    window: Option<Seq<i16>>,
)
    ensures
        ({
            let after = s.ticked(dir, path, format, number, window).sample_stats;
            after == s.sample_stats || window == Some(after) || after == silence()
        }),
{
}

/// A tick leaves to the presentation layer what is its own: whether to
/// play, the reserved flag and the message.
pub proof fn lemma_tick_keeps_intents(
    s: StateView,
    dir: Seq<char>,
    path: Seq<char>,
    format: MusicFormat,
    number: nat,
    window: Option<Seq<i16>>,
)
    ensures
        ({
            let after = s.ticked(dir, path, format, number, window);
            &&& after.play == s.play
            &&& after.repeat == s.repeat
            &&& after.message == s.message
            &&& after.skip ==> s.skip
        }),
{
}

/// While paused a tick changes nothing but the telemetry of the track it
/// is told of, and asks the sink to pause: a request to skip is neither
/// acted on nor cleared, the window shown stays, and a state that shows the
/// track already is left as it is.
pub proof fn lemma_paused_tick(
    s: StateView,
    dir: Seq<char>,
    path: Seq<char>,
    format: MusicFormat,
    number: nat,
    window: Option<Seq<i16>>,
)
    requires
        !s.play,
    ensures
        s.action() == SinkAction::Pause,
        s.ticked(dir, path, format, number, window) == s.published(dir, path, format, number),
        s.ticked(dir, path, format, number, window).skip == s.skip,
        s.ticked(dir, path, format, number, window).sample_stats == s.sample_stats,
        s == s.published(dir, path, format, number) ==> s.ticked(dir, path, format, number, window)
            == s,
{
}

/// A request to skip is acted on once: the tick that finds it while
/// playing asks the sink to skip, clears it and shows silence, and the tick
/// after that does not skip again.
pub proof fn lemma_skip_is_one_shot(
    s: StateView,
    dir: Seq<char>,
    path: Seq<char>,
    format: MusicFormat,
    number: nat,
    window: Option<Seq<i16>>,
)
    requires
        s.play,
    ensures
        s.skip ==> s.action() == SinkAction::Skip,
        s.skip ==> s.ticked(dir, path, format, number, window).sample_stats == silence(),
        !s.ticked(dir, path, format, number, window).skip,
        s.ticked(dir, path, format, number, window).action() == SinkAction::Play,
{
}

/// A skip moves on by exactly one track. The tick that acts on the request
/// still shows the track it ends, with silence for its window; the next
/// playable entry gets the next number; and the first tick on that track
/// finds the request cleared and plays.
pub proof fn lemma_skip_advances_by_one(
    s: StateView,
    count: nat,
    dir: Seq<char>,
    path: Seq<char>,
    format: MusicFormat,
    window: Option<Seq<i16>>,
    next_path: Seq<char>,
    next_format: MusicFormat,
    next_window: Option<Seq<i16>>,
)
    requires
        s.play,
        s.skip,
    ensures
        ({
            let skipped = s.ticked(dir, path, format, count, window);
            let next = counted(count, Entry::Playable);
            let after = skipped.ticked(dir, next_path, next_format, next, next_window);
            &&& s.action() == SinkAction::Skip
            &&& skipped.file_num == count
            &&& skipped.sample_stats == silence()
            &&& numbered(count, Entry::Playable) == Some(next)
            &&& next == count + 1
            &&& skipped.action() == SinkAction::Play
            &&& after.file_num == count + 1
        }),
{
}

/// The state after `n` ticks on one track during which no window arrived.
pub open spec fn idle_ticks(
    s: StateView,
    dir: Seq<char>,
    path: Seq<char>,
    format: MusicFormat,
    number: nat,
    n: nat,
) -> StateView
    decreases n,
{
    if n == 0 {
        s
    } else {
        idle_ticks(s, dir, path, format, number, (n - 1) as nat).ticked(
            dir,
            path,
            format,
            number,
            None,
        )
    }
}

/// Pausing does not advance tracks: however many ticks pass while paused,
/// the state shows the track that is in the sink, with the window and the
/// intents it had when the pause began.
pub proof fn lemma_pause_holds(
    s: StateView,
    dir: Seq<char>,
    path: Seq<char>,
    format: MusicFormat,
    number: nat,
    n: nat,
)
    requires
        !s.play,
        n > 0,
    ensures
        idle_ticks(s, dir, path, format, number, n) == s.published(dir, path, format, number),
    decreases n,
{
    if n > 1 {
        lemma_pause_holds(s, dir, path, format, number, (n - 1) as nat);
    } else {
        reveal_with_fuel(idle_ticks, 2);
    }
}

} // verus!
