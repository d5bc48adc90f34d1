//! The tap on a decoder's sample stream.
//!
//! A `SpyDecoder` sees every sample that a decoder hands out and passes
//! it on untouched. On the side it alternates between two phases: it waits
//! for `CAPTURE_WAIT` samples, then collects the next `SAMPLES` decoded
//! samples into its buffer, then waits again. The buffer is handed out only
//! while it holds one whole window.

use vstd::prelude::*;

verus! {

/// The number of samples in a capture window.
pub const SAMPLES: usize = 1024;

/// The number of samples let pass between two capture windows: a tenth of
/// a second at 44 kHz.
pub const CAPTURE_WAIT: usize = 4400;

/// The window that holds no capture: `SAMPLES` zeros.
pub open spec fn silence() -> Seq<i16> {
    Seq::new(SAMPLES as nat, |i: int| 0i16)
}

/// The state of a tap, as mathematics.
pub struct Capture {
    /// The capture buffer, `SAMPLES` long.
    pub buffer: Seq<i16>,
    /// How many samples of the window under way the buffer holds.
    pub cursor: nat,
    /// How many samples have passed in the present wait.
    pub waited: nat,
    /// Whether the tap is collecting, not waiting.
    pub collecting: bool,
}

impl Capture {
    /// The state of a tap that has seen nothing.
    pub open spec fn fresh() -> Capture {
        Capture { buffer: silence(), cursor: 0, waited: 0, collecting: false }
    }

    /// What holds of every state that a tap can be in.
    pub open spec fn wf(self) -> bool {
        &&& self.buffer.len() == SAMPLES
        &&& self.cursor <= SAMPLES
        &&& self.waited <= CAPTURE_WAIT
        &&& self.collecting ==> self.waited == 0
        &&& !self.collecting ==> self.cursor == 0
    }

    /// The state after the decoder has handed out `sample`.
    ///
    /// While waiting, every pull counts, and the pull after the last one
    /// awaited starts a collection. While collecting, each decoded sample is
    /// stored at the cursor, an exhausted pull changes nothing, and the pull
    /// after the window is full starts the next wait.
    pub open spec fn step(self, sample: Option<i16>) -> Capture {
        if self.collecting {
            if self.cursor < SAMPLES {
                match sample {
                    Some(x) => Capture {
                        buffer: self.buffer.update(self.cursor as int, x),
                        cursor: self.cursor + 1,
                        ..self
                    },
                    None => self,
                }
            } else {
                Capture { collecting: false, cursor: 0, ..self }
            }
        } else {
            if self.waited < CAPTURE_WAIT {
                Capture { waited: self.waited + 1, ..self }
            } else {
                Capture { collecting: true, waited: 0, ..self }
            }
        }
    }

    /// Whether the buffer holds one whole window: no collection has written
    /// into it since the last one was completed.
    pub open spec fn whole(self) -> bool {
        self.cursor == 0 || self.cursor == SAMPLES
    }

    /// The window that the tap hands out: its buffer while that is whole.
    pub open spec fn window(self) -> Option<Seq<i16>> {
        if self.whole() {
            Some(self.buffer)
        } else {
            None
        }
    }
}

/// The state of a fresh tap after the pulls `pulls`, oldest first.
pub open spec fn run(pulls: Seq<Option<i16>>) -> Capture
    decreases pulls.len(),
{
    if pulls.len() == 0 {
        Capture::fresh()
    } else {
        run(pulls.drop_last()).step(pulls.last())
    }
}

/// The samples that the pulls `pulls` decoded, oldest first.
pub open spec fn decoded(pulls: Seq<Option<i16>>) -> Seq<i16>
    decreases pulls.len(),
{
    if pulls.len() == 0 {
        Seq::empty()
    } else {
        match pulls.last() {
            Some(x) => decoded(pulls.drop_last()).push(x),
            None => decoded(pulls.drop_last()),
        }
    }
}

/// Whether `window` is `SAMPLES` samples that stand next to each other in
/// `samples`.
pub open spec fn is_stretch_of(window: Seq<i16>, samples: Seq<i16>) -> bool {
    exists|k: int|
        0 <= k && k + SAMPLES <= samples.len() && window == #[trigger] samples.subrange(
            k,
            k + SAMPLES,
        )
}

/// A step keeps a state well formed.
pub proof fn lemma_step_wf(c: Capture, sample: Option<i16>)
    requires
        c.wf(),
    ensures
        c.step(sample).wf(),
{
}

/// What `run` keeps true of the buffer: while the cursor is at the start
/// the buffer is silence or a stretch of the decoded samples, and while
/// collecting its filled part is the newest decoded samples.
spec fn tracks(c: Capture, samples: Seq<i16>) -> bool {
    &&& c.wf()
    &&& c.cursor == 0 ==> c.buffer == silence() || is_stretch_of(c.buffer, samples)
    &&& c.collecting ==> {
        &&& c.cursor <= samples.len()
        &&& c.buffer.take(c.cursor as int) == samples.subrange(
            samples.len() - c.cursor,
            samples.len() as int,
        )
    }
}

/// A stretch of `samples` is still one after another sample was decoded.
proof fn lemma_stretch_grows(window: Seq<i16>, samples: Seq<i16>, x: i16)
    requires
        is_stretch_of(window, samples),
    ensures
        is_stretch_of(window, samples.push(x)),
{
    let k = choose|k: int|
        0 <= k && k + SAMPLES <= samples.len() && window == #[trigger] samples.subrange(
            k,
            k + SAMPLES,
        );
    assert(samples.push(x).subrange(k, k + SAMPLES) == samples.subrange(k, k + SAMPLES));
}

/// A step keeps `tracks` true, with the sample it decoded added to the samples.
proof fn lemma_step_tracks(c: Capture, samples: Seq<i16>, sample: Option<i16>)
    requires
        tracks(c, samples),
    ensures
        tracks(
            c.step(sample),
            match sample {
                Some(x) => samples.push(x),
                None => samples,
            },
        ),
{
    let next = c.step(sample);
    let after = match sample {
        Some(x) => samples.push(x),
        None => samples,
    };
    if c.cursor == 0 && is_stretch_of(c.buffer, samples) {
        match sample {
            Some(x) => lemma_stretch_grows(c.buffer, samples, x),
            None => {},
        }
    }
    if c.collecting {
        if c.cursor < SAMPLES {
            match sample {
                Some(x) => {
                    assert(next.buffer.take(next.cursor as int) == after.subrange(
                        after.len() - next.cursor,
                        after.len() as int,
                    )) by {
                        let filled = next.buffer.take(next.cursor as int);
                        let newest = after.subrange(after.len() - next.cursor, after.len() as int);
                        assert forall|j: int| 0 <= j < filled.len() implies filled[j]
                            == newest[j] by {
                            if j < c.cursor {
                                assert(newest[j] == samples.subrange(
                                    samples.len() - c.cursor,
                                    samples.len() as int,
                                )[j]);
                            }
                        }
                    }
                },
                None => {},
            }
        } else {
            let k = samples.len() - SAMPLES;
            assert(c.buffer == samples.subrange(k, k + SAMPLES));
            match sample {
                Some(x) => lemma_stretch_grows(c.buffer, samples, x),
                None => {},
            }
        }
    } else {
        if c.waited >= CAPTURE_WAIT {
            assert(next.buffer.take(0) == after.subrange(after.len() as int, after.len() as int));
        }
    }
}

/// `tracks` holds of every state that a fresh tap reaches.
proof fn lemma_run_tracks(pulls: Seq<Option<i16>>)
    ensures
        tracks(run(pulls), decoded(pulls)),
    decreases pulls.len(),
{
    if pulls.len() > 0 {
        lemma_run_tracks(pulls.drop_last());
        lemma_step_tracks(run(pulls.drop_last()), decoded(pulls.drop_last()), pulls.last());
    }
}

/// Whatever a tap has been fed, the window it hands out is never half
/// written: it is silence, or `SAMPLES` samples that the decoder handed out
/// one after the other.
pub proof fn lemma_window_is_whole(pulls: Seq<Option<i16>>)
    ensures
        run(pulls).wf(),
        match run(pulls).window() {
            Some(w) => w == silence() || is_stretch_of(w, decoded(pulls)),
            None => true,
        },
{
    lemma_run_tracks(pulls);
    let c = run(pulls);
    let samples = decoded(pulls);
    if c.cursor == SAMPLES {
        let k = samples.len() - SAMPLES;
        assert(c.buffer == samples.subrange(k, k + SAMPLES));
    }
}

/// The tap on one decoder's sample stream.
pub struct SpyDecoder {
    stats: [i16; SAMPLES],
    stats_index: usize,
    stats_wait_index: usize,
    stats_collect: bool,
}

impl View for SpyDecoder {
    type V = Capture;

    closed spec fn view(&self) -> Capture {
        Capture {
            buffer: self.stats@,
            cursor: self.stats_index as nat,
            waited: self.stats_wait_index as nat,
            collecting: self.stats_collect,
        }
    }
}

impl SpyDecoder {
    #[verifier::type_invariant]
    spec fn inv(self) -> bool {
        self@.wf()
    }

    /// A tap that has seen nothing: it waits, and its buffer is silence.
    pub fn new() -> (tap: SpyDecoder)
        ensures
            tap@ == Capture::fresh(),
    {
        let tap = SpyDecoder {
            stats: [0i16;SAMPLES],
            stats_index: 0,
            stats_wait_index: 0,
            stats_collect: false,
        };
        assert(tap.stats@ == silence());
        tap
    }

    /// Takes what the decoder handed out and passes it on unchanged, after
    /// the tap has counted or stored it.
    pub fn next(&mut self, sample: Option<i16>) -> (out: Option<i16>)
        ensures
            out == sample,
            final(self)@ == old(self)@.step(sample),
            final(self)@.wf(),
    {
        proof {
            use_type_invariant(&*self);
        }
        if self.stats_collect {
            if self.stats_index < SAMPLES {
                match sample {
                    Some(x) => {
                        self.stats[self.stats_index] = x;
                        self.stats_index = self.stats_index + 1;
                    },
                    None => {},
                }
            } else {
                self.stats_index = 0;
                self.stats_collect = false;
            }
        } else {
            if self.stats_wait_index < CAPTURE_WAIT {
                self.stats_wait_index = self.stats_wait_index + 1;
            } else {
                self.stats_wait_index = 0;
                self.stats_collect = true;
            }
        }
        sample
    }

    /// The captured window, while the buffer holds a whole one: `None`
    /// from the first sample of a collection until its last.
    pub fn window(&self) -> (window: Option<[i16; SAMPLES]>)
        ensures
            match window {
                Some(w) => self@.window() == Some(w@),
                None => self@.window() is None,
            },
    {
        if self.stats_index == 0 || self.stats_index == SAMPLES {
            Some(self.stats)
        } else {
            None
        }
    }

    /// Whether the tap is collecting a window, not waiting for the next.
    pub fn is_collecting(&self) -> (collecting: bool)
        ensures
            collecting == self@.collecting,
    {
        self.stats_collect
    }
}

} // verus!
