//! The codec kinds the player knows, and how a file name selects one.
//!
//! The kind is chosen by what follows the last `.` of the path, compared
//! without regard to the case of ASCII letters. Every path has a kind: one
//! that names none of the known extensions, or has no `.`, is `GEN`, the
//! kind that is decoded by sniffing the container.

use crate::path::{chars_of, extension, last_dot, last_dot_from};
use vstd::prelude::*;

verus! {

/// The codec kind of a track.
#[derive(Clone, Copy, Debug, PartialEq, Eq, Structural)]
pub enum MusicFormat {
    MP3,
    WAV,
    OGG,
    FLAC,
    GEN,
}

impl MusicFormat {
    /// The text under which the kind is shown.
    pub open spec fn label(self) -> Seq<char> {
        match self {
            MusicFormat::MP3 => seq!['m', 'p', '3'],
            MusicFormat::WAV => seq!['w', 'a', 'v'],
            MusicFormat::OGG => seq!['o', 'g', 'g'],
            MusicFormat::FLAC => seq!['f', 'l', 'a', 'c'],
            MusicFormat::GEN => seq!['u', 'n', 'k', 'n', 'o', 'w', 'n'],
        }
    }

    /// The text under which the kind is shown: `mp3`, `wav`, `ogg`, `flac`,
    /// and `unknown` for `GEN`.
    pub fn display(&self) -> (text: String)
        ensures
            text@ == self.label(),
    {
        match self {
            MusicFormat::MP3 => {
                proof {
                    reveal_strlit("mp3");
                }
                "mp3".to_owned()
            },
            MusicFormat::WAV => {
                proof {
                    reveal_strlit("wav");
                }
                "wav".to_owned()
            },
            MusicFormat::OGG => {
                proof {
                    reveal_strlit("ogg");
                }
                "ogg".to_owned()
            },
            MusicFormat::FLAC => {
                proof {
                    reveal_strlit("flac");
                }
                "flac".to_owned()
            },
            MusicFormat::GEN => {
                proof {
                    reveal_strlit("unknown");
                }
                "unknown".to_owned()
            },
        }
    }
}

/// `c` with an ASCII capital letter replaced by its small letter.
pub open spec fn ascii_lower(c: char) -> char {
    if 'A' <= c && c <= 'Z' {
        ((c as u32) + 32) as char
    } else {
        c
    }
}

/// `s` with each ASCII capital letter replaced by its small letter.
pub open spec fn lowered(s: Seq<char>) -> Seq<char> {
    s.map_values(|c: char| ascii_lower(c))
}

/// The kind that an extension names, the case of its letters disregarded.
pub open spec fn format_of_extension(ext: Seq<char>) -> MusicFormat {
    let e = lowered(ext);
    if e == MusicFormat::MP3.label() {
        MusicFormat::MP3
    } else if e == MusicFormat::WAV.label() {
        MusicFormat::WAV
    } else if e == MusicFormat::OGG.label() {
        MusicFormat::OGG
    } else if e == MusicFormat::FLAC.label() {
        MusicFormat::FLAC
    } else {
        MusicFormat::GEN
    }
}

/// The kind of the file at `path`.
pub open spec fn format_of(path: Seq<char>) -> MusicFormat {
    match extension(path) {
        Some(ext) => format_of_extension(ext),
        None => MusicFormat::GEN,
    }
}

/// Lowering a letter never makes or unmakes a `.`.
proof fn lemma_lower_keeps_dot(c: char)
    ensures
        (ascii_lower(c) == '.') == (c == '.'),
{
}

/// Sequences that are equal once lowered have their last `.` at the same place.
proof fn lemma_last_dot_ignores_case(p: Seq<char>, q: Seq<char>)
    requires
        lowered(p) == lowered(q),
    ensures
        last_dot(p) == last_dot(q),
    decreases p.len(),
{
    assert(p.len() == lowered(p).len());
    assert(q.len() == lowered(q).len());
    if p.len() > 0 {
        let n = p.len() - 1;
        assert(ascii_lower(p[n]) == lowered(p)[n]);
        assert(ascii_lower(q[n]) == lowered(q)[n]);
        lemma_lower_keeps_dot(p[n]);
        lemma_lower_keeps_dot(q[n]);
        assert(lowered(p.drop_last()) == lowered(p).drop_last());
        assert(lowered(q.drop_last()) == lowered(q).drop_last());
        lemma_last_dot_ignores_case(p.drop_last(), q.drop_last());
    }
}

/// The classifier disregards case: two paths that differ only in the case
/// of ASCII letters have the same kind.
pub proof fn lemma_format_ignores_case(p: Seq<char>, q: Seq<char>)
    requires
        lowered(p) == lowered(q),
    ensures
        format_of(p) == format_of(q),
{
    lemma_last_dot_ignores_case(p, q);
    crate::path::lemma_last_dot(p);
    match last_dot(p) {
        Some(i) => {
            assert(lowered(p.skip(i + 1)) == lowered(p).skip(i + 1));
            assert(lowered(q.skip(i + 1)) == lowered(q).skip(i + 1));
        },
        None => {},
    }
}

/// `c` with an ASCII capital letter replaced by its small letter.
fn lower(c: char) -> (r: char)
    ensures
        r == ascii_lower(c),
{
    if 'A' <= c && c <= 'Z' {
        ((c as u8) + 32) as char
    } else {
        c
    }
}

/// The codec kind of the file at `text`: `MP3`, `WAV`, `OGG` or `FLAC` where
/// what follows the last `.` is that extension in any mix of cases, `GEN`
/// for every other path.
pub fn track_format(text: &String) -> (format: MusicFormat)
    ensures
        format == format_of(text@),
{
    let chars = chars_of(text.as_str());
    assert(chars@.skip(0) == chars@);
    match last_dot_from(&chars, 0) {
        None => MusicFormat::GEN,
        Some(dot) => {
            let from = dot + 1;
            let n = chars.len() - from;
            let ghost ext = chars@.skip(from as int);
            let ghost e = lowered(ext);
            assert(e.len() == n);
            if n == 3 {
                let a = lower(chars[from]);
                let b = lower(chars[from + 1]);
                let c = lower(chars[from + 2]);
                assert(e == seq![a, b, c]);
                if a == 'm' && b == 'p' && c == '3' {
                    MusicFormat::MP3
                } else if a == 'w' && b == 'a' && c == 'v' {
                    MusicFormat::WAV
                } else if a == 'o' && b == 'g' && c == 'g' {
                    MusicFormat::OGG
                } else {
                    MusicFormat::GEN
                }
            } else if n == 4 {
                let a = lower(chars[from]);
                let b = lower(chars[from + 1]);
                let c = lower(chars[from + 2]);
                let d = lower(chars[from + 3]);
                assert(e == seq![a, b, c, d]);
                if a == 'f' && b == 'l' && c == 'a' && d == 'c' {
                    MusicFormat::FLAC
                } else {
                    MusicFormat::GEN
                }
            } else {
                MusicFormat::GEN
            }
        },
    }
}

} // verus!
