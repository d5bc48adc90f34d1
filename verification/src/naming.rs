//! The names under which a track and its directory are shown.
//!
//! Both are taken from the last segment of a path and cut to at most
//! `LABEL_CAP` characters; a track's name also loses its extension.

use crate::path::{
    chars_of, directory_end, last_dot_from, last_segment, lemma_dir_len, lemma_dir_len_none,
    lemma_last_dot_none, no_dot, no_separator, stem,
};
use vstd::prelude::*;

verus! {

/// The largest number of characters that a shown name has.
pub const LABEL_CAP: usize = 40;

/// The first `LABEL_CAP` characters of `s`; all of `s` where it has no more.
pub open spec fn capped(s: Seq<char>) -> Seq<char> {
    if s.len() > LABEL_CAP {
        s.take(LABEL_CAP as int)
    } else {
        s
    }
}

/// The name shown for the track at `path`: its last segment without the
/// extension, capped.
pub open spec fn track_label(path: Seq<char>) -> Seq<char> {
    capped(stem(last_segment(path)))
}

/// The name shown for the directory at `path`: its last segment, capped.
pub open spec fn directory_label(path: Seq<char>) -> Seq<char> {
    capped(last_segment(path))
}

/// A name without separators and without a `.` is its own track label, up
/// to the cap; naming it again changes nothing.
pub proof fn lemma_track_label_of_bare_name(name: Seq<char>)
    requires
        no_separator(name),
        no_dot(name),
    ensures
        track_label(name) == capped(name),
        name.len() <= LABEL_CAP ==> track_label(name) == name,
        track_label(track_label(name)) == track_label(name),
{
    lemma_dir_len_none(name);
    lemma_last_dot_none(name);
    let once = capped(name);
    lemma_dir_len_none(once);
    lemma_last_dot_none(once);
}

/// A directory label holds no separator, so taking the directory label of
/// one gives it back: a name without separators is its own label, up to
/// the cap.
pub proof fn lemma_directory_label_idempotent(path: Seq<char>)
    ensures
        no_separator(directory_label(path)),
        no_separator(path) ==> directory_label(path) == capped(path),
        directory_label(directory_label(path)) == directory_label(path),
{
    lemma_dir_len(path);
    let once = directory_label(path);
    lemma_dir_len_none(once);
    if no_separator(path) {
        lemma_dir_len_none(path);
    }
}

/// The name shown for the track at `text`: what follows the last `/` or
/// `\`, without its last `.` and what follows that, cut to `LABEL_CAP`
/// characters.
pub fn track_name(text: &String) -> (name: String)
    ensures
        name@ == track_label(text@),
{
    let chars = chars_of(text.as_str());
    let start = directory_end(&chars);
    let stop = match last_dot_from(&chars, start) {
        Some(dot) => dot,
        None => chars.len(),
    };
    let end = if stop - start > LABEL_CAP {
        start + LABEL_CAP
    } else {
        stop
    };
    assert(track_label(text@) == text@.subrange(start as int, end as int));
    text.as_str().substring_char(start, end).to_owned()
}

/// The name shown for the directory at `text`: what follows the last `/`
/// or `\`, cut to `LABEL_CAP` characters.
pub fn dir_name(text: &String) -> (name: String)
    ensures
        name@ == directory_label(text@),
{
    let chars = chars_of(text.as_str());
    let start = directory_end(&chars);
    let end = if chars.len() - start > LABEL_CAP {
        start + LABEL_CAP
    } else {
        chars.len()
    };
    assert(directory_label(text@) == text@.subrange(start as int, end as int));
    text.as_str().substring_char(start, end).to_owned()
}

} // verus!
