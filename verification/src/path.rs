//! Dissecting a path given as text: its directory part, its last segment,
//! the stem and the extension of a name.
//!
//! A path is modelled as the sequence of its characters. Both `/` and `\`
//! separate segments; the last `.` of a name separates stem and extension.

use vstd::prelude::*;

verus! {

/// Whether `c` separates the segments of a path.
pub open spec fn is_separator(c: char) -> bool {
    c == '/' || c == '\\'
}

/// The number of characters of `s` up to and including its last separator;
/// zero where `s` has no separator.
pub open spec fn dir_len(s: Seq<char>) -> int
    decreases s.len(),
{
    if s.len() == 0 {
        0
    } else if is_separator(s.last()) {
        s.len() as int
    } else {
        dir_len(s.drop_last())
    }
}

/// The index of the last `.` in `s`, if `s` has one.
pub open spec fn last_dot(s: Seq<char>) -> Option<int>
    decreases s.len(),
{
    if s.len() == 0 {
        None
    } else if s.last() == '.' {
        Some(s.len() - 1)
    } else {
        last_dot(s.drop_last())
    }
}

/// What follows the last separator of `path`; all of `path` where it has none.
pub open spec fn last_segment(path: Seq<char>) -> Seq<char> {
    path.skip(dir_len(path))
}

/// `name` without its last `.` and what follows it; all of `name` where it has no `.`.
pub open spec fn stem(name: Seq<char>) -> Seq<char> {
    match last_dot(name) {
        Some(i) => name.take(i),
        None => name,
    }
}

/// What follows the last `.` of `s`, if `s` has one.
pub open spec fn extension(s: Seq<char>) -> Option<Seq<char>> {
    match last_dot(s) {
        Some(i) => Some(s.skip(i + 1)),
        None => None,
    }
}

/// Whether `s` holds no separator at all.
pub open spec fn no_separator(s: Seq<char>) -> bool {
    forall|j: int| 0 <= j < s.len() ==> !is_separator(#[trigger] s[j])
}

/// Whether `s` holds no `.` at all.
pub open spec fn no_dot(s: Seq<char>) -> bool {
    forall|j: int| 0 <= j < s.len() ==> #[trigger] s[j] != '.'
}

/// `dir_len(s)` is the position just behind the last separator: a separator
/// stands before it unless it is zero, and none stands at or behind it.
pub proof fn lemma_dir_len(s: Seq<char>)
    ensures
        0 <= dir_len(s) <= s.len(),
        dir_len(s) > 0 ==> is_separator(s[dir_len(s) - 1]),
        forall|j: int| dir_len(s) <= j < s.len() ==> !is_separator(#[trigger] s[j]),
        no_separator(last_segment(s)),
    decreases s.len(),
{
    if s.len() > 0 && !is_separator(s.last()) {
        let head = s.drop_last();
        lemma_dir_len(head);
        assert forall|j: int| dir_len(s) <= j < s.len() implies !is_separator(#[trigger] s[j]) by {
            if j < head.len() {
                assert(s[j] == head[j]);
            }
        }
    }
}

/// `last_dot(s)` points at a `.` behind which no other `.` stands, and is
/// `None` exactly where `s` holds no `.`.
pub proof fn lemma_last_dot(s: Seq<char>)
    ensures
        match last_dot(s) {
            Some(i) => {
                &&& 0 <= i < s.len()
                &&& s[i] == '.'
                &&& forall|j: int| i < j < s.len() ==> #[trigger] s[j] != '.'
            },
            None => no_dot(s),
        },
    decreases s.len(),
{
    if s.len() > 0 && s.last() != '.' {
        let head = s.drop_last();
        lemma_last_dot(head);
        match last_dot(s) {
            Some(i) => {
                assert forall|j: int| i < j < s.len() implies #[trigger] s[j] != '.' by {
                    if j < head.len() {
                        assert(s[j] == head[j]);
                    }
                }
            },
            None => {
                assert forall|j: int| 0 <= j < s.len() implies #[trigger] s[j] != '.' by {
                    if j < head.len() {
                        assert(s[j] == head[j]);
                    }
                }
            },
        }
    }
}

/// A sequence without separators has no directory part.
pub proof fn lemma_dir_len_none(s: Seq<char>)
    requires
        no_separator(s),
    ensures
        dir_len(s) == 0,
        last_segment(s) == s,
    decreases s.len(),
{
    if s.len() > 0 {
        lemma_dir_len_none(s.drop_last());
    }
}

/// A sequence without a `.` has no last dot.
pub proof fn lemma_last_dot_none(s: Seq<char>)
    requires
        no_dot(s),
    ensures
        last_dot(s) is None,
        stem(s) == s,
        extension(s) is None,
    decreases s.len(),
{
    if s.len() > 0 {
        lemma_last_dot_none(s.drop_last());
    }
}

/// The characters of `text`, in order.
pub(crate) fn chars_of(text: &str) -> (chars: Vec<char>)
    ensures
        chars@ == text@,
{
    let mut chars: Vec<char> = Vec::new();
    for c in it: text.chars()
        invariant
            it.seq() == text@,
            chars@ == it.seq().take(it.index()),
    {
        chars.push(c);
    }
    chars
}

/// The length of the directory part of `chars`: the position just behind
/// its last separator.
pub(crate) fn directory_end(chars: &Vec<char>) -> (end: usize)
    ensures
        end == dir_len(chars@),
        end <= chars.len(),
{
    let mut end: usize = 0;
    let mut i: usize = 0;
    while i < chars.len()
        invariant
            i <= chars.len(),
            end <= i,
            end == dir_len(chars@.take(i as int)),
        decreases chars.len() - i,
    {
        let c = chars[i];
        proof {
            let head = chars@.take(i + 1);
            assert(head.drop_last() == chars@.take(i as int));
        }
        i = i + 1;
        if c == '/' || c == '\\' {
            end = i;
        }
    }
    assert(chars@.take(i as int) == chars@);
    end
}

/// The position of the last `.` among the characters of `chars` from
/// `from` on, counted from the start of `chars`.
pub(crate) fn last_dot_from(chars: &Vec<char>, from: usize) -> (found: Option<usize>)
    requires
        from <= chars.len(),
    ensures
        match found {
            Some(i) => from <= i < chars.len() && last_dot(chars@.skip(from as int)) == Some(
                i - from,
            ),
            None => last_dot(chars@.skip(from as int)) is None,
        },
{
    let mut found: Option<usize> = None;
    let mut i: usize = from;
    while i < chars.len()
        invariant
            from <= i <= chars.len(),
            match found {
                Some(k) => from <= k < i && last_dot(chars@.subrange(from as int, i as int))
                    == Some(k - from),
                None => last_dot(chars@.subrange(from as int, i as int)) is None,
            },
        decreases chars.len() - i,
    {
        let c = chars[i];
        proof {
            let head = chars@.subrange(from as int, i + 1);
            assert(head.drop_last() == chars@.subrange(from as int, i as int));
        }
        if c == '.' {
            found = Some(i);
        }
        i = i + 1;
    }
    found
}

} // verus!
