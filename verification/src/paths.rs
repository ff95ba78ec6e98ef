//! Paths as character sequences. Components are separated by '/' or '\\';
//! the file name is the text after the last separator, and "", "." and ".."
//! are not file names.

use vstd::prelude::*;
use crate::text::{chars_of, extend_chars, slice_chars, string_of, suffix_from};

verus! {

pub open spec fn is_separator(c: char) -> bool {
    c == '/' || c == '\\'
}

/// Index just after the last separator of `p` (0 when there is none).
pub open spec fn name_start(p: Seq<char>) -> nat
    decreases p.len(),
{
    if p.len() == 0 {
        0
    } else if is_separator(p.last()) {
        p.len()
    } else {
        name_start(p.drop_last())
    }
}

pub open spec fn last_component(p: Seq<char>) -> Seq<char> {
    p.subrange(name_start(p) as int, p.len() as int)
}

/// The final component, unless it is empty, "." or "..".
pub open spec fn file_name(p: Seq<char>) -> Option<Seq<char>> {
    let c = last_component(p);
    if c.len() == 0 || c == seq!['.'] || c == seq!['.', '.'] {
        None
    } else {
        Some(c)
    }
}

/// Index of the last '.' in `s`, or -1.
pub open spec fn last_dot(s: Seq<char>) -> int
    decreases s.len(),
{
    if s.len() == 0 {
        -1
    } else if s.last() == '.' {
        s.len() - 1
    } else {
        last_dot(s.drop_last())
    }
}

/// Text after the last '.' of the file name; none when the name has no dot
/// or only a leading one.
pub open spec fn extension(p: Seq<char>) -> Option<Seq<char>> {
    match file_name(p) {
        None => None,
        Some(n) => if last_dot(n) <= 0 {
            None
        } else {
            Some(n.subrange(last_dot(n) + 1, n.len() as int))
        },
    }
}

/// The file name without its extension.
pub open spec fn file_stem(p: Seq<char>) -> Option<Seq<char>> {
    match file_name(p) {
        None => None,
        Some(n) => if last_dot(n) <= 0 {
            Some(n)
        } else {
            Some(n.subrange(0, last_dot(n)))
        },
    }
}

/// `base` followed by the relative component `c`, with one '/' between them
/// unless `base` is empty or already ends with a separator.
pub open spec fn join(base: Seq<char>, c: Seq<char>) -> Seq<char> {
    if base.len() == 0 {
        c
    } else if is_separator(base.last()) {
        base + c
    } else {
        base.push('/') + c
    }
}

/// `p` with its file name replaced by `name` (or `name` joined on when `p`
/// has no file name).
pub open spec fn with_file_name(p: Seq<char>, name: Seq<char>) -> Seq<char> {
    if file_name(p) is Some {
        p.subrange(0, name_start(p) as int) + name
    } else {
        join(p, name)
    }
}

pub(crate) proof fn lemma_name_start_bound(p: Seq<char>)
    ensures
        name_start(p) <= p.len(),
        forall|i: int| name_start(p) <= i < p.len() ==> !is_separator(#[trigger] p[i]),
        name_start(p) > 0 ==> is_separator(p[name_start(p) - 1]),
    decreases p.len(),
{
    if p.len() > 0 && !is_separator(p.last()) {
        lemma_name_start_bound(p.drop_last());
        assert forall|i: int| name_start(p) <= i < p.len() implies !is_separator(#[trigger] p[i]) by {
            if i < p.len() - 1 {
                assert(p.drop_last()[i] == p[i]);
            }
        }
    }
}

pub(crate) proof fn lemma_last_dot_bound(s: Seq<char>)
    ensures
        -1 <= last_dot(s) < s.len(),
        last_dot(s) >= 0 ==> s[last_dot(s)] == '.',
    decreases s.len(),
{
    if s.len() > 0 && s.last() != '.' {
        lemma_last_dot_bound(s.drop_last());
    }
}

/// Exec counterpart of `name_start`.
pub fn name_start_index(p: &[char]) -> (r: usize)
    ensures
        r == name_start(p@),
{
    let mut i = p.len();
    assert(p@.subrange(0, p@.len() as int) == p@);
    while i > 0 && !(p[i - 1] == '/' || p[i - 1] == '\\')
        invariant
            i <= p@.len(),
            name_start(p@) == name_start(p@.subrange(0, i as int)),
        decreases i,
    {
        assert(p@.subrange(0, i - 1) == p@.subrange(0, i as int).drop_last());
        i = i - 1;
    }
    assert(name_start(p@.subrange(0, i as int)) == i) by {
        if i > 0 {
            assert(p@.subrange(0, i as int).last() == p@[i - 1]);
        }
    }
    i
}

/// Exec counterpart of `last_dot`.
pub fn last_dot_index(s: &[char]) -> (r: Option<usize>)
    ensures
        match r {
            Some(i) => i == last_dot(s@),
            None => last_dot(s@) == -1,
        },
{
    let mut i = s.len();
    assert(s@.subrange(0, s@.len() as int) == s@);
    while i > 0 && s[i - 1] != '.'
        invariant
            i <= s@.len(),
            last_dot(s@) == last_dot(s@.subrange(0, i as int)),
        decreases i,
    {
        assert(s@.subrange(0, i - 1) == s@.subrange(0, i as int).drop_last());
        i = i - 1;
    }
    if i == 0 {
        assert(s@.subrange(0, 0) =~= Seq::<char>::empty());
        None
    } else {
        assert(s@.subrange(0, i as int).last() == s@[i - 1]);
        Some(i - 1)
    }
}

/// The file name of `p`, if it has one.
pub fn file_name_of(p: &[char]) -> (r: Option<Vec<char>>)
    ensures
        match r {
            Some(v) => file_name(p@) == Some(v@),
            None => file_name(p@) is None,
        },
{
    let start = name_start_index(p);
    proof { lemma_name_start_bound(p@); }
    let c = suffix_from(p, start);
    let n = c.len();
    if n == 0 || (n == 1 && c[0] == '.') || (n == 2 && c[0] == '.' && c[1] == '.') {
        proof {
            if n == 1 { assert(c@ =~= seq!['.']); }
            if n == 2 { assert(c@ =~= seq!['.', '.']); }
        }
        None
    } else {
        proof {
            if c@ == seq!['.'] { assert(c@[0] == '.'); }
            if c@ == seq!['.', '.'] { assert(c@[0] == '.' && c@[1] == '.'); }
        }
        Some(c)
    }
}

/// The extension of `p`, if it has one.
pub fn extension_of(p: &[char]) -> (r: Option<Vec<char>>)
    ensures
        match r {
            Some(v) => extension(p@) == Some(v@),
            None => extension(p@) is None,
        },
{
    match file_name_of(p) {
        None => None,
        Some(n) => {
            proof { lemma_last_dot_bound(n@); }
            match last_dot_index(&n) {
                Some(d) => if d == 0 {
                    None
                } else {
                    assert(d < n@.len());
                    Some(suffix_from(&n, d + 1))
                },
                None => None,
            }
        },
    }
}

/// The file stem of `p`, if it has a file name.
pub fn file_stem_of(p: &[char]) -> (r: Option<Vec<char>>)
    ensures
        match r {
            Some(v) => file_stem(p@) == Some(v@),
            None => file_stem(p@) is None,
        },
{
    match file_name_of(p) {
        None => None,
        Some(n) => {
            proof { lemma_last_dot_bound(n@); }
            match last_dot_index(&n) {
                Some(d) => if d == 0 {
                    Some(n)
                } else {
                    Some(slice_chars(&n, 0, d))
                },
                None => Some(n),
            }
        },
    }
}

/// `join(base, c)` as a vector.
pub fn join_chars(base: &[char], c: &[char]) -> (r: Vec<char>)
    ensures
        r@ == join(base@, c@),
{
    let mut r = slice_chars(base, 0, base.len());
    assert(r@ =~= base@);
    if base.len() > 0 && !(base[base.len() - 1] == '/' || base[base.len() - 1] == '\\') {
        r.push('/');
    }
    extend_chars(&mut r, c);
    r
}

/// `join` on strings.
pub fn join_path(base: &str, c: &str) -> (r: String)
    ensures
        r@ == join(base@, c@),
{
    let b = chars_of(base);
    let cc = chars_of(c);
    string_of(&join_chars(&b, &cc))
}

/// `with_file_name(p, name)` as a vector.
pub fn with_file_name_chars(p: &[char], name: &[char]) -> (r: Vec<char>)
    ensures
        r@ == with_file_name(p@, name@),
{
    match file_name_of(p) {
        Some(_) => {
            let start = name_start_index(p);
            proof { lemma_name_start_bound(p@); }
            let mut r = slice_chars(p, 0, start);
            extend_chars(&mut r, name);
            r
        },
        None => join_chars(p, name),
    }
}

} // verus!
