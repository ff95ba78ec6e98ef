//! The library file (one photo path per line) and folder import.

use vstd::prelude::*;
use crate::natural::{naturally_sorted, views};
use crate::nav::{image_extension_list, image_extensions, image_paths_of, sorted_image_paths};
use crate::paths::join;
use crate::text::{chars_of, extend_chars, string_of};

verus! {

/// Index of the first '\n' in `s`, or -1.
pub open spec fn first_newline(s: Seq<char>) -> int
    decreases s.len(),
{
    if s.len() == 0 {
        -1
    } else if s[0] == '\n' {
        0
    } else {
        let r = first_newline(s.drop_first());
        if r < 0 { -1 } else { r + 1 }
    }
}

/// A line that ended with "\r\n" loses its '\r'.
pub open spec fn strip_cr(line: Seq<char>) -> Seq<char> {
    if line.len() > 0 && line.last() == '\r' { line.drop_last() } else { line }
}

/// The lines of `s` as `str::lines` splits them, plus the (possibly empty)
/// text after the last '\n'.
pub open spec fn raw_lines(s: Seq<char>) -> Seq<Seq<char>>
    decreases s.len(),
{
    let i = first_newline(s);
    if i < 0 {
        seq![s]
    } else {
        proof { lemma_first_newline(s); }
        seq![strip_cr(s.subrange(0, i))] + raw_lines(s.subrange(i + 1, s.len() as int))
    }
}

pub open spec fn non_empty(lines: Seq<Seq<char>>) -> Seq<Seq<char>> {
    lines.filter(|l: Seq<char>| l.len() > 0)
}

/// The paths a library file lists: its non-empty lines, in order.
pub open spec fn library_paths(content: Seq<char>) -> Seq<Seq<char>> {
    non_empty(raw_lines(content))
}

/// Paths joined with '\n' (no trailing newline).
pub open spec fn join_lines(paths: Seq<Seq<char>>) -> Seq<char>
    decreases paths.len(),
{
    if paths.len() == 0 {
        Seq::empty()
    } else if paths.len() == 1 {
        paths[0]
    } else {
        paths[0].push('\n') + join_lines(paths.drop_first())
    }
}

pub proof fn lemma_first_newline(s: Seq<char>)
    ensures
        -1 <= first_newline(s) < s.len(),
        first_newline(s) >= 0 ==> s[first_newline(s)] == '\n',
        forall|k: int| 0 <= k < (if first_newline(s) < 0 { s.len() as int } else { first_newline(s) }) ==> s[k] != '\n',
    decreases s.len(),
{
    if s.len() > 0 && s[0] != '\n' {
        lemma_first_newline(s.drop_first());
        assert forall|k: int| 0 <= k < (if first_newline(s) < 0 { s.len() as int } else { first_newline(s) }) implies s[k] != '\n' by {
            if k > 0 {
                assert(s.drop_first()[k - 1] == s[k]);
            }
        }
    }
}

proof fn lemma_first_newline_at(a: Seq<char>, b: Seq<char>)
    requires
        forall|k: int| 0 <= k < a.len() ==> a[k] != '\n',
    ensures
        first_newline(a.push('\n') + b) == a.len(),
    decreases a.len(),
{
    let s = a.push('\n') + b;
    if a.len() > 0 {
        assert(s.drop_first() == a.drop_first().push('\n') + b);
        lemma_first_newline_at(a.drop_first(), b);
        assert(s[0] == a[0]);
    } else {
        assert(s[0] == '\n');
    }
}

proof fn lemma_no_newline(a: Seq<char>)
    requires
        forall|k: int| 0 <= k < a.len() ==> a[k] != '\n',
    ensures
        first_newline(a) == -1,
    decreases a.len(),
{
    if a.len() > 0 {
        lemma_no_newline(a.drop_first());
    }
}

proof fn lemma_raw_lines_step(a: Seq<char>, b: Seq<char>)
    requires
        forall|k: int| 0 <= k < a.len() ==> a[k] != '\n',
    ensures
        raw_lines(a.push('\n') + b) == seq![strip_cr(a)] + raw_lines(b),
{
    let s = a.push('\n') + b;
    lemma_first_newline_at(a, b);
    assert(s.subrange(0, a.len() as int) == a);
    assert(s.subrange(a.len() + 1int, s.len() as int) == b);
}

proof fn lemma_non_empty_concat(x: Seq<Seq<char>>, y: Seq<Seq<char>>)
    ensures
        non_empty(x + y) == non_empty(x) + non_empty(y),
{
    Seq::filter_distributes_over_add(x, y, |l: Seq<char>| l.len() > 0);
}

proof fn lemma_non_empty_single(l: Seq<char>)
    ensures
        non_empty(seq![l]) == (if l.len() > 0 { seq![l] } else { Seq::empty() }),
{
    Seq::<Seq<char>>::empty().lemma_filter_push(l, |l: Seq<char>| l.len() > 0);
    reveal(Seq::filter);
    assert(seq![l] == Seq::<Seq<char>>::empty().push(l));
}

/// Reads a library file: one path per line, blank lines skipped. Paths are
/// kept whether or not the file exists right now (offline media stay in the
/// library).
pub fn parse_library_content(content: &str) -> (paths: Vec<String>)
    ensures
        views(paths@) == library_paths(content@),
{
    let s = chars_of(content);
    let mut out: Vec<String> = Vec::new();
    let mut cur: Vec<char> = Vec::new();
    let mut i: usize = 0;
    assert(s@.subrange(0, s@.len() as int) == s@);
    while i < s.len()
        invariant
            i <= s@.len(),
            forall|k: int| 0 <= k < cur@.len() ==> cur@[k] != '\n',
            views(out@) + non_empty(raw_lines(cur@ + s@.subrange(i as int, s@.len() as int)))
                == library_paths(s@),
        decreases s.len() - i,
    {
        let c = s[i];
        let ghost rest = s@.subrange(i + 1, s@.len() as int);
        assert(s@.subrange(i as int, s@.len() as int) == seq![c] + rest);
        if c == '\n' {
            proof {
                assert(cur@ + (seq![c] + rest) == cur@.push('\n') + rest);
                lemma_raw_lines_step(cur@, rest);
                lemma_non_empty_concat(seq![strip_cr(cur@)], raw_lines(rest));
                lemma_non_empty_single(strip_cr(cur@));
            }
            let mut line = cur;
            if line.len() > 0 && line[line.len() - 1] == '\r' {
                line.pop();
            }
            assert(line@ == strip_cr(cur@));
            let ghost before = views(out@);
            if line.len() > 0 {
                out.push(string_of(&line));
                assert(views(out@) == before + seq![line@]);
            }
            assert(views(out@) + non_empty(raw_lines(rest)) == library_paths(s@));
            cur = Vec::new();
            assert(cur@ + rest == rest);
        } else {
            let ghost old_cur = cur@;
            cur.push(c);
            assert(cur@ + rest =~= old_cur + (seq![c] + rest));
        }
        i = i + 1;
    }
    proof {
        assert(cur@ + s@.subrange(s@.len() as int, s@.len() as int) == cur@);
        lemma_no_newline(cur@);
        lemma_non_empty_single(cur@);
    }
    let ghost before = views(out@);
    if cur.len() > 0 {
        out.push(string_of(&cur));
        assert(views(out@) == before + seq![cur@]);
    }
    out
}

/// The lines of `content` as `str::lines` gives them, followed by the text
/// after the last '\n' (empty when the content ends with one).
pub fn split_lines(content: &str) -> (lines: Vec<String>)
    ensures
        views(lines@) == raw_lines(content@),
{
    let s = chars_of(content);
    let mut out: Vec<String> = Vec::new();
    let mut cur: Vec<char> = Vec::new();
    let mut i: usize = 0;
    assert(s@.subrange(0, s@.len() as int) == s@);
    while i < s.len()
        invariant
            i <= s@.len(),
            forall|k: int| 0 <= k < cur@.len() ==> cur@[k] != '\n',
            views(out@) + raw_lines(cur@ + s@.subrange(i as int, s@.len() as int)) == raw_lines(s@),
        decreases s.len() - i,
    {
        let c = s[i];
        let ghost rest = s@.subrange(i + 1, s@.len() as int);
        assert(s@.subrange(i as int, s@.len() as int) == seq![c] + rest);
        if c == '\n' {
            proof {
                assert(cur@ + (seq![c] + rest) == cur@.push('\n') + rest);
                lemma_raw_lines_step(cur@, rest);
            }
            let mut line = cur;
            if line.len() > 0 && line[line.len() - 1] == '\r' {
                line.pop();
            }
            assert(line@ == strip_cr(cur@));
            let ghost before = views(out@);
            out.push(string_of(&line));
            assert(views(out@) == before + seq![line@]);
            assert(views(out@) + raw_lines(rest) =~= raw_lines(s@));
            cur = Vec::new();
            assert(cur@ + rest == rest);
        } else {
            let ghost old_cur = cur@;
            cur.push(c);
            assert(cur@ + rest =~= old_cur + (seq![c] + rest));
        }
        i = i + 1;
    }
    proof {
        assert(cur@ + s@.subrange(s@.len() as int, s@.len() as int) == cur@);
        lemma_no_newline(cur@);
    }
    let ghost before = views(out@);
    out.push(string_of(&cur));
    assert(views(out@) == before + seq![cur@]);
    out
}

/// The content written for a library: the paths joined with '\n'.
pub fn library_content(paths: &Vec<String>) -> (content: String)
    ensures
        content@ == join_lines(views(paths@)),
{
    let mut out: Vec<char> = Vec::new();
    let n = paths.len();
    if n == 0 {
        return String::new();
    }
    let mut i = n - 1;
    let last = chars_of(paths[i].as_str());
    extend_chars(&mut out, &last);
    assert(out@ == join_lines(views(paths@).subrange(i as int, n as int))) by {
        assert(views(paths@).subrange(i as int, n as int) =~= seq![paths@[i as int]@]);
    }
    while i > 0
        invariant
            i < n,
            n == paths@.len(),
            out@ == join_lines(views(paths@).subrange(i as int, n as int)),
        decreases i,
    {
        i = i - 1;
        let mut piece = chars_of(paths[i].as_str());
        piece.push('\n');
        let ghost tail = out@;
        extend_chars(&mut piece, &out);
        let ghost sub = views(paths@).subrange(i as int, n as int);
        assert(sub.drop_first() =~= views(paths@).subrange(i + 1, n as int));
        assert(sub[0] == paths@[i as int]@);
        out = piece;
    }
    assert(views(paths@).subrange(0, n as int) =~= views(paths@));
    string_of(&out)
}

/// Paths that survive a save and a reload unchanged: non-empty, with no
/// line break inside and no trailing '\r'.
pub open spec fn storable_path(p: Seq<char>) -> bool {
    &&& p.len() > 0
    &&& forall|k: int| 0 <= k < p.len() ==> p[k] != '\n'
    &&& p.last() != '\r'
}

/// Saving the library and loading it back gives the same paths.
pub proof fn law_library_round_trip(paths: Seq<Seq<char>>)
    requires
        forall|i: int| 0 <= i < paths.len() ==> storable_path(#[trigger] paths[i]),
    ensures
        library_paths(join_lines(paths)) == paths,
    decreases paths.len(),
{
    if paths.len() == 0 {
        lemma_no_newline(Seq::<char>::empty());
        lemma_non_empty_single(Seq::<char>::empty());
        assert(raw_lines(Seq::<char>::empty()) == seq![Seq::<char>::empty()]);
    } else if paths.len() == 1 {
        assert(storable_path(paths[0]));
        lemma_no_newline(paths[0]);
        lemma_non_empty_single(paths[0]);
        assert(raw_lines(paths[0]) == seq![paths[0]]);
        assert(seq![paths[0]] =~= paths);
    } else {
        let rest = paths.drop_first();
        assert forall|i: int| 0 <= i < rest.len() implies storable_path(#[trigger] rest[i]) by {
            assert(rest[i] == paths[i + 1]);
        }
        law_library_round_trip(rest);
        assert(storable_path(paths[0]));
        lemma_raw_lines_step(paths[0], join_lines(rest));
        assert(strip_cr(paths[0]) == paths[0]);
        lemma_non_empty_concat(seq![paths[0]], raw_lines(join_lines(rest)));
        lemma_non_empty_single(paths[0]);
        assert(seq![paths[0]] + rest =~= paths);
    }
}

/// The images found in a folder listing, in natural order of file name.
pub fn scan_folder_for_images(entries: Vec<String>) -> (images: Vec<String>)
    ensures
        views(images@).to_multiset() == image_paths_of(views(entries@)).to_multiset(),
        naturally_sorted(images@),
{
    sorted_image_paths(entries)
}

/// The extensions offered by the open-file dialog: every supported one.
pub fn image_file_dialog_extensions() -> (v: Vec<String>)
    ensures
        views(v@) == image_extension_list(),
{
    image_extensions()
}

/// `library.txt` inside the app storage directory, if there is one.
pub fn library_file_path(storage_dir: Option<&str>) -> (r: Option<String>)
    ensures
        match storage_dir {
            Some(d) => r matches Some(p) && p@ == join(d@, "library.txt"@),
            None => r is None,
        },
{
    match storage_dir {
        Some(d) => Some(crate::paths::join_path(d, "library.txt")),
        None => None,
    }
}

/// The library after importing `paths` in order: each path that is not
/// in it yet is appended.
pub open spec fn with_imported(library: Seq<Seq<char>>, paths: Seq<Seq<char>>) -> Seq<Seq<char>>
    decreases paths.len(),
{
    if paths.len() == 0 {
        library
    } else {
        let l = with_imported(library, paths.drop_last());
        if l.contains(paths.last()) {
            l
        } else {
            l.push(paths.last())
        }
    }
}

/// Whether `library` holds `path` (compared as text).
fn holds_path(library: &Vec<String>, path: &String) -> (r: bool)
    ensures
        r == views(library@).contains(path@),
{
    let mut found = false;
    for k in 0..library.len()
        invariant
            found == (exists|j: int| 0 <= j < k && library@[j]@ == path@),
    {
        if library[k] == *path {
            found = true;
        }
    }
    proof {
        if views(library@).contains(path@) {
            let j = choose|j: int| 0 <= j < views(library@).len() && views(library@)[j] == path@;
            assert(library@[j]@ == path@);
        }
        if found {
            let j = choose|j: int| 0 <= j < library@.len() && library@[j]@ == path@;
            assert(views(library@)[j] == path@);
        }
    }
    found
}

/// Appends to the library each of `paths` that it does not hold yet.
pub fn add_library_paths(library: &mut Vec<String>, paths: &Vec<String>)
    ensures
        views(final(library)@) == with_imported(views(old(library)@), views(paths@)),
{
    let ghost start = views(library@);
    for i in 0..paths.len()
        invariant
            views(library@) == with_imported(start, views(paths@.subrange(0, i as int))),
    {
        proof {
            assert(views(paths@.subrange(0, i + 1)).drop_last() =~= views(paths@.subrange(0, i as int)));
            assert(views(paths@.subrange(0, i + 1)).last() == paths@[i as int]@);
        }
        let p = &paths[i];
        if !holds_path(library, p) {
            let ghost before = library@;
            library.push(p.clone());
            assert(views(library@) =~= views(before).push(p@));
        }
    }
    assert(paths@.subrange(0, paths@.len() as int) =~= paths@);
}

/// The paths of `paths` that an import would append to `library`, in
/// order, each once.
pub fn filter_new_library_paths(library: &Vec<String>, paths: Vec<String>) -> (r: Vec<String>)
    ensures
        views(library@) + views(r@) == with_imported(views(library@), views(paths@)),
{
    let mut all: Vec<String> = Vec::new();
    for k in 0..library.len()
        invariant
            views(all@) == views(library@.subrange(0, k as int)),
    {
        let ghost before = all@;
        let c = library[k].clone();
        all.push(c);
        assert(views(library@.subrange(0, k + 1)) =~= views(library@.subrange(0, k as int)).push(
            library@[k as int]@,
        ));
        assert(views(all@) =~= views(before).push(c@));
    }
    assert(library@.subrange(0, library@.len() as int) =~= library@);
    let mut fresh: Vec<String> = Vec::new();
    let ghost start = views(library@);
    for i in 0..paths.len()
        invariant
            views(all@) == with_imported(start, views(paths@.subrange(0, i as int))),
            views(all@) == start + views(fresh@),
    {
        proof {
            assert(views(paths@.subrange(0, i + 1)).drop_last() =~= views(paths@.subrange(0, i as int)));
            assert(views(paths@.subrange(0, i + 1)).last() == paths@[i as int]@);
        }
        let p = &paths[i];
        if !holds_path(&all, p) {
            let ghost before_all = all@;
            let ghost before_fresh = fresh@;
            all.push(p.clone());
            fresh.push(p.clone());
            assert(views(all@) =~= views(before_all).push(p@));
            assert(views(fresh@) =~= views(before_fresh).push(p@));
        }
    }
    assert(paths@.subrange(0, paths@.len() as int) =~= paths@);
    fresh
}

proof fn lemma_imported_keeps_and_holds(library: Seq<Seq<char>>, paths: Seq<Seq<char>>)
    ensures
        with_imported(library, paths).len() >= library.len(),
        with_imported(library, paths).subrange(0, library.len() as int) == library,
        forall|i: int| 0 <= i < paths.len() ==> with_imported(library, paths).contains(#[trigger] paths[i]),
        forall|x: Seq<char>| #[trigger] with_imported(library, paths).contains(x) ==> library.contains(x)
            || paths.contains(x),
    decreases paths.len(),
{
    if paths.len() > 0 {
        let rest = paths.drop_last();
        lemma_imported_keeps_and_holds(library, rest);
        let l = with_imported(library, rest);
        assert forall|i: int| 0 <= i < paths.len() implies with_imported(library, paths).contains(
            #[trigger] paths[i],
        ) by {
            if i < paths.len() - 1 {
                assert(rest[i] == paths[i]);
                let j = choose|j: int| 0 <= j < l.len() && l[j] == rest[i];
                if !l.contains(paths.last()) {
                    assert(l.push(paths.last())[j] == paths[i]);
                }
            } else {
                if !l.contains(paths.last()) {
                    assert(l.push(paths.last())[l.len() as int] == paths[i]);
                }
            }
        }
        assert forall|x: Seq<char>| #[trigger] with_imported(library, paths).contains(x) implies library.contains(x)
            || paths.contains(x) by {
            if !l.contains(x) {
                assert(x == paths.last());
                assert(paths[paths.len() - 1] == x);
            } else if !library.contains(x) {
                assert(rest.contains(x));
                let j = choose|j: int| 0 <= j < rest.len() && rest[j] == x;
                assert(paths[j] == x);
            }
        }
        if !l.contains(paths.last()) {
            assert(l.push(paths.last()).subrange(0, library.len() as int) =~= l.subrange(0, library.len() as int));
        }
    }
}

proof fn lemma_import_of_held(library: Seq<Seq<char>>, paths: Seq<Seq<char>>)
    requires
        forall|i: int| 0 <= i < paths.len() ==> library.contains(#[trigger] paths[i]),
    ensures
        with_imported(library, paths) == library,
    decreases paths.len(),
{
    if paths.len() > 0 {
        let rest = paths.drop_last();
        assert forall|i: int| 0 <= i < rest.len() implies library.contains(#[trigger] rest[i]) by {
            assert(rest[i] == paths[i]);
        }
        lemma_import_of_held(library, rest);
        assert(library.contains(paths[paths.len() - 1]));
    }
}

/// Importing the same paths a second time changes nothing.
pub proof fn law_import_idempotent(library: Seq<Seq<char>>, paths: Seq<Seq<char>>)
    ensures
        with_imported(with_imported(library, paths), paths) == with_imported(library, paths),
{
    lemma_imported_keeps_and_holds(library, paths);
    lemma_import_of_held(with_imported(library, paths), paths);
}

/// An import keeps the library free of duplicates.
pub proof fn law_import_no_duplicates(library: Seq<Seq<char>>, paths: Seq<Seq<char>>)
    requires
        library.no_duplicates(),
    ensures
        with_imported(library, paths).no_duplicates(),
    decreases paths.len(),
{
    if paths.len() > 0 {
        law_import_no_duplicates(library, paths.drop_last());
    }
}

} // verus!
