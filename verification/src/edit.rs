//! Where an edited copy of a photo is saved, and the undo/redo history of
//! committed edit states.

use vstd::prelude::*;
use crate::paths::{extension, extension_of, file_name, file_stem, file_stem_of, last_dot, name_start, with_file_name, with_file_name_chars, lemma_last_dot_bound, lemma_name_start_bound};
use crate::text::{chars_of, extend_chars, string_of};

verus! {

/// "<stem>_edited.<ext>" (or "<stem>_edited" without an extension) next to
/// the original; a path without a file name uses the stem "image".
pub open spec fn edited_name(p: Seq<char>) -> Seq<char> {
    let stem = match file_stem(p) {
        Some(s) => s,
        None => "image"@,
    };
    match extension(p) {
        Some(e) => stem + "_edited."@ + e,
        None => stem + "_edited"@,
    }
}

pub open spec fn edited_path(p: Seq<char>) -> Seq<char> {
    with_file_name(p, edited_name(p))
}

/// The edited copy of a file stays in the file's directory under the name
/// "<stem>_edited.<ext>" ("<stem>_edited" without an extension), so it never
/// is the original itself.
pub proof fn law_edited_copy_sits_beside_the_original(p: Seq<char>)
    requires
        file_name(p) is Some,
    ensures
        edited_path(p) == p.subrange(0, name_start(p) as int) + edited_name(p),
        edited_path(p).len() == p.len() + 7,
        edited_path(p) != p,
{
    reveal_strlit("_edited.");
    reveal_strlit("_edited");
    lemma_name_start_bound(p);
    let n = file_name(p)->0;
    lemma_last_dot_bound(n);
    assert(n.len() == p.len() - name_start(p));
    if last_dot(n) > 0 {
        assert(file_stem(p) == Some(n.subrange(0, last_dot(n))));
        assert(edited_name(p).len() == last_dot(n) + 8 + (n.len() - last_dot(n) - 1));
    } else {
        assert(file_stem(p) == Some(n));
        assert(edited_name(p).len() == n.len() + 7);
    }
}

/// The path an edited copy of `original` is saved to.
pub fn edited_save_path(original: &str) -> (r: String)
    ensures
        r@ == edited_path(original@),
{
    let p = chars_of(original);
    let mut name = match file_stem_of(&p) {
        Some(s) => s,
        None => chars_of("image"),
    };
    match extension_of(&p) {
        Some(e) => {
            extend_chars(&mut name, &chars_of("_edited."));
            extend_chars(&mut name, &e);
        },
        None => {
            extend_chars(&mut name, &chars_of("_edited"));
        },
    }
    string_of(&with_file_name_chars(&p, &name))
}

/// Committed states: `undo` and `redo` stacks around the committed state,
/// plus the live state being edited.
pub struct UndoHistory<T> {
    undo_stack: Vec<T>,
    redo_stack: Vec<T>,
    committed: T,
    pub current: T,
}

/// The history as plain sequences.
pub struct UndoHistoryView<T> {
    pub undo: Seq<T>,
    pub redo: Seq<T>,
    pub committed: T,
    pub current: T,
}

/// The history after `commit`.
pub open spec fn committed_spec<T>(h: UndoHistoryView<T>) -> UndoHistoryView<T> {
    UndoHistoryView { undo: h.undo.push(h.committed), redo: Seq::empty(), committed: h.current, current: h.current }
}

/// The history after `undo` (unchanged when there is nothing to undo).
pub open spec fn undone_spec<T>(h: UndoHistoryView<T>) -> UndoHistoryView<T> {
    if h.undo.len() > 0 {
        UndoHistoryView {
            undo: h.undo.drop_last(),
            redo: h.redo.push(h.committed),
            committed: h.undo.last(),
            current: h.undo.last(),
        }
    } else {
        h
    }
}

/// The history after `redo` (unchanged when there is nothing to redo).
pub open spec fn redone_spec<T>(h: UndoHistoryView<T>) -> UndoHistoryView<T> {
    if h.redo.len() > 0 {
        UndoHistoryView {
            undo: h.undo.push(h.committed),
            redo: h.redo.drop_last(),
            committed: h.redo.last(),
            current: h.redo.last(),
        }
    } else {
        h
    }
}

/// The history after `reset_all(initial)`.
pub open spec fn reset_spec<T>(h: UndoHistoryView<T>, initial: T) -> UndoHistoryView<T> {
    UndoHistoryView { undo: h.undo.push(h.committed), redo: Seq::empty(), committed: initial, current: initial }
}

impl<T: Copy> UndoHistory<T> {
    pub closed spec fn view(&self) -> UndoHistoryView<T> {
        UndoHistoryView {
            undo: self.undo_stack@,
            redo: self.redo_stack@,
            committed: self.committed,
            current: self.current,
        }
    }

    /// An empty history whose committed and current states are `initial`.
    pub fn new(initial: T) -> (h: Self)
        ensures
            h.view().undo == Seq::<T>::empty(),
            h.view().redo == Seq::<T>::empty(),
            h.view().committed == initial,
            h.view().current == initial,
    {
        UndoHistory { undo_stack: Vec::new(), redo_stack: Vec::new(), committed: initial, current: initial }
    }

    /// Ends an edit: the previous committed state becomes undoable, the
    /// current state becomes committed, and redo is cleared.
    pub fn commit(&mut self)
        ensures
            final(self).view() == committed_spec(old(self).view()),
    {
        self.undo_stack.push(self.committed);
        self.committed = self.current;
        self.redo_stack.clear();
    }

    /// Restores the previous committed state; returns whether there was one.
    pub fn undo(&mut self) -> (done: bool)
        ensures
            done == (old(self).view().undo.len() > 0),
            final(self).view() == undone_spec(old(self).view()),
    {
        match self.undo_stack.pop() {
            Some(prev) => {
                self.redo_stack.push(self.committed);
                self.committed = prev;
                self.current = prev;
                true
            },
            None => false,
        }
    }

    /// Re-applies the most recently undone state; returns whether there was one.
    pub fn redo(&mut self) -> (done: bool)
        ensures
            done == (old(self).view().redo.len() > 0),
            final(self).view() == redone_spec(old(self).view()),
    {
        match self.redo_stack.pop() {
            Some(next) => {
                self.undo_stack.push(self.committed);
                self.committed = next;
                self.current = next;
                true
            },
            None => false,
        }
    }

    /// Resets to `initial` as an undoable step.
    pub fn reset_all(&mut self, initial: T)
        ensures
            final(self).view() == reset_spec(old(self).view(), initial),
    {
        self.undo_stack.push(self.committed);
        self.redo_stack.clear();
        self.committed = initial;
        self.current = initial;
    }

    /// The live state being edited.
    pub fn current(&self) -> (c: T)
        ensures
            c == self.view().current,
    {
        self.current
    }

    /// Replaces the live state (an edit in progress; `commit` makes it a
    /// step of the history). Nothing else changes.
    pub fn set_current(&mut self, state: T)
        ensures
            final(self).view() == (UndoHistoryView { current: state, ..old(self).view() }),
    {
        self.current = state;
    }

    pub fn can_undo(&self) -> (b: bool)
        ensures
            b == (self.view().undo.len() > 0),
    {
        self.undo_stack.len() > 0
    }

    pub fn can_redo(&self) -> (b: bool)
        ensures
            b == (self.view().redo.len() > 0),
    {
        self.redo_stack.len() > 0
    }
}

/// Undo right after a commit restores the state committed before it and
/// the history before it; redo then brings the commit back exactly.
pub proof fn law_undo_redo_round_trip<T>(h: UndoHistoryView<T>)
    ensures
        undone_spec(committed_spec(h)).committed == h.committed,
        undone_spec(committed_spec(h)).current == h.committed,
        undone_spec(committed_spec(h)).undo == h.undo,
        redone_spec(undone_spec(committed_spec(h))) == committed_spec(h),
{
    let c = committed_spec(h);
    assert(c.undo.drop_last() =~= h.undo);
    let u = undone_spec(c);
    assert(u.redo.drop_last() =~= c.redo);
    assert(u.undo.push(u.committed) =~= c.undo);
}

/// The history with its live state set back to the committed one.
pub open spec fn settled<T>(h: UndoHistoryView<T>) -> UndoHistoryView<T> {
    UndoHistoryView { current: h.committed, ..h }
}

/// Redo undoes an undo: after any undo, redo brings back the committed
/// state from before it (as the live state too) and both stacks as they
/// were.
pub proof fn law_redo_inverts_undo<T>(h: UndoHistoryView<T>)
    requires
        h.undo.len() > 0,
    ensures
        redone_spec(undone_spec(h)) == settled(h),
{
    let u = undone_spec(h);
    assert(u.redo.last() == h.committed);
    assert(u.redo.drop_last() =~= h.redo);
    assert(u.undo.push(u.committed) =~= h.undo);
}

/// `n` undos in a row.
pub open spec fn undone_times<T>(h: UndoHistoryView<T>, n: nat) -> UndoHistoryView<T>
    decreases n,
{
    if n == 0 {
        h
    } else {
        undone_spec(undone_times(h, (n - 1) as nat))
    }
}

/// `n` redos in a row.
pub open spec fn redone_times<T>(h: UndoHistoryView<T>, n: nat) -> UndoHistoryView<T>
    decreases n,
{
    if n == 0 {
        h
    } else {
        redone_spec(redone_times(h, (n - 1) as nat))
    }
}

proof fn lemma_undone_times<T>(h: UndoHistoryView<T>, m: nat)
    requires
        m <= h.undo.len(),
    ensures
        undone_times(h, m).undo.len() == h.undo.len() - m,
        m > 0 ==> undone_times(h, m) == settled(undone_times(h, m)),
    decreases m,
{
    if m > 0 {
        lemma_undone_times(h, (m - 1) as nat);
    }
}

/// Redo steps back through undone states in reverse order: after `n` undos,
/// the `i`-th redo reaches the state `n - i` undos away from the start, and
/// `n` redos restore the committed state the undos started from.
pub proof fn law_redos_retrace_undos<T>(h: UndoHistoryView<T>, n: nat, i: nat)
    requires
        0 < n <= h.undo.len(),
        i <= n,
    ensures
        redone_times(undone_times(h, n), i) == (if i < n {
            undone_times(h, (n - i) as nat)
        } else {
            settled(h)
        }),
    decreases i,
{
    if i == 0 {
        lemma_undone_times(h, n);
    } else {
        law_redos_retrace_undos(h, n, (i - 1) as nat);
        let m = (n - i) as nat;
        lemma_undone_times(h, m);
        let g = undone_times(h, m);
        assert(g.undo.len() > 0);
        law_redo_inverts_undo(g);
        if m > 0 {
            assert(settled(g) == g);
        }
        assert(undone_times(h, (m + 1) as nat) == undone_spec(g));
    }
}

/// A reset can be undone: undo right after `reset_all` restores the
/// committed state from before the reset.
pub proof fn law_reset_is_undoable<T>(h: UndoHistoryView<T>, initial: T)
    ensures
        undone_spec(reset_spec(h, initial)).committed == h.committed,
        undone_spec(reset_spec(h, initial)).undo == h.undo,
{
    assert(reset_spec(h, initial).undo.drop_last() =~= h.undo);
}

} // verus!
