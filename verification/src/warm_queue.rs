//! Warming the decoded-image cache for imported photos in the background:
//! one image warms at a time, the others wait in import order, and only
//! images whose decodes are cached (SVG and RAW) are queued, each once.

use vstd::prelude::*;
use crate::decode::{caches_decoded, path_uses_persisted_decoded_cache};
use crate::collection::string_views;

verus! {

/// The image being warmed and those waiting, oldest first.
pub struct WarmQueue {
    pub in_flight: Option<String>,
    pub pending: Vec<String>,
}

pub open spec fn opt_view(o: Option<String>) -> Option<Seq<char>> {
    match o {
        Some(s) => Some(s@),
        None => None,
    }
}

/// The waiting images after `paths` are imported: each image whose decode
/// is cached joins the back unless it is being warmed or already waits.
pub open spec fn queued_after(
    in_flight: Option<Seq<char>>,
    pending: Seq<Seq<char>>,
    paths: Seq<Seq<char>>,
) -> Seq<Seq<char>>
    decreases paths.len(),
{
    if paths.len() == 0 {
        pending
    } else {
        let before = queued_after(in_flight, pending, paths.drop_last());
        let p = paths.last();
        if caches_decoded(p) && in_flight != Some(p) && !before.contains(p) {
            before.push(p)
        } else {
            before
        }
    }
}

/// No image is queued twice, nor while it is being warmed, and only images
/// whose decodes are cached are queued.
pub open spec fn well_queued(in_flight: Option<Seq<char>>, pending: Seq<Seq<char>>) -> bool {
    &&& forall|i: int, j: int| 0 <= i < j < pending.len() ==> pending[i] != pending[j]
    &&& forall|i: int| 0 <= i < pending.len() ==> in_flight != Some(#[trigger] pending[i])
    &&& forall|i: int| 0 <= i < pending.len() ==> caches_decoded(#[trigger] pending[i])
    &&& (in_flight matches Some(p) ==> caches_decoded(p))
}

/// Importing keeps the queue well formed.
pub proof fn law_import_keeps_queue_well_formed(
    in_flight: Option<Seq<char>>,
    pending: Seq<Seq<char>>,
    paths: Seq<Seq<char>>,
)
    requires
        well_queued(in_flight, pending),
    ensures
        well_queued(in_flight, queued_after(in_flight, pending, paths)),
        queued_after(in_flight, pending, paths).len() >= pending.len(),
        forall|i: int| 0 <= i < pending.len() ==> queued_after(in_flight, pending, paths)[i] == pending[i],
    decreases paths.len(),
{
    if paths.len() > 0 {
        law_import_keeps_queue_well_formed(in_flight, pending, paths.drop_last());
        let before = queued_after(in_flight, pending, paths.drop_last());
        let p = paths.last();
        if caches_decoded(p) && in_flight != Some(p) && !before.contains(p) {
            let after = before.push(p);
            assert forall|i: int, j: int| 0 <= i < j < after.len() implies after[i] != after[j] by {
                if j == before.len() {
                    assert(before.contains(before[i]));
                }
            }
            assert forall|i: int| 0 <= i < after.len() implies in_flight != Some(#[trigger] after[i]) by {
                if i < before.len() {
                    assert(after[i] == before[i]);
                }
            }
            assert forall|i: int| 0 <= i < after.len() implies caches_decoded(#[trigger] after[i]) by {
                if i < before.len() {
                    assert(after[i] == before[i]);
                }
            }
        }
    }
}

/// Every imported image whose decode is cached ends up warming or waiting.
pub proof fn law_imported_images_are_warmed(
    in_flight: Option<Seq<char>>,
    pending: Seq<Seq<char>>,
    paths: Seq<Seq<char>>,
    k: int,
)
    requires
        0 <= k < paths.len(),
        caches_decoded(paths[k]),
    ensures
        in_flight == Some(paths[k]) || queued_after(in_flight, pending, paths).contains(paths[k]),
    decreases paths.len(),
{
    let before = queued_after(in_flight, pending, paths.drop_last());
    if k < paths.len() - 1 {
        assert(paths.drop_last()[k] == paths[k]);
        law_imported_images_are_warmed(in_flight, pending, paths.drop_last(), k);
        if before.contains(paths[k]) {
            let i = choose|i: int| 0 <= i < before.len() && before[i] == paths[k];
            lemma_queued_after_extends(in_flight, pending, paths);
            assert(queued_after(in_flight, pending, paths)[i] == paths[k]);
        }
    } else {
        if in_flight != Some(paths[k]) && !before.contains(paths[k]) {
            assert(queued_after(in_flight, pending, paths).last() == paths[k]);
        }
    }
}

proof fn lemma_queued_after_extends(
    in_flight: Option<Seq<char>>,
    pending: Seq<Seq<char>>,
    paths: Seq<Seq<char>>,
)
    requires
        paths.len() > 0,
    ensures
        ({
            let before = queued_after(in_flight, pending, paths.drop_last());
            let after = queued_after(in_flight, pending, paths);
            after.len() >= before.len() && forall|i: int| 0 <= i < before.len() ==> after[i] == before[i]
        }),
{
}

impl WarmQueue {
    pub open spec fn in_flight_view(&self) -> Option<Seq<char>> {
        opt_view(self.in_flight)
    }

    pub open spec fn pending_view(&self) -> Seq<Seq<char>> {
        string_views(self.pending@)
    }

    /// An idle queue.
    pub fn new() -> (q: Self)
        ensures
            q.in_flight is None,
            q.pending_view() == Seq::<Seq<char>>::empty(),
    {
        let q = WarmQueue { in_flight: None, pending: Vec::new() };
        assert(q.pending_view() =~= Seq::<Seq<char>>::empty());
        q
    }

    /// Queues the newly imported `paths` (see `queued_after`); then, when
    /// nothing warms, the oldest waiting image starts and is returned for
    /// the caller to warm.
    pub fn enqueue_paths(&mut self, paths: &Vec<String>) -> (started: Option<String>)
        ensures
            ({
                let queued = queued_after(old(self).in_flight_view(), old(self).pending_view(), string_views(paths@));
                if old(self).in_flight is Some || queued.len() == 0 {
                    &&& started is None
                    &&& final(self).in_flight_view() == old(self).in_flight_view()
                    &&& final(self).pending_view() == queued
                } else {
                    &&& started matches Some(s) && s@ == queued[0]
                    &&& final(self).in_flight_view() == Some(queued[0])
                    &&& final(self).pending_view() == queued.drop_first()
                }
            }),
    {
        let ghost flight = self.in_flight_view();
        let ghost start = self.pending_view();
        let ghost all = string_views(paths@);
        let mut i: usize = 0;
        while i < paths.len()
            invariant
                i <= paths@.len(),
                all == string_views(paths@),
                self.in_flight_view() == flight,
                self.pending_view() == queued_after(flight, start, all.subrange(0, i as int)),
            decreases paths@.len() - i,
        {
            let ghost before = self.pending_view();
            assert(all.subrange(0, i + 1).drop_last() =~= all.subrange(0, i as int));
            assert(all.subrange(0, i + 1).last() == paths@[i as int]@);
            let path = &paths[i];
            if path_uses_persisted_decoded_cache(path.as_str()) {
                let busy = match &self.in_flight {
                    Some(f) => *f == *path,
                    None => false,
                };
                let waiting = self.waits(path.as_str());
                if !busy && !waiting {
                    self.pending.push(path.clone());
                    assert(self.pending_view() =~= before.push(paths@[i as int]@));
                }
            }
            i = i + 1;
        }
        assert(all.subrange(0, paths@.len() as int) =~= all);
        self.start_next_if_idle()
    }

    /// Whether `path` waits.
    pub fn waits(&self, path: &str) -> (r: bool)
        ensures
            r == self.pending_view().contains(path@),
    {
        let p = String::from_str(path);
        let mut k: usize = 0;
        while k < self.pending.len()
            invariant
                k <= self.pending@.len(),
                p@ == path@,
                forall|j: int| 0 <= j < k ==> self.pending@[j]@ != path@,
            decreases self.pending.len() - k,
        {
            if self.pending[k] == p {
                assert(self.pending_view()[k as int] == path@);
                return true;
            }
            k = k + 1;
        }
        proof {
            if self.pending_view().contains(path@) {
                let j = choose|j: int| 0 <= j < self.pending_view().len() && self.pending_view()[j] == path@;
                assert(self.pending@[j]@ == path@);
            }
        }
        false
    }

    /// Starts the oldest waiting image when nothing warms, returning it.
    pub fn start_next_if_idle(&mut self) -> (started: Option<String>)
        ensures
            if old(self).in_flight is Some || old(self).pending@.len() == 0 {
                &&& started is None
                &&& final(self).in_flight_view() == old(self).in_flight_view()
                &&& final(self).pending_view() == old(self).pending_view()
            } else {
                &&& started matches Some(s) && s@ == old(self).pending_view()[0]
                &&& final(self).in_flight_view() == Some(old(self).pending_view()[0])
                &&& final(self).pending_view() == old(self).pending_view().drop_first()
            },
    {
        if self.in_flight.is_some() || self.pending.len() == 0 {
            return None;
        }
        let ghost before = self.pending@;
        let p = self.pending.remove(0);
        assert(self.pending@ =~= before.drop_first());
        assert(self.pending_view() =~= string_views(before).drop_first());
        let started = p.clone();
        self.in_flight = Some(p);
        Some(started)
    }

    /// A warm of `path` finished (well or not): the image stops warming when
    /// it is the one warming, and the next waiting image starts.
    pub fn complete(&mut self, path: &str) -> (started: Option<String>)
        ensures
            ({
                let cleared = if old(self).in_flight_view() == Some(path@) {
                    None
                } else {
                    old(self).in_flight_view()
                };
                if cleared is Some || old(self).pending@.len() == 0 {
                    &&& started is None
                    &&& final(self).in_flight_view() == cleared
                    &&& final(self).pending_view() == old(self).pending_view()
                } else {
                    &&& started matches Some(s) && s@ == old(self).pending_view()[0]
                    &&& final(self).in_flight_view() == Some(old(self).pending_view()[0])
                    &&& final(self).pending_view() == old(self).pending_view().drop_first()
                }
            }),
    {
        let p = String::from_str(path);
        let same = match &self.in_flight {
            Some(f) => *f == p,
            None => false,
        };
        if same {
            self.in_flight = None;
        }
        self.start_next_if_idle()
    }
}

} // verus!
