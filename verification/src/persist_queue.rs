//! The queue of local-edit bakes: at most one bake runs at a time, later
//! requests wait in order with at most one per image, and the decisions
//! around a bake that an abandoned load still owes.

use vstd::prelude::*;
use crate::session_cache::BaseImageSource;

verus! {

/// A bake request: its id, the image it is for, and what the bake itself
/// needs (pixels, edit state, lens correction), which the queue only carries.
pub struct PersistRequest<T> {
    pub request_id: u64,
    pub path: String,
    pub payload: T,
}

/// The bake queue: the request being baked, and those waiting, oldest first.
pub struct PersistQueue<T> {
    pub in_flight: Option<PersistRequest<T>>,
    pub pending: Vec<PersistRequest<T>>,
}

/// `s` without the requests for image `p` (the others keep their order).
pub open spec fn without_path<T>(s: Seq<PersistRequest<T>>, p: Seq<char>) -> Seq<PersistRequest<T>>
    decreases s.len(),
{
    if s.len() == 0 {
        s
    } else if s[0].path@ == p {
        without_path(s.drop_first(), p)
    } else {
        seq![s[0]] + without_path(s.drop_first(), p)
    }
}

/// No image has two requests in `s`.
pub open spec fn paths_unique<T>(s: Seq<PersistRequest<T>>) -> bool {
    forall|i: int, j: int| 0 <= i < j < s.len() ==> s[i].path@ != s[j].path@
}

/// Request ids grow from the oldest request to the newest.
pub open spec fn ids_increasing<T>(s: Seq<PersistRequest<T>>) -> bool {
    forall|i: int, j: int| 0 <= i < j < s.len() ==> s[i].request_id < s[j].request_id
}

pub open spec fn id_or_zero<T>(r: Option<PersistRequest<T>>) -> int {
    match r {
        Some(r) => r.request_id as int,
        None => 0,
    }
}

pub open spec fn last_id_or_zero<T>(s: Seq<PersistRequest<T>>) -> int {
    if s.len() == 0 {
        0
    } else {
        s.last().request_id as int
    }
}

/// The id for the next request: one past the larger of the running
/// request's id and the newest waiting request's id.
pub open spec fn next_id<T>(in_flight: Option<PersistRequest<T>>, pending: Seq<PersistRequest<T>>) -> int {
    let a = id_or_zero(in_flight);
    let b = last_id_or_zero(pending);
    (if a >= b { a } else { b }) + 1
}

/// Index of the newest waiting request for image `p`, or -1.
pub open spec fn newest_index<T>(s: Seq<PersistRequest<T>>, p: Seq<char>) -> int
    decreases s.len(),
{
    if s.len() == 0 {
        -1
    } else if s.last().path@ == p {
        s.len() - 1
    } else {
        newest_index(s.drop_last(), p)
    }
}

/// The newest request still racing for image `p`: the newest waiting one,
/// else the running one when it is for `p`.
pub open spec fn newest_for<T>(
    in_flight: Option<PersistRequest<T>>,
    pending: Seq<PersistRequest<T>>,
    p: Seq<char>,
) -> Option<PersistRequest<T>> {
    let i = newest_index(pending, p);
    if i >= 0 {
        Some(pending[i])
    } else if in_flight is Some && in_flight->0.path@ == p {
        in_flight
    } else {
        None
    }
}

/// The queue after `request` is queued: it runs when nothing runs, else it
/// waits at the back in place of any request waiting for the same image.
pub open spec fn after_enqueue<T>(
    in_flight: Option<PersistRequest<T>>,
    pending: Seq<PersistRequest<T>>,
    request: PersistRequest<T>,
) -> (Option<PersistRequest<T>>, Seq<PersistRequest<T>>) {
    if in_flight is None {
        (Some(request), pending)
    } else {
        (in_flight, without_path(pending, request.path@).push(request))
    }
}

proof fn lemma_newest_index<T>(s: Seq<PersistRequest<T>>, p: Seq<char>)
    ensures
        -1 <= newest_index(s, p) < s.len(),
        newest_index(s, p) >= 0 ==> s[newest_index(s, p)].path@ == p,
        forall|j: int| newest_index(s, p) < j < s.len() ==> s[j].path@ != p,
    decreases s.len(),
{
    if s.len() > 0 && s.last().path@ != p {
        lemma_newest_index(s.drop_last(), p);
        assert forall|j: int| newest_index(s, p) < j < s.len() implies s[j].path@ != p by {
            if j < s.len() - 1 {
                assert(s[j] == s.drop_last()[j]);
            }
        }
    }
}

/// What `without_path` keeps: no request for `p`, only requests of `s`, in
/// their order, so uniqueness and growing ids carry over.
proof fn lemma_without_path<T>(s: Seq<PersistRequest<T>>, p: Seq<char>)
    ensures
        forall|j: int| 0 <= j < without_path(s, p).len() ==> #[trigger] without_path(s, p)[j].path@ != p,
        forall|j: int| 0 <= j < without_path(s, p).len() ==> s.contains(#[trigger] without_path(s, p)[j]),
        forall|i: int| 0 <= i < s.len() && s[i].path@ != p ==> without_path(s, p).contains(#[trigger] s[i]),
        paths_unique(s) ==> paths_unique(without_path(s, p)),
        ids_increasing(s) ==> ids_increasing(without_path(s, p)),
    decreases s.len(),
{
    if s.len() > 0 {
        let rest = s.drop_first();
        lemma_without_path(rest, p);
        let w = without_path(rest, p);
        assert forall|j: int| 0 <= j < w.len() implies s.contains(#[trigger] w[j]) by {
            let k = choose|k: int| 0 <= k < rest.len() && rest[k] == w[j];
            assert(s[k + 1] == w[j]);
        }
        assert forall|i: int| 0 <= i < s.len() && s[i].path@ != p implies without_path(s, p).contains(
            #[trigger] s[i],
        ) by {
            if i == 0 {
                assert(without_path(s, p)[0] == s[0]);
            } else {
                assert(s[i] == rest[i - 1]);
                assert(w.contains(rest[i - 1]));
                let k = choose|k: int| 0 <= k < w.len() && w[k] == rest[i - 1];
                if s[0].path@ != p {
                    assert(without_path(s, p) == seq![s[0]] + w);
                    assert(without_path(s, p)[k + 1] == w[k]);
                } else {
                    assert(without_path(s, p) == w);
                }
            }
        }
        if s[0].path@ != p {
            let out = seq![s[0]] + w;
            assert(without_path(s, p) == out);
            if paths_unique(s) {
                assert(paths_unique(rest));
                assert forall|i: int, j: int| 0 <= i < j < out.len() implies out[i].path@ != out[j].path@ by {
                    if i == 0 {
                        assert(rest.contains(w[j - 1]));
                        let k = choose|k: int| 0 <= k < rest.len() && rest[k] == w[j - 1];
                        assert(s[k + 1] == w[j - 1]);
                    } else {
                        assert(out[i] == w[i - 1] && out[j] == w[j - 1]);
                    }
                }
            }
            if ids_increasing(s) {
                assert(ids_increasing(rest));
                assert forall|i: int, j: int| 0 <= i < j < out.len() implies out[i].request_id
                    < out[j].request_id by {
                    if i == 0 {
                        assert(rest.contains(w[j - 1]));
                        let k = choose|k: int| 0 <= k < rest.len() && rest[k] == w[j - 1];
                        assert(s[k + 1] == w[j - 1]);
                    } else {
                        assert(out[i] == w[i - 1] && out[j] == w[j - 1]);
                    }
                }
            }
        } else {
            if paths_unique(s) {
                assert(paths_unique(rest));
            }
            if ids_increasing(s) {
                assert(ids_increasing(rest));
            }
        }
    }
}

/// Queuing never leaves two waiting requests for one image.
pub proof fn law_one_waiting_request_per_image<T>(
    in_flight: Option<PersistRequest<T>>,
    pending: Seq<PersistRequest<T>>,
    request: PersistRequest<T>,
)
    requires
        paths_unique(pending),
    ensures
        paths_unique(after_enqueue(in_flight, pending, request).1),
{
    lemma_without_path(pending, request.path@);
    let w = without_path(pending, request.path@);
    assert(w.push(request)[w.len() as int] == request);
    assert forall|i: int, j: int| 0 <= i < j < w.push(request).len() implies w.push(request)[i].path@
        != w.push(request)[j].path@ by {
        assert(w.push(request)[i] == w[i]);
    }
}

/// Ids keep growing from the oldest waiting request to the newest when each
/// queued request takes an id above those waiting (as `next_request_id`
/// gives).
pub proof fn law_ids_keep_growing<T>(
    in_flight: Option<PersistRequest<T>>,
    pending: Seq<PersistRequest<T>>,
    request: PersistRequest<T>,
)
    requires
        ids_increasing(pending),
        forall|i: int| 0 <= i < pending.len() ==> #[trigger] pending[i].request_id < request.request_id,
    ensures
        ids_increasing(after_enqueue(in_flight, pending, request).1),
{
    lemma_without_path(pending, request.path@);
    let w = without_path(pending, request.path@);
    assert forall|i: int, j: int| 0 <= i < j < w.push(request).len() implies w.push(request)[i].request_id
        < w.push(request)[j].request_id by {
        assert(w.push(request)[i] == w[i]);
        assert(pending.contains(w[i]));
        if j == w.len() {
            assert(w.push(request)[j] == request);
        }
    }
}

/// The request queued last is the newest racing for its image, whenever
/// requests wait only behind a running bake.
pub proof fn law_last_queued_is_newest<T>(
    in_flight: Option<PersistRequest<T>>,
    pending: Seq<PersistRequest<T>>,
    request: PersistRequest<T>,
)
    requires
        in_flight is Some || pending.len() == 0,
    ensures
        newest_for(
            after_enqueue(in_flight, pending, request).0,
            after_enqueue(in_flight, pending, request).1,
            request.path@,
        ) == Some(request),
{
    if in_flight is Some {
        let w = without_path(pending, request.path@).push(request);
        assert(w.drop_last() == without_path(pending, request.path@));
        assert(newest_index(w, request.path@) == w.len() - 1);
    }
}

impl<T> PersistQueue<T> {
    /// An idle queue.
    pub fn new() -> (q: Self)
        ensures
            q.in_flight is None,
            q.pending@ == Seq::<PersistRequest<T>>::empty(),
    {
        PersistQueue { in_flight: None, pending: Vec::new() }
    }

    /// The id for the next request; it exceeds every id still queued or
    /// running while waiting ids grow from oldest to newest.
    pub fn next_request_id(&self) -> (id: u64)
        requires
            next_id(self.in_flight, self.pending@) <= u64::MAX,
        ensures
            id == next_id(self.in_flight, self.pending@),
            self.in_flight is Some ==> self.in_flight->0.request_id < id,
            ids_increasing(self.pending@) ==> forall|i: int|
                0 <= i < self.pending@.len() ==> #[trigger] self.pending@[i].request_id < id,
    {
        let a: u64 = match &self.in_flight {
            Some(r) => r.request_id,
            None => 0,
        };
        let n = self.pending.len();
        let b: u64 = if n > 0 {
            self.pending[n - 1].request_id
        } else {
            0
        };
        let m: u64 = if a >= b { a } else { b };
        m + 1
    }

    /// Queues `request`: it runs at once when nothing runs (`true`: the
    /// caller starts it); otherwise it waits at the back and replaces any
    /// request already waiting for the same image.
    pub fn enqueue(&mut self, request: PersistRequest<T>) -> (started: bool)
        ensures
            started == old(self).in_flight is None,
            (final(self).in_flight, final(self).pending@) == after_enqueue(
                old(self).in_flight,
                old(self).pending@,
                request,
            ),
    {
        if self.in_flight.is_none() {
            self.in_flight = Some(request);
            return true;
        }
        let ghost before = self.pending@;
        let mut rest: Vec<PersistRequest<T>> = Vec::new();
        std::mem::swap(&mut rest, &mut self.pending);
        let mut kept: Vec<PersistRequest<T>> = Vec::new();
        while rest.len() > 0
            invariant
                kept@ + without_path(rest@, request.path@) == without_path(before, request.path@),
            decreases rest.len(),
        {
            let ghost r0 = rest@;
            let r = rest.remove(0);
            assert(rest@ =~= r0.drop_first());
            if r.path != request.path {
                proof {
                    assert(without_path(r0, request.path@) == seq![r] + without_path(rest@, request.path@));
                    assert(kept@.push(r) + without_path(rest@, request.path@) =~= kept@ + without_path(
                        r0,
                        request.path@,
                    ));
                }
                kept.push(r);
            }
        }
        assert(kept@ + without_path(rest@, request.path@) =~= kept@);
        kept.push(request);
        self.pending = kept;
        false
    }

    /// Starts the oldest waiting request when nothing runs (`true`: the
    /// caller starts it).
    pub fn start_next_if_idle(&mut self) -> (started: bool)
        ensures
            started == (old(self).in_flight is None && old(self).pending@.len() > 0),
            started ==> final(self).in_flight == Some(old(self).pending@[0]) && final(self).pending@
                == old(self).pending@.drop_first(),
            !started ==> final(self).in_flight == old(self).in_flight && final(self).pending@ == old(
                self,
            ).pending@,
    {
        if self.in_flight.is_some() || self.pending.len() == 0 {
            return false;
        }
        let ghost before = self.pending@;
        let r = self.pending.remove(0);
        assert(self.pending@ =~= before.drop_first());
        self.in_flight = Some(r);
        true
    }

    /// Takes the running request when the finished bake is it (same image
    /// and id); a bake that finished for another request leaves the queue
    /// as it is.
    pub fn take_completed(&mut self, path: &str, request_id: u64) -> (done: Option<
        PersistRequest<T>,
    >)
        ensures
            ({
                let matches = old(self).in_flight is Some && old(self).in_flight->0.path@ == path@
                    && old(self).in_flight->0.request_id == request_id;
                &&& done == (if matches { old(self).in_flight } else { None })
                &&& final(self).in_flight == (if matches { None } else { old(self).in_flight })
            }),
            final(self).pending@ == old(self).pending@,
    {
        let p = String::from_str(path);
        let matches = match &self.in_flight {
            Some(r) => r.path == p && r.request_id == request_id,
            None => false,
        };
        if matches {
            self.in_flight.take()
        } else {
            None
        }
    }

    /// The newest request still racing for image `path`: while one exists,
    /// any bake on disk is stale and the request holds the base its edit
    /// state was made on.
    pub fn newest_pending_for_path(&self, path: &str) -> (r: Option<&PersistRequest<T>>)
        ensures
            match r {
                Some(x) => newest_for(self.in_flight, self.pending@, path@) == Some(*x),
                None => newest_for(self.in_flight, self.pending@, path@) is None,
            },
    {
        let p = String::from_str(path);
        let mut i = self.pending.len();
        assert(self.pending@.subrange(0, i as int) =~= self.pending@);
        while i > 0
            invariant
                p@ == path@,
                i <= self.pending@.len(),
                newest_index(self.pending@, path@) == newest_index(self.pending@.subrange(0, i as int), path@),
            decreases i,
        {
            let ghost sub = self.pending@.subrange(0, i as int);
            if self.pending[i - 1].path == p {
                return Some(&self.pending[i - 1]);
            }
            assert(sub.drop_last() =~= self.pending@.subrange(0, i - 1));
            i = i - 1;
        }
        match &self.in_flight {
            Some(r) => {
                if r.path == p {
                    Some(r)
                } else {
                    None
                }
            },
            None => None,
        }
    }

    /// Whether a bake runs.
    pub fn is_busy(&self) -> (r: bool)
        ensures
            r == self.in_flight is Some,
    {
        self.in_flight.is_some()
    }

    /// How many requests wait.
    pub fn waiting(&self) -> (n: usize)
        ensures
            n == self.pending@.len(),
    {
        self.pending.len()
    }
}

/// Whether a default edit state owes no bake: over the original, when no
/// bake is on disk (else persisting it removes that bake); over a baked base,
/// when no persist races for the image and the base is the bake this session
/// last wrote, or the session wrote none (a default state over a base that a
/// session bake has moved past is a revert, which bakes again).
pub open spec fn nothing_new(
    state_is_default: bool,
    base_source: BaseImageSource,
    bake_on_disk: bool,
    racing_persist: bool,
    last_bake_generation: Option<u64>,
    loaded_generation: Option<u64>,
) -> bool {
    state_is_default && match base_source {
        BaseImageSource::Original => !bake_on_disk,
        BaseImageSource::PersistedLocalEdit => !racing_persist && match last_bake_generation {
            None => true,
            Some(b) => loaded_generation == Some(b),
        },
    }
}

pub fn bake_has_nothing_new(
    state_is_default: bool,
    base_source: BaseImageSource,
    bake_on_disk: bool,
    racing_persist: bool,
    last_bake_generation: Option<u64>,
    loaded_generation: Option<u64>,
) -> (r: bool)
    ensures
        r == nothing_new(
            state_is_default,
            base_source,
            bake_on_disk,
            racing_persist,
            last_bake_generation,
            loaded_generation,
        ),
{
    if !state_is_default {
        return false;
    }
    match base_source {
        BaseImageSource::Original => !bake_on_disk,
        BaseImageSource::PersistedLocalEdit => {
            if racing_persist {
                return false;
            }
            match (last_bake_generation, loaded_generation) {
                (None, _) => true,
                (Some(b), Some(l)) => b == l,
                (Some(_), None) => false,
            }
        },
    }
}

/// Whether a freshly loaded base is the very bake this session last wrote
/// for the image: its pixels already hold the session's edit state, which
/// must then reset rather than apply a second time.
pub open spec fn absorbs_session_state(
    base_source: BaseImageSource,
    bake_generation: Option<u64>,
    last_bake_generation: Option<u64>,
) -> bool {
    base_source == BaseImageSource::PersistedLocalEdit && bake_generation is Some && bake_generation
        == last_bake_generation
}

pub fn loaded_bake_absorbed_session_state(
    base_source: BaseImageSource,
    bake_generation: Option<u64>,
    last_bake_generation: Option<u64>,
) -> (r: bool)
    ensures
        r == absorbs_session_state(base_source, bake_generation, last_bake_generation),
{
    match (base_source, bake_generation, last_bake_generation) {
        (BaseImageSource::PersistedLocalEdit, Some(g), Some(l)) => g == l,
        _ => false,
    }
}

/// Whether the image on screen asks for a bake now: saving is not blocked by
/// a load, an image is open, its render does not wait for lens metadata, and
/// its state owes something.
pub open spec fn wants_bake(
    blocks_save: bool,
    has_image: bool,
    waits_for_lens_metadata: bool,
    nothing_new: bool,
) -> bool {
    !blocks_save && has_image && !waits_for_lens_metadata && !nothing_new
}

pub fn wants_persist_request(
    blocks_save: bool,
    has_image: bool,
    waits_for_lens_metadata: bool,
    nothing_new: bool,
) -> (r: bool)
    ensures
        r == wants_bake(blocks_save, has_image, waits_for_lens_metadata, nothing_new),
{
    !blocks_save && has_image && !waits_for_lens_metadata && !nothing_new
}

/// What leaving an image whose full-size load still runs does about its edits.
#[derive(Debug, Clone, Copy, PartialEq, Eq, Structural)]
pub enum OwedRegistration {
    /// No image is open.
    NoImage,
    /// Nothing will arrive for the load, and a commit still waits for lens
    /// metadata: it bakes on the image's next open (the caller says so).
    CommitWaitsForMetadata,
    /// The edits owe no bake.
    NothingOwed,
    /// The load's completion owes a bake of the edits.
    Register,
}

pub open spec fn registration(
    has_image: bool,
    detail_loading: bool,
    state_is_default: bool,
    waits_for_lens_metadata: bool,
    nothing_new: bool,
) -> OwedRegistration {
    if !has_image {
        OwedRegistration::NoImage
    } else if !detail_loading {
        if !state_is_default && waits_for_lens_metadata {
            OwedRegistration::CommitWaitsForMetadata
        } else {
            OwedRegistration::NothingOwed
        }
    } else if nothing_new {
        OwedRegistration::NothingOwed
    } else {
        OwedRegistration::Register
    }
}

pub fn owed_bake_registration(
    has_image: bool,
    detail_loading: bool,
    state_is_default: bool,
    waits_for_lens_metadata: bool,
    nothing_new: bool,
) -> (r: OwedRegistration)
    ensures
        r == registration(has_image, detail_loading, state_is_default, waits_for_lens_metadata, nothing_new),
{
    if !has_image {
        OwedRegistration::NoImage
    } else if !detail_loading {
        if !state_is_default && waits_for_lens_metadata {
            OwedRegistration::CommitWaitsForMetadata
        } else {
            OwedRegistration::NothingOwed
        }
    } else if nothing_new {
        OwedRegistration::NothingOwed
    } else {
        OwedRegistration::Register
    }
}

/// What a finished full-size load does with the bake it owes.
#[derive(Debug, Clone, Copy, PartialEq, Eq, Structural)]
pub enum OwedBakeAction {
    /// The load owed no bake.
    NotOwed,
    /// The load failed; the owed bake is dropped.
    DropFailedLoad,
    /// A persist racing for the image already carries the current state: the
    /// image keeps the racing persist's base and nothing more is baked.
    RacingPersistCarriesState,
    /// The current state is newer than the racing persist's: it bakes on the
    /// racing persist's base.
    BakeOnRacingBase,
    /// The loaded base is this session's last bake: the image keeps that base
    /// and its session state resets.
    ResetAbsorbedState,
    /// A default state owes nothing on the loaded base (kept as the image's
    /// base).
    NothingNew,
    /// The current state bakes on the loaded base (kept as the image's base).
    BakeOnLoadedBase,
}

/// The decision for a finished load: `racing` is `Some(same)` when a persist
/// still races for the image, `same` telling whether it carries the current
/// state. A default state over the load's base owes nothing when that base is
/// the original and no bake is on disk, or a bake while the session wrote
/// none.
pub open spec fn owed_bake_decision(
    owed: bool,
    load_succeeded: bool,
    racing: Option<bool>,
    absorbed: bool,
    state_is_default: bool,
    loaded_base: BaseImageSource,
    bake_on_disk: bool,
    session_baked: bool,
) -> OwedBakeAction {
    if !owed {
        OwedBakeAction::NotOwed
    } else if !load_succeeded {
        OwedBakeAction::DropFailedLoad
    } else if racing is Some {
        if racing->0 {
            OwedBakeAction::RacingPersistCarriesState
        } else {
            OwedBakeAction::BakeOnRacingBase
        }
    } else if absorbed {
        OwedBakeAction::ResetAbsorbedState
    } else if state_is_default && match loaded_base {
        BaseImageSource::Original => !bake_on_disk,
        BaseImageSource::PersistedLocalEdit => !session_baked,
    } {
        OwedBakeAction::NothingNew
    } else {
        OwedBakeAction::BakeOnLoadedBase
    }
}

pub fn owed_bake_action(
    owed: bool,
    load_succeeded: bool,
    racing: Option<bool>,
    absorbed: bool,
    state_is_default: bool,
    loaded_base: BaseImageSource,
    bake_on_disk: bool,
    session_baked: bool,
) -> (r: OwedBakeAction)
    ensures
        r == owed_bake_decision(
            owed,
            load_succeeded,
            racing,
            absorbed,
            state_is_default,
            loaded_base,
            bake_on_disk,
            session_baked,
        ),
{
    if !owed {
        return OwedBakeAction::NotOwed;
    }
    if !load_succeeded {
        return OwedBakeAction::DropFailedLoad;
    }
    match racing {
        Some(same) => {
            return if same {
                OwedBakeAction::RacingPersistCarriesState
            } else {
                OwedBakeAction::BakeOnRacingBase
            };
        },
        None => {},
    }
    if absorbed {
        return OwedBakeAction::ResetAbsorbedState;
    }
    let owes_nothing = match loaded_base {
        BaseImageSource::Original => !bake_on_disk,
        BaseImageSource::PersistedLocalEdit => !session_baked,
    };
    if state_is_default && owes_nothing {
        OwedBakeAction::NothingNew
    } else {
        OwedBakeAction::BakeOnLoadedBase
    }
}

/// How a finished bake ends.
#[derive(Debug, Clone, Copy, PartialEq, Eq, Structural)]
pub enum BakeOutcome {
    /// The bake was written; `generation_id` is its generation when known.
    Written { generation_id: Option<u64> },
    /// The state was the default one: the bake on disk was removed.
    Removed,
    /// Writing failed.
    Failed,
}

/// What the session's record of its last bake for the image becomes.
#[derive(Debug, Clone, Copy, PartialEq, Eq, Structural)]
pub enum BakeRecordChange {
    /// The bake of the running request, with this generation, is recorded.
    Record(u64),
    /// The record is dropped: no bake is on disk any more.
    Forget,
    /// The record stays.
    Keep,
}

/// A written bake is recorded only when it is the running request's own
/// and its generation is known; a removal drops the record.
pub open spec fn record_change(was_running: bool, outcome: BakeOutcome) -> BakeRecordChange {
    match outcome {
        BakeOutcome::Written { generation_id } => {
            if was_running && generation_id is Some {
                BakeRecordChange::Record(generation_id->0)
            } else {
                BakeRecordChange::Keep
            }
        },
        BakeOutcome::Removed => BakeRecordChange::Forget,
        BakeOutcome::Failed => BakeRecordChange::Keep,
    }
}

pub fn bake_record_change(was_running: bool, outcome: BakeOutcome) -> (r: BakeRecordChange)
    ensures
        r == record_change(was_running, outcome),
{
    match outcome {
        BakeOutcome::Written { generation_id } => match generation_id {
            Some(g) => {
                if was_running {
                    BakeRecordChange::Record(g)
                } else {
                    BakeRecordChange::Keep
                }
            },
            None => BakeRecordChange::Keep,
        },
        BakeOutcome::Removed => BakeRecordChange::Forget,
        BakeOutcome::Failed => BakeRecordChange::Keep,
    }
}

/// A bake the session recorded is, once loaded back as the image's base,
/// absorbed: the session state resets and a default state owes nothing on
/// it, so the same edits are never applied or baked twice.
pub proof fn law_recorded_bake_is_absorbed(generation_id: u64, bake_on_disk: bool, state_is_default: bool)
    ensures
        record_change(true, BakeOutcome::Written { generation_id: Some(generation_id) })
            == BakeRecordChange::Record(generation_id),
        absorbs_session_state(
            BaseImageSource::PersistedLocalEdit,
            Some(generation_id),
            Some(generation_id),
        ),
        owed_bake_decision(
            true,
            true,
            None,
            absorbs_session_state(
                BaseImageSource::PersistedLocalEdit,
                Some(generation_id),
                Some(generation_id),
            ),
            state_is_default,
            BaseImageSource::PersistedLocalEdit,
            bake_on_disk,
            true,
        ) == OwedBakeAction::ResetAbsorbedState,
        nothing_new(
            true,
            BaseImageSource::PersistedLocalEdit,
            bake_on_disk,
            false,
            Some(generation_id),
            Some(generation_id),
        ),
{
}

} // verus!
