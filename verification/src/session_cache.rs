//! The in-session cache of full-size images: a few recently opened images,
//! kept while their source files are unchanged, evicted oldest first when
//! there are too many or they take too many bytes.

use vstd::prelude::*;

verus! {

/// Entries kept by the default cache.
pub const FULL_IMAGE_SESSION_CACHE_MAX_ENTRIES: usize = 4;
/// Bytes kept by the default cache.
pub const FULL_IMAGE_SESSION_CACHE_MAX_BYTES: usize = 1_073_741_824;
/// Entries kept even when they exceed the byte budget.
pub const FULL_IMAGE_SESSION_CACHE_MIN_RECENT_ENTRIES: usize = 2;

/// Where a full-size image came from.
#[derive(Debug, Clone, Copy, PartialEq, Eq, Structural)]
pub enum BaseImageSource {
    Original,
    PersistedLocalEdit,
}

/// What identifies a version of a source file: its size, modification
/// time and a signature of its content.
#[derive(Debug, Clone, Copy, PartialEq, Eq, Structural)]
pub struct SourceFileFingerprint {
    pub file_size: u64,
    pub modified_secs: u64,
    pub modified_nanos: u32,
    pub content_signature: u64,
}

/// What could be learnt about a source file when a cached image of it is
/// asked for.
#[derive(Debug, Clone, Copy, PartialEq, Eq, Structural)]
pub enum SourceObservation {
    /// The file could not be opened, or its size or modification time
    /// could not be read.
    Unavailable,
    /// Its size and time were read but its content could not be.
    Unfingerprinted,
    Fingerprinted(SourceFileFingerprint),
}

/// Whether a file's current size and modification time (`None` when they
/// cannot be read) still match a fingerprint. Unreadable metadata counts as
/// a match: only a visible change invalidates a cached image here.
pub fn metadata_matches_fingerprint(metadata: Option<(u64, u64, u32)>, fingerprint: SourceFileFingerprint) -> (r: bool)
    ensures
        r == match metadata {
            None => true,
            Some((size, secs, nanos)) => size == fingerprint.file_size && secs == fingerprint.modified_secs
                && nanos == fingerprint.modified_nanos,
        },
{
    match metadata {
        None => true,
        Some((size, secs, nanos)) => size == fingerprint.file_size && secs == fingerprint.modified_secs
            && nanos == fingerprint.modified_nanos,
    }
}

/// One cached image.
pub struct SessionCacheSlot<I> {
    pub path: String,
    pub fingerprint: SourceFileFingerprint,
    pub image: I,
    pub base_source: BaseImageSource,
    pub logical_dimensions: (u32, u32),
    pub bytes: usize,
}

pub struct SlotView<I> {
    pub path: Seq<char>,
    pub fingerprint: SourceFileFingerprint,
    pub image: I,
    pub base_source: BaseImageSource,
    pub logical_dimensions: (u32, u32),
    pub bytes: usize,
}

impl<I> View for SessionCacheSlot<I> {
    type V = SlotView<I>;

    open spec fn view(&self) -> SlotView<I> {
        SlotView {
            path: self.path@,
            fingerprint: self.fingerprint,
            image: self.image,
            base_source: self.base_source,
            logical_dimensions: self.logical_dimensions,
            bytes: self.bytes,
        }
    }
}

/// The cache as plain values: its images from the least to the most
/// recently used, and its limits.
pub struct SessionCacheView<I> {
    pub slots: Seq<SlotView<I>>,
    pub max_entries: usize,
    pub max_bytes: usize,
    pub min_recent_entries: usize,
}

pub struct SessionFullImageCache<I> {
    slots: Vec<SessionCacheSlot<I>>,
    total_bytes: u128,
    max_entries: usize,
    max_bytes: usize,
    min_recent_entries: usize,
}

pub open spec fn slot_views<I>(s: Seq<SessionCacheSlot<I>>) -> Seq<SlotView<I>> {
    s.map_values(|x: SessionCacheSlot<I>| x@)
}

/// Bytes held by the slots.
pub open spec fn held_bytes<I>(s: Seq<SlotView<I>>) -> int
    decreases s.len(),
{
    if s.len() == 0 {
        0
    } else {
        held_bytes(s.drop_last()) + s.last().bytes
    }
}

/// No path is cached twice.
pub open spec fn distinct_paths<I>(s: Seq<SlotView<I>>) -> bool {
    forall|i: int, j: int| 0 <= i < j < s.len() ==> #[trigger] s[i].path != #[trigger] s[j].path
}

/// Position of `path` in the slots, or -1.
pub open spec fn position_of<I>(s: Seq<SlotView<I>>, path: Seq<char>) -> int
    decreases s.len(),
{
    if s.len() == 0 {
        -1
    } else if s.last().path == path {
        s.len() - 1
    } else {
        position_of(s.drop_last(), path)
    }
}

/// The slots without the one of `path`.
pub open spec fn without_path<I>(s: Seq<SlotView<I>>, path: Seq<char>) -> Seq<SlotView<I>> {
    let i = position_of(s, path);
    if i < 0 {
        s
    } else {
        s.remove(i)
    }
}

/// The slots left once the least recently used are evicted while there are
/// more than `max_entries`, or more than `min_recent` holding more than
/// `max_bytes`.
pub open spec fn evicted<I>(s: Seq<SlotView<I>>, max_entries: usize, max_bytes: usize, min_recent: usize) -> Seq<
    SlotView<I>,
>
    decreases s.len(),
{
    if s.len() > 0 && (s.len() > max_entries || (s.len() > min_recent && held_bytes(s) > max_bytes)) {
        evicted(s.drop_first(), max_entries, max_bytes, min_recent)
    } else {
        s
    }
}

impl<I> SessionFullImageCache<I> {
    pub closed spec fn view(&self) -> SessionCacheView<I> {
        SessionCacheView {
            slots: slot_views(self.slots@),
            max_entries: self.max_entries,
            max_bytes: self.max_bytes,
            min_recent_entries: self.min_recent_entries,
        }
    }

    /// No path is cached twice, the byte count is the bytes held, and the
    /// images kept beyond the budget are no more than the entry limit.
    #[verifier::type_invariant]
    spec fn well_formed(&self) -> bool {
        &&& distinct_paths(slot_views(self.slots@))
        &&& self.total_bytes == held_bytes(slot_views(self.slots@))
        &&& self.min_recent_entries <= self.max_entries
    }

    /// An empty cache keeping at most `max_entries` images and `max_bytes`
    /// bytes, beyond the budget up to two recent images.
    pub fn new(max_entries: usize, max_bytes: usize) -> (c: Self)
        ensures
            c.view().slots.len() == 0,
            c.view().max_entries == max_entries,
            c.view().max_bytes == max_bytes,
            c.view().min_recent_entries == (if max_entries < FULL_IMAGE_SESSION_CACHE_MIN_RECENT_ENTRIES {
                max_entries
            } else {
                FULL_IMAGE_SESSION_CACHE_MIN_RECENT_ENTRIES
            }),
    {
        let min_recent = if max_entries < FULL_IMAGE_SESSION_CACHE_MIN_RECENT_ENTRIES {
            max_entries
        } else {
            FULL_IMAGE_SESSION_CACHE_MIN_RECENT_ENTRIES
        };
        let c = SessionFullImageCache { slots: Vec::new(), total_bytes: 0, max_entries, max_bytes, min_recent_entries: min_recent };
        assert(slot_views(c.slots@) =~= Seq::<SlotView<I>>::empty());
        c
    }

    /// The cache with the default limits.
    pub fn with_default_limits() -> (c: Self)
        ensures
            c.view().slots.len() == 0,
            c.view().max_entries == FULL_IMAGE_SESSION_CACHE_MAX_ENTRIES,
            c.view().max_bytes == FULL_IMAGE_SESSION_CACHE_MAX_BYTES,
            c.view().min_recent_entries == FULL_IMAGE_SESSION_CACHE_MIN_RECENT_ENTRIES,
    {
        Self::new(FULL_IMAGE_SESSION_CACHE_MAX_ENTRIES, FULL_IMAGE_SESSION_CACHE_MAX_BYTES)
    }

    fn position(&self, path: &str) -> (r: Option<usize>)
        ensures
            match r {
                Some(i) => i == position_of(self.view().slots, path@) && 0 <= i < self.view().slots.len(),
                None => position_of(self.view().slots, path@) == -1,
            },
    {
        let ghost s = self.view().slots;
        let key = String::from_str(path);
        assert(s.subrange(0, s.len() as int) =~= s);
        let mut i: usize = self.slots.len();
        while i > 0
            invariant
                s == slot_views(self.slots@),
                key@ == path@,
                i <= self.slots.len(),
                position_of(s, path@) == position_of(s.subrange(0, i as int), path@),
            decreases i,
        {
            let ghost prefix = s.subrange(0, i as int);
            assert(prefix.drop_last() =~= s.subrange(0, i - 1));
            assert(prefix.last() == self.slots@[i - 1]@);
            if self.slots[i - 1].path == key {
                return Some(i - 1);
            }
            i = i - 1;
        }
        proof {
            assert(s.subrange(0, 0) =~= Seq::<SlotView<I>>::empty());
        }
        None
    }

    /// Whether an image of `path` is cached.
    pub fn contains_path(&self, path: &str) -> (r: bool)
        ensures
            r == (position_of(self.view().slots, path@) >= 0),
    {
        self.position(path).is_some()
    }

    /// Whether the cached image of `path` came from `expected`.
    pub fn entry_matches_base_source(&self, path: &str, expected: BaseImageSource) -> (r: bool)
        ensures
            r == (position_of(self.view().slots, path@) >= 0 && self.view().slots[position_of(
                self.view().slots,
                path@,
            )].base_source == expected),
    {
        match self.position(path) {
            Some(i) => self.slots[i].base_source == expected,
            None => false,
        }
    }

    /// The cached image of `path`, without marking it used.
    pub fn cached_image(&self, path: &str) -> (r: Option<&I>)
        ensures
            match r {
                Some(img) => position_of(self.view().slots, path@) >= 0 && *img == self.view().slots[position_of(
                    self.view().slots,
                    path@,
                )].image,
                None => position_of(self.view().slots, path@) < 0,
            },
    {
        match self.position(path) {
            Some(i) => Some(&self.slots[i].image),
            None => None,
        }
    }

    /// Moves the images out, leaving the cache empty with the same limits.
    fn take_slots(&mut self) -> (parts: (Vec<SessionCacheSlot<I>>, u128))
        ensures
            slot_views(parts.0@) == old(self).view().slots,
            distinct_paths(slot_views(parts.0@)),
            parts.1 == held_bytes(slot_views(parts.0@)),
            old(self).view().min_recent_entries <= old(self).view().max_entries,
            final(self).view() == (SessionCacheView { slots: Seq::<SlotView<I>>::empty(), ..old(self).view() }),
    {
        proof {
            use_type_invariant(&*self);
        }
        let mut taken = SessionFullImageCache {
            slots: Vec::new(),
            total_bytes: 0,
            max_entries: self.max_entries,
            max_bytes: self.max_bytes,
            min_recent_entries: self.min_recent_entries,
        };
        assert(slot_views(taken.slots@) =~= Seq::<SlotView<I>>::empty());
        std::mem::swap(self, &mut taken);
        assert(slot_views(self.slots@) =~= Seq::<SlotView<I>>::empty());
        proof {
            use_type_invariant(&taken);
        }
        let SessionFullImageCache { slots, total_bytes, .. } = taken;
        (slots, total_bytes)
    }

    /// Puts images back into an emptied cache.
    fn put_slots(&mut self, slots: Vec<SessionCacheSlot<I>>, total_bytes: u128)
        requires
            distinct_paths(slot_views(slots@)),
            total_bytes == held_bytes(slot_views(slots@)),
            old(self).view().min_recent_entries <= old(self).view().max_entries,
        ensures
            final(self).view() == (SessionCacheView { slots: slot_views(slots@), ..old(self).view() }),
    {
        *self = SessionFullImageCache {
            slots,
            total_bytes,
            max_entries: self.max_entries,
            max_bytes: self.max_bytes,
            min_recent_entries: self.min_recent_entries,
        };
    }

    /// Forgets the image of `path`, if one is cached.
    pub fn remove(&mut self, path: &str)
        ensures
            final(self).view() == (SessionCacheView {
                slots: without_path(old(self).view().slots, path@),
                ..old(self).view()
            }),
    {
        match self.position(path) {
            Some(i) => {
                let (mut slots, mut total) = self.take_slots();
                let ghost before = slot_views(slots@);
                let slot = slots.remove(i);
                proof {
                    assert(slot_views(slots@) =~= before.remove(i as int));
                    lemma_held_bytes_remove(before, i as int);
                    lemma_held_bytes_bound(before.remove(i as int));
                    lemma_distinct_remove(before, i as int);
                }
                assert(slot@ == before[i as int]);
                total = total - slot.bytes as u128;
                self.put_slots(slots, total);
            },
            None => {},
        }
    }

    /// Marks the image of `path`, if one is cached, as the most recently
    /// used.
    pub fn touch(&mut self, path: &str)
        ensures
            final(self).view() == (SessionCacheView {
                slots: touched(old(self).view().slots, path@),
                ..old(self).view()
            }),
    {
        match self.position(path) {
            Some(i) => {
                let (mut slots, total) = self.take_slots();
                let ghost before = slot_views(slots@);
                let slot = slots.remove(i);
                let ghost sv = slot@;
                assert(sv == before[i as int]);
                slots.push(slot);
                proof {
                    assert(slot_views(slots@) =~= before.remove(i as int).push(sv));
                    assert(before.remove(i as int).push(sv).drop_last() =~= before.remove(i as int));
                    lemma_held_bytes_remove(before, i as int);
                    lemma_position_bounds(before, path@);
                    lemma_position_without(before, path@);
                    lemma_distinct_push(before.remove(i as int), sv);
                }
                self.put_slots(slots, total);
            },
            None => {},
        }
    }

    /// Caches `image` of `path` (replacing an earlier one) as the most
    /// recently used, then evicts as needed.
    pub fn insert(
        &mut self,
        path: &str,
        fingerprint: SourceFileFingerprint,
        image: I,
        base_source: BaseImageSource,
        logical_dimensions: (u32, u32),
        bytes: usize,
    )
        ensures
            final(self).view() == (SessionCacheView {
                slots: inserted(
                    old(self).view(),
                    SlotView { path: path@, fingerprint, image, base_source, logical_dimensions, bytes },
                ),
                ..old(self).view()
            }),
    {
        proof {
            use_type_invariant(&*self);
        }
        self.remove(path);
        let (mut slots, mut total) = self.take_slots();
        let slot = SessionCacheSlot { path: String::from_str(path), fingerprint, image, base_source, logical_dimensions, bytes };
        proof {
            lemma_position_without(old(self).view().slots, path@);
        }
        push_slot(&mut slots, &mut total, slot);
        evict_as_needed(&mut slots, &mut total, self.max_entries, self.max_bytes, self.min_recent_entries);
        self.put_slots(slots, total);
    }

    /// The logical size of the cached image of `path` when it may be used:
    /// it came from `expected` and the source file is observed unchanged.
    /// A hit marks the image as the most recently used; an image from
    /// another source, or of a source observed changed or unreadable, is
    /// forgotten; an image of a source that could not be observed is kept.
    pub fn get(&mut self, path: &str, expected: BaseImageSource, observed: SourceObservation) -> (r: Option<(u32, u32)>)
        ensures
            ({
                let s = old(self).view().slots;
                let i = position_of(s, path@);
                let (slots, hit) = lookup(s, path@, expected, observed);
                &&& final(self).view() == (SessionCacheView { slots: slots, ..old(self).view() })
                &&& r == hit
            }),
    {
        let i = match self.position(path) {
            Some(i) => i,
            None => return None,
        };
        let cached = self.slots[i].fingerprint;
        let dims = self.slots[i].logical_dimensions;
        if self.slots[i].base_source != expected {
            self.remove(path);
            return None;
        }
        match observed {
            SourceObservation::Unavailable => None,
            SourceObservation::Unfingerprinted => {
                self.remove(path);
                None
            },
            SourceObservation::Fingerprinted(now) => {
                if now != cached {
                    self.remove(path);
                    None
                } else {
                    self.touch(path);
                    Some(dims)
                }
            },
        }
    }

    /// Number of cached images.
    pub fn len(&self) -> (n: usize)
        ensures
            n == self.view().slots.len(),
    {
        self.slots.len()
    }

    /// Bytes held by the cached images.
    pub fn total_bytes(&self) -> (n: u128)
        ensures
            n == held_bytes(self.view().slots),
    {
        proof {
            use_type_invariant(self);
        }
        self.total_bytes
    }
}

fn push_slot<I>(slots: &mut Vec<SessionCacheSlot<I>>, total: &mut u128, slot: SessionCacheSlot<I>)
    requires
        distinct_paths(slot_views(old(slots)@)),
        *old(total) == held_bytes(slot_views(old(slots)@)),
        position_of(slot_views(old(slots)@), slot@.path) < 0,
    ensures
        distinct_paths(slot_views(final(slots)@)),
        *final(total) == held_bytes(slot_views(final(slots)@)),
        slot_views(final(slots)@) == slot_views(old(slots)@).push(slot@),
{
    let ghost before = slot_views(slots@);
    let ghost sv = slot@;
    let bytes = slot.bytes;
    let n = slots.len();
    proof {
        lemma_held_bytes_bound(before);
        lemma_distinct_push(before, sv);
        assert(n * 0xFFFF_FFFF_FFFF_FFFFint + 0xFFFF_FFFF_FFFF_FFFFint <= u128::MAX) by (nonlinear_arith)
            requires
                n <= 0xFFFF_FFFF_FFFF_FFFFint,
        ;
    }
    slots.push(slot);
    assert(slot_views(slots@) =~= before.push(sv));
    assert(slot_views(slots@).drop_last() =~= before);
    *total = *total + bytes as u128;
}

fn evict_as_needed<I>(
    slots: &mut Vec<SessionCacheSlot<I>>,
    total: &mut u128,
    max_entries: usize,
    max_bytes: usize,
    min_recent: usize,
)
    requires
        distinct_paths(slot_views(old(slots)@)),
        *old(total) == held_bytes(slot_views(old(slots)@)),
    ensures
        distinct_paths(slot_views(final(slots)@)),
        *final(total) == held_bytes(slot_views(final(slots)@)),
        slot_views(final(slots)@) == evicted(slot_views(old(slots)@), max_entries, max_bytes, min_recent),
{
    loop
        invariant
            distinct_paths(slot_views(slots@)),
            *total == held_bytes(slot_views(slots@)),
            evicted(slot_views(slots@), max_entries, max_bytes, min_recent) == evicted(
                slot_views(old(slots)@),
                max_entries,
                max_bytes,
                min_recent,
            ),
        ensures
            slot_views(slots@) == evicted(slot_views(old(slots)@), max_entries, max_bytes, min_recent),
            distinct_paths(slot_views(slots@)),
            *total == held_bytes(slot_views(slots@)),
        decreases slots@.len(),
    {
        let n = slots.len();
        let over = n > max_entries || (n > min_recent && *total > max_bytes as u128);
        if n == 0 || !over {
            return;
        }
        let ghost before = slot_views(slots@);
        let slot = slots.remove(0);
        proof {
            assert(slot_views(slots@) =~= before.remove(0));
            assert(before.remove(0) =~= before.drop_first());
            lemma_held_bytes_remove(before, 0);
            lemma_held_bytes_bound(before.remove(0));
            lemma_distinct_remove(before, 0);
        }
        assert(slot@ == before[0]);
        *total = *total - slot.bytes as u128;
    }
}

/// The slots after a use of `path`: moved to the most recent end.
pub open spec fn touched<I>(s: Seq<SlotView<I>>, path: Seq<char>) -> Seq<SlotView<I>> {
    let i = position_of(s, path);
    if i < 0 {
        s
    } else {
        s.remove(i).push(s[i])
    }
}

/// The slots after `slot` is inserted into the cache `c`.
pub open spec fn inserted<I>(c: SessionCacheView<I>, slot: SlotView<I>) -> Seq<SlotView<I>> {
    evicted(without_path(c.slots, slot.path).push(slot), c.max_entries, c.max_bytes, c.min_recent_entries)
}

/// The slots after a request for `path` and what it answers.
pub open spec fn lookup<I>(
    s: Seq<SlotView<I>>,
    path: Seq<char>,
    expected: BaseImageSource,
    observed: SourceObservation,
) -> (Seq<SlotView<I>>, Option<(u32, u32)>) {
    let i = position_of(s, path);
    if i < 0 {
        (s, None)
    } else if s[i].base_source != expected {
        (without_path(s, path), None)
    } else {
        match observed {
            SourceObservation::Unavailable => (s, None),
            SourceObservation::Unfingerprinted => (without_path(s, path), None),
            SourceObservation::Fingerprinted(now) => if now != s[i].fingerprint {
                (without_path(s, path), None)
            } else {
                (touched(s, path), Some(s[i].logical_dimensions))
            },
        }
    }
}

proof fn lemma_position_bounds<I>(s: Seq<SlotView<I>>, path: Seq<char>)
    ensures
        -1 <= position_of(s, path) < s.len(),
        position_of(s, path) >= 0 ==> s[position_of(s, path)].path == path,
        position_of(s, path) < 0 ==> forall|k: int| 0 <= k < s.len() ==> s[k].path != path,
    decreases s.len(),
{
    if s.len() > 0 {
        lemma_position_bounds(s.drop_last(), path);
        if s.last().path != path {
            assert forall|k: int| 0 <= k < s.len() && position_of(s, path) < 0 implies s[k].path != path by {
                if k < s.len() - 1 {
                    assert(s.drop_last()[k] == s[k]);
                }
            }
        }
    }
}

proof fn lemma_position_without<I>(s: Seq<SlotView<I>>, path: Seq<char>)
    requires
        distinct_paths(s),
    ensures
        position_of(without_path(s, path), path) < 0,
        distinct_paths(without_path(s, path)),
{
    lemma_position_bounds(s, path);
    let i = position_of(s, path);
    let w = without_path(s, path);
    if i >= 0 {
        lemma_distinct_remove(s, i);
        assert forall|k: int| 0 <= k < w.len() implies w[k].path != path by {
            if k < i {
                assert(w[k] == s[k]);
            } else {
                assert(w[k] == s[k + 1]);
            }
        }
    }
    lemma_position_none(w, path);
}

proof fn lemma_position_none<I>(s: Seq<SlotView<I>>, path: Seq<char>)
    requires
        forall|k: int| 0 <= k < s.len() ==> s[k].path != path,
    ensures
        position_of(s, path) < 0,
    decreases s.len(),
{
    if s.len() > 0 {
        assert forall|k: int| 0 <= k < s.drop_last().len() implies s.drop_last()[k].path != path by {
            assert(s.drop_last()[k] == s[k]);
        }
        lemma_position_none(s.drop_last(), path);
    }
}

proof fn lemma_held_bytes_remove<I>(s: Seq<SlotView<I>>, i: int)
    requires
        0 <= i < s.len(),
    ensures
        held_bytes(s.remove(i)) == held_bytes(s) - s[i].bytes,
    decreases s.len(),
{
    if i < s.len() - 1 {
        lemma_held_bytes_remove(s.drop_last(), i);
        assert(s.remove(i).drop_last() =~= s.drop_last().remove(i));
        assert(s.remove(i).last() == s.last());
    } else {
        assert(s.remove(i) =~= s.drop_last());
    }
}

proof fn lemma_held_bytes_bound<I>(s: Seq<SlotView<I>>)
    ensures
        0 <= held_bytes(s) <= s.len() * 0xFFFF_FFFF_FFFF_FFFF,
    decreases s.len(),
{
    if s.len() > 0 {
        lemma_held_bytes_bound(s.drop_last());
        assert(s.last().bytes <= 0xFFFF_FFFF_FFFF_FFFFint);
        assert((s.len() - 1) * 0xFFFF_FFFF_FFFF_FFFF + 0xFFFF_FFFF_FFFF_FFFF == s.len() * 0xFFFF_FFFF_FFFF_FFFF);
    }
}

proof fn lemma_distinct_remove<I>(s: Seq<SlotView<I>>, i: int)
    requires
        distinct_paths(s),
        0 <= i < s.len(),
    ensures
        distinct_paths(s.remove(i)),
{
    let r = s.remove(i);
    assert forall|a: int, b: int| 0 <= a < b < r.len() implies #[trigger] r[a].path != #[trigger] r[b].path by {
        let a0 = if a < i { a } else { a + 1 };
        let b0 = if b < i { b } else { b + 1 };
        assert(r[a] == s[a0] && r[b] == s[b0]);
    }
}

proof fn lemma_distinct_push<I>(s: Seq<SlotView<I>>, x: SlotView<I>)
    requires
        distinct_paths(s),
        position_of(s, x.path) < 0,
    ensures
        distinct_paths(s.push(x)),
{
    lemma_position_bounds(s, x.path);
    let t = s.push(x);
    assert forall|a: int, b: int| 0 <= a < b < t.len() implies #[trigger] t[a].path != #[trigger] t[b].path by {
        if b == s.len() {
            assert(t[a] == s[a]);
        } else {
            assert(t[a] == s[a] && t[b] == s[b]);
        }
    }
}

proof fn lemma_evicted_suffix<I>(s: Seq<SlotView<I>>, max_entries: usize, max_bytes: usize, min_recent: usize)
    ensures
        ({
            let e = evicted(s, max_entries, max_bytes, min_recent);
            &&& e.len() <= s.len()
            &&& e == s.subrange(s.len() - e.len(), s.len() as int)
            &&& e.len() <= max_entries
            &&& (e.len() <= min_recent || held_bytes(e) <= max_bytes)
            &&& (s.len() > 0 && min_recent >= 1 && max_entries >= 1) ==> e.len() >= 1
        }),
    decreases s.len(),
{
    if s.len() > 0 && (s.len() > max_entries || (s.len() > min_recent && held_bytes(s) > max_bytes)) {
        lemma_evicted_suffix(s.drop_first(), max_entries, max_bytes, min_recent);
        let e = evicted(s.drop_first(), max_entries, max_bytes, min_recent);
        assert(s.drop_first().subrange(s.drop_first().len() - e.len(), s.drop_first().len() as int) =~= s.subrange(
            s.len() - e.len(),
            s.len() as int,
        ));
    } else {
        assert(s.subrange(0, s.len() as int) =~= s);
    }
}

/// After any insert the cache holds at most `max_entries` images, and more
/// than `min_recent_entries` only within the byte budget.
pub proof fn law_insert_respects_limits<I>(c: SessionCacheView<I>, slot: SlotView<I>)
    ensures
        inserted(c, slot).len() <= c.max_entries,
        inserted(c, slot).len() <= c.min_recent_entries || held_bytes(inserted(c, slot)) <= c.max_bytes,
{
    lemma_evicted_suffix(without_path(c.slots, slot.path).push(slot), c.max_entries, c.max_bytes, c.min_recent_entries);
}

/// An image just inserted is served by the next request for it, from the
/// same source and for the same source file version, as long as the cache
/// keeps at least one image.
pub proof fn law_get_after_insert<I>(c: SessionCacheView<I>, slot: SlotView<I>)
    requires
        c.max_entries >= 1,
        c.min_recent_entries >= 1,
    ensures
        lookup(inserted(c, slot), slot.path, slot.base_source, SourceObservation::Fingerprinted(slot.fingerprint)).1
            == Some(slot.logical_dimensions),
{
    let t = without_path(c.slots, slot.path).push(slot);
    lemma_evicted_suffix(t, c.max_entries, c.max_bytes, c.min_recent_entries);
    let e = inserted(c, slot);
    assert(e.last() == slot) by {
        assert(e == t.subrange(t.len() - e.len(), t.len() as int));
    }
    assert(position_of(e, slot.path) == e.len() - 1);
}

} // verus!
