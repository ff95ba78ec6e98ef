//! Named photo collections, kept in natural order of their names.

use vstd::prelude::*;
use vstd::set::Set;
use crate::natural::{NaturalKey, natural_sort, naturally_sorted, views, insertion_sorted, law_sorted_input_is_unchanged, sorted_by};
use crate::text::{decimal, digit_char, push_decimal, string_of};

verus! {

/// A named list of photo paths.
#[derive(Debug, Clone)]
pub struct Collection {
    pub name: String,
    pub photos: Vec<String>,
}

/// What a collection holds, as text.
pub struct CollectionView {
    pub name: Seq<char>,
    pub photos: Seq<Seq<char>>,
}

pub open spec fn string_views(s: Seq<String>) -> Seq<Seq<char>> {
    s.map_values(|p: String| p@)
}

impl View for Collection {
    type V = CollectionView;

    open spec fn view(&self) -> CollectionView {
        CollectionView { name: self.name@, photos: string_views(self.photos@) }
    }
}

impl NaturalKey for Collection {
    open spec fn sort_key(&self) -> Seq<char> {
        self.name@
    }

    fn key_string(&self) -> (k: String) {
        self.name.clone()
    }
}

/// All collections, sorted by name.
#[derive(Debug, Clone)]
pub struct CollectionStore {
    pub collections: Vec<Collection>,
}

impl View for CollectionStore {
    type V = Seq<CollectionView>;

    open spec fn view(&self) -> Seq<CollectionView> {
        views(self.collections@)
    }
}

impl Default for CollectionStore {
    fn default() -> (s: Self)
        ensures
            s@ == Seq::<CollectionView>::empty(),
    {
        let s = CollectionStore { collections: Vec::new() };
        assert(s@ =~= Seq::<CollectionView>::empty());
        s
    }
}

/// `s` without any occurrence of `p` (other entries keep their order).
pub open spec fn without(s: Seq<Seq<char>>, p: Seq<char>) -> Seq<Seq<char>>
    decreases s.len(),
{
    if s.len() == 0 {
        s
    } else if s.last() == p {
        without(s.drop_last(), p)
    } else {
        without(s.drop_last(), p).push(s.last())
    }
}

/// No photo occurs twice.
pub open spec fn unique(s: Seq<Seq<char>>) -> bool {
    forall|i: int, j: int| 0 <= i < j < s.len() ==> s[i] != s[j]
}

/// The store after adding photo `p` to collection `i` (nothing changes when
/// `i` is out of range or the photo is already there).
pub open spec fn with_photo_added(s: Seq<CollectionView>, i: int, p: Seq<char>) -> Seq<CollectionView> {
    if 0 <= i < s.len() && !s[i].photos.contains(p) {
        s.update(i, CollectionView { name: s[i].name, photos: s[i].photos.push(p) })
    } else {
        s
    }
}

/// The store after removing photo `p` from collection `i`.
pub open spec fn with_photo_removed(s: Seq<CollectionView>, i: int, p: Seq<char>) -> Seq<CollectionView> {
    if 0 <= i < s.len() {
        s.update(i, CollectionView { name: s[i].name, photos: without(s[i].photos, p) })
    } else {
        s
    }
}

/// The store after renaming collection `i` (before re-sorting).
pub open spec fn with_name(s: Seq<CollectionView>, i: int, name: Seq<char>) -> Seq<CollectionView> {
    if 0 <= i < s.len() {
        s.update(i, CollectionView { name: name, photos: s[i].photos })
    } else {
        s
    }
}

/// Whether some collection is called `name`.
pub open spec fn name_taken(s: Seq<CollectionView>, name: Seq<char>) -> bool {
    exists|i: int| 0 <= i < s.len() && #[trigger] s[i].name == name
}

/// "New Collection" for `k <= 1`, "New Collection k" otherwise.
pub open spec fn default_name_candidate(k: nat) -> Seq<char> {
    if k <= 1 {
        "New Collection"@
    } else {
        "New Collection "@ + decimal(k)
    }
}

/// The first candidate name (in order 1, 2, 3, ...) that no collection uses.
pub open spec fn is_next_default_name(s: Seq<CollectionView>, name: Seq<char>) -> bool {
    exists|k: nat|
        k >= 1 && name == default_name_candidate(k) && !name_taken(s, default_name_candidate(k))
            && forall|j: nat| 1 <= j < k ==> name_taken(s, #[trigger] default_name_candidate(j))
}

proof fn lemma_without_facts(s: Seq<Seq<char>>, p: Seq<char>)
    ensures
        !without(s, p).contains(p),
        forall|q: Seq<char>| q != p ==> (without(s, p).contains(q) <==> s.contains(q)),
        unique(s) ==> unique(without(s, p)),
        !s.contains(p) ==> without(s, p) == s,
    decreases s.len(),
{
    broadcast use vstd::seq_lib::group_seq_properties;

    if s.len() > 0 {
        let d = s.drop_last();
        let l = s.last();
        let r = without(d, p);
        lemma_without_facts(d, p);
        assert(s =~= d.push(l));
        if unique(s) {
            assert forall|i: int, j: int| 0 <= i < j < d.len() implies d[i] != d[j] by {
                assert(s[i] != s[j]);
            }
            assert(!d.contains(l)) by {
                if d.contains(l) {
                    let k = choose|k: int| 0 <= k < d.len() && d[k] == l;
                    assert(s[k] != s[s.len() - 1]);
                }
            }
            if l != p {
                assert forall|i: int, j: int| 0 <= i < j < r.push(l).len() implies r.push(l)[i]
                    != r.push(l)[j] by {
                    if j == r.len() {
                        assert(r.contains(r[i]));
                    }
                }
            }
        }
    }
}

/// Adding a photo that is already present changes nothing, so adding twice
/// is the same as adding once.
pub proof fn law_add_photo_idempotent(s: Seq<CollectionView>, i: int, p: Seq<char>)
    ensures
        with_photo_added(with_photo_added(s, i, p), i, p) == with_photo_added(s, i, p),
{
    let t = with_photo_added(s, i, p);
    if 0 <= i < s.len() && !s[i].photos.contains(p) {
        assert(t[i].photos[t[i].photos.len() - 1] == p);
        assert(t[i].photos.contains(p));
    }
}

/// Adding and removing photos keeps every collection free of duplicates.
pub proof fn law_photos_stay_unique(s: Seq<CollectionView>, i: int, p: Seq<char>)
    requires
        forall|k: int| 0 <= k < s.len() ==> unique(#[trigger] s[k].photos),
    ensures
        forall|k: int|
            0 <= k < s.len() ==> unique(#[trigger] with_photo_added(s, i, p)[k].photos),
        forall|k: int|
            0 <= k < s.len() ==> unique(#[trigger] with_photo_removed(s, i, p)[k].photos),
{
    if 0 <= i < s.len() {
        lemma_without_facts(s[i].photos, p);
        if !s[i].photos.contains(p) {
            let ph = s[i].photos.push(p);
            assert forall|a: int, b: int| 0 <= a < b < ph.len() implies ph[a] != ph[b] by {
                if b == ph.len() - 1 {
                    assert(s[i].photos[a] == ph[a]);
                    if ph[a] == p {
                        assert(s[i].photos.contains(p));
                    }
                } else {
                    assert(s[i].photos[a] != s[i].photos[b]);
                }
            }
        }
    }
}

/// After removing a photo it is gone from that collection, every other
/// photo is still there, and a photo that was absent leaves it unchanged.
pub proof fn law_remove_photo(s: Seq<CollectionView>, i: int, p: Seq<char>)
    requires
        0 <= i < s.len(),
    ensures
        !with_photo_removed(s, i, p)[i].photos.contains(p),
        forall|q: Seq<char>|
            q != p ==> (with_photo_removed(s, i, p)[i].photos.contains(q) <==> s[i].photos.contains(q)),
        !s[i].photos.contains(p) ==> with_photo_removed(s, i, p) == s,
{
    lemma_without_facts(s[i].photos, p);
    if !s[i].photos.contains(p) {
        assert(with_photo_removed(s, i, p) =~= s);
    }
}

/// Toggling a photo in and out: removing a freshly added photo restores
/// the store.
pub proof fn law_add_then_remove_restores(s: Seq<CollectionView>, i: int, p: Seq<char>)
    requires
        0 <= i < s.len(),
        !s[i].photos.contains(p),
    ensures
        with_photo_removed(with_photo_added(s, i, p), i, p) == s,
{
    let ph = s[i].photos.push(p);
    lemma_without_facts(s[i].photos, p);
    assert(ph.drop_last() == s[i].photos);
    assert(without(ph, p) == without(s[i].photos, p));
    assert(with_photo_removed(with_photo_added(s, i, p), i, p) =~= s);
}

proof fn lemma_decimal_nonempty(n: nat)
    ensures
        decimal(n).len() >= 1,
        n < 10 <==> decimal(n).len() == 1,
    decreases n,
{
    if n >= 10 {
        lemma_decimal_nonempty(n / 10);
    }
}

proof fn lemma_digit_char_injective(a: nat, b: nat)
    requires
        a < 10,
        b < 10,
        digit_char(a) == digit_char(b),
    ensures
        a == b,
{
}

proof fn lemma_decimal_injective(a: nat, b: nat)
    requires
        decimal(a) == decimal(b),
    ensures
        a == b,
    decreases a,
{
    lemma_decimal_nonempty(a);
    lemma_decimal_nonempty(b);
    if a < 10 {
        assert(b < 10);
        assert(decimal(a) == seq![digit_char(a)]);
        assert(decimal(b) == seq![digit_char(b)]);
        assert(decimal(a)[0] == digit_char(a));
        lemma_digit_char_injective(a, b);
    } else {
        assert(b >= 10);
        assert(decimal(a) == decimal(a / 10).push(digit_char(a % 10)));
        assert(decimal(b) == decimal(b / 10).push(digit_char(b % 10)));
        assert(decimal(a).drop_last() == decimal(a / 10));
        assert(decimal(b).drop_last() == decimal(b / 10));
        lemma_decimal_injective(a / 10, b / 10);
        assert(decimal(a).last() == digit_char(a % 10));
        lemma_digit_char_injective(a % 10, b % 10);
    }
}

proof fn lemma_candidate_injective(j: nat, k: nat)
    requires
        j >= 1,
        k >= 1,
        default_name_candidate(j) == default_name_candidate(k),
    ensures
        j == k,
{
    reveal_strlit("New Collection");
    reveal_strlit("New Collection ");
    assert("New Collection"@.len() == 14);
    assert("New Collection "@.len() == 15);
    lemma_decimal_nonempty(j);
    lemma_decimal_nonempty(k);
    if j >= 2 && k >= 2 {
        let pre = "New Collection "@;
        assert(default_name_candidate(j).subrange(15, default_name_candidate(j).len() as int) =~= decimal(j));
        assert(default_name_candidate(k).subrange(15, default_name_candidate(k).len() as int) =~= decimal(k));
        lemma_decimal_injective(j, k);
    } else if j >= 2 || k >= 2 {
        assert(default_name_candidate(j).len() != default_name_candidate(k).len());
    }
}

spec fn candidates_upto(m: nat) -> Set<Seq<char>>
    decreases m,
{
    if m == 0 {
        Set::empty()
    } else {
        candidates_upto((m - 1) as nat).insert(default_name_candidate(m))
    }
}

proof fn lemma_candidates_upto(m: nat)
    ensures
        candidates_upto(m).finite(),
        candidates_upto(m).len() == m,
        forall|s: Seq<char>|
            #[trigger] candidates_upto(m).contains(s) ==> exists|j: nat|
                1 <= j <= m && s == default_name_candidate(j),
    decreases m,
{
    if m > 0 {
        lemma_candidates_upto((m - 1) as nat);
        let prev = candidates_upto((m - 1) as nat);
        if prev.contains(default_name_candidate(m)) {
            let j = choose|j: nat| 1 <= j <= m - 1 && default_name_candidate(m) == default_name_candidate(j);
            lemma_candidate_injective(m, j);
        }
        vstd::set::axiom_set_insert_finite(prev, default_name_candidate(m));
        vstd::set::axiom_set_insert_len(prev, default_name_candidate(m));
        assert forall|s: Seq<char>| #[trigger] candidates_upto(m).contains(s) implies exists|j: nat|
            1 <= j <= m && s == default_name_candidate(j) by {
            if s != default_name_candidate(m) {
                assert(prev.contains(s));
            }
        }
    }
}

/// Pigeonhole: at most `s.len()` of the candidate names can be taken.
proof fn lemma_free_candidate_exists(s: Seq<CollectionView>)
    ensures
        exists|j: nat| 1 <= j <= s.len() + 1 && !name_taken(s, #[trigger] default_name_candidate(j)),
{
    let m = (s.len() + 1) as nat;
    if forall|j: nat| 1 <= j <= m ==> name_taken(s, #[trigger] default_name_candidate(j)) {
        let names = s.map_values(|c: CollectionView| c.name);
        lemma_candidates_upto(m);
        assert forall|x: Seq<char>| #[trigger] candidates_upto(m).contains(x) implies names.to_set().contains(x) by {
            let j = choose|j: nat| 1 <= j <= m && x == default_name_candidate(j);
            assert(name_taken(s, default_name_candidate(j)));
            let i = choose|i: int| 0 <= i < s.len() && #[trigger] s[i].name == default_name_candidate(j);
            assert(names[i] == x);
            assert(names.contains(x));
        }
        names.lemma_cardinality_of_set();
        vstd::seq_lib::seq_to_set_is_finite(names);
        vstd::set_lib::lemma_len_subset(candidates_upto(m), names.to_set());
        assert(false);
    }
}

/// Whether some collection of `v` is named `name`.
fn name_in_use(v: &Vec<Collection>, name: &String) -> (r: bool)
    ensures
        r == name_taken(views(v@), name@),
{
    for i in 0..v.len()
        invariant
            forall|k: int| 0 <= k < i ==> v@[k].name@ != name@,
    {
        if v[i].name == *name {
            assert(views(v@)[i as int].name == name@);
            return true;
        }
    }
    proof {
        if name_taken(views(v@), name@) {
            let k = choose|k: int| 0 <= k < views(v@).len() && #[trigger] views(v@)[k].name == name@;
            assert(v@[k].name@ == name@);
        }
    }
    false
}

fn default_name_for(k: u64) -> (r: String)
    requires
        k >= 2,
    ensures
        r@ == default_name_candidate(k as nat),
{
    let mut chars: Vec<char> = Vec::new();
    chars.push('N');
    chars.push('e');
    chars.push('w');
    chars.push(' ');
    chars.push('C');
    chars.push('o');
    chars.push('l');
    chars.push('l');
    chars.push('e');
    chars.push('c');
    chars.push('t');
    chars.push('i');
    chars.push('o');
    chars.push('n');
    chars.push(' ');
    proof {
        reveal_strlit("New Collection ");
    }
    assert(chars@ =~= "New Collection "@);
    push_decimal(&mut chars, k);
    string_of(&chars)
}

/// What an entry of a library photo's context menu does.
#[derive(Debug, Clone, Copy, PartialEq, Eq, Structural)]
pub enum PhotoMenuAction {
    /// Take the photo out of this collection.
    Toggle(usize),
    /// Put the photo into this collection.
    Add(usize),
}

pub open spec fn menu_entry_is(entry: (String, PhotoMenuAction), c: CollectionView, path: Seq<char>, i: int) -> bool {
    if c.photos.contains(path) {
        entry.0@ == "\u{2713} "@ + c.name && entry.1 == PhotoMenuAction::Toggle(i as usize)
    } else {
        entry.0@ == "Add to "@ + c.name && entry.1 == PhotoMenuAction::Add(i as usize)
    }
}

/// Collections are ordered by name.
pub open spec fn name_key() -> spec_fn(CollectionView) -> Seq<char> {
    |c: CollectionView| c.name
}

impl CollectionStore {
    /// Adds an empty collection called `name` and re-sorts by name
    /// (stably: collections whose names compare equal keep their order,
    /// the new one after the others).
    pub fn create(&mut self, name: &str)
        ensures
            final(self)@.to_multiset() == old(self)@.push(
                CollectionView { name: name@, photos: Seq::empty() },
            ).to_multiset(),
            final(self)@.len() == old(self)@.len() + 1,
            naturally_sorted(final(self).collections@),
            final(self)@ == sorted_by(old(self)@.push(CollectionView { name: name@, photos: Seq::empty() }), name_key()),
    {
        let c = Collection { name: String::from_str(name), photos: Vec::new() };
        assert(c@.photos =~= Seq::<Seq<char>>::empty());
        assert(c@ == CollectionView { name: name@, photos: Seq::empty() });
        let ghost before = self.collections@;
        self.collections.push(c);
        assert(views(self.collections@) =~= views(before).push(
            CollectionView { name: name@, photos: Seq::empty() },
        ));
        let ghost unsorted = self.collections@;
        natural_sort(&mut self.collections);
        proof {
            assert forall|y: Collection| #[trigger] y.sort_key() == (name_key())(y@) by {}
            crate::natural::lemma_sorted_views(unsorted, name_key());
        }
    }

    /// Renames collection `index` (if it exists) and re-sorts by name.
    pub fn rename(&mut self, index: usize, new_name: &str)
        ensures
            final(self)@.to_multiset() == with_name(old(self)@, index as int, new_name@).to_multiset(),
            final(self)@.len() == old(self)@.len(),
            naturally_sorted(final(self).collections@),
            final(self)@ == sorted_by(with_name(old(self)@, index as int, new_name@), name_key()),
            index >= old(self)@.len() ==> final(self).collections@ == insertion_sorted(old(self).collections@),
            index >= old(self)@.len() && naturally_sorted(old(self).collections@) ==> final(self).collections@
                == old(self).collections@,
    {
        let ghost before = self.collections@;
        proof {
            if naturally_sorted(before) {
                law_sorted_input_is_unchanged(before);
            }
        }
        if index < self.collections.len() {
            let mut c = self.collections.remove(index);
            c.name = String::from_str(new_name);
            self.collections.insert(index, c);
            assert(views(self.collections@) =~= with_name(views(before), index as int, new_name@));
        }
        let ghost unsorted = self.collections@;
        natural_sort(&mut self.collections);
        proof {
            assert forall|y: Collection| #[trigger] y.sort_key() == (name_key())(y@) by {}
            crate::natural::lemma_sorted_views(unsorted, name_key());
        }
    }

    /// Removes collection `index` (nothing happens when out of range).
    pub fn delete(&mut self, index: usize)
        ensures
            final(self).collections@ == (if index < old(self).collections@.len() {
                old(self).collections@.remove(index as int)
            } else {
                old(self).collections@
            }),
    {
        if index < self.collections.len() {
            self.collections.remove(index);
        }
    }

    /// Adds `path` to collection `collection_index` unless it is already
    /// there or the collection does not exist.
    pub fn add_photo(&mut self, collection_index: usize, path: &str)
        ensures
            final(self)@ == with_photo_added(old(self)@, collection_index as int, path@),
    {
        let ghost before = self.collections@;
        if collection_index < self.collections.len() {
            let mut c = self.collections.remove(collection_index);
            let p = String::from_str(path);
            let mut present = false;
            for k in 0..c.photos.len()
                invariant
                    present == exists|j: int| 0 <= j < k && c.photos@[j]@ == path@,
                    p@ == path@,
            {
                if c.photos[k] == p {
                    present = true;
                }
            }
            proof {
                if string_views(c.photos@).contains(path@) {
                    let j = choose|j: int|
                        0 <= j < string_views(c.photos@).len() && string_views(c.photos@)[j] == path@;
                    assert(c.photos@[j]@ == path@);
                }
                if present {
                    let j = choose|j: int| 0 <= j < c.photos@.len() && c.photos@[j]@ == path@;
                    assert(string_views(c.photos@)[j] == path@);
                }
            }
            let ghost old_c = c;
            if !present {
                c.photos.push(p);
                assert(string_views(c.photos@) =~= string_views(old_c.photos@).push(path@));
            }
            self.collections.insert(collection_index, c);
            assert(views(self.collections@) =~= with_photo_added(
                views(before),
                collection_index as int,
                path@,
            ));
        }
    }

    /// Removes every occurrence of `path` from collection `collection_index`.
    pub fn remove_photo(&mut self, collection_index: usize, path: &str)
        ensures
            final(self)@ == with_photo_removed(old(self)@, collection_index as int, path@),
    {
        let ghost before = self.collections@;
        if collection_index < self.collections.len() {
            let mut c = self.collections.remove(collection_index);
            let p = String::from_str(path);
            let mut kept: Vec<String> = Vec::new();
            for k in 0..c.photos.len()
                invariant
                    p@ == path@,
                    string_views(kept@) == without(
                        string_views(c.photos@.subrange(0, k as int)),
                        path@,
                    ),
            {
                let ghost prefix = c.photos@.subrange(0, k as int);
                let ghost next = c.photos@.subrange(0, k + 1);
                assert(string_views(next).drop_last() =~= string_views(prefix));
                assert(string_views(next).last() == c.photos@[k as int]@);
                if c.photos[k] != p {
                    kept.push(c.photos[k].clone());
                    assert(string_views(kept@) =~= without(string_views(next), path@));
                }
            }
            assert(c.photos@.subrange(0, c.photos@.len() as int) == c.photos@);
            c.photos = kept;
            self.collections.insert(collection_index, c);
            assert(views(self.collections@) =~= with_photo_removed(
                views(before),
                collection_index as int,
                path@,
            ));
        }
    }

    /// Whether collection `collection_index` exists and holds `path`.
    pub fn holds_photo(&self, collection_index: usize, path: &str) -> (r: bool)
        ensures
            r == (collection_index < self@.len() && self@[collection_index as int].photos.contains(path@)),
    {
        if collection_index >= self.collections.len() {
            return false;
        }
        let c = &self.collections[collection_index];
        assert(self@[collection_index as int].photos == string_views(c.photos@));
        let p = String::from_str(path);
        let mut k: usize = 0;
        while k < c.photos.len()
            invariant
                k <= c.photos@.len(),
                p@ == path@,
                collection_index < self@.len(),
                self@[collection_index as int].photos == string_views(c.photos@),
                forall|j: int| 0 <= j < k ==> c.photos@[j]@ != path@,
            decreases c.photos.len() - k,
        {
            if c.photos[k] == p {
                assert(string_views(c.photos@)[k as int] == path@);
                assert(string_views(c.photos@).contains(path@));
                return true;
            }
            k = k + 1;
        }
        proof {
            if string_views(c.photos@).contains(path@) {
                let j = choose|j: int| 0 <= j < string_views(c.photos@).len() && string_views(c.photos@)[j] == path@;
                assert(c.photos@[j]@ == path@);
            }
        }
        false
    }

    /// A click on collection `collection_index` in a photo's context menu:
    /// the photo leaves the collection when it is in it and joins it
    /// otherwise. Nothing happens when the collection is gone or the photo
    /// has left the library.
    pub fn toggle_photo(&mut self, collection_index: usize, path: &str, in_library: bool)
        ensures
            final(self)@ == (if collection_index < old(self)@.len() && in_library {
                if old(self)@[collection_index as int].photos.contains(path@) {
                    with_photo_removed(old(self)@, collection_index as int, path@)
                } else {
                    with_photo_added(old(self)@, collection_index as int, path@)
                }
            } else {
                old(self)@
            }),
    {
        if collection_index < self.collections.len() && in_library {
            if self.holds_photo(collection_index, path) {
                self.remove_photo(collection_index, path);
            } else {
                self.add_photo(collection_index, path);
            }
        }
    }

    /// A click on "Add to" collection `collection_index` in a photo's context
    /// menu: the photo joins the collection, unless the collection is gone
    /// or the photo has left the library.
    pub fn add_library_photo(&mut self, collection_index: usize, path: &str, in_library: bool)
        ensures
            final(self)@ == (if collection_index < old(self)@.len() && in_library {
                with_photo_added(old(self)@, collection_index as int, path@)
            } else {
                old(self)@
            }),
    {
        if collection_index < self.collections.len() && in_library {
            self.add_photo(collection_index, path);
        }
    }

    /// The context menu of a library photo: one entry per collection, in
    /// order, "\u{2713} <name>" (taking the photo out) for a collection that
    /// holds it and "Add to <name>" otherwise; no entry when the photo has
    /// left the library.
    pub fn photo_menu(&self, path: &str, in_library: bool) -> (menu: Vec<(String, PhotoMenuAction)>)
        ensures
            !in_library ==> menu@.len() == 0,
            in_library ==> menu@.len() == self@.len(),
            in_library ==> forall|i: int| 0 <= i < self@.len() ==> #[trigger] menu_entry_is(menu@[i], self@[i], path@, i),
    {
        let mut menu: Vec<(String, PhotoMenuAction)> = Vec::new();
        if !in_library {
            return menu;
        }
        let mut i: usize = 0;
        while i < self.collections.len()
            invariant
                i <= self@.len(),
                self@.len() == self.collections@.len(),
                menu@.len() == i,
                forall|j: int| 0 <= j < i ==> #[trigger] menu_entry_is(menu@[j], self@[j], path@, j),
            decreases self.collections.len() - i,
        {
            let held = self.holds_photo(i, path);
            let name = crate::text::chars_of(self.collections[i].name.as_str());
            assert(self@[i as int].name == self.collections@[i as int].name@);
            if held {
                let mut label = crate::text::chars_of("\u{2713} ");
                crate::text::extend_chars(&mut label, &name);
                menu.push((string_of(&label), PhotoMenuAction::Toggle(i)));
            } else {
                let mut label = crate::text::chars_of("Add to ");
                crate::text::extend_chars(&mut label, &name);
                menu.push((string_of(&label), PhotoMenuAction::Add(i)));
            }
            i = i + 1;
        }
        menu
    }

    /// "New Collection", or "New Collection k" for the smallest k >= 2 that
    /// no collection uses yet.
    pub fn next_default_name(&self) -> (name: String)
        requires
            self.collections@.len() < u64::MAX,
        ensures
            is_next_default_name(self@, name@),
            !name_taken(self@, name@),
    {
        let base = String::from_str("New Collection");
        proof {
            lemma_free_candidate_exists(self@);
        }
        if !name_in_use(&self.collections, &base) {
            assert(default_name_candidate(1) == base@);
            assert(is_next_default_name(self@, base@)) by {
                assert(forall|j: nat| 1 <= j < 1 ==> name_taken(self@, #[trigger] default_name_candidate(j)));
            }
            return base;
        }
        assert(default_name_candidate(1) == base@);
        assert(name_taken(self@, default_name_candidate(1)));
        let n = self.collections.len() as u64;
        let ghost jf = choose|j: nat|
            1 <= j <= self@.len() + 1 && !name_taken(self@, #[trigger] default_name_candidate(j));
        let mut k: u64 = 2;
        while k <= n + 1
            invariant
                2 <= k <= jf,
                jf <= n + 1,
                !name_taken(self@, default_name_candidate(jf)),
                n == self@.len(),
                n < u64::MAX,
                forall|j: nat| 1 <= j < k ==> name_taken(self@, #[trigger] default_name_candidate(j)),
            decreases n + 2 - k,
        {
            let candidate = default_name_for(k);
            if !name_in_use(&self.collections, &candidate) {
                assert(default_name_candidate(k as nat) == candidate@);
                assert(is_next_default_name(self@, candidate@)) by {
                    assert(candidate@ == default_name_candidate(k as nat));
                }
                return candidate;
            }
            assert(k != jf);
            k = k + 1;
        }
        proof {
            assert(false);
        }
        base
    }
}

} // verus!
