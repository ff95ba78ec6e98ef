//! Natural ("human") ordering of text, as the `natord` crate defines it,
//! and a stable insertion sort that orders values by a natural sort key.

use vstd::prelude::*;
use vstd::multiset::Multiset;

verus! {

/// What `natord::compare(left, right)` returns: -1 (less), 0 (equal) or
/// 1 (greater). Digit runs compare by value, whitespace is skipped, other
/// characters compare by code point.
pub uninterp spec fn natural_order(left: Seq<char>, right: Seq<char>) -> i8;

/// `natord::compare`, mapped to -1 / 0 / 1.
///
/// Claims of the outside function: the result is one of the three values;
/// swapping the arguments negates it (every branch of `compare_iter` is
/// mirrored: `(Some, None)` gives `Greater` where `(None, Some)` gives
/// `Less`, digit and character comparisons reverse); equal texts compare
/// equal. Transitivity is not claimed.
#[verifier::external_body]
pub(crate) fn natord_compare(left: &str, right: &str) -> (r: i8)
    ensures
        r == natural_order(left@, right@),
        -1 <= r <= 1,
        natural_order(right@, left@) == -r,
        left@ == right@ ==> r == 0,
{
    match natord::compare(left, right) {
        std::cmp::Ordering::Less => -1,
        std::cmp::Ordering::Equal => 0,
        std::cmp::Ordering::Greater => 1,
    }
}

/// A value that sorts by a natural-order text key.
pub trait NaturalKey {
    spec fn sort_key(&self) -> Seq<char>;

    fn key_string(&self) -> (k: String)
        ensures
            k@ == self.sort_key(),
    ;
}

/// Every neighbouring pair is in natural order (the left key is not
/// greater than the right one).
pub open spec fn naturally_sorted<T: NaturalKey>(s: Seq<T>) -> bool {
    forall|i: int|
        0 <= i < s.len() - 1 ==> natural_order(#[trigger] s[i].sort_key(), s[i + 1].sort_key())
            <= 0
}

/// The views of the elements of `s`.
pub open spec fn views<T: View>(s: Seq<T>) -> Seq<T::V> {
    s.map_values(|x: T| x@)
}

proof fn lemma_views_remove<T: View>(s: Seq<T>, i: int)
    requires
        0 <= i < s.len(),
    ensures
        views(s.remove(i)) == views(s).remove(i),
{
    assert(views(s.remove(i)) =~= views(s).remove(i));
}

proof fn lemma_views_insert<T: View>(s: Seq<T>, i: int, x: T)
    requires
        0 <= i <= s.len(),
    ensures
        views(s.insert(i, x)) == views(s).insert(i, x@),
{
    assert(views(s.insert(i, x)) =~= views(s).insert(i, x@));
}

/// `x` placed into `sorted` after the last element (from the back) whose
/// key does not compare greater than `x`'s, the step of a stable insertion
/// sort.
pub open spec fn insert_by_key<T: NaturalKey>(sorted: Seq<T>, x: T) -> Seq<T>
    decreases sorted.len(),
{
    if sorted.len() == 0 {
        seq![x]
    } else if natural_order(sorted.last().sort_key(), x.sort_key()) <= 0 {
        sorted.push(x)
    } else {
        insert_by_key(sorted.drop_last(), x).push(sorted.last())
    }
}

/// The stable insertion sort of `s` by natural order of the keys: the
/// elements are inserted one by one from the front.
pub open spec fn insertion_sorted<T: NaturalKey>(s: Seq<T>) -> Seq<T>
    decreases s.len(),
{
    if s.len() == 0 {
        s
    } else {
        insert_by_key(insertion_sorted(s.drop_last()), s.last())
    }
}

proof fn lemma_insert_at<T: NaturalKey>(s: Seq<T>, x: T, p: int)
    requires
        0 <= p <= s.len(),
        p > 0 ==> natural_order(s[p - 1].sort_key(), x.sort_key()) <= 0,
        forall|k: int| p <= k < s.len() ==> natural_order(#[trigger] s[k].sort_key(), x.sort_key()) == 1,
    ensures
        insert_by_key(s, x) == s.insert(p, x),
    decreases s.len(),
{
    if s.len() == 0 {
        assert(s.insert(p, x) =~= seq![x]);
    } else if p == s.len() {
        assert(s.insert(p, x) =~= s.push(x));
    } else {
        let d = s.drop_last();
        assert(natural_order(s[s.len() - 1].sort_key(), x.sort_key()) == 1);
        assert forall|k: int| p <= k < d.len() implies natural_order(#[trigger] d[k].sort_key(), x.sort_key()) == 1 by {
            assert(d[k] == s[k]);
        }
        if p > 0 {
            assert(d[p - 1] == s[p - 1]);
        }
        lemma_insert_at(d, x, p);
        assert(d.insert(p, x).push(s.last()) =~= s.insert(p, x));
    }
}

/// A naturally sorted sequence is its own stable sort: equal keys keep
/// their order and nothing moves.
pub proof fn law_sorted_input_is_unchanged<T: NaturalKey>(s: Seq<T>)
    requires
        naturally_sorted(s),
    ensures
        insertion_sorted(s) == s,
    decreases s.len(),
{
    if s.len() > 0 {
        let d = s.drop_last();
        assert(naturally_sorted(d)) by {
            assert forall|i: int| 0 <= i < d.len() - 1 implies natural_order(#[trigger] d[i].sort_key(), d[i + 1].sort_key()) <= 0 by {
                assert(d[i] == s[i] && d[i + 1] == s[i + 1]);
            }
        }
        law_sorted_input_is_unchanged(d);
        if d.len() > 0 {
            assert(d.last() == s[s.len() - 2]);
            assert(natural_order(s[s.len() - 2].sort_key(), s[s.len() - 1].sort_key()) <= 0);
            assert(d.push(s.last()) =~= s);
        } else {
            assert(seq![s.last()] =~= s);
        }
    }
}

/// `insert_by_key` on plain values, ordered by `key`.
pub open spec fn insert_by<V>(sorted: Seq<V>, x: V, key: spec_fn(V) -> Seq<char>) -> Seq<V>
    decreases sorted.len(),
{
    if sorted.len() == 0 {
        seq![x]
    } else if natural_order(key(sorted.last()), key(x)) <= 0 {
        sorted.push(x)
    } else {
        insert_by(sorted.drop_last(), x, key).push(sorted.last())
    }
}

/// The stable insertion sort of plain values by natural order of `key`.
pub open spec fn sorted_by<V>(s: Seq<V>, key: spec_fn(V) -> Seq<char>) -> Seq<V>
    decreases s.len(),
{
    if s.len() == 0 {
        s
    } else {
        insert_by(sorted_by(s.drop_last(), key), s.last(), key)
    }
}

proof fn lemma_insert_views<T: NaturalKey + View>(s: Seq<T>, x: T, key: spec_fn(T::V) -> Seq<char>)
    requires
        forall|y: T| #[trigger] y.sort_key() == key(y@),
    ensures
        views(insert_by_key(s, x)) == insert_by(views(s), x@, key),
    decreases s.len(),
{
    if s.len() == 0 {
        assert(views(seq![x]) =~= seq![x@]);
    } else {
        assert(views(s).last() == s.last()@);
        assert(s.last().sort_key() == key(s.last()@));
        assert(x.sort_key() == key(x@));
        assert(views(s.drop_last()) =~= views(s).drop_last());
        if natural_order(s.last().sort_key(), x.sort_key()) <= 0 {
            assert(views(s.push(x)) =~= views(s).push(x@));
        } else {
            lemma_insert_views(s.drop_last(), x, key);
            assert(views(insert_by_key(s.drop_last(), x).push(s.last())) =~= views(insert_by_key(s.drop_last(), x)).push(
                s.last()@,
            ));
        }
    }
}

/// The stable sort by key seen through the views: sorting values whose key
/// is a function of their view sorts their views the same way.
pub proof fn lemma_sorted_views<T: NaturalKey + View>(s: Seq<T>, key: spec_fn(T::V) -> Seq<char>)
    requires
        forall|y: T| #[trigger] y.sort_key() == key(y@),
    ensures
        views(insertion_sorted(s)) == sorted_by(views(s), key),
    decreases s.len(),
{
    if s.len() > 0 {
        lemma_sorted_views(s.drop_last(), key);
        assert(views(s.drop_last()) =~= views(s).drop_last());
        assert(views(s).last() == s.last()@);
        lemma_insert_views(insertion_sorted(s.drop_last()), s.last(), key);
    } else {
        assert(views(s) =~= Seq::<T::V>::empty());
    }
}

/// Sorts `v` by natural order of the keys: the result holds the same
/// elements (compared by view, with multiplicity) and every neighbouring
/// pair is in natural order. Elements are inserted one by one from the
/// front, each placed after every element that does not compare greater,
/// so equal keys keep their order.
pub fn natural_sort<T: NaturalKey + View>(v: &mut Vec<T>)
    ensures
        views(final(v)@).to_multiset() == views(old(v)@).to_multiset(),
        final(v)@.len() == old(v)@.len(),
        naturally_sorted(final(v)@),
        final(v)@ == insertion_sorted(old(v)@),
{
    broadcast use vstd::seq_lib::group_to_multiset_ensures;

    let ghost orig = views(v@);
    let ghost orig_t = v@;
    assert(orig_t.subrange(0, 0) =~= Seq::<T>::empty());
    assert(orig_t.subrange(0, orig_t.len() as int) =~= orig_t);
    let mut result: Vec<T> = Vec::new();
    assert(views(result@).to_multiset() =~= Multiset::empty());
    while v.len() > 0
        invariant
            views(result@).to_multiset().add(views(v@).to_multiset()) == orig.to_multiset(),
            result@.len() + v@.len() == orig.len(),
            naturally_sorted(result@),
            orig.len() == orig_t.len(),
            v@ == orig_t.subrange(orig_t.len() - v@.len(), orig_t.len() as int),
            result@ == insertion_sorted(orig_t.subrange(0, orig_t.len() - v@.len())),
        decreases v.len(),
    {
        let ghost before_v = v@;
        let ghost k = orig_t.len() - v@.len();
        let x = v.remove(0);
        assert(x == orig_t[k]);
        assert(v@ =~= orig_t.subrange(k + 1, orig_t.len() as int));
        assert(orig_t.subrange(0, k + 1).drop_last() =~= orig_t.subrange(0, k));
        proof {
            lemma_views_remove(before_v, 0);
            vstd::seq_lib::to_multiset_remove(views(before_v), 0);
        }
        let xk = x.key_string();
        let mut p = result.len();
        let mut stopped = false;
        while p > 0 && !stopped
            invariant
                p <= result@.len(),
                stopped ==> p > 0 && natural_order(result@[p - 1].sort_key(), x.sort_key()) <= 0,
                xk@ == x.sort_key(),
                naturally_sorted(result@),
                forall|k: int|
                    p <= k < result@.len() ==> natural_order(#[trigger] result@[k].sort_key(), x.sort_key()) == 1
                        && natural_order(x.sort_key(), result@[k].sort_key()) == -1,
            decreases p + (if stopped { 0int } else { 1int }),
        {
            let rk = result[p - 1].key_string();
            let c = natord_compare(rk.as_str(), xk.as_str());
            if c <= 0 {
                stopped = true;
            } else {
                p = p - 1;
            }
        }
        let ghost old_result = result@;
        proof {
            lemma_insert_at(old_result, x, p as int);
        }
        result.insert(p, x);
        assert(result@ == old_result.insert(p as int, x));
        proof {
            lemma_views_insert(old_result, p as int, x);
            vstd::seq_lib::to_multiset_insert(views(old_result), p as int, x@);
            broadcast use vstd::multiset::group_multiset_axioms;
            let bv = views(before_v);
            assert(bv[0] == x@);
            assert(bv.contains(x@));
            vstd::seq_lib::to_multiset_contains(bv, x@);
            assert(bv.to_multiset() =~= bv.to_multiset().remove(x@).insert(x@));
        }
        assert forall|i: int| 0 <= i < result@.len() - 1 implies natural_order(
            #[trigger] result@[i].sort_key(),
            result@[i + 1].sort_key(),
        ) <= 0 by {
            if i + 1 < p {
                assert(result@[i] == old_result[i]);
                assert(result@[i + 1] == old_result[i + 1]);
            } else if i + 1 == p {
                assert(result@[i] == old_result[i]);
                assert(result@[i + 1] == x);
            } else if i == p {
                assert(result@[i + 1] == old_result[i]);
            } else {
                assert(result@[i] == old_result[i - 1]);
                assert(result@[i + 1] == old_result[i]);
            }
        }
    }
    assert(views(v@).to_multiset() =~= Multiset::empty());
    *v = result;
}

} // verus!
