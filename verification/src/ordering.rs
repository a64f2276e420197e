//! Keyed collections, stable sorting and pagination over abstract sequences.
//!
//! The registries keep their entries as key/value pairs with unique keys;
//! listings filter, stably sort and then paginate the stored values.
use vstd::prelude::*;

use crate::filter::Pagination;
use vstd::seq_lib::to_multiset_contains;

verus! {

// ---------------------------------------------------------------------------
// Keyed sequences
// ---------------------------------------------------------------------------

/// No key occurs twice.
pub open spec fn keys_unique<K, V>(s: Seq<(K, V)>) -> bool {
    forall|i: int, j: int| 0 <= i < j < s.len() ==> s[i].0 != s[j].0
}

/// Whether some entry has key `k`.
pub open spec fn has_key<K, V>(s: Seq<(K, V)>, k: K) -> bool {
    exists|i: int| 0 <= i < s.len() && #[trigger] s[i].0 == k
}

/// The position of the entry with key `k` (meaningful when there is one).
pub open spec fn key_index<K, V>(s: Seq<(K, V)>, k: K) -> int {
    choose|i: int| 0 <= i < s.len() && #[trigger] s[i].0 == k
}

/// The value stored under key `k`, if any.
pub open spec fn lookup<K, V>(s: Seq<(K, V)>, k: K) -> Option<V> {
    if has_key(s, k) {
        Some(s[key_index(s, k)].1)
    } else {
        None
    }
}

/// `s` with the value under `k` replaced by `v`, or `(k, v)` appended when
/// `k` is new.
pub open spec fn upsert<K, V>(s: Seq<(K, V)>, k: K, v: V) -> Seq<(K, V)> {
    if has_key(s, k) {
        s.update(key_index(s, k), (k, v))
    } else {
        s.push((k, v))
    }
}

/// The stored values, in storage order.
pub open spec fn values_of<K, V>(s: Seq<(K, V)>) -> Seq<V> {
    s.map_values(|e: (K, V)| e.1)
}

/// In a sequence with unique keys, the entry found at a position holding
/// `k` is the one that `lookup` reports.
pub proof fn lemma_lookup_at<K, V>(s: Seq<(K, V)>, k: K, i: int)
    requires
        keys_unique(s),
        0 <= i < s.len(),
        s[i].0 == k,
    ensures
        has_key(s, k),
        key_index(s, k) == i,
        lookup(s, k) == Some(s[i].1),
{
    assert(s[i].0 == k);
}

/// Upserting keeps keys unique, makes `k` map to `v` and leaves every
/// other key as it was.
pub proof fn lemma_upsert<K, V>(s: Seq<(K, V)>, k: K, v: V)
    requires
        keys_unique(s),
    ensures
        keys_unique(upsert(s, k, v)),
        lookup(upsert(s, k, v), k) == Some(v),
        forall|k2: K| k2 != k ==> lookup(#[trigger] upsert(s, k, v), k2) == lookup(s, k2),
        has_key(s, k) ==> upsert(s, k, v).len() == s.len(),
        !has_key(s, k) ==> upsert(s, k, v).len() == s.len() + 1,
{
    let t = upsert(s, k, v);
    if has_key(s, k) {
        let i = key_index(s, k);
        assert(t[i].0 == k);
        lemma_lookup_at(t, k, i);
        assert forall|k2: K| k2 != k implies lookup(#[trigger] upsert(s, k, v), k2) == lookup(s, k2) by {
            if has_key(s, k2) {
                let j = key_index(s, k2);
                assert(t[j] == s[j]);
                lemma_lookup_at(t, k2, j);
            } else {
                if has_key(t, k2) {
                    let j = key_index(t, k2);
                    assert(s[j].0 == k2);
                }
            }
        }
    } else {
        let i = s.len() as int;
        assert(t[i].0 == k);
        lemma_lookup_at(t, k, i);
        assert forall|k2: K| k2 != k implies lookup(#[trigger] upsert(s, k, v), k2) == lookup(s, k2) by {
            if has_key(s, k2) {
                let j = key_index(s, k2);
                assert(t[j] == s[j]);
                lemma_lookup_at(t, k2, j);
            } else {
                if has_key(t, k2) {
                    let j = key_index(t, k2);
                    assert(s[j].0 == k2);
                }
            }
        }
    }
}

// ---------------------------------------------------------------------------
// Stable insertion order
// ---------------------------------------------------------------------------

/// Inserts `x` into `s` after every element that does not sort after it
/// (the step of a stable insertion sort; `ord(a, b) > 0` means `a` sorts
/// after `b`).
pub open spec fn insert_sorted<V>(s: Seq<V>, x: V, ord: spec_fn(V, V) -> int) -> Seq<V>
    decreases s.len(),
{
    if s.len() == 0 {
        seq![x]
    } else if ord(s.last(), x) > 0 {
        insert_sorted(s.drop_last(), x, ord).push(s.last())
    } else {
        s.push(x)
    }
}

/// The stable sort of `s` under `ord`.
pub open spec fn sort_stable<V>(s: Seq<V>, ord: spec_fn(V, V) -> int) -> Seq<V>
    decreases s.len(),
{
    if s.len() == 0 {
        s
    } else {
        insert_sorted(sort_stable(s.drop_last(), ord), s.last(), ord)
    }
}

/// Inserting at the first position after which only greater elements
/// follow is the stable insertion step.
pub proof fn lemma_insert_sorted_at<V>(s: Seq<V>, x: V, ord: spec_fn(V, V) -> int, p: int)
    requires
        0 <= p <= s.len(),
        forall|k: int| p <= k < s.len() ==> ord(#[trigger] s[k], x) > 0,
        p == 0 || ord(s[p - 1], x) <= 0,
    ensures
        insert_sorted(s, x, ord) == s.insert(p, x),
    decreases s.len(),
{
    if s.len() == 0 {
        assert(s.insert(p, x) =~= seq![x]);
    } else if p == s.len() {
        assert(s.insert(p, x) =~= s.push(x));
    } else {
        assert(ord(s[s.len() - 1], x) > 0);
        let d = s.drop_last();
        assert forall|k: int| p <= k < d.len() implies ord(#[trigger] d[k], x) > 0 by {
            assert(d[k] == s[k]);
        }
        lemma_insert_sorted_at(d, x, ord, p);
        assert(d.insert(p, x).push(s.last()) =~= s.insert(p, x));
    }
}

/// Stable sorting keeps the number of elements.
pub proof fn lemma_sort_stable_len<V>(s: Seq<V>, ord: spec_fn(V, V) -> int)
    ensures
        sort_stable(s, ord).len() == s.len(),
    decreases s.len(),
{
    if s.len() > 0 {
        lemma_sort_stable_len(s.drop_last(), ord);
        lemma_insert_sorted_len(sort_stable(s.drop_last(), ord), s.last(), ord);
    }
}

/// Inserting adds one element.
pub proof fn lemma_insert_sorted_len<V>(s: Seq<V>, x: V, ord: spec_fn(V, V) -> int)
    ensures
        insert_sorted(s, x, ord).len() == s.len() + 1,
    decreases s.len(),
{
    if s.len() > 0 && ord(s.last(), x) > 0 {
        lemma_insert_sorted_len(s.drop_last(), x, ord);
    }
}

// ---------------------------------------------------------------------------
// Pagination
// ---------------------------------------------------------------------------

/// The elements of `s` after skipping `skip` of them, at most `limit` many.
pub open spec fn window<V>(s: Seq<V>, skip: int, limit: int) -> Seq<V> {
    let start = if skip < s.len() {
        skip
    } else {
        s.len() as int
    };
    let end = if start + limit < s.len() {
        start + limit
    } else {
        s.len() as int
    };
    s.subrange(start, end)
}

/// `i` is the first position of `s` whose identifier is `a`.
pub open spec fn is_first_with_id<V>(s: Seq<V>, id: spec_fn(V) -> u128, a: u128, i: int) -> bool {
    &&& 0 <= i < s.len()
    &&& id(s[i]) == a
    &&& forall|j: int| 0 <= j < i ==> id(#[trigger] s[j]) != a
}

/// Whether some element of `s` has identifier `a` first at some position.
pub open spec fn has_id<V>(s: Seq<V>, id: spec_fn(V) -> u128, a: u128) -> bool {
    exists|i: int| is_first_with_id(s, id, a, i)
}

/// The first position of `s` whose identifier is `a` (meaningful when
/// there is one).
pub open spec fn first_with_id<V>(s: Seq<V>, id: spec_fn(V) -> u128, a: u128) -> int {
    choose|i: int| is_first_with_id(s, id, a, i)
}

/// The page of `s` that `p` selects: an offset window, or the elements
/// that follow the first one with the cursor's identifier (nothing when
/// there is no cursor or no such element).
pub open spec fn paginate<V>(s: Seq<V>, p: Pagination, id: spec_fn(V) -> u128) -> Seq<V> {
    match p {
        Pagination::Offset { offset, limit } => window(s, offset as int, limit as int),
        Pagination::Cursor { after, limit } => match after {
            None => Seq::empty(),
            Some(a) => if has_id(s, id, a) {
                window(s, first_with_id(s, id, a) + 1, limit as int)
            } else {
                Seq::empty()
            },
        },
    }
}

/// A cursor page starts right after the first element with the cursor's
/// identifier.
pub proof fn lemma_paginate_cursor<V>(s: Seq<V>, id: spec_fn(V) -> u128, a: u128, limit: usize, i: int)
    requires
        is_first_with_id(s, id, a, i),
    ensures
        paginate(s, Pagination::Cursor { after: Some(a), limit }, id) == window(s, i + 1, limit as int),
{
    assert(exists|k: int| is_first_with_id(s, id, a, k));
    let pc = Pagination::Cursor { after: Some(a), limit };
    let c = first_with_id(s, id, a);
    assert(is_first_with_id(s, id, a, c));
    lemma_first_with_id_unique(s, id, a, i, c);
}

/// A cursor page is empty when no element has the cursor's identifier.
pub proof fn lemma_paginate_cursor_missing<V>(s: Seq<V>, id: spec_fn(V) -> u128, a: u128, limit: usize)
    requires
        forall|k: int| 0 <= k < s.len() ==> id(#[trigger] s[k]) != a,
    ensures
        paginate(s, Pagination::Cursor { after: Some(a), limit }, id) == Seq::<V>::empty(),
{
    assert forall|k: int| !is_first_with_id(s, id, a, k) by {
        if 0 <= k < s.len() {
            assert(id(s[k]) != a);
        }
    }
}

/// The first position with a given identifier is unique.
pub proof fn lemma_first_with_id_unique<V>(
    s: Seq<V>,
    id: spec_fn(V) -> u128,
    a: u128,
    i: int,
    j: int,
)
    requires
        is_first_with_id(s, id, a, i),
        is_first_with_id(s, id, a, j),
    ensures
        i == j,
{
    if i < j {
        assert(id(s[i]) != a);
    } else if j < i {
        assert(id(s[j]) != a);
    }
}

// ---------------------------------------------------------------------------
// Properties of stable sorting
// ---------------------------------------------------------------------------

/// `ord` is a total preorder: swapping the arguments flips the sign, and
/// "does not sort after" is transitive.
pub open spec fn is_total_preorder<V>(ord: spec_fn(V, V) -> int) -> bool {
    &&& forall|a: V, b: V| #[trigger] ord(a, b) == -ord(b, a)
    &&& forall|a: V, b: V, c: V| #[trigger] ord(a, b) <= 0 && #[trigger] ord(b, c) <= 0 ==> ord(a, c) <= 0
}

/// No element sorts after a later one.
pub open spec fn sorted_by<V>(s: Seq<V>, ord: spec_fn(V, V) -> int) -> bool {
    forall|i: int, j: int| 0 <= i < j < s.len() ==> ord(#[trigger] s[i], #[trigger] s[j]) <= 0
}

/// Inserting adds `x` and keeps every element of `s`.
pub proof fn lemma_insert_sorted_multiset<V>(s: Seq<V>, x: V, ord: spec_fn(V, V) -> int)
    ensures
        insert_sorted(s, x, ord).to_multiset() == s.to_multiset().insert(x),
    decreases s.len(),
{
    broadcast use vstd::seq_lib::group_to_multiset_ensures;

    if s.len() == 0 {
        assert(seq![x] =~= Seq::<V>::empty().push(x));
    } else if ord(s.last(), x) > 0 {
        lemma_insert_sorted_multiset(s.drop_last(), x, ord);
        assert(s.drop_last().push(s.last()) =~= s);
    }
}

/// Stable sorting only reorders: it keeps every element with its count.
pub proof fn lemma_sort_stable_multiset<V>(s: Seq<V>, ord: spec_fn(V, V) -> int)
    ensures
        sort_stable(s, ord).to_multiset() == s.to_multiset(),
    decreases s.len(),
{
    broadcast use vstd::seq_lib::group_to_multiset_ensures;

    if s.len() > 0 {
        lemma_sort_stable_multiset(s.drop_last(), ord);
        lemma_insert_sorted_multiset(sort_stable(s.drop_last(), ord), s.last(), ord);
        assert(s.drop_last().push(s.last()) =~= s);
    }
}

/// Every element of an insertion is `x` or an element of `s`.
proof fn lemma_insert_sorted_elements<V>(s: Seq<V>, x: V, ord: spec_fn(V, V) -> int)
    ensures
        forall|k: int|
            0 <= k < insert_sorted(s, x, ord).len() ==> #[trigger] insert_sorted(s, x, ord)[k] == x
                || s.contains(insert_sorted(s, x, ord)[k]),
    decreases s.len(),
{
    lemma_insert_sorted_len(s, x, ord);
    if s.len() > 0 && ord(s.last(), x) > 0 {
        let d = s.drop_last();
        lemma_insert_sorted_elements(d, x, ord);
        lemma_insert_sorted_len(d, x, ord);
        let t = insert_sorted(d, x, ord);
        assert forall|k: int| 0 <= k < t.push(s.last()).len() implies #[trigger] t.push(s.last())[k]
            == x || s.contains(t.push(s.last())[k]) by {
            if k < t.len() {
                if t[k] != x {
                    let m = choose|m: int| 0 <= m < d.len() && d[m] == t[k];
                    assert(s[m] == t[k]);
                }
            } else {
                assert(s[s.len() - 1] == s.last());
            }
        }
    } else if s.len() > 0 {
        assert forall|k: int| 0 <= k < s.push(x).len() implies #[trigger] s.push(x)[k] == x
            || s.contains(s.push(x)[k]) by {
            if k < s.len() {
                assert(s[k] == s.push(x)[k]);
            }
        }
    }
}

/// Inserting into a sorted sequence under a total preorder keeps it sorted.
pub proof fn lemma_insert_sorted_sorted<V>(s: Seq<V>, x: V, ord: spec_fn(V, V) -> int)
    requires
        is_total_preorder(ord),
        sorted_by(s, ord),
    ensures
        sorted_by(insert_sorted(s, x, ord), ord),
    decreases s.len(),
{
    lemma_insert_sorted_len(s, x, ord);
    if s.len() == 0 {
    } else if ord(s.last(), x) > 0 {
        let d = s.drop_last();
        let last = s.last();
        assert(sorted_by(d, ord));
        lemma_insert_sorted_sorted(d, x, ord);
        lemma_insert_sorted_elements(d, x, ord);
        lemma_insert_sorted_len(d, x, ord);
        let t = insert_sorted(d, x, ord);
        assert(ord(x, last) == -ord(last, x));
        assert forall|i: int, j: int| 0 <= i < j < t.push(last).len() implies ord(
            #[trigger] t.push(last)[i],
            #[trigger] t.push(last)[j],
        ) <= 0 by {
            if j < t.len() {
                assert(t.push(last)[i] == t[i]);
                assert(t.push(last)[j] == t[j]);
            } else {
                assert(t.push(last)[i] == t[i]);
                if t[i] != x {
                    let m = choose|m: int| 0 <= m < d.len() && d[m] == t[i];
                    assert(s[m] == d[m]);
                    assert(s[s.len() - 1] == last);
                    assert(ord(s[m], s[s.len() - 1]) <= 0);
                }
            }
        }
    } else {
        let last = s.last();
        assert forall|i: int, j: int| 0 <= i < j < s.push(x).len() implies ord(
            #[trigger] s.push(x)[i],
            #[trigger] s.push(x)[j],
        ) <= 0 by {
            if j < s.len() {
                assert(s.push(x)[i] == s[i]);
                assert(s.push(x)[j] == s[j]);
            } else if i < s.len() - 1 {
                assert(s.push(x)[i] == s[i]);
                assert(s[s.len() - 1] == last);
                assert(ord(s[i], s[s.len() - 1]) <= 0);
                assert(ord(s[i], last) <= 0 && ord(last, x) <= 0);
            } else {
                assert(s.push(x)[i] == last);
            }
        }
    }
}

/// Stable sorting under a total preorder yields a sorted sequence.
pub proof fn lemma_sort_stable_sorted<V>(s: Seq<V>, ord: spec_fn(V, V) -> int)
    requires
        is_total_preorder(ord),
    ensures
        sorted_by(sort_stable(s, ord), ord),
    decreases s.len(),
{
    if s.len() > 0 {
        lemma_sort_stable_sorted(s.drop_last(), ord);
        lemma_insert_sorted_sorted(sort_stable(s.drop_last(), ord), s.last(), ord);
    }
}

/// Whatever a page of a stably sorted sequence holds, the sequence holds.
pub proof fn lemma_page_of_sorted_from<V>(s: Seq<V>, ord: spec_fn(V, V) -> int, p: Pagination, id: spec_fn(V) -> u128, x: V)
    requires
        paginate(sort_stable(s, ord), p, id).contains(x),
    ensures
        s.contains(x),
{
    let sorted = sort_stable(s, ord);
    let page = paginate(sorted, p, id);
    let k = choose|k: int| 0 <= k < page.len() && page[k] == x;
    let start: int = match p {
        Pagination::Offset { offset, limit } => if (offset as int) < sorted.len() { offset as int } else { sorted.len() as int },
        Pagination::Cursor { after, limit } => {
            let skip = first_with_id(sorted, id, after->0) + 1;
            if skip < sorted.len() { skip } else { sorted.len() as int }
        },
    };
    assert(page[k] == sorted[start + k]);
    assert(sorted.contains(x));
    lemma_sort_stable_multiset(s, ord);
    to_multiset_contains(sorted, x);
    to_multiset_contains(s, x);
}

} // verus!
