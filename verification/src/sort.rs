//! Stable sorting of indexed assignments by binding index.
//!
//! The sort is pinned down as a spec-level insertion sort: each element is
//! inserted after all earlier elements whose index is less than or equal to
//! its own, so elements with equal indices keep their relative order. The
//! executable sort is proved to return exactly that sequence.

use vstd::multiset::Multiset;
use vstd::prelude::*;
use vstd::seq_lib::group_to_multiset_ensures;

use crate::assignment::IndexedRenderResourceAssignment;

verus! {

/// The sequence is sorted ascending by binding index.
pub open spec fn sorted_by_index(s: Seq<IndexedRenderResourceAssignment>) -> bool {
    forall|i: int, j: int| 0 <= i < j < s.len() ==> s[i].index <= s[j].index
}

/// Inserts `x` into `s` after every element whose index is less than or
/// equal to `x.index`. On a sorted sequence this is a stable insertion.
pub open spec fn insert_by_index(
    s: Seq<IndexedRenderResourceAssignment>,
    x: IndexedRenderResourceAssignment,
) -> Seq<IndexedRenderResourceAssignment>
    decreases s.len(),
{
    if s.len() == 0 {
        seq![x]
    } else if s.last().index <= x.index {
        s.push(x)
    } else {
        insert_by_index(s.drop_last(), x).push(s.last())
    }
}

/// Stable insertion sort by binding index.
pub open spec fn sort_by_index(s: Seq<IndexedRenderResourceAssignment>) -> Seq<
    IndexedRenderResourceAssignment,
>
    decreases s.len(),
{
    if s.len() == 0 {
        Seq::empty()
    } else {
        insert_by_index(sort_by_index(s.drop_last()), s.last())
    }
}

/// Inserting into a sorted sequence keeps it sorted and adds exactly the
/// inserted element to its contents.
pub proof fn lemma_insert_by_index_ensures(
    s: Seq<IndexedRenderResourceAssignment>,
    x: IndexedRenderResourceAssignment,
)
    requires
        sorted_by_index(s),
    ensures
        sorted_by_index(insert_by_index(s, x)),
        insert_by_index(s, x).to_multiset() == s.to_multiset().insert(x),
        insert_by_index(s, x).len() == s.len() + 1,
    decreases s.len(),
{
    broadcast use group_to_multiset_ensures;

    if s.len() == 0 {
        assert(insert_by_index(s, x) =~= Seq::empty().push(x));
        assert(Seq::<IndexedRenderResourceAssignment>::empty().to_multiset() =~= Multiset::empty());
        assert(insert_by_index(s, x).to_multiset() =~= s.to_multiset().insert(x));
    } else if s.last().index <= x.index {
        assert(s.push(x).to_multiset() =~= s.to_multiset().insert(x));
    } else {
        let dl = s.drop_last();
        lemma_insert_by_index_ensures(dl, x);
        let inner = insert_by_index(dl, x);
        let r = inner.push(s.last());
        // every element of `inner` is an element of `dl` or is `x`, so it
        // sits at or below `s.last().index`
        assert forall|i: int, j: int| 0 <= i < j < r.len() implies r[i].index <= r[j].index by {
            if j < r.len() - 1 {
                assert(inner[i].index <= inner[j].index);
            } else {
                assert(r[i] == inner[i]);
                assert(inner.to_multiset().count(inner[i]) > 0);
                assert(inner.to_multiset() == dl.to_multiset().insert(x));
                if inner[i] == x {
                    assert(r[i].index <= r[j].index);
                } else {
                    assert(dl.to_multiset().count(inner[i]) > 0);
                    assert(dl.contains(inner[i]));
                    let k = choose|k: int| 0 <= k < dl.len() && dl[k] == inner[i];
                    assert(s[k].index <= s.last().index);
                }
            }
        }
        assert(s =~= dl.push(s.last()));
        assert(s.to_multiset() == dl.to_multiset().insert(s.last()));
        assert(r.to_multiset() == inner.to_multiset().insert(s.last()));
        assert(r.to_multiset() =~= s.to_multiset().insert(x));
    }
}

/// The sort returns a sorted sequence with exactly the contents it was
/// given, whatever order they were added in.
pub proof fn lemma_sort_by_index_ensures(s: Seq<IndexedRenderResourceAssignment>)
    ensures
        sorted_by_index(sort_by_index(s)),
        sort_by_index(s).to_multiset() == s.to_multiset(),
        sort_by_index(s).len() == s.len(),
    decreases s.len(),
{
    broadcast use group_to_multiset_ensures;

    if s.len() == 0 {
        assert(sort_by_index(s) =~= Seq::<IndexedRenderResourceAssignment>::empty());
    } else {
        let dl = s.drop_last();
        lemma_sort_by_index_ensures(dl);
        lemma_insert_by_index_ensures(sort_by_index(dl), s.last());
        assert(s =~= dl.push(s.last()));
        assert(s.to_multiset() == dl.to_multiset().insert(s.last()));
    }
}

/// Where stable insertion lands: if every element before position `j` of a
/// sorted sequence sits at or below `x.index` and the element at `j` (when
/// there is one) sits strictly above it, the insertion splits the sequence
/// at `j`.
pub proof fn lemma_insert_by_index_at(
    s: Seq<IndexedRenderResourceAssignment>,
    x: IndexedRenderResourceAssignment,
    j: int,
)
    requires
        sorted_by_index(s),
        0 <= j <= s.len(),
        forall|k: int| 0 <= k < j ==> s[k].index <= x.index,
        j < s.len() ==> s[j].index > x.index,
    ensures
        insert_by_index(s, x) == s.take(j).push(x) + s.skip(j),
    decreases s.len(),
{
    if j == s.len() {
        if s.len() == 0 {
            assert(insert_by_index(s, x) =~= s.take(j).push(x) + s.skip(j));
        } else {
            assert(s.last().index <= x.index);
            assert(s.take(j) =~= s);
            assert(s.push(x) =~= s.take(j).push(x) + s.skip(j));
        }
    } else {
        assert(s[j].index > x.index);
        assert(s.last().index >= s[j].index);
        let dl = s.drop_last();
        lemma_insert_by_index_at(dl, x, j);
        assert(dl.take(j) =~= s.take(j));
        assert(insert_by_index(s, x) == (dl.take(j).push(x) + dl.skip(j)).push(s.last()));
        assert((dl.take(j).push(x) + dl.skip(j)).push(s.last()) =~= s.take(j).push(x) + s.skip(j));
    }
}

/// No two elements of the sequence fill the same binding slot.
pub open spec fn distinct_indices(s: Seq<IndexedRenderResourceAssignment>) -> bool {
    forall|i: int, j: int| 0 <= i < j < s.len() ==> s[i].index != s[j].index
}

/// A value standing at two positions of a sequence is counted at least
/// twice by its multiset.
proof fn lemma_count_at_least_two(s: Seq<IndexedRenderResourceAssignment>, i: int, j: int)
    requires
        0 <= i < j < s.len(),
        s[i] == s[j],
    ensures
        s.to_multiset().count(s[i]) >= 2,
{
    broadcast use group_to_multiset_ensures;
    broadcast use vstd::multiset::group_multiset_axioms;

    let r = s.remove(i);
    assert(r.to_multiset() == s.to_multiset().remove(s[i]));
    assert(r[j - 1] == s[j]);
    assert(r.contains(s[i]));
    assert(r.to_multiset().count(s[i]) >= 1);
}

/// A value counted at least twice by a sequence's multiset stands at two
/// distinct positions.
proof fn lemma_two_positions(s: Seq<IndexedRenderResourceAssignment>, x: IndexedRenderResourceAssignment) -> (r: (
    int,
    int,
))
    requires
        s.to_multiset().count(x) >= 2,
    ensures
        0 <= r.0 < r.1 < s.len(),
        s[r.0] == x,
        s[r.1] == x,
{
    broadcast use group_to_multiset_ensures;
    broadcast use vstd::multiset::group_multiset_axioms;

    assert(s.contains(x));
    let p = choose|p: int| 0 <= p < s.len() && s[p] == x;
    let rem = s.remove(p);
    assert(rem.to_multiset() == s.to_multiset().remove(s[p]));
    assert(rem.to_multiset().count(x) >= 1);
    assert(rem.contains(x));
    let q = choose|q: int| 0 <= q < rem.len() && rem[q] == x;
    if q < p {
        (q, p)
    } else {
        assert(rem[q] == s[q + 1]);
        (p, q + 1)
    }
}

/// Distinctness of binding indices carries over to any reordering of the
/// same contents.
pub proof fn lemma_distinct_indices_transfer(
    a: Seq<IndexedRenderResourceAssignment>,
    b: Seq<IndexedRenderResourceAssignment>,
)
    requires
        a.to_multiset() == b.to_multiset(),
        distinct_indices(a),
    ensures
        distinct_indices(b),
{
    broadcast use group_to_multiset_ensures;

    assert forall|i: int, j: int| 0 <= i < j < b.len() implies b[i].index != b[j].index by {
        if b[i].index == b[j].index {
            if b[i] == b[j] {
                lemma_count_at_least_two(b, i, j);
                assert(a.to_multiset().count(b[i]) >= 2);
                let (p, q) = lemma_two_positions(a, b[i]);
                assert(a[p].index == a[q].index);
            } else {
                assert(b.contains(b[i]));
                assert(b.contains(b[j]));
                assert(a.to_multiset().count(b[i]) > 0);
                assert(a.to_multiset().count(b[j]) > 0);
                assert(a.contains(b[i]));
                assert(a.contains(b[j]));
                let p = choose|p: int| 0 <= p < a.len() && a[p] == b[i];
                let q = choose|q: int| 0 <= q < a.len() && a[q] == b[j];
                assert(p != q);
                assert(a[p].index == a[q].index);
            }
        }
    }
}

/// Two sequences sorted by binding index, with the same contents and no
/// repeated index, are the same sequence.
pub proof fn lemma_sorted_unique(
    a: Seq<IndexedRenderResourceAssignment>,
    b: Seq<IndexedRenderResourceAssignment>,
)
    requires
        sorted_by_index(a),
        sorted_by_index(b),
        a.to_multiset() == b.to_multiset(),
        distinct_indices(a),
    ensures
        a == b,
    decreases a.len(),
{
    broadcast use group_to_multiset_ensures;

    assert(a.len() == a.to_multiset().len());
    assert(b.len() == b.to_multiset().len());
    if a.len() == 0 {
        assert(a =~= b);
    } else {
        let la = a.last();
        let lb = b.last();
        assert(a.contains(la));
        assert(b.to_multiset().count(la) > 0);
        assert(b.contains(la));
        let j = choose|j: int| 0 <= j < b.len() && b[j] == la;
        assert(lb.index >= b[j].index);
        assert(b.contains(lb));
        assert(a.to_multiset().count(lb) > 0);
        assert(a.contains(lb));
        let k = choose|k: int| 0 <= k < a.len() && a[k] == lb;
        assert(la.index >= a[k].index);
        assert(la.index == lb.index);
        assert(k == a.len() - 1);
        assert(la == lb);
        let da = a.drop_last();
        let db = b.drop_last();
        assert(da =~= a.remove(a.len() - 1));
        assert(db =~= b.remove(b.len() - 1));
        assert(da.to_multiset() == a.to_multiset().remove(la));
        assert(db.to_multiset() == b.to_multiset().remove(lb));
        lemma_sorted_unique(da, db);
        assert forall|i: int| 0 <= i < a.len() implies a[i] == b[i] by {
            if i < a.len() - 1 {
                assert(a[i] == da[i]);
                assert(b[i] == db[i]);
            }
        }
        assert(a =~= b);
    }
}

/// The finished assignment sequence does not depend on call order: two add
/// sequences with the same pairs and no repeated binding index sort to the
/// same sequence.
pub proof fn lemma_sort_by_index_order_independent(
    a: Seq<IndexedRenderResourceAssignment>,
    b: Seq<IndexedRenderResourceAssignment>,
)
    requires
        a.to_multiset() == b.to_multiset(),
        distinct_indices(a),
    ensures
        sort_by_index(a) == sort_by_index(b),
{
    lemma_sort_by_index_ensures(a);
    lemma_sort_by_index_ensures(b);
    lemma_distinct_indices_transfer(a, sort_by_index(a));
    lemma_sorted_unique(sort_by_index(a), sort_by_index(b));
}

/// Sorts the assignments ascending by binding index with a stable insertion
/// sort, returning exactly the spec-level sort of the input.
pub fn sort_assignments(v: Vec<IndexedRenderResourceAssignment>) -> (r: Vec<
    IndexedRenderResourceAssignment,
>)
    ensures
        r@ == sort_by_index(v@),
{
    let mut out: Vec<IndexedRenderResourceAssignment> = Vec::new();
    let mut i: usize = 0;
    while i < v.len()
        invariant
            0 <= i <= v@.len(),
            out@ == sort_by_index(v@.take(i as int)),
        decreases v@.len() - i,
    {
        let x = v[i];
        let mut j: usize = 0;
        while j < out.len() && out[j].index <= x.index
            invariant
                0 <= j <= out@.len(),
                forall|k: int| 0 <= k < j ==> out@[k].index <= x.index,
            decreases out@.len() - j,
        {
            j += 1;
        }
        proof {
            lemma_sort_by_index_ensures(v@.take(i as int));
            lemma_insert_by_index_at(out@, x, j as int);
            assert(v@.take(i as int + 1).drop_last() =~= v@.take(i as int));
            assert(v@.take(i as int + 1).last() == x);
            assert(out@.take(j as int).push(x) + out@.skip(j as int) =~= out@.insert(
                j as int,
                x,
            ));
        }
        out.insert(j, x);
        i += 1;
    }
    proof {
        assert(v@.take(v@.len() as int) =~= v@);
    }
    out
}

} // verus!
