//! Sorting entries by their key.
//!
//! The sort is an insertion sort. It is stable: entries with the same key
//! keep the order in which they stood.
use crate::entry::{Entry, EntryView};
use crate::order::{
    comes_before, key_lt, lemma_key_order, lemma_precedes_is_total_preorder, precedes, sort_key,
};
use vstd::prelude::*;
use vstd::seq_lib::{to_multiset_build, to_multiset_insert};

verus! {

/// What each of the entries is.
pub open spec fn views(entries: Seq<Entry>) -> Seq<EntryView> {
    entries.map_values(|e: Entry| e@)
}

/// Whether the entries stand in the order of their keys.
pub open spec fn ordered(s: Seq<EntryView>) -> bool {
    forall|i: int, j: int| 0 <= i < j < s.len() ==> precedes(#[trigger] s[i], #[trigger] s[j])
}

/// The entries with `e` put in: behind every entry that may stand before it,
/// as seen from the end.
pub open spec fn insert_in_order(s: Seq<EntryView>, e: EntryView) -> Seq<EntryView>
    decreases s.len(),
{
    if s.len() > 0 && key_lt(sort_key(e), sort_key(s.last())) {
        insert_in_order(s.drop_last(), e).push(s.last())
    } else {
        s.push(e)
    }
}

/// The entries in the order of their keys, those with the same key in the
/// order in which they stood.
pub open spec fn sorted(s: Seq<EntryView>) -> Seq<EntryView>
    decreases s.len(),
{
    if s.len() == 0 {
        s
    } else {
        insert_in_order(sorted(s.drop_last()), s.last())
    }
}

/// An entry is put in at the place behind which every entry comes strictly
/// after it, and before which the next entry does not.
pub proof fn lemma_insert_at(s: Seq<EntryView>, e: EntryView, j: int)
    requires
        0 <= j <= s.len(),
        forall|k: int| j <= k < s.len() ==> key_lt(sort_key(e), sort_key(#[trigger] s[k])),
        j > 0 ==> !key_lt(sort_key(e), sort_key(s[j - 1])),
    ensures
        insert_in_order(s, e) == s.insert(j, e),
    decreases s.len(),
{
    if j == s.len() {
        assert(s.push(e) =~= s.insert(j, e));
    } else {
        assert(key_lt(sort_key(e), sort_key(s[s.len() - 1])));
        lemma_insert_at(s.drop_last(), e, j);
        assert(s.drop_last().insert(j, e).push(s.last()) =~= s.insert(j, e));
    }
}

/// The place at which an entry is put in.
pub proof fn lemma_insert_place(s: Seq<EntryView>, e: EntryView) -> (j: int)
    ensures
        0 <= j <= s.len(),
        forall|k: int| j <= k < s.len() ==> key_lt(sort_key(e), sort_key(#[trigger] s[k])),
        j > 0 ==> !key_lt(sort_key(e), sort_key(s[j - 1])),
        insert_in_order(s, e) == s.insert(j, e),
    decreases s.len(),
{
    if s.len() > 0 && key_lt(sort_key(e), sort_key(s.last())) {
        let j = lemma_insert_place(s.drop_last(), e);
        assert forall|k: int| j <= k < s.len() implies key_lt(
            sort_key(e),
            sort_key(#[trigger] s[k]),
        ) by {
            if k < s.len() - 1 {
                assert(s.drop_last()[k] == s[k]);
            }
        }
        if j > 0 {
            assert(s.drop_last()[j - 1] == s[j - 1]);
        }
        lemma_insert_at(s, e, j);
        j
    } else {
        lemma_insert_at(s, e, s.len() as int);
        s.len() as int
    }
}

/// Putting an entry into entries that stand in order leaves them in order,
/// and adds that entry and no other.
pub proof fn lemma_insert_keeps_order(s: Seq<EntryView>, e: EntryView)
    ensures
        insert_in_order(s, e).len() == s.len() + 1,
        insert_in_order(s, e).to_multiset() == s.to_multiset().insert(e),
        ordered(s) ==> ordered(insert_in_order(s, e)),
{
    let j = lemma_insert_place(s, e);
    let r = s.insert(j, e);
    to_multiset_insert(s, j, e);
    if ordered(s) {
        assert forall|x: int, y: int| 0 <= x < y < r.len() implies precedes(
            #[trigger] r[x],
            #[trigger] r[y],
        ) by {
            if y < j {
                assert(precedes(s[x], s[y]));
            } else if y == j {
                // x < j: s[x] before s[j - 1], which may stand before e.
                lemma_precedes_is_total_preorder(s[x], s[j - 1], e);
                if x < j - 1 {
                    assert(precedes(s[x], s[j - 1]));
                }
            } else if x == j {
                lemma_key_order(sort_key(e), sort_key(s[y - 1]), sort_key(e));
            } else if x < j {
                assert(precedes(s[x], s[y - 1]));
            } else {
                assert(precedes(s[x - 1], s[y - 1]));
            }
        }
    }
}

/// Sorting puts the entries in order, and neither adds nor drops one.
pub proof fn lemma_sorted_is_ordered_permutation(s: Seq<EntryView>)
    ensures
        ordered(sorted(s)),
        sorted(s).len() == s.len(),
        sorted(s).to_multiset() == s.to_multiset(),
    decreases s.len(),
{
    if s.len() > 0 {
        lemma_sorted_is_ordered_permutation(s.drop_last());
        lemma_insert_keeps_order(sorted(s.drop_last()), s.last());
        assert(s.drop_last().push(s.last()) =~= s);
        to_multiset_build(s.drop_last(), s.last());
    }
}

/// Sorting leaves entries that stand in order as they are.
pub proof fn lemma_sorted_of_ordered(s: Seq<EntryView>)
    requires
        ordered(s),
    ensures
        sorted(s) == s,
    decreases s.len(),
{
    if s.len() > 0 {
        let front = s.drop_last();
        assert forall|i: int, j: int| 0 <= i < j < front.len() implies precedes(
            #[trigger] front[i],
            #[trigger] front[j],
        ) by {
            assert(precedes(s[i], s[j]));
        }
        lemma_sorted_of_ordered(front);
        if front.len() > 0 {
            assert(precedes(s[front.len() - 1], s[s.len() - 1]));
        }
        assert(front.push(s.last()) =~= s);
    }
}

/// Sorting twice gives what sorting once gives.
pub proof fn lemma_sorted_is_idempotent(s: Seq<EntryView>)
    ensures
        sorted(sorted(s)) == sorted(s),
{
    lemma_sorted_is_ordered_permutation(s);
    lemma_sorted_of_ordered(sorted(s));
}

/// Sorts the entries by their key. Entries with the same key keep the order
/// in which they stood.
pub fn sort_entries(entries: &mut Vec<Entry>)
    ensures
        views(final(entries)@) == sorted(views(old(entries)@)),
        ordered(views(final(entries)@)),
        final(entries)@.len() == old(entries)@.len(),
        views(final(entries)@).to_multiset() == views(old(entries)@).to_multiset(),
{
    let ghost before = views(entries@);
    let n: usize = entries.len();
    let mut i: usize = 0;
    while i < n
        invariant
            i <= n,
            entries@.len() == n,
            before.len() == n,
            views(entries@).take(i as int) == sorted(before.take(i as int)),
            views(entries@).skip(i as int) == before.skip(i as int),
        decreases n - i,
    {
        let ghost here = views(entries@);
        let entry = entries.remove(i);
        assert(views(entries@) =~= here.remove(i as int));
        let ghost front = here.take(i as int);
        let mut j: usize = i;
        proof {
            if j > 0 {
                assert(views(entries@)[j - 1] == entries@[j - 1]@);
                assert(here.remove(i as int)[j - 1] == front[j - 1]);
            }
        }
        while j > 0 && comes_before(&entry, &entries[j - 1])
            invariant
                j <= i < n,
                here.len() == n,
                entries@.len() == n - 1,
                views(entries@) == here.remove(i as int),
                front == here.take(i as int),
                entry@ == here[i as int],
                forall|k: int|
                    j <= k < i ==> key_lt(sort_key(entry@), sort_key(#[trigger] front[k])),
                j > 0 ==> entries@[j - 1]@ == front[j - 1],
            decreases j,
        {
            j = j - 1;
            proof {
                if j > 0 {
                    assert(views(entries@)[j - 1] == entries@[j - 1]@);
                    assert(here.remove(i as int)[j - 1] == front[j - 1]);
                }
            }
        }
        entries.insert(j, entry);
        proof {
            lemma_insert_at(front, here[i as int], j as int);
            assert(before.take(i + 1).drop_last() =~= before.take(i as int));
            assert(before.take(i + 1).last() == before[i as int]);
            assert(before[i as int] == before.skip(i as int)[0]);
            assert(here[i as int] == here.skip(i as int)[0]);
            assert(views(entries@) =~= here.remove(i as int).insert(j as int, here[i as int]));
            assert(views(entries@).take(i + 1) =~= front.insert(j as int, here[i as int]));
            assert(views(entries@).skip(i + 1) =~= here.skip(i + 1));
            assert(here.skip(i + 1) =~= here.skip(i as int).skip(1));
            assert(before.skip(i + 1) =~= before.skip(i as int).skip(1));
        }
        i = i + 1;
    }
    proof {
        assert(views(entries@).take(n as int) =~= views(entries@));
        assert(before.take(n as int) =~= before);
        lemma_sorted_is_ordered_permutation(before);
    }
}

} // verus!
