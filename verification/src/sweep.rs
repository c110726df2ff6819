//! Removing the marked items of a list, highest index first.
//!
//! Each removal moves the last item into the gap.  Because the indices
//! are visited from the top, a removal never disturbs an item that is
//! still to be visited.

use vstd::prelude::*;

verus! {

/// The list after item `i` has been taken out and the last item has been
/// moved into its place.
pub open spec fn swap_removed<T>(items: Seq<T>, i: int) -> Seq<T>
    recommends
        0 <= i < items.len(),
{
    items.update(i, items.last()).drop_last()
}

/// The list after the marked items at the indices from `from` upward have
/// been taken out, highest index first.
pub open spec fn swept<T>(items: Seq<T>, marked: Seq<bool>, from: int) -> Seq<T>
    recommends
        marked.len() == items.len(),
        0 <= from <= items.len(),
    decreases items.len() - from,
{
    if from < 0 || from >= items.len() {
        items
    } else {
        let later = swept(items, marked, from + 1);
        if marked[from] {
            swap_removed(later, from)
        } else {
            later
        }
    }
}

/// Number of marks at the indices from `from` upward.
pub open spec fn marks(marked: Seq<bool>, from: int) -> nat
    decreases marked.len() - from,
{
    if from < 0 || from >= marked.len() {
        0
    } else if marked[from] {
        1 + marks(marked, from + 1)
    } else {
        marks(marked, from + 1)
    }
}

/// Number of marks at the indices below `limit`.
pub open spec fn marks_below(marked: Seq<bool>, limit: int) -> nat
    decreases limit,
{
    if limit <= 0 || limit > marked.len() {
        0
    } else if marked[limit - 1] {
        1 + marks_below(marked, limit - 1)
    } else {
        marks_below(marked, limit - 1)
    }
}

/// The indices `0, 1, .., n - 1`.
pub open spec fn positions(n: nat) -> Seq<int> {
    Seq::new(n, |i: int| i)
}

/// The indices of the items that stay, in the order in which a sweep
/// leaves them.
pub open spec fn survivors(marked: Seq<bool>) -> Seq<int> {
    swept(positions(marked.len()), marked, 0)
}

/// While the indices from `from` upward are swept, the items below `from`
/// stay where they are, and the list loses one item for each mark.
pub proof fn lemma_swept_prefix<T>(items: Seq<T>, marked: Seq<bool>, from: int)
    requires
        marked.len() == items.len(),
        0 <= from <= items.len(),
    ensures
        swept(items, marked, from).len() == items.len() - marks(marked, from),
        swept(items, marked, from).len() >= from,
        forall|j: int| 0 <= j < from ==> #[trigger] swept(items, marked, from)[j] == items[j],
    decreases items.len() - from,
{
    if from < items.len() {
        lemma_swept_prefix(items, marked, from + 1);
    }
}

/// The marks below an index and those from it upward are all the marks.
pub proof fn lemma_marks_split(marked: Seq<bool>, at: int)
    requires
        0 <= at <= marked.len(),
    ensures
        marks_below(marked, at) + marks(marked, at) == marks(marked, 0),
    decreases at,
{
    if at > 0 {
        lemma_marks_split(marked, at - 1);
    }
}

/// Sweeping commutes with mapping the items.
pub proof fn lemma_swept_map<T, U>(items: Seq<T>, marked: Seq<bool>, from: int, f: spec_fn(T) -> U)
    requires
        marked.len() == items.len(),
        0 <= from <= items.len(),
    ensures
        swept(items.map_values(f), marked, from) == swept(items, marked, from).map_values(f),
    decreases items.len() - from,
{
    if from < items.len() {
        lemma_swept_map(items, marked, from + 1, f);
        lemma_swept_prefix(items, marked, from + 1);
        lemma_swept_prefix(items.map_values(f), marked, from + 1);
        if marked[from] {
            let later = swept(items, marked, from + 1);
            assert(swap_removed(later.map_values(f), from) =~= swap_removed(later, from).map_values(
                f,
            ));
        }
    } else {
        assert(swept(items.map_values(f), marked, from) =~= swept(items, marked, from).map_values(
            f,
        ));
    }
}

/// While the indices from `from` upward are swept, every index below
/// `from` and every unmarked index from `from` upward occurs exactly once.
proof fn lemma_survivors_from(marked: Seq<bool>, from: int)
    requires
        0 <= from <= marked.len(),
    ensures
        swept(positions(marked.len()), marked, from).no_duplicates(),
        forall|k: int|
            #[trigger] swept(positions(marked.len()), marked, from).contains(k) <==> (0 <= k < from
                || (from <= k < marked.len() && !marked[k])),
    decreases marked.len() - from,
{
    let ids = positions(marked.len());
    let now = swept(ids, marked, from);
    if from < marked.len() {
        lemma_survivors_from(marked, from + 1);
        lemma_swept_prefix(ids, marked, from + 1);
        let later = swept(ids, marked, from + 1);
        let m = later.len() as int;
        if marked[from] {
            assert(later[from] == ids[from]);
            assert(now =~= later.update(from, later[m - 1]).drop_last());
            assert forall|k: int|
                #[trigger] now.contains(k) <==> (0 <= k < from || (from <= k < marked.len()
                    && !marked[k])) by {
                if now.contains(k) {
                    let j = choose|j: int| 0 <= j < now.len() && now[j] == k;
                    if j == from {
                        assert(later[m - 1] == k);
                    } else {
                        assert(later[j] == k);
                    }
                    assert(later.contains(k));
                    assert(k != from);
                }
                if 0 <= k < from || (from <= k < marked.len() && !marked[k]) {
                    assert(later.contains(k));
                    let p = choose|p: int| 0 <= p < later.len() && later[p] == k;
                    if p < m - 1 {
                        assert(now[p] == k);
                    } else {
                        assert(now[from] == k);
                    }
                }
            }
        } else {
            assert(later[from] == ids[from]);
            assert(now == later);
        }
    } else {
        assert(now == ids);
        assert forall|k: int| #[trigger] now.contains(k) <==> 0 <= k < from by {
            if 0 <= k < from {
                assert(now[k] == k);
            }
        }
    }
}

/// A sweep leaves each unmarked index exactly once, and no other.
pub proof fn lemma_survivors(marked: Seq<bool>)
    ensures
        survivors(marked).no_duplicates(),
        survivors(marked).len() == marked.len() - marks(marked, 0),
        forall|k: int|
            #[trigger] survivors(marked).contains(k) <==> (0 <= k < marked.len() && !marked[k]),
{
    lemma_survivors_from(marked, 0);
    lemma_swept_prefix(positions(marked.len()), marked, 0);
}

/// What a sweep leaves of a list are the items at the surviving indices.
pub proof fn lemma_swept_by_position<T>(items: Seq<T>, marked: Seq<bool>)
    requires
        marked.len() == items.len(),
    ensures
        swept(items, marked, 0) == survivors(marked).map_values(|k: int| items[k]),
{
    let ids = positions(marked.len());
    let f = |k: int| items[k];
    assert(ids.map_values(f) =~= items);
    lemma_swept_map(ids, marked, 0, f);
}

/// Takes the marked items out of the list, highest index first.
pub fn sweep<T>(items: &mut Vec<T>, marked: &Vec<bool>)
    requires
        marked.len() == old(items).len(),
    ensures
        final(items)@ == swept(old(items)@, marked@, 0),
        final(items).len() == old(items).len() - marks(marked@, 0),
{
    let mut i: usize = items.len();
    while i > 0
        invariant
            i <= marked.len(),
            marked.len() == old(items).len(),
            items@ == swept(old(items)@, marked@, i as int),
        decreases i,
    {
        proof {
            lemma_swept_prefix(old(items)@, marked@, i as int);
        }
        i -= 1;
        if marked[i] {
            items.swap_remove(i);
        }
    }
    proof {
        lemma_swept_prefix(old(items)@, marked@, 0);
    }
}

} // verus!
