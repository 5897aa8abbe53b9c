//! The filter that runs before a bounding-volume hierarchy is built: objects
//! without a bounding box are moved to the front and left out.

use crate::seq_facts::{lemma_swap_multiset, swap_elements, swapped};
use vstd::prelude::*;

verus! {

/// Each item paired with its flag.
pub open spec fn paired<T>(items: Seq<T>, flags: Seq<bool>) -> Seq<(T, bool)> {
    Seq::new(items.len(), |i: int| (items[i], flags[i]))
}

/// The objects, flags and count of flagged objects after the sweep has
/// looked at the first `j` positions: a flagged object at position `j - 1`
/// is swapped with the first position after the flagged ones.
pub open spec fn partition_sweep<T>(items: Seq<T>, flags: Seq<bool>, j: int) -> (
    Seq<T>,
    Seq<bool>,
    int,
)
    decreases j,
{
    if j <= 0 {
        (items, flags, 0)
    } else {
        let prev = partition_sweep(items, flags, j - 1);
        let (a, f, i) = (prev.0, prev.1, prev.2);
        if f[j - 1] {
            if i < j - 1 {
                (swapped(a, i, j - 1), swapped(f, i, j - 1), i + 1)
            } else {
                (a, f, i + 1)
            }
        } else {
            (a, f, i)
        }
    }
}

/// Moves the objects flagged as unbounded to the front, in one sweep that
/// swaps each flagged object with the first unflagged position; each flag
/// moves with its object. Returns the number of unbounded objects: the
/// objects from that index on are the ones a hierarchy is built from.
pub fn partition_unbounded<T>(objects: &mut Vec<T>, unbounded: &mut Vec<bool>) -> (k: usize)
    requires
        old(objects).len() == old(unbounded).len(),
    ensures
        (final(objects)@, final(unbounded)@, k as int) == partition_sweep(
            old(objects)@,
            old(unbounded)@,
            old(objects).len() as int,
        ),
        final(objects).len() == old(objects).len(),
        final(unbounded).len() == old(unbounded).len(),
        paired(final(objects)@, final(unbounded)@).to_multiset() == paired(
            old(objects)@,
            old(unbounded)@,
        ).to_multiset(),
        k <= final(objects).len(),
        forall|i: int| 0 <= i < k ==> final(unbounded)@[i],
        forall|i: int| k <= i < final(unbounded).len() ==> !final(unbounded)@[i],
{
    let n = objects.len();
    let mut i: usize = 0;
    let mut j: usize = 0;
    while j < n
        invariant
            n == objects.len(),
            n == unbounded.len(),
            i <= j <= n,
            paired(objects@, unbounded@).to_multiset() == paired(
                old(objects)@,
                old(unbounded)@,
            ).to_multiset(),
            forall|m: int| 0 <= m < i ==> unbounded@[m],
            forall|m: int| i <= m < j ==> !unbounded@[m],
            (objects@, unbounded@, i as int) == partition_sweep(
                old(objects)@,
                old(unbounded)@,
                j as int,
            ),
        decreases n - j,
    {
        if unbounded[j] {
            if i < j {
                proof {
                    let p = paired(objects@, unbounded@);
                    lemma_swap_multiset(p, i as int, j as int);
                    assert(paired(
                        swapped(objects@, i as int, j as int),
                        swapped(unbounded@, i as int, j as int),
                    ) =~= swapped(p, i as int, j as int));
                }
                swap_elements(objects, i, j);
                swap_elements(unbounded, i, j);
            }
            i = i + 1;
        }
        j = j + 1;
    }
    i
}

} // verus!
