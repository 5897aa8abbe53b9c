//! Coordinate axes, axis permutations of triples, and scalar ranges.

use crate::ntuple::{NTuple, TupleMember};
use vstd::prelude::*;
use vstd::std_specs::cmp::{PartialOrdIs, PartialOrdSpec};

verus! {

broadcast use vstd::array::group_array_axioms;

/// A coordinate axis.
#[derive(Debug, Clone, Copy, PartialEq, Eq, Structural)]
pub enum Axis {
    X,
    Y,
    Z,
}

impl Axis {
    /// Position of the axis in a coordinate triple.
    pub open spec fn spec_index(self) -> nat {
        match self {
            Axis::X => 0,
            Axis::Y => 1,
            Axis::Z => 2,
        }
    }

    /// Position of the axis in a coordinate triple.
    pub fn index(self) -> (r: usize)
        ensures
            r == self.spec_index(),
    {
        match self {
            Axis::X => 0,
            Axis::Y => 1,
            Axis::Z => 2,
        }
    }
}

/// Reordering of a coordinate triple by an ordered triple of axes.
pub trait Permute {
    /// The triple `(c[axes[0]], c[axes[1]], c[axes[2]])`.
    fn permute(self, axes: [Axis; 3]) -> Self;

    /// The inverse of `permute` with the same axes.
    fn unpermute(self, axes: [Axis; 3]) -> Self;
}

/// The three axes are pairwise different, so they name a permutation.
pub open spec fn is_axis_permutation(axes: Seq<Axis>) -> bool {
    &&& axes.len() == 3
    &&& axes[0] != axes[1]
    &&& axes[0] != axes[2]
    &&& axes[1] != axes[2]
}

/// The triple `c` reordered so that element `i` is `c[axes[i]]`.
pub open spec fn permuted<T>(c: Seq<T>, axes: Seq<Axis>) -> Seq<T> {
    seq![
        c[axes[0].spec_index() as int],
        c[axes[1].spec_index() as int],
        c[axes[2].spec_index() as int],
    ]
}

/// The slot of `axes` that names coordinate `k`.
pub open spec fn slot_of(axes: Seq<Axis>, k: nat) -> int {
    if axes[0].spec_index() == k {
        0
    } else if axes[1].spec_index() == k {
        1
    } else {
        2
    }
}

/// The triple `c` put back so that element `axes[i]` is `c[i]`.
pub open spec fn unpermuted<T>(c: Seq<T>, axes: Seq<Axis>) -> Seq<T> {
    seq![c[slot_of(axes, 0)], c[slot_of(axes, 1)], c[slot_of(axes, 2)]]
}

/// Reorders a triple: element `i` of the result is element `axes[i]` of `c`.
pub fn permute_axes<T: TupleMember>(c: NTuple<T, 3>, axes: [Axis; 3]) -> (r: NTuple<T, 3>)
    ensures
        r@ == permuted(c@, axes@),
{
    let perms = [axes[0].index(), axes[1].index(), axes[2].index()];
    let r = c.permute(perms);
    assert(r@ =~= permuted(c@, axes@));
    r
}

/// Undoes `permute_axes`: element `axes[i]` of the result is element `i` of `c`.
pub fn unpermute_axes<T: TupleMember>(c: NTuple<T, 3>, axes: [Axis; 3]) -> (r: NTuple<T, 3>)
    requires
        is_axis_permutation(axes@),
    ensures
        r@ == unpermuted(c@, axes@),
{
    let d = T::default();
    let mut arr = [d; 3];
    arr[axes[0].index()] = c.0[0];
    arr[axes[1].index()] = c.0[1];
    arr[axes[2].index()] = c.0[2];
    let r = NTuple::from(arr);
    assert(r@ =~= unpermuted(c@, axes@));
    r
}

/// Unpermuting a permuted triple with the same axes gives the triple back,
/// and so does permuting an unpermuted one.
pub proof fn lemma_permute_round_trip<T>(c: Seq<T>, axes: Seq<Axis>)
    requires
        c.len() == 3,
        is_axis_permutation(axes),
    ensures
        unpermuted(permuted(c, axes), axes) == c,
        permuted(unpermuted(c, axes), axes) == c,
{
    assert(unpermuted(permuted(c, axes), axes) =~= c);
    assert(permuted(unpermuted(c, axes), axes) =~= c);
}

/// A range of scalars from `start` to `end`.
#[derive(Debug, Copy, Clone)]
pub struct TRange<T> {
    pub start: T,
    pub end: T,
}

impl<T: PartialOrd> TRange<T> {
    pub fn new(start: T, end: T) -> (r: TRange<T>)
        ensures
            r.start == start,
            r.end == end,
    {
        TRange { start, end }
    }

    /// Whether `i` lies in the half-open range `[start, end)`.
    pub fn contains(&self, i: &T) -> (r: bool)
        ensures
            T::obeys_partial_cmp_spec() ==> (r <==> self.start.is_le(i) && (*i).is_lt(&self.end)),
    {
        self.start.le(i) && i.lt(&self.end)
    }
}

} // verus!
