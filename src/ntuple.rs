//! Fixed-length tuples with element-wise operations.

use vstd::prelude::*;

verus! {

broadcast use vstd::array::group_array_axioms;

/// Bound shared by the element types of a tuple.
pub trait TupleMember: Copy + Clone + PartialEq + Default {}

impl<T: Copy + Clone + PartialEq + Default> TupleMember for T {}

/// A type that wraps a tuple of `N` values of type `T`.
pub trait NTupleNewtype<T, const N: usize> {
    /// The wrapped tuple.
    fn ntuple(&self) -> NTuple<T, N>;
}

/// A tuple of `N` values of type `T`.
#[derive(Debug, Copy, Clone, PartialEq)]
pub struct NTuple<T, const N: usize>(pub [T; N]);

impl<T, const N: usize> View for NTuple<T, N> {
    type V = Seq<T>;

    open spec fn view(&self) -> Seq<T> {
        self.0@
    }
}

impl<T, const N: usize> From<[T; N]> for NTuple<T, N> {
    fn from(array: [T; N]) -> (r: Self)
        ensures
            r@ == array@,
    {
        NTuple(array)
    }
}

impl<T, const N: usize> std::ops::Index<usize> for NTuple<T, N> {
    type Output = T;

    fn index(&self, index: usize) -> (r: &T)
        ensures
            *r == self@[index as int],
    {
        &self.0[index]
    }
}

impl<T, const N: usize> vstd::std_specs::core::IndexSpecImpl<usize> for NTuple<T, N> {
    open spec fn index_req(&self, index: &usize) -> bool {
        *index < N
    }
}

impl<T, const N: usize> vstd::std_specs::convert::FromSpecImpl<[T; N]> for NTuple<T, N> {
    open spec fn obeys_from_spec() -> bool {
        true
    }

    open spec fn from_spec(array: [T; N]) -> Self {
        NTuple(array)
    }
}

impl<T: TupleMember, const N: usize> Default for NTuple<T, N> {
    /// Every element is `T`'s default value.
    fn default() -> (r: Self)
        ensures
            forall|i: int| 0 <= i < N ==> #[trigger] r@[i] == r@[0],
    {
        let d = T::default();
        NTuple([d; N])
    }
}

impl<T: TupleMember, const N: usize> NTuple<T, N> {
    /// Applies `f` to every element.
    pub fn map<F, U>(self, f: F) -> (r: NTuple<U, N>)
        where
            F: Fn(T) -> U,
            U: TupleMember,
        requires
            forall|i: int| 0 <= i < N ==> f.requires((self@[i],)),
        ensures
            forall|i: int| 0 <= i < N ==> f.ensures((self@[i],), #[trigger] r@[i]),
    {
        let d = U::default();
        let mut out = [d; N];
        let mut i: usize = 0;
        while i < N
            invariant
                i <= N,
                forall|k: int| 0 <= k < N ==> f.requires((self@[k],)),
                forall|k: int| 0 <= k < i ==> f.ensures((self@[k],), #[trigger] out@[k]),
            decreases N - i,
        {
            let x = self.0[i];
            assert(f.requires((self@[i as int],)));
            out[i] = f(x);
            i += 1;
        }
        NTuple(out)
    }

    /// Combines the elements of `self` and `rhs` pairwise with `f`.
    pub fn combine<F, U>(self, rhs: Self, f: F) -> (r: NTuple<U, N>)
        where
            F: Fn(T, T) -> U,
            U: TupleMember,
        requires
            forall|i: int| 0 <= i < N ==> f.requires((self@[i], rhs@[i])),
        ensures
            forall|i: int| 0 <= i < N ==> f.ensures((self@[i], rhs@[i]), #[trigger] r@[i]),
    {
        let d = U::default();
        let mut out = [d; N];
        let mut i: usize = 0;
        while i < N
            invariant
                i <= N,
                forall|k: int| 0 <= k < N ==> f.requires((self@[k], rhs@[k])),
                forall|k: int| 0 <= k < i ==> f.ensures((self@[k], rhs@[k]), #[trigger] out@[k]),
            decreases N - i,
        {
            let (x, y) = (self.0[i], rhs.0[i]);
            assert(f.requires((self@[i as int], rhs@[i as int])));
            out[i] = f(x, y);
            i += 1;
        }
        NTuple(out)
    }

    /// Left fold of `f` over the elements, starting from `start`.
    pub fn fold<F>(self, start: T, f: F) -> (r: T)
        where
            F: Fn(T, T) -> T,
        requires
            forall|i: int, acc: T|
                0 <= i < N && #[trigger] is_fold_of(f, start, self@.take(i), acc) ==> f.requires(
                    (acc, self@[i]),
                ),
        ensures
            is_fold_of(f, start, self@, r),
    {
        let mut acc = start;
        let mut i: usize = 0;
        while i < N
            invariant
                i <= N,
                forall|i: int, acc: T|
                    0 <= i < N && #[trigger] is_fold_of(f, start, self@.take(i), acc) ==> f.requires(
                        (acc, self@[i]),
                    ),
                is_fold_of(f, start, self@.take(i as int), acc),
            decreases N - i,
        {
            let next = f(acc, self.0[i]);
            proof {
                let s = self@.take(i + 1);
                assert(s.drop_last() == self@.take(i as int));
                assert(f.ensures((acc, s.last()), next));
            }
            acc = next;
            i += 1;
        }
        proof {
            assert(self@.take(N as int) == self@);
        }
        acc
    }

    /// Left fold of `f` over the elements, starting from the first one.
    pub fn reduce<F>(self, f: F) -> (r: T)
        where
            F: Fn(T, T) -> T,
        requires
            N > 0,
            forall|i: int, acc: T|
                0 <= i < N - 1 && #[trigger] is_fold_of(f, self@[0], self@.drop_first().take(i), acc)
                    ==> f.requires((acc, self@[i + 1])),
        ensures
            is_fold_of(f, self@[0], self@.drop_first(), r),
    {
        let mut acc = self.0[0];
        let mut i: usize = 1;
        while i < N
            invariant
                1 <= i <= N,
                forall|i: int, acc: T|
                    0 <= i < N - 1 && #[trigger] is_fold_of(
                        f,
                        self@[0],
                        self@.drop_first().take(i),
                        acc,
                    ) ==> f.requires((acc, self@[i + 1])),
                is_fold_of(f, self@[0], self@.drop_first().take(i - 1), acc),
            decreases N - i,
        {
            let next = f(acc, self.0[i]);
            proof {
                let s = self@.drop_first().take(i as int);
                assert(s.drop_last() == self@.drop_first().take(i - 1));
                assert(f.ensures((acc, s.last()), next));
            }
            acc = next;
            i += 1;
        }
        proof {
            assert(self@.drop_first().take(N - 1) == self@.drop_first());
        }
        acc
    }

    /// The tuple whose element `i` is element `perms[i]` of `self`.
    pub fn permute(self, perms: [usize; N]) -> (r: NTuple<T, N>)
        requires
            forall|i: int| 0 <= i < N ==> perms@[i] < N,
        ensures
            forall|i: int| 0 <= i < N ==> #[trigger] r@[i] == self@[perms@[i] as int],
    {
        let d = T::default();
        let mut arr = [d; N];
        let mut i: usize = 0;
        while i < N
            invariant
                forall|k: int| 0 <= k < N ==> perms@[k] < N,
                forall|k: int| 0 <= k < i ==> #[trigger] arr@[k] == self@[perms@[k] as int],
            decreases N - i,
        {
            arr[i] = self.0[perms[i]];
            i += 1;
        }
        NTuple::from(arr)
    }
}

/// `r` is a possible outcome of folding `f` over `s` from `start`, one
/// element after the other from the left.
pub open spec fn is_fold_of<T, F: Fn(T, T) -> T>(f: F, start: T, s: Seq<T>, r: T) -> bool
    decreases s.len(),
{
    if s.len() == 0 {
        r == start
    } else {
        exists|acc: T|
            is_fold_of(f, start, s.drop_last(), acc) && #[trigger] f.ensures((acc, s.last()), r)
    }
}

} // verus!
