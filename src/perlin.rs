//! The permutation tables of Perlin noise: their seeded construction and the
//! hash that picks a gradient for each lattice corner.

use rand::rngs::StdRng;
use rand::Rng;
use crate::seq_facts::{lemma_swap_multiset, swapped};
use vstd::prelude::*;

verus! {

broadcast use vstd::seq_lib::group_to_multiset_ensures;

#[verifier::external_type_specification]
#[verifier::external_body]
pub struct ExStdRng(StdRng);

/// Relies on `rand::Rng::gen_range`: a value drawn from `0..bound`, which is
/// not empty.
#[verifier::external_body]
fn draw_below(rng: &mut StdRng, bound: usize) -> (r: usize)
    requires
        bound > 0,
    ensures
        r < bound,
{
    rng.gen_range(0..bound)
}

/// What a Perlin noise source is made from before its first sample.
#[derive(Debug, Clone)]
pub struct Uninit {
    pub size: usize,
    pub seed: u64,
}

/// The sequence `0, 1, ..., n - 1`.
pub open spec fn range_seq(n: nat) -> Seq<usize> {
    Seq::new(n, |i: int| i as usize)
}

/// `p` holds each of `0, 1, ..., n - 1` exactly once.
pub open spec fn is_permutation_of_range(p: Seq<usize>, n: nat) -> bool {
    &&& p.len() == n
    &&& forall|i: int| 0 <= i < n ==> #[trigger] p[i] < n
    &&& forall|i: int, j: int| 0 <= i < j < n ==> p[i] != p[j]
    &&& forall|v: usize| v < n ==> #[trigger] p.contains(v)
}

/// A sequence with the same elements as `0, 1, ..., n - 1`, counted with
/// multiplicity, holds each of them exactly once.
proof fn lemma_multiset_of_range(p: Seq<usize>, n: nat)
    requires
        n <= usize::MAX,
        p.to_multiset() == range_seq(n).to_multiset(),
    ensures
        is_permutation_of_range(p, n),
{
    broadcast use vstd::multiset::group_multiset_axioms;
    broadcast use vstd::seq_lib::to_multiset_contains;

    let r = range_seq(n);
    assert(p.len() == p.to_multiset().len());
    assert(r.len() == r.to_multiset().len());
    assert forall|i: int, j: int| 0 <= i < r.len() && 0 <= j < r.len() && i != j implies r[i]
        != r[j] by {
        assert(r[i] as int == i);
        assert(r[j] as int == j);
    }
    assert(r.no_duplicates());
    r.lemma_multiset_has_no_duplicates();
    p.lemma_multiset_has_no_duplicates_conv();
    assert forall|i: int| 0 <= i < n implies #[trigger] p[i] < n by {
        assert(p.contains(p[i]) <==> p.to_multiset().count(p[i]) > 0);
        assert(p.contains(p[i]));
        assert(r.contains(p[i]));
        let k = choose|k: int| 0 <= k < r.len() && r[k] == p[i];
        assert(r[k] as int == k);
    }
    assert forall|v: usize| v < n implies #[trigger] p.contains(v) by {
        assert(r[v as int] == v);
        assert(r.contains(v));
        assert(r.to_multiset().count(v) > 0);
        assert(p.to_multiset().count(v) > 0);
    }
}

/// Draws for a shuffle of `n` elements: the draw for each position from the
/// second on lies below that position (the first entry is not used).
pub open spec fn valid_targets(t: Seq<usize>, n: nat) -> bool {
    &&& t.len() == n
    &&& forall|i: int| 1 <= i < n ==> #[trigger] t[i] < i
}

/// `s` after the sweep has handled every position from the last one down to
/// `m`: position `i` is swapped with position `t[i]`.
pub open spec fn sweep<A>(s: Seq<A>, t: Seq<usize>, m: int) -> Seq<A>
    decreases s.len() - m,
{
    if m < 1 || m >= s.len() {
        s
    } else {
        swapped(sweep(s, t, m + 1), m, t[m] as int)
    }
}

/// `s` shuffled with the draws `t`, from the last position down to the
/// second.
pub open spec fn shuffled<A>(s: Seq<A>, t: Seq<usize>) -> Seq<A> {
    sweep(s, t, 1)
}

/// The positions `0, 1, ..., n - 1`.
pub open spec fn index_seq(n: nat) -> Seq<int> {
    Seq::new(n, |i: int| i)
}

/// `new` holds at each position `k` the element of `old` at `sigma[k]`.
pub open spec fn rearranges<A>(old: Seq<A>, new: Seq<A>, sigma: Seq<int>) -> bool {
    &&& sigma.len() == old.len()
    &&& new.len() == old.len()
    &&& forall|k: int|
        0 <= k < sigma.len() ==> 0 <= #[trigger] sigma[k] < sigma.len() && new[k] == old[sigma[k]]
}

/// Once there are two or more positions, none is mapped to itself.
pub open spec fn moves_every_position(sigma: Seq<int>) -> bool {
    sigma.len() >= 2 ==> forall|k: int| 0 <= k < sigma.len() ==> #[trigger] sigma[k] != k
}

/// The sweep moves the elements of `s` by the same positions as it moves
/// the positions themselves.
proof fn lemma_sweep_rearranges<A>(s: Seq<A>, t: Seq<usize>, m: int)
    requires
        1 <= m,
        valid_targets(t, s.len()),
    ensures
        rearranges(s, sweep(s, t, m), sweep(index_seq(s.len()), t, m)),
    decreases s.len() - m,
{
    let n = s.len();
    let ix = index_seq(n);
    if m < n {
        lemma_sweep_rearranges(s, t, m + 1);
        let (a, q) = (sweep(s, t, m + 1), sweep(ix, t, m + 1));
        assert(sweep(s, t, m) == swapped(a, m, t[m] as int));
        assert(sweep(ix, t, m) == swapped(q, m, t[m] as int));
    } else {
        assert(sweep(ix, t, m) == ix);
    }
}

/// What the sweep has done to the positions by the time it reaches `m`:
/// every handled position holds another one, every position below `m` holds
/// itself or one from `m` up, and the position swapped last holds one from
/// `m` up.
proof fn lemma_sweep_moves(n: nat, t: Seq<usize>, m: int)
    requires
        1 <= m,
        valid_targets(t, n),
    ensures
        sweep(index_seq(n), t, m).len() == n,
        forall|k: int| m <= k < n ==> #[trigger] sweep(index_seq(n), t, m)[k] != k,
        forall|k: int|
            0 <= k < m && k < n ==> #[trigger] sweep(index_seq(n), t, m)[k] == k || sweep(
                index_seq(n),
                t,
                m,
            )[k] >= m,
        m < n ==> sweep(index_seq(n), t, m)[t[m] as int] >= m,
    decreases n - m,
{
    let ix = index_seq(n);
    if m < n {
        lemma_sweep_moves(n, t, m + 1);
        assert(t[m] < m);
        assert(sweep(ix, t, m) == swapped(sweep(ix, t, m + 1), m, t[m] as int));
    }
}

/// Shuffles `p` with the draws `targets`: from the last position down to
/// the second, the element at position `i` is swapped with the one at
/// `targets[i]`, which lies below `i`.
pub fn shuffle_with(p: &mut Vec<usize>, targets: &Vec<usize>)
    requires
        valid_targets(targets@, old(p).len() as nat),
    ensures
        final(p)@ == shuffled(old(p)@, targets@),
        rearranges(old(p)@, final(p)@, shuffled(index_seq(old(p).len() as nat), targets@)),
        moves_every_position(shuffled(index_seq(old(p).len() as nat), targets@)),
{
    let n = p.len();
    let mut i: usize = n;
    while i > 1
        invariant
            i <= n,
            n == p.len(),
            n == old(p).len(),
            valid_targets(targets@, n as nat),
            i == 0 ==> n == 0,
            p@ == sweep(old(p)@, targets@, i as int),
        decreases i,
    {
        i = i - 1;
        let target = targets[i];
        let a = p[i];
        let b = p[target];
        proof {
            assert(p@.update(i as int, b).update(target as int, a) == swapped(
                p@,
                i as int,
                target as int,
            ));
        }
        p[i] = b;
        p[target] = a;
    }
    proof {
        let ix = index_seq(n as nat);
        lemma_sweep_rearranges(old(p)@, targets@, 1);
        lemma_sweep_moves(n as nat, targets@, 1);
        assert(p@ == shuffled(old(p)@, targets@));
        let sigma = shuffled(ix, targets@);
        if n >= 2 {
            assert(targets@[1] < 1);
            assert(sigma[0] >= 1);
            assert forall|k: int| 0 <= k < sigma.len() implies #[trigger] sigma[k] != k by {
                if k == 0 {
                    assert(sigma[0] >= 1);
                }
            }
        }
    }
}

/// One draw below each position from the second on, drawn from the last
/// position down.
fn draw_targets(n: usize, rng: &mut StdRng) -> (t: Vec<usize>)
    ensures
        valid_targets(t@, n as nat),
{
    let mut t: Vec<usize> = Vec::with_capacity(n);
    let mut k: usize = 0;
    while k < n
        invariant
            k <= n,
            t@.len() == k,
        decreases n - k,
    {
        t.push(0);
        k = k + 1;
    }
    let mut i: usize = n;
    while i > 1
        invariant
            i <= n,
            t@.len() == n,
            forall|j: int| i <= j < n ==> #[trigger] t@[j] < j,
        decreases i,
    {
        i = i - 1;
        let target = draw_below(rng, i);
        t[i] = target;
    }
    t
}

/// Shuffles `p` in place: from the last position down to the second, the
/// element there is swapped with one at a position drawn below it.
pub fn permute(p: &mut Vec<usize>, rng: &mut StdRng)
    ensures
        exists|t: Seq<usize>|
            valid_targets(t, old(p)@.len()) && final(p)@ == shuffled(old(p)@, t),
        exists|sigma: Seq<int>|
            rearranges(old(p)@, final(p)@, sigma) && moves_every_position(sigma),
        final(p)@.to_multiset() == old(p)@.to_multiset(),
{
    let targets = draw_targets(p.len(), rng);
    shuffle_with(p, &targets);
    proof {
        let sigma = shuffled(index_seq(old(p)@.len()), targets@);
        assert(rearranges(old(p)@, p@, sigma) && moves_every_position(sigma));
        lemma_sweep_multiset(old(p)@, targets@, 1);
    }
}

/// The sweep keeps the multiset of elements.
proof fn lemma_sweep_multiset<A>(s: Seq<A>, t: Seq<usize>, m: int)
    requires
        1 <= m,
        valid_targets(t, s.len()),
    ensures
        sweep(s, t, m).to_multiset() == s.to_multiset(),
        sweep(s, t, m).len() == s.len(),
    decreases s.len() - m,
{
    if m < s.len() {
        lemma_sweep_multiset(s, t, m + 1);
        lemma_swap_multiset(sweep(s, t, m + 1), m, t[m] as int);
    }
}

/// The table that the draws `targets` make of `0, 1, ..., size - 1`.
pub open spec fn perm_table(size: nat, targets: Seq<usize>) -> Seq<usize> {
    shuffled(range_seq(size), targets)
}

/// No entry of `p` stays at its own position once there are two or more.
pub open spec fn is_derangement(p: Seq<usize>) -> bool {
    p.len() >= 2 ==> forall|i: int| 0 <= i < p.len() ==> #[trigger] p[i] != i
}

/// The permutation of `0, 1, ..., size - 1` that the draws `targets` give.
pub fn perm_from_draws(size: usize, targets: &Vec<usize>) -> (p: Vec<usize>)
    requires
        valid_targets(targets@, size as nat),
    ensures
        p@ == perm_table(size as nat, targets@),
        is_permutation_of_range(p@, size as nat),
        is_derangement(p@),
{
    let mut p: Vec<usize> = Vec::with_capacity(size);
    let mut i: usize = 0;
    while i < size
        invariant
            i <= size,
            p@ == range_seq(i as nat),
        decreases size - i,
    {
        p.push(i);
        i = i + 1;
        assert(p@ =~= range_seq(i as nat));
    }
    let ghost start = p@;
    shuffle_with(&mut p, targets);
    proof {
        lemma_sweep_multiset(start, targets@, 1);
        lemma_multiset_of_range(p@, size as nat);
        let sigma = shuffled(index_seq(size as nat), targets@);
        assert forall|k: int| 0 <= k < p@.len() && p@.len() >= 2 implies #[trigger] p@[k] != k by {
            assert(p@[k] == start[sigma[k]]);
            assert(start[sigma[k]] == sigma[k] as usize);
        }
    }
    p
}

/// A shuffled permutation of `0, 1, ..., size - 1` with no entry at its own
/// position once `size` is two or more.
pub fn generate_perm(size: usize, rng: &mut StdRng) -> (p: Vec<usize>)
    ensures
        is_permutation_of_range(p@, size as nat),
        is_derangement(p@),
        exists|t: Seq<usize>| valid_targets(t, size as nat) && p@ == perm_table(size as nat, t),
{
    let targets = draw_targets(size, rng);
    perm_from_draws(size, &targets)
}

/// `n` is a power of two.
pub open spec fn is_power_of_two(n: usize) -> bool {
    n > 0 && n & ((n - 1) as usize) == 0
}

/// Below a power of two, exclusive or stays below it.
proof fn lemma_xor_below_power_of_two(a: usize, b: usize, n: usize)
    requires
        is_power_of_two(n),
        a < n,
        b < n,
    ensures
        a ^ b < n,
{
    assert(n > 0 && n & ((n - 1) as usize) == 0 && a < n && b < n ==> a ^ b < n) by (bit_vector);
}

/// The three permutation tables of a Perlin noise source, one per axis.
#[derive(Debug, Clone)]
pub struct PermTables {
    size: usize,
    perm_x: Vec<usize>,
    perm_y: Vec<usize>,
    perm_z: Vec<usize>,
}

impl View for PermTables {
    /// The table size, then the tables for x, y and z.
    type V = (nat, Seq<usize>, Seq<usize>, Seq<usize>);

    closed spec fn view(&self) -> Self::V {
        (self.size as nat, self.perm_x@, self.perm_y@, self.perm_z@)
    }
}

/// The Euclidean remainder of `a` by `n`, in `[0, n)`.
pub open spec fn wrap(a: int, n: nat) -> int {
    a % (n as int)
}

impl PermTables {
    /// Each table holds each of `0, 1, ..., size - 1` exactly once.
    pub open spec fn wf(&self) -> bool {
        &&& is_permutation_of_range(self@.1, self@.0)
        &&& is_permutation_of_range(self@.2, self@.0)
        &&& is_permutation_of_range(self@.3, self@.0)
        &&& is_derangement(self@.1)
        &&& is_derangement(self@.2)
        &&& is_derangement(self@.3)
    }

    /// The tables that the draws `tx`, `ty` and `tz` give: the same draws
    /// always give the same tables.
    pub fn from_draws(size: usize, tx: &Vec<usize>, ty: &Vec<usize>, tz: &Vec<usize>) -> (r: Self)
        requires
            valid_targets(tx@, size as nat),
            valid_targets(ty@, size as nat),
            valid_targets(tz@, size as nat),
        ensures
            r.wf(),
            r@ == (
                size as nat,
                perm_table(size as nat, tx@),
                perm_table(size as nat, ty@),
                perm_table(size as nat, tz@),
            ),
    {
        let perm_x = perm_from_draws(size, tx);
        let perm_y = perm_from_draws(size, ty);
        let perm_z = perm_from_draws(size, tz);
        PermTables { size, perm_x, perm_y, perm_z }
    }

    /// The tables for x, y and z, drawn in that order from `rng`.
    pub fn generate(size: usize, rng: &mut StdRng) -> (r: Self)
        ensures
            r.wf(),
            r@.0 == size,
            exists|tx: Seq<usize>, ty: Seq<usize>, tz: Seq<usize>|
                {
                    &&& valid_targets(tx, size as nat)
                    &&& valid_targets(ty, size as nat)
                    &&& valid_targets(tz, size as nat)
                    &&& r@ == (
                        size as nat,
                        perm_table(size as nat, tx),
                        perm_table(size as nat, ty),
                        perm_table(size as nat, tz),
                    )
                },
    {
        let tx = draw_targets(size, rng);
        let ty = draw_targets(size, rng);
        let tz = draw_targets(size, rng);
        Self::from_draws(size, &tx, &ty, &tz)
    }

    /// Number of entries in each table.
    pub fn size(&self) -> (r: usize)
        ensures
            r == self@.0,
    {
        self.size
    }

    /// The gradient index of lattice point `(ix, iy, iz)`: the exclusive or
    /// of the three tables, each read at its coordinate wrapped into
    /// `[0, size)`.
    pub fn lattice_index(&self, ix: i64, iy: i64, iz: i64) -> (r: usize)
        requires
            self.wf(),
            is_power_of_two(self@.0 as usize),
        ensures
            r < self@.0,
            r == self@.1[wrap(ix as int, self@.0)] ^ self@.2[wrap(iy as int, self@.0)]
                ^ self@.3[wrap(iz as int, self@.0)],
    {
        let i = Self::wrap_index(ix, self.size);
        let j = Self::wrap_index(iy, self.size);
        let k = Self::wrap_index(iz, self.size);
        let (a, b, c) = (self.perm_x[i], self.perm_y[j], self.perm_z[k]);
        proof {
            lemma_xor_below_power_of_two(a, b, self.size);
            lemma_xor_below_power_of_two(a ^ b, c, self.size);
        }
        a ^ b ^ c
    }

    fn wrap_index(a: i64, n: usize) -> (r: usize)
        requires
            n > 0,
        ensures
            r < n,
            r == wrap(a as int, n as nat),
    {
        match (a as i128).checked_rem_euclid(n as i128) {
            Some(m) => m as usize,
            None => 0,
        }
    }
}

} // verus!
