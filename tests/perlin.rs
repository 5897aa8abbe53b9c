use rand::rngs::StdRng;
use rand::SeedableRng;
use rtow::perlin::{generate_perm, perm_from_draws, permute, shuffle_with, PermTables, Uninit};

fn is_permutation(p: &[usize], n: usize) -> bool {
    let mut seen = vec![false; n];
    for &v in p {
        if v >= n || seen[v] {
            return false;
        }
        seen[v] = true;
    }
    p.len() == n
}

#[test]
fn generated_perm_is_a_bijection() {
    let mut rng = StdRng::seed_from_u64(7);
    for size in [0usize, 1, 2, 3, 16, 256, 1000] {
        let p = generate_perm(size, &mut rng);
        assert!(is_permutation(&p, size));
    }
}

#[test]
fn shuffle_moves_every_element() {
    // The sweep swaps each position with one strictly below it, so no
    // element of a list longer than one stays where it was.
    let mut rng = StdRng::seed_from_u64(42);
    let mut p: Vec<usize> = (0..64).collect();
    permute(&mut p, &mut rng);
    assert!(is_permutation(&p, 64));
    assert!(p.iter().enumerate().all(|(i, &v)| i != v));
}

#[test]
fn same_seed_same_tables() {
    let u = Uninit { size: 256, seed: 7 };
    let mut r1 = StdRng::seed_from_u64(u.seed);
    let mut r2 = StdRng::seed_from_u64(u.seed);
    let a = PermTables::generate(u.size, &mut r1);
    let b = PermTables::generate(u.size, &mut r2);
    assert_eq!(a.size(), 256);
    let mut x: i64 = -500;
    for k in 0..1000i64 {
        let (ix, iy, iz) = (x, 3 * k - 1500, 17 - 7 * k);
        assert_eq!(a.lattice_index(ix, iy, iz), b.lattice_index(ix, iy, iz));
        x += 1;
    }
}

#[test]
fn lattice_index_wraps_coordinates() {
    let mut rng = StdRng::seed_from_u64(3);
    let t = PermTables::generate(16, &mut rng);
    for k in -40i64..40 {
        let i = t.lattice_index(k, 2 * k, -k);
        assert!(i < 16);
        assert_eq!(i, t.lattice_index(k + 16, 2 * k - 32, -k + 48));
    }
    assert_eq!(t.lattice_index(i64::MIN, i64::MAX, 0), t.lattice_index(0, 15, 0));
}

#[test]
fn shuffle_with_given_draws() {
    let mut p = vec![10, 20, 30, 40];
    shuffle_with(&mut p, &vec![0, 0, 1, 2]);
    assert_eq!(p, vec![40, 10, 20, 30]);
    let mut q = vec![10, 20, 30, 40];
    shuffle_with(&mut q, &vec![0, 0, 0, 0]);
    assert_eq!(q, vec![20, 30, 40, 10]);
}

#[test]
fn table_from_draws_is_a_derangement() {
    let t = perm_from_draws(4, &vec![0, 0, 1, 2]);
    assert_eq!(t, vec![3, 0, 1, 2]);
    assert!(is_permutation(&t, 4));
    let one = perm_from_draws(1, &vec![0]);
    assert_eq!(one, vec![0]);
}

#[test]
fn same_draws_same_tables() {
    let d = vec![0, 0, 1, 0, 3, 2, 5, 4];
    let a = PermTables::from_draws(8, &d, &d, &d);
    let b = PermTables::from_draws(8, &d, &d, &d);
    for k in -20i64..20 {
        assert_eq!(a.lattice_index(k, k + 1, k + 2), b.lattice_index(k, k + 1, k + 2));
    }
}
