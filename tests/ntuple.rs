use rtow::ntuple::{NTuple, NTupleNewtype};

#[test]
fn lib_create_and_access_ntuple() {
    let t1 = NTuple::from([0, 1, 2, 3, 4, 5]);
    let t2 = NTuple::from([1, 2, 3, 4, 5, 6]);
    assert_eq!(t1[0], 0);
    assert_eq!(t1[1], 1);
    assert_eq!(t1[2], 2);
    assert_eq!(t1[3], 3);
    assert_eq!(t1[4], 4);
    assert_eq!(t1[5], 5);
    assert_ne!(t1, t2);
}

#[test]
fn lib_transform_tuple() {
    let t1 = NTuple::from([0; 4]);
    let t2 = NTuple::from([1; 4]);
    assert_eq!(t1.map(|x| x + 1), t2);

    let t3 = NTuple::from([3; 3]);
    let t4 = NTuple::from([3.0; 3]);
    assert_eq!(t3.map(|x| x as f64), t4);
}

#[test]
fn lib_combine_tuples() {
    let t1 = NTuple::from([0, 1, 1, 2, 3, 5]);
    let t2 = NTuple::from([5, 3, 2, 1, 1, 0]);
    let t3 = NTuple::from([5, 4, 3, 3, 4, 5]);
    assert_eq!(t1.combine(t2, |x, y| x + y), t3);
}

#[test]
fn lib_fold_tuples() {
    let t1 = NTuple::from([1, 2, 3]);
    assert_eq!(t1.reduce(|acc, x| acc + x), 6);
    assert_eq!(t1.fold(10, |acc, x| acc + x), 16);
}

#[test]
#[should_panic]
fn lib_reduce_zero_tuple() {
    let zero: NTuple<i32, 0> = NTuple::from([0; 0]);
    zero.reduce(|acc, x| acc + x);
}

#[test]
fn tests_create_and_access_ntuple() {
    let t1 = NTuple::from([0, 1, 2, 3, 4, 5]);
    let t2 = NTuple::from([1, 2, 3, 4, 5, 6]);
    assert_eq!(t1[0], 0);
    assert_eq!(t1[1], 1);
    assert_eq!(t1[2], 2);
    assert_eq!(t1[3], 3);
    assert_eq!(t1[4], 4);
    assert_eq!(t1[5], 5);
    assert_ne!(t1, t2);
}

#[test]
fn tests_transform_tuple() {
    let t1 = NTuple::from([0; 4]);
    let t2 = NTuple::from([1; 4]);
    assert_eq!(t1.map(|x| x + 1), t2);

    let t3 = NTuple::from([3; 3]);
    let t4 = NTuple::from([3.0; 3]);
    assert_eq!(t3.map(|x| x as f64), t4);
}

#[test]
fn tests_combine_tuples() {
    let t1 = NTuple::from([0, 1, 1, 2, 3, 5]);
    let t2 = NTuple::from([5, 3, 2, 1, 1, 0]);
    let t3 = NTuple::from([5, 4, 3, 3, 4, 5]);
    assert_eq!(t1.combine(t2, |x, y| x + y), t3);
}

#[test]
fn tests_fold_tuples() {
    let t1 = NTuple::from([1, 2, 3]);
    assert_eq!(t1.reduce(|acc, x| acc + x), 6);
    assert_eq!(t1.fold(10, |acc, x| acc + x), 16);
}

#[test]
#[should_panic]
fn tests_reduce_zero_tuple() {
    let zero: NTuple<i32, 0> = NTuple::from([0; 0]);
    zero.reduce(|acc, x| acc + x);
}

#[test]
fn permute() {
    let t0 = NTuple::from([1, 2, 4, 8, 16]);
    let p = [4, 3, 2, 1, 0];
    let t1 = t0.permute(p);
    assert_ne!(t0, t1);
    let t2 = t1.permute(p);
    assert_eq!(t0, t2);
}

#[test]
#[should_panic]
fn bad_permute() {
    let t0 = NTuple::from([0]);
    let p = [1];
    let _t2 = t0.permute(p);
}

struct Test(NTuple<f64, 3>);

impl NTupleNewtype<f64, 3> for Test {
    fn ntuple(&self) -> NTuple<f64, 3> {
        self.0
    }
}

impl From<NTuple<f64, 3>> for Test {
    fn from(ntuple: NTuple<f64, 3>) -> Test {
        Test(ntuple)
    }
}

impl From<Test> for NTuple<f64, 3> {
    fn from(t: Test) -> NTuple<f64, 3> {
        t.ntuple()
    }
}

#[test]
fn basic_test() {
    let n = NTuple::from([0.0, 0.0, 0.0]);
    let a = Test(n);
    let b = a.ntuple();
    assert_eq!(n, b);
}

#[test]
fn to_from() {
    let n = NTuple::from([0.0, 0.0, 0.0]);
    let a = Test::from(n);
    let b = NTuple::from(a);
    assert_eq!(n, b);
}

#[test]
fn fold_applies_left_to_right() {
    let t = NTuple::from([1, 2, 3]);
    assert_eq!(t.fold(100, |acc, x| acc - x), 94);
    assert_eq!(t.reduce(|acc, x| acc * 10 + x), 123);
}

#[test]
fn default_tuple_is_all_default() {
    let t: NTuple<u8, 4> = NTuple::default();
    assert_eq!(t, NTuple::from([0u8; 4]));
}
