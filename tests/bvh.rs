use rtow::bvh::partition_unbounded;

#[test]
fn unbounded_objects_move_to_front() {
    let mut objects = vec!["a", "plane1", "b", "c", "plane2"];
    let mut flags = vec![false, true, false, false, true];
    let k = partition_unbounded(&mut objects, &mut flags);
    assert_eq!(k, 2);
    assert_eq!(&objects[..2], &["plane1", "plane2"]);
    assert_eq!(objects, vec!["plane1", "plane2", "b", "c", "a"]);
    let mut rest = objects[2..].to_vec();
    rest.sort();
    assert_eq!(rest, vec!["a", "b", "c"]);
    assert_eq!(flags, vec![true, true, false, false, false]);
}

#[test]
fn nothing_to_move() {
    let mut objects = vec![1, 2, 3];
    let mut flags = vec![false, false, false];
    assert_eq!(partition_unbounded(&mut objects, &mut flags), 0);
    assert_eq!(objects, vec![1, 2, 3]);
    let mut none: Vec<u8> = Vec::new();
    let mut no_flags: Vec<bool> = Vec::new();
    assert_eq!(partition_unbounded(&mut none, &mut no_flags), 0);
}
