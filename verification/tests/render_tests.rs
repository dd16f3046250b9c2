use sysmon::render::indexed_points;

#[test]
fn samples_become_indexed_points() {
    let points = indexed_points(&vec![10, 20, 30]);
    assert_eq!(points, vec![(0, 10), (1, 20), (2, 30)]);
}

#[test]
fn empty_snapshot_gives_no_points() {
    assert_eq!(indexed_points(&Vec::new()), Vec::<(usize, i64)>::new());
}

#[test]
fn sentinel_samples_keep_their_index() {
    let points = indexed_points(&vec![-100, 5000]);
    assert_eq!(points, vec![(0, -100), (1, 5000)]);
}
