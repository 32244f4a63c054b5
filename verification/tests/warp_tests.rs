use kroma::warp::{Lattice, DEFAULT_DIVISIONS, MAX_DIVISIONS};

fn untouched(w: &Lattice<[f32; 2]>) -> bool {
    w.offsets().iter().all(|o| o == &[0.0, 0.0])
}

#[test]
fn a_grid_cannot_be_made_degenerate_or_enormous() {
    let w = Lattice::identity(1, 400, [0.0f32, 0.0]);
    assert!(w.cols() >= 2 && w.rows() <= MAX_DIVISIONS);
    assert_eq!(w.offsets().len(), (w.cols() * w.rows()) as usize);
}

#[test]
fn a_moved_vertex_is_read_back_where_it_was_put() {
    let mut w = Lattice::identity(6, 6, [0.0f32, 0.0]);
    w.set(2, 3, [0.25, -0.1]);
    assert_eq!(w.at(2, 3), Some(&[0.25, -0.1]));
    assert!(!untouched(&w));
    w.set(2, 3, [0.0, 0.0]);
    assert!(untouched(&w), "putting it back should read as untouched");
}

#[test]
fn a_vertex_off_the_grid_is_ignored() {
    let mut w = Lattice::identity(4, 3, [0.0f32, 0.0]);
    w.set(4, 0, [1.0, 1.0]);
    w.set(0, 3, [1.0, 1.0]);
    assert!(untouched(&w));
    assert_eq!(w.at(4, 0), None);
    assert_eq!(w.index(3, 2), Some(11));
    assert_eq!(w.index(0, 3), None);
}

#[test]
fn the_default_grid_is_six_by_six() {
    let w = Lattice::identity(DEFAULT_DIVISIONS, DEFAULT_DIVISIONS, 0u8);
    assert_eq!((w.cols(), w.rows(), w.offsets().len()), (6, 6, 36));
}

#[test]
fn stored_parts_must_describe_a_lattice() {
    assert!(Lattice::from_parts(2, 2, vec![0u8; 4]).is_some());
    assert!(Lattice::from_parts(2, 2, vec![0u8; 5]).is_none());
    assert!(Lattice::from_parts(1, 4, vec![0u8; 4]).is_none());
    assert!(Lattice::from_parts(17, 2, vec![0u8; 34]).is_none());
}

#[test]
fn filling_resets_every_vertex() {
    let mut w = Lattice::identity(3, 3, 0u8);
    w.set(1, 1, 9);
    w.set(2, 0, 4);
    w.fill(0);
    assert!(w.offsets().iter().all(|v| *v == 0));
    let copy = w.clone();
    assert_eq!(copy, w);
}
