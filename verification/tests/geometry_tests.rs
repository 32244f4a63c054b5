use kroma::geometry::Resize;

#[test]
fn the_default_is_native() {
    assert_eq!(Resize::default(), Resize::Native);
}
