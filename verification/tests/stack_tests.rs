use kroma::stack::{BlendMode, RowId, Stack, StackRow};

fn stack_of(n: u64) -> Stack<()> {
    let mut s = Stack::new();
    for i in 0..n {
        s.push(StackRow::new(RowId(i), &format!("effect{i}")));
    }
    s
}

fn order(s: &Stack<()>) -> Vec<u64> {
    s.rows.iter().map(|r| r.id.0).collect()
}

#[test]
fn reorder_reports_the_earliest_dirty_index() {
    let mut s = stack_of(5);
    assert_eq!(s.reorder(RowId(3), 1), Some(1));
    assert_eq!(order(&s), vec![0, 3, 1, 2, 4]);

    let mut s = stack_of(5);
    assert_eq!(s.reorder(RowId(1), 3), Some(1));
    assert_eq!(order(&s), vec![0, 2, 3, 1, 4]);
}

#[test]
fn reordering_to_the_same_place_is_a_noop() {
    let mut s = stack_of(3);
    let before = s.clone();
    assert_eq!(s.reorder(RowId(1), 1), Some(1));
    assert_eq!(s, before);
}

#[test]
fn reorder_past_the_end_clamps() {
    let mut s = stack_of(3);
    assert!(s.reorder(RowId(0), 99).is_some());
    assert_eq!(order(&s), vec![1, 2, 0]);
}

#[test]
fn ids_survive_reordering() {
    let mut s = stack_of(4);
    s.reorder(RowId(0), 3);
    assert!(s.get(RowId(0)).is_some());
    assert_eq!(s.index_of(RowId(0)), Some(3));
}

#[test]
fn a_pinned_row_cannot_be_deleted() {
    let mut s: Stack<()> = Stack::new();
    s.push(StackRow::pinned(RowId(0), "exposure"));
    assert!(s.remove(RowId(0)).is_none());
    assert_eq!(s.len(), 1);
}

#[test]
fn a_pinned_row_cannot_be_moved() {
    let mut s: Stack<()> = Stack::new();
    s.push(StackRow::pinned(RowId(0), "exposure"));
    s.push(StackRow::pinned(RowId(1), "contrast"));
    s.push(StackRow::new(RowId(2), "grain"));
    s.reorder(RowId(0), 2);
    assert_eq!(order(&s), vec![0, 1, 2]);
}

#[test]
fn a_user_row_cannot_be_dragged_above_the_pinned_panels() {
    let mut s: Stack<()> = Stack::new();
    s.push(StackRow::pinned(RowId(0), "exposure"));
    s.push(StackRow::pinned(RowId(1), "contrast"));
    s.push(StackRow::new(RowId(2), "grain"));
    s.push(StackRow::new(RowId(3), "halation"));

    s.reorder(RowId(3), 0);
    assert_eq!(order(&s), vec![0, 1, 3, 2], "halation should stop at the floor");
    assert_eq!(s.pinned_count(), 2);
}

#[test]
fn add_and_screen_are_the_light_like_modes() {
    for m in BlendMode::ALL {
        assert_eq!(
            m.is_light_like(),
            matches!(m, BlendMode::Add | BlendMode::Screen),
            "{m:?}"
        );
    }
}

#[test]
fn indices_are_unique_and_dense() {
    let mut seen: Vec<u32> = BlendMode::ALL.iter().map(|m| m.as_index()).collect();
    seen.sort();
    assert_eq!(seen, (0..BlendMode::ALL.len() as u32).collect::<Vec<_>>());
}

#[test]
fn a_new_row_starts_enabled_normal_unlabelled_and_unpinned() {
    let r: StackRow<()> = StackRow::new(RowId(1), "exposure");
    assert!(r.enabled);
    assert_eq!(r.blend, BlendMode::Normal);
    assert!(r.label.is_none());
    assert!(!r.pinned);
    assert_eq!(r.effect, "exposure");
}

#[test]
fn removing_a_user_row_hands_it_back_and_closes_the_gap() {
    let mut s = stack_of(4);
    let gone = s.remove(RowId(2)).unwrap();
    assert_eq!(gone.id, RowId(2));
    assert_eq!(order(&s), vec![0, 1, 3]);
    assert!(s.remove(RowId(2)).is_none());
}

#[test]
fn an_unknown_row_cannot_be_found_or_moved() {
    let mut s = stack_of(3);
    assert!(s.get(RowId(7)).is_none());
    assert_eq!(s.index_of(RowId(7)), None);
    assert_eq!(s.reorder(RowId(7), 0), None);
    assert_eq!(order(&s), vec![0, 1, 2]);
}

#[test]
fn rows_are_found_by_effect() {
    let s = stack_of(3);
    assert_eq!(s.find_by_effect("effect1"), Some(RowId(1)));
    assert_eq!(s.find_by_effect("grain"), None);
}

#[test]
fn blend_modes_have_names_and_shader_indices() {
    assert_eq!(BlendMode::Normal.as_index(), 0);
    assert_eq!(BlendMode::SoftLight.as_str(), "Soft Light");
    assert_eq!(BlendMode::Luminosity.as_index(), 12);
    assert_eq!(BlendMode::default(), BlendMode::Normal);
}
