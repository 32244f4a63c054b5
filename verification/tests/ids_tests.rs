use kroma::document::Document;
use kroma::effects::{new_document, PINNED_ROWS};
use kroma::stack::{RowId, StackRow};
use kroma::RowIdGenerator;

#[test]
fn generated_ids_are_unique() {
    let mut g = RowIdGenerator::default();
    let ids: Vec<_> = (0..100).map(|_| g.allocate()).collect();
    let mut sorted = ids.clone();
    sorted.sort();
    sorted.dedup();
    assert_eq!(sorted.len(), ids.len());
}

#[test]
fn resuming_avoids_colliding_with_loaded_rows() {
    let mut doc: Document<(), ()> = Document::from_path("a.jpg");
    doc.stack.push(StackRow::new(RowId(4), "exposure"));
    doc.stack.push(StackRow::new(RowId(9), "grain"));

    let mut g = RowIdGenerator::resuming(&doc);
    let fresh = g.allocate();
    assert_eq!(fresh, RowId(10));
    assert!(doc.stack.get(fresh).is_none());
}

#[test]
fn resuming_on_an_empty_document_starts_at_zero() {
    let doc: Document<(), ()> = Document::from_path("a.jpg");
    assert_eq!(RowIdGenerator::resuming(&doc).allocate(), RowId(0));
}

#[test]
fn a_generator_resumed_on_a_new_document_cannot_collide_with_it() {
    let doc: Document<(), ()> = new_document("a.jpg", |_key: &str| ());
    let mut ids = RowIdGenerator::resuming(&doc);
    let existing: Vec<u64> = doc.stack.rows.iter().map(|r| r.id.0).collect();
    assert_eq!(existing.len(), PINNED_ROWS.len());
    for _ in 0..8 {
        let next = ids.allocate();
        assert!(!existing.contains(&next.0), "id {} is already in the stack", next.0);
    }
}

#[test]
fn a_default_generator_collides_with_the_pinned_rows() {
    let doc: Document<(), ()> = new_document("a.jpg", |_key: &str| ());
    let mut ids = RowIdGenerator::default();
    let first = ids.allocate();
    assert!(doc.stack.get(first).is_some());
}

#[test]
fn a_new_document_carries_the_pinned_rows_in_order() {
    let doc: Document<usize, ()> = new_document("photo.jpg", |key: &str| key.len());
    assert_eq!(doc.stack.len(), PINNED_ROWS.len());
    assert_eq!(doc.stack.pinned_count(), PINNED_ROWS.len());
    for (i, row) in doc.stack.rows.iter().enumerate() {
        assert_eq!(row.id, RowId(i as u64));
        assert_eq!(row.effect, PINNED_ROWS[i]);
        assert!(row.pinned && row.enabled);
        assert_eq!(row.look, PINNED_ROWS[i].len());
    }
}
