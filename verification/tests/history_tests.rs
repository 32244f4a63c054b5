use kroma::document::Document;
use kroma::history::History;
use kroma::stack::{RowId, StackRow};

/// A row's parameters: named numbers, enough to stand for a slider.
#[derive(Clone, Debug, Default, PartialEq)]
struct Params(Vec<(String, f32)>);

impl Params {
    fn set(&mut self, key: &str, v: f32) {
        match self.0.iter_mut().find(|(k, _)| k == key) {
            Some(slot) => slot.1 = v,
            None => self.0.push((key.to_string(), v)),
        }
    }

    fn get(&self, key: &str) -> Option<f32> {
        self.0.iter().find(|(k, _)| k == key).map(|(_, v)| *v)
    }
}

type Doc = Document<Params, ()>;

fn doc() -> Doc {
    Document::from_path("a.jpg")
}

fn set_ev(d: &Doc, v: f32) -> Doc {
    let mut d = d.clone();
    if d.stack.is_empty() {
        d.stack.push(StackRow::new(RowId(1), "exposure"));
    }
    d.stack.get_mut(RowId(1)).unwrap().look.set("ev", v);
    d
}

fn ev_of(h: &History<Doc>) -> Option<f32> {
    h.document().stack.get(RowId(1)).and_then(|r| r.look.get("ev"))
}

#[test]
fn every_change_moves_the_revision_including_undo() {
    let mut h = History::new(Doc::from_path("photo.jpg"));
    let start = h.revision();
    h.edit("one", None, |d: &Doc| {
        let mut d = d.clone();
        d.stack.rows.clear();
        d
    });
    let after_edit = h.revision();
    assert!(after_edit > start, "an edit did not move the revision");

    assert!(h.undo());
    assert!(h.revision() > after_edit, "an undo did not move it");
    let after_undo = h.revision();
    assert!(h.redo());
    assert!(h.revision() > after_undo, "a redo did not move it");
}

#[test]
fn a_refused_undo_does_not_move_the_revision() {
    let mut h = History::new(Doc::from_path("photo.jpg"));
    let before = h.revision();
    assert!(!h.undo());
    assert!(!h.redo());
    assert_eq!(h.revision(), before);
}

#[test]
fn undo_restores_the_previous_state() {
    let mut h = History::new(doc());
    h.edit("Set exposure", None, |d: &Doc| set_ev(d, 1.0));
    assert_eq!(ev_of(&h), Some(1.0));
    assert!(h.undo());
    assert_eq!(ev_of(&h), None);
}

#[test]
fn redo_reapplies() {
    let mut h = History::new(doc());
    h.edit("Set exposure", None, |d: &Doc| set_ev(d, 1.0));
    h.undo();
    assert!(h.redo());
    assert_eq!(ev_of(&h), Some(1.0));
}

#[test]
fn nothing_to_undo_on_a_fresh_history() {
    let mut h = History::new(doc());
    assert!(!h.can_undo());
    assert!(!h.undo());
}

#[test]
fn a_slider_drag_collapses_into_one_undo_step() {
    let mut h = History::new(doc());
    let key = Some("row1.ev".to_string());
    for i in 1..=50 {
        h.edit("Exposure", key.clone(), |d: &Doc| set_ev(d, i as f32 / 50.0));
    }
    assert_eq!(ev_of(&h), Some(1.0));
    assert!(h.undo());
    assert_eq!(ev_of(&h), None);
    assert!(!h.can_undo());
}

#[test]
fn different_controls_do_not_coalesce_together() {
    let mut h = History::new(doc());
    h.edit("Exposure", Some("row1.ev".into()), |d: &Doc| set_ev(d, 0.5));
    h.edit("Contrast", Some("row1.contrast".into()), |d: &Doc| {
        let mut d = d.clone();
        d.stack.get_mut(RowId(1)).unwrap().look.set("contrast", 0.2);
        d
    });
    h.undo();
    assert_eq!(ev_of(&h), Some(0.5));
}

#[test]
fn breaking_coalescing_starts_a_new_step() {
    let mut h = History::new(doc());
    let key = Some("row1.ev".to_string());
    h.edit("Exposure", key.clone(), |d: &Doc| set_ev(d, 0.3));
    h.break_coalescing();
    h.edit("Exposure", key.clone(), |d: &Doc| set_ev(d, 0.9));

    assert!(h.undo());
    assert_eq!(ev_of(&h), Some(0.3), "second drag should undo on its own");
}

#[test]
fn a_new_edit_discards_the_redo_branch() {
    let mut h = History::new(doc());
    h.edit("a", None, |d: &Doc| set_ev(d, 1.0));
    h.undo();
    assert!(h.can_redo());
    h.edit("b", None, |d: &Doc| set_ev(d, 2.0));
    assert!(!h.can_redo());
}

#[test]
fn history_is_bounded() {
    let mut h = History::new(doc()).with_limit(10);
    for i in 0..100 {
        h.edit(&format!("edit {i}"), None, |d: &Doc| set_ev(d, i as f32));
    }
    let mut undos = 0;
    while h.undo() {
        undos += 1;
    }
    assert_eq!(undos, 10);
}

#[test]
fn labels_describe_the_pending_undo() {
    let mut h = History::new(doc());
    h.edit("Add Grain", None, |d: &Doc| {
        let mut d = d.clone();
        d.stack.push(StackRow::new(RowId(9), "grain"));
        d
    });
    assert_eq!(h.undo_label(), Some("Add Grain"));
    h.undo();
    assert_eq!(h.redo_label(), Some("Add Grain"));
}

#[test]
fn redo_after_undo_returns_to_the_edited_document() {
    let mut h = History::new(doc());
    h.edit("a", None, |d: &Doc| set_ev(d, 0.25));
    let edited = h.document().clone();
    assert!(h.undo());
    assert!(h.redo());
    assert_eq!(h.document(), &edited);
    assert!(h.undo());
    assert_eq!(h.document(), &doc());
}

#[test]
fn a_limit_of_zero_still_keeps_one_step() {
    let mut h = History::new(doc()).with_limit(0);
    h.edit("a", None, |d: &Doc| set_ev(d, 1.0));
    h.edit("b", None, |d: &Doc| set_ev(d, 2.0));
    assert!(h.undo());
    assert_eq!(ev_of(&h), Some(1.0));
    assert!(!h.undo());
}
