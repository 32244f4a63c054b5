use kroma::pack::{choice_index, declared_slots, layout, slot_of, slot_width, slots_used, ParamShape, PARAM_SLOTS};

const WHITE_BALANCE: [(&str, ParamShape); 2] = [("temperature", ParamShape::Float), ("tint", ParamShape::Float)];

const MIXED: [(&str, ParamShape); 6] = [
    ("lift", ParamShape::Wheel),
    ("curve", ParamShape::Curve),
    ("enabled", ParamShape::Bool),
    ("haze", ParamShape::Rgb),
    ("mode", ParamShape::Choice),
    ("gain", ParamShape::Wheel),
];

#[test]
fn a_wheel_takes_four_slots_in_a_row() {
    assert_eq!(slot_of(&MIXED, "lift"), Some(0));
    assert_eq!(slot_of(&MIXED, "enabled"), Some(4));
    assert_eq!(slot_of(&MIXED, "gain"), Some(9));
}

#[test]
fn lookup_texture_kinds_take_no_slots() {
    assert_eq!(slot_width(ParamShape::Curve), 0);
    assert_eq!(slot_width(ParamShape::Pins), 0);
    assert_eq!(slot_width(ParamShape::Warp), 0);
    assert_eq!(slot_of(&MIXED, "curve"), None);
}

#[test]
fn an_unknown_name_has_no_slot() {
    assert_eq!(slot_of(&MIXED, "exposure"), None);
}

#[test]
fn slots_are_counted_in_declaration_order() {
    assert_eq!(declared_slots(&MIXED), 4 + 0 + 1 + 3 + 1 + 4);
    assert_eq!(layout(&MIXED), vec![0, 4, 4, 5, 8, 9]);
    assert!(slots_used(&MIXED, 0) <= PARAM_SLOTS);
}

#[test]
fn derived_slots_follow_the_declared_ones() {
    assert_eq!(declared_slots(&WHITE_BALANCE), 2);
    assert_eq!(slots_used(&WHITE_BALANCE, 3), 5);
}

#[test]
fn a_choice_packs_as_its_position() {
    let options = ["soft", "hard", "linear"];
    assert_eq!(choice_index(&options, "hard", "soft"), 1);
    assert_eq!(choice_index(&options, "linear", "soft"), 2);
}

#[test]
fn an_unknown_choice_packs_as_the_default() {
    let options = ["soft", "hard", "linear"];
    assert_eq!(choice_index(&options, "nonsense", "linear"), 2);
    assert_eq!(choice_index(&options, "nonsense", "also nonsense"), 0);
}
