use kroma::effects::{gate_allows, gate_for, Gate, Setting, When};

const GATES: [Gate; 3] = [
    Gate { by: "append_grain", when: When::True, params: &["grain_size", "grain_strength"] },
    Gate { by: "glow_strength", when: When::Positive, params: &["glow_gamma", "glow_spread"] },
    Gate { by: "mode", when: When::Is("Advanced"), params: &["threshold_low", "grain_size"] },
];

#[test]
fn the_first_gate_that_guards_a_control_decides() {
    assert_eq!(gate_for(&GATES, "grain_size"), Some(0));
    assert_eq!(gate_for(&GATES, "glow_spread"), Some(1));
    assert_eq!(gate_for(&GATES, "threshold_low"), Some(2));
    assert_eq!(gate_for(&GATES, "exposure"), None);
}

#[test]
fn a_switch_gate_follows_its_box() {
    assert!(!gate_allows(When::True, Some(Setting::Switch(false))));
    assert!(gate_allows(When::True, Some(Setting::Switch(true))));
    assert!(gate_allows(When::False, Some(Setting::Switch(false))));
    assert!(!gate_allows(When::False, Some(Setting::Switch(true))));
}

#[test]
fn an_amount_of_nothing_closes_its_gate() {
    assert!(!gate_allows(When::Positive, Some(Setting::Amount { off_zero: false })));
    assert!(gate_allows(When::Positive, Some(Setting::Amount { off_zero: true })));
}

#[test]
fn a_mode_opens_only_its_own_controls() {
    assert!(gate_allows(When::Is("Advanced"), Some(Setting::Choice("Advanced"))));
    assert!(!gate_allows(When::Is("Advanced"), Some(Setting::Choice("Simple"))));
}

#[test]
fn an_undrawn_curve_closes_its_gate() {
    assert!(!gate_allows(When::Drawn, Some(Setting::Curve { drawn: false })));
    assert!(gate_allows(When::Drawn, Some(Setting::Curve { drawn: true })));
}

#[test]
fn a_missing_or_mismatched_setting_leaves_the_controls_live() {
    assert!(gate_allows(When::True, None));
    assert!(gate_allows(When::True, Some(Setting::Amount { off_zero: false })));
    assert!(gate_allows(When::Drawn, Some(Setting::Other)));
    assert!(gate_allows(When::Is("Advanced"), Some(Setting::Switch(false))));
}
