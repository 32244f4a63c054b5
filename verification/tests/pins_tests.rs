use kroma::pins::{Pins, MAX_PINS};

#[derive(Clone, Copy, Debug, PartialEq)]
struct Pin {
    at: [f32; 2],
    to: [f32; 2],
}

fn placed(at: [f32; 2]) -> Pin {
    Pin { at, to: at }
}

#[test]
fn the_set_is_bounded() {
    let mut pins = Pins::new();
    for i in 0..MAX_PINS {
        assert_eq!(pins.add(placed([0.1 * i as f32, 0.5])), Some(i));
    }
    assert_eq!(pins.add(placed([0.9, 0.9])), None, "took a ninth pin");
    assert_eq!(pins.len(), MAX_PINS);
}

#[test]
fn removing_a_pin_leaves_the_others() {
    let mut pins = Pins::new();
    pins.add(placed([0.1, 0.1]));
    pins.add(placed([0.2, 0.2]));
    pins.remove(0);
    assert_eq!(pins.len(), 1);
    assert_eq!(pins.get(0).unwrap().at, [0.2, 0.2]);
    pins.remove(9);
    assert_eq!(pins.len(), 1);
}

#[test]
fn removing_from_the_middle_keeps_the_order() {
    let mut pins = Pins::new();
    pins.add(placed([0.1, 0.1]));
    pins.add(placed([0.2, 0.2]));
    pins.add(placed([0.3, 0.3]));
    pins.remove(1);
    assert_eq!(pins.get(0).unwrap().at, [0.1, 0.1]);
    assert_eq!(pins.get(1).unwrap().at, [0.3, 0.3]);
}

#[test]
fn a_pin_is_moved_in_place() {
    let mut p = Pins::new();
    p.add(placed([0.1, 0.1]));
    p.get_mut(0).unwrap().to = [0.4, 0.2];
    assert_eq!(p.get(0).unwrap().to, [0.4, 0.2]);
    assert!(p.get_mut(1).is_none());
    assert!(p.get(1).is_none());
}

#[test]
fn a_new_set_is_empty() {
    let p: Pins<Pin> = Pins::new();
    assert!(p.is_empty());
    assert_eq!(p.len(), 0);
}
