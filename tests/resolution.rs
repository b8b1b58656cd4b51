use kbm2pad::resolve::{handle_socd, process_binds, resolve, Resolution};
use kbm2pad::tracker::InputTracker;
use kbm2pad::types::{Axis, Input, KeyState, Output, Trigger};

fn key(k: u32) -> Input {
    Input::Key(k)
}

#[test]
fn tracker_defaults_to_released() {
    let t = InputTracker::new();
    assert_eq!(t.current(key(1)), KeyState::Released);
    assert_eq!(t.current(Input::MouseButton(1)), KeyState::Released);
}

#[test]
fn tracker_press_repress_release() {
    let mut t = InputTracker::new();
    t.record_press(key(1), 10);
    assert_eq!(t.current(key(1)), KeyState::Pressed(10));
    assert_eq!(t.current(Input::MouseButton(1)), KeyState::Released);
    t.record_press(key(1), 25);
    assert_eq!(t.current(key(1)), KeyState::Pressed(25));
    t.record_press(Input::MouseButton(1), 30);
    t.record_release(key(1));
    assert_eq!(t.current(key(1)), KeyState::Released);
    assert_eq!(t.current(Input::MouseButton(1)), KeyState::Pressed(30));
}

#[test]
fn unheld_axes_resolve_to_zero() {
    let binds = vec![
        (key(1), Output::Axis(Axis::LX, 1000)),
        (key(2), Output::Axis(Axis::LY, -1000)),
        (key(3), Output::Modifier(Axis::LX, 2000)),
    ];
    let mut t = InputTracker::new();
    t.record_press(key(3), 5);
    t.record_press(key(1), 6);
    t.record_release(key(1));
    let r = resolve(&binds, &t);
    assert_eq!(r.lx, 0);
    assert_eq!(r.ly, 0);
    assert_eq!(r.rx, 0);
    assert_eq!(r.ry, 0);
}

#[test]
fn latest_press_wins_on_opposite_bindings() {
    let binds = vec![
        (key(1), Output::Axis(Axis::LX, 1000)),
        (key(2), Output::Axis(Axis::LX, -1000)),
    ];
    let mut t = InputTracker::new();
    t.record_press(key(1), 100);
    t.record_press(key(2), 200);
    assert_eq!(resolve(&binds, &t).lx, -1000);
    t.record_release(key(2));
    assert_eq!(resolve(&binds, &t).lx, 1000);
    t.record_press(key(2), 300);
    t.record_release(key(1));
    t.record_press(key(1), 400);
    assert_eq!(resolve(&binds, &t).lx, 1000);
}

#[test]
fn equal_timestamps_go_to_the_later_binding() {
    let binds = vec![
        (key(1), Output::Axis(Axis::LY, 1000)),
        (key(2), Output::Axis(Axis::LY, -1000)),
    ];
    let mut t = InputTracker::new();
    t.record_press(key(1), 50);
    t.record_press(key(2), 50);
    assert_eq!(resolve(&binds, &t).ly, -1000);
}

#[test]
fn modifier_applies_only_while_held() {
    let binds = vec![
        (key(1), Output::Axis(Axis::LX, 1000)),
        (key(2), Output::Modifier(Axis::LX, 500)),
    ];
    let mut t = InputTracker::new();
    t.record_press(key(1), 1);
    t.record_press(key(2), 2);
    assert_eq!(resolve(&binds, &t).lx, 500);
    t.record_release(key(2));
    assert_eq!(resolve(&binds, &t).lx, 1000);
}

#[test]
fn modifiers_multiply() {
    let binds = vec![
        (key(1), Output::Axis(Axis::RY, -1000)),
        (key(2), Output::Modifier(Axis::RY, 500)),
        (key(3), Output::Modifier(Axis::RY, 500)),
        (key(4), Output::Modifier(Axis::RX, 0)),
    ];
    let mut t = InputTracker::new();
    for k in 1..5 {
        t.record_press(key(k), k as u64);
    }
    let r = resolve(&binds, &t);
    assert_eq!(r.ry, -250);
    assert_eq!(r.rx, 0);
}

#[test]
fn buttons_or_independent_of_order() {
    let binds = vec![
        (key(1), Output::Button(0x1000)),
        (key(2), Output::Button(0x2000)),
        (Input::MouseButton(1), Output::Button(0x0001)),
        (key(3), Output::Button(0x4000)),
    ];
    let mut t = InputTracker::new();
    t.record_press(Input::MouseButton(1), 1);
    t.record_press(key(2), 2);
    let a = resolve(&binds, &t).buttons;
    let mut u = InputTracker::new();
    u.record_press(key(2), 7);
    u.record_press(Input::MouseButton(1), 9);
    let b = resolve(&binds, &u).buttons;
    assert_eq!(a, 0x2001);
    assert_eq!(b, 0x2001);
    assert_eq!(resolve(&binds, &InputTracker::new()).buttons, 0);
}

#[test]
fn triggers_take_the_last_held_binding() {
    let binds = vec![
        (key(1), Output::Trigger(Trigger::Right, 1000)),
        (key(2), Output::Trigger(Trigger::Right, 400)),
        (key(3), Output::Trigger(Trigger::Left, 700)),
    ];
    let mut t = InputTracker::new();
    t.record_press(key(2), 1);
    t.record_press(key(1), 2);
    let r = resolve(&binds, &t);
    assert_eq!(r.right_trigger, 400);
    assert_eq!(r.left_trigger, 0);
    t.record_release(key(2));
    t.record_press(key(3), 3);
    let r = resolve(&binds, &t);
    assert_eq!(r.right_trigger, 1000);
    assert_eq!(r.left_trigger, 700);
}

#[test]
fn empty_table_resolves_to_neutral() {
    let mut t = InputTracker::new();
    t.record_press(key(1), 1);
    let r = resolve(&Vec::new(), &t);
    assert_eq!(
        r,
        Resolution { buttons: 0, lx: 0, ly: 0, rx: 0, ry: 0, left_trigger: 0, right_trigger: 0 }
    );
}

#[test]
fn socd_cases() {
    let p = |t| KeyState::Pressed(t);
    assert_eq!(handle_socd(&p(5), &p(3)), 1);
    assert_eq!(handle_socd(&p(3), &p(5)), -1);
    assert_eq!(handle_socd(&p(4), &p(4)), 1);
    assert_eq!(handle_socd(&p(4), &KeyState::Released), 1);
    assert_eq!(handle_socd(&KeyState::Released, &p(4)), -1);
    assert_eq!(handle_socd(&KeyState::Released, &KeyState::Released), 0);
}

#[test]
fn binds_keys_then_buttons() {
    let keys = vec![(4u32, Output::Button(1)), (9, Output::Axis(Axis::LX, 1000))];
    let buttons = vec![(1u32, Output::Trigger(Trigger::Left, 1000))];
    let r = process_binds(&keys, &buttons);
    assert_eq!(
        r,
        vec![
            (Input::Key(4), Output::Button(1)),
            (Input::Key(9), Output::Axis(Axis::LX, 1000)),
            (Input::MouseButton(1), Output::Trigger(Trigger::Left, 1000)),
        ]
    );
    assert!(process_binds(&Vec::new(), &Vec::new()).is_empty());
}
