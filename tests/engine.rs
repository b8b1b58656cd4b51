use kbm2pad::engine::{Engine, EngineConfig};
use kbm2pad::gate::{Gate, GateAction};
use kbm2pad::types::{Axis, GamepadFrame, Input, KeyState, Mode, Output, RawEvent, Trigger};

fn table() -> Vec<(Input, Output)> {
    vec![
        (Input::Key(1), Output::Axis(Axis::LX, 1000)),
        (Input::Key(2), Output::Axis(Axis::LX, -1000)),
        (Input::Key(3), Output::Button(0x1000)),
        (Input::Key(4), Output::Trigger(Trigger::Right, 1000)),
        (Input::MouseButton(1), Output::Axis(Axis::RX, 500)),
    ]
}

#[test]
fn opposite_keys_scenario() {
    let binds = vec![
        (Input::Key(1), Output::Axis(Axis::LX, 1000)),
        (Input::Key(2), Output::Axis(Axis::LX, -1000)),
    ];
    let mut e = Engine::new(EngineConfig::new(Mode::SideScrolling, 1000), binds);
    assert_eq!(e.tick(Some(RawEvent::KeyPress(1)), 0).thumb_lx, 32767);
    assert_eq!(e.tick(Some(RawEvent::KeyPress(2)), 10).thumb_lx, -32767);
    assert_eq!(e.tick(Some(RawEvent::KeyRelease(2)), 20).thumb_lx, 32767);
    assert_eq!(e.tracker.current(Input::Key(1)), KeyState::Pressed(0));
}

#[test]
fn key_frame_in_side_scrolling() {
    let mut e = Engine::new(EngineConfig::new(Mode::SideScrolling, 1000), table());
    e.tick(Some(RawEvent::KeyPress(3)), 1);
    e.tick(Some(RawEvent::KeyPress(4)), 2);
    let f = e.tick(Some(RawEvent::ButtonPress(1)), 3);
    assert_eq!(
        f,
        GamepadFrame {
            buttons: 0x1000,
            left_trigger: 0,
            right_trigger: 255,
            thumb_lx: 0,
            thumb_ly: 0,
            thumb_rx: 16383,
            thumb_ry: 0,
        }
    );
    let f = e.tick(Some(RawEvent::KeyRelease(4)), 4);
    assert_eq!(f.right_trigger, 0);
}

#[test]
fn idle_tick_zeroes_pointer_stick_only() {
    let mut e = Engine::new(EngineConfig::new(Mode::FPS, 2000), table());
    e.tick(Some(RawEvent::KeyPress(1)), 1);
    e.tick(Some(RawEvent::KeyPress(3)), 2);
    let moved = e.tick(Some(RawEvent::PointerMove { x: 10, y: 5 }), 3);
    assert_eq!(moved.thumb_rx, 20);
    assert_eq!(moved.thumb_ry, -10);
    let idle = e.tick(None, 4);
    assert_eq!(idle.thumb_rx, 0);
    assert_eq!(idle.thumb_ry, 0);
    assert_eq!(idle.thumb_lx, moved.thumb_lx);
    assert_eq!(idle.thumb_lx, 32767);
    assert_eq!(idle.buttons, 0x1000);
    assert_eq!(idle.right_trigger, moved.right_trigger);
}

#[test]
fn idle_tick_keeps_key_driven_right_stick() {
    let mut e = Engine::new(EngineConfig::new(Mode::SideScrolling, 1000), table());
    let f = e.tick(Some(RawEvent::ButtonPress(1)), 1);
    assert_eq!(f.thumb_rx, 16383);
    assert_eq!(e.tick(None, 2), f);
}

#[test]
fn pointer_deltas_and_blending() {
    let mut e = Engine::new(EngineConfig::new(Mode::FPS, 1500), Vec::new());
    let f = e.tick(Some(RawEvent::PointerMove { x: 100, y: 100 }), 1);
    assert_eq!((f.thumb_rx, f.thumb_ry), (150, -150));
    let f = e.tick(Some(RawEvent::PointerMove { x: 90, y: 110 }), 2);
    assert_eq!((f.thumb_rx, f.thumb_ry), (-15, -15));
    let f = e.tick(Some(RawEvent::KeyPress(7)), 3);
    assert_eq!((f.thumb_rx, f.thumb_ry), (-15, -15));
    let f = e.tick(Some(RawEvent::PointerMove { x: 100000, y: 0 }), 4);
    assert_eq!((f.thumb_rx, f.thumb_ry), (32767, 165));

    let smooth = EngineConfig { mode: Mode::FPS, sensitivity: 1000, blend: 500 };
    let mut e = Engine::new(smooth, Vec::new());
    let f = e.tick(Some(RawEvent::PointerMove { x: 100, y: 0 }), 1);
    assert_eq!(f.thumb_rx, 50);
    let f = e.tick(Some(RawEvent::PointerMove { x: 200, y: 0 }), 2);
    assert_eq!(f.thumb_rx, 75);
}

#[test]
fn replay_is_reproducible() {
    let events = vec![
        (Some(RawEvent::KeyPress(1)), 0u64),
        (Some(RawEvent::KeyPress(3)), 5),
        (None, 25),
        (Some(RawEvent::KeyPress(2)), 30),
        (Some(RawEvent::PointerMove { x: 3, y: 4 }), 31),
        (Some(RawEvent::KeyRelease(2)), 40),
        (None, 60),
    ];
    let config = EngineConfig::new(Mode::FPS, 1000);
    let a = Engine::new(config, table()).replay(&events);
    let b = Engine::new(config, table()).replay(&events);
    assert_eq!(a, b);
    assert_eq!(a.len(), events.len());
    assert_eq!(a[3].thumb_lx, -32767);
    assert_eq!(a[4].thumb_rx, 3);
    assert_eq!(a[6].thumb_rx, 0);
    assert_eq!(a[6].thumb_lx, 32767);
}

#[test]
fn gate_starts_paused_and_toggles() {
    let mut g = Gate::new(12, 99);
    assert!(g.paused);
    assert_eq!(g.decide(RawEvent::KeyPress(1)), GateAction::PassThrough);
    assert!(g.paused);
    assert_eq!(g.decide(RawEvent::KeyPress(12)), GateAction::PassThrough);
    assert!(!g.paused);
    assert_eq!(g.decide(RawEvent::KeyPress(1)), GateAction::Forward);
    assert_eq!(g.decide(RawEvent::PointerMove { x: 1, y: 1 }), GateAction::Forward);
    assert_eq!(g.decide(RawEvent::KeyRelease(12)), GateAction::Forward);
    assert!(!g.paused);
    assert_eq!(g.decide(RawEvent::KeyPress(12)), GateAction::Forward);
    assert!(g.paused);
}

#[test]
fn panic_key_exits_in_both_states() {
    let mut g = Gate::new(12, 99);
    assert_eq!(g.decide(RawEvent::KeyPress(99)), GateAction::Exit);
    assert!(g.paused);
    g.decide(RawEvent::KeyPress(12));
    assert_eq!(g.decide(RawEvent::KeyPress(99)), GateAction::Exit);
    assert_eq!(g.decide(RawEvent::KeyRelease(99)), GateAction::Forward);
}

#[test]
fn paused_events_never_reach_the_tracker() {
    let mut g = Gate::new(12, 99);
    let mut e = Engine::new(EngineConfig::new(Mode::SideScrolling, 1000), table());
    let ev = RawEvent::KeyPress(1);
    if g.decide(ev) == GateAction::Forward {
        e.tick(Some(ev), 5);
    }
    assert_eq!(e.tracker.current(Input::Key(1)), KeyState::Released);
    g.decide(RawEvent::KeyPress(12));
    if g.decide(ev) == GateAction::Forward {
        e.tick(Some(ev), 6);
    }
    assert_eq!(e.tracker.current(Input::Key(1)), KeyState::Pressed(6));
}
