use crate::tracker::{state_in, InputTracker};
use crate::types::{
    apply_factor, scale_by_factor, Axis, Input, KeyState, Output, Trigger,
};
use vstd::prelude::*;

verus! {

/// When `i` was pressed, if it is held.
pub open spec fn press_time(m: Map<Input, KeyState>, i: Input) -> Option<u64> {
    match state_in(m, i) {
        KeyState::Pressed(t) => Some(t),
        KeyState::Released => None,
    }
}

pub open spec fn is_held(m: Map<Input, KeyState>, i: Input) -> bool {
    press_time(m, i) is Some
}

/// The OR of the codes of every button binding whose input is held.
pub open spec fn button_mask(binds: Seq<(Input, Output)>, m: Map<Input, KeyState>) -> u16
    decreases binds.len(),
{
    if binds.len() == 0 {
        0
    } else {
        let prev = button_mask(binds.drop_last(), m);
        match binds.last().1 {
            Output::Button(c) => if is_held(m, binds.last().0) {
                prev | c
            } else {
                prev
            },
            _ => prev,
        }
    }
}

/// The winning contribution to axis `a`: the held axis binding pressed most
/// recently, the later binding on equal timestamps.
pub open spec fn axis_candidate(binds: Seq<(Input, Output)>, m: Map<Input, KeyState>, a: Axis) -> Option<(u64, i32)>
    decreases binds.len(),
{
    if binds.len() == 0 {
        None
    } else {
        let prev = axis_candidate(binds.drop_last(), m, a);
        match binds.last().1 {
            Output::Axis(ax, v) => match press_time(m, binds.last().0) {
                Some(t) => if ax == a && (prev is None || t >= prev.unwrap().0) {
                    Some((t, v))
                } else {
                    prev
                },
                None => prev,
            },
            _ => prev,
        }
    }
}

/// `v` after every held modifier of axis `a`, in binding order.
pub open spec fn apply_modifiers(binds: Seq<(Input, Output)>, m: Map<Input, KeyState>, a: Axis, v: i32) -> i32
    decreases binds.len(),
{
    if binds.len() == 0 {
        v
    } else {
        let prev = apply_modifiers(binds.drop_last(), m, a, v);
        match binds.last().1 {
            Output::Modifier(ax, f) => if ax == a && is_held(m, binds.last().0) {
                apply_factor(prev as int, f as int)
            } else {
                prev
            },
            _ => prev,
        }
    }
}

pub open spec fn candidate_value(c: Option<(u64, i32)>) -> i32 {
    match c {
        Some((_, v)) => v,
        None => 0,
    }
}

/// The resolved value of axis `a`, in thousandths.
pub open spec fn axis_value(binds: Seq<(Input, Output)>, m: Map<Input, KeyState>, a: Axis) -> i32 {
    apply_modifiers(binds, m, a, candidate_value(axis_candidate(binds, m, a)))
}

/// The level of trigger `side`: that of the last held binding to it, else zero.
pub open spec fn trigger_level(binds: Seq<(Input, Output)>, m: Map<Input, KeyState>, side: Trigger) -> i32
    decreases binds.len(),
{
    if binds.len() == 0 {
        0
    } else {
        match binds.last().1 {
            Output::Trigger(s, v) => if s == side && is_held(m, binds.last().0) {
                v
            } else {
                trigger_level(binds.drop_last(), m, side)
            },
            _ => trigger_level(binds.drop_last(), m, side),
        }
    }
}

/// The gamepad state that the bindings give, before scaling to device ranges.
#[derive(Clone, Copy, Debug, PartialEq, Eq, Structural)]
pub struct Resolution {
    pub buttons: u16,
    pub lx: i32,
    pub ly: i32,
    pub rx: i32,
    pub ry: i32,
    pub left_trigger: i32,
    pub right_trigger: i32,
}

pub open spec fn resolution_of(binds: Seq<(Input, Output)>, m: Map<Input, KeyState>) -> Resolution {
    Resolution {
        buttons: button_mask(binds, m),
        lx: axis_value(binds, m, Axis::LX),
        ly: axis_value(binds, m, Axis::LY),
        rx: axis_value(binds, m, Axis::RX),
        ry: axis_value(binds, m, Axis::RY),
        left_trigger: trigger_level(binds, m, Trigger::Left),
        right_trigger: trigger_level(binds, m, Trigger::Right),
    }
}

proof fn lemma_prefix_step(s: Seq<(Input, Output)>, j: int)
    requires
        0 <= j < s.len(),
    ensures
        s.subrange(0, j + 1).drop_last() == s.subrange(0, j),
        s.subrange(0, j + 1).last() == s[j],
        s.subrange(0, j + 1).len() == j + 1,
{
    assert(s.subrange(0, j + 1).drop_last() =~= s.subrange(0, j));
}

fn press_time_of(tracker: &InputTracker, i: Input) -> (r: Option<u64>)
    requires
        tracker.wf(),
    ensures
        r == press_time(tracker@, i),
{
    match tracker.current(i) {
        KeyState::Pressed(t) => Some(t),
        KeyState::Released => None,
    }
}

pub fn resolve_buttons(binds: &Vec<(Input, Output)>, tracker: &InputTracker) -> (r: u16)
    requires
        tracker.wf(),
    ensures
        r == button_mask(binds@, tracker@),
{
    let mut acc: u16 = 0;
    let mut j: usize = 0;
    while j < binds.len()
        invariant
            tracker.wf(),
            j <= binds@.len(),
            acc == button_mask(binds@.subrange(0, j as int), tracker@),
        decreases binds@.len() - j,
    {
        proof {
            lemma_prefix_step(binds@, j as int);
        }
        let (i, o) = binds[j];
        match o {
            Output::Button(c) => {
                if press_time_of(tracker, i).is_some() {
                    acc = acc | c;
                }
            },
            _ => {},
        }
        j = j + 1;
    }
    assert(binds@.subrange(0, binds@.len() as int) =~= binds@);
    acc
}

pub fn resolve_axis(binds: &Vec<(Input, Output)>, tracker: &InputTracker, a: Axis) -> (r: i32)
    requires
        tracker.wf(),
    ensures
        r == axis_value(binds@, tracker@, a),
{
    let mut best: Option<(u64, i32)> = None;
    let mut j: usize = 0;
    while j < binds.len()
        invariant
            tracker.wf(),
            j <= binds@.len(),
            best == axis_candidate(binds@.subrange(0, j as int), tracker@, a),
        decreases binds@.len() - j,
    {
        proof {
            lemma_prefix_step(binds@, j as int);
        }
        let (i, o) = binds[j];
        match o {
            Output::Axis(ax, v) => {
                match press_time_of(tracker, i) {
                    Some(t) => {
                        let replace = match best {
                            None => true,
                            Some((bt, _)) => t >= bt,
                        };
                        if ax == a && replace {
                            best = Some((t, v));
                        }
                    },
                    None => {},
                }
            },
            _ => {},
        }
        j = j + 1;
    }
    assert(binds@.subrange(0, binds@.len() as int) =~= binds@);
    let base: i32 = match best {
        Some((_, v)) => v,
        None => 0,
    };
    let mut value: i32 = base;
    let mut j: usize = 0;
    while j < binds.len()
        invariant
            tracker.wf(),
            j <= binds@.len(),
            value == apply_modifiers(binds@.subrange(0, j as int), tracker@, a, base),
        decreases binds@.len() - j,
    {
        proof {
            lemma_prefix_step(binds@, j as int);
        }
        let (i, o) = binds[j];
        match o {
            Output::Modifier(ax, f) => {
                if ax == a && press_time_of(tracker, i).is_some() {
                    value = scale_by_factor(value, f);
                }
            },
            _ => {},
        }
        j = j + 1;
    }
    value
}

pub fn resolve_trigger(binds: &Vec<(Input, Output)>, tracker: &InputTracker, side: Trigger) -> (r: i32)
    requires
        tracker.wf(),
    ensures
        r == trigger_level(binds@, tracker@, side),
{
    let mut level: i32 = 0;
    let mut j: usize = 0;
    while j < binds.len()
        invariant
            tracker.wf(),
            j <= binds@.len(),
            level == trigger_level(binds@.subrange(0, j as int), tracker@, side),
        decreases binds@.len() - j,
    {
        proof {
            lemma_prefix_step(binds@, j as int);
        }
        let (i, o) = binds[j];
        match o {
            Output::Trigger(s, v) => {
                if s == side && press_time_of(tracker, i).is_some() {
                    level = v;
                }
            },
            _ => {},
        }
        j = j + 1;
    }
    assert(binds@.subrange(0, binds@.len() as int) =~= binds@);
    level
}

/// Resolves the whole binding table against the current input states.
pub fn resolve(binds: &Vec<(Input, Output)>, tracker: &InputTracker) -> (r: Resolution)
    requires
        tracker.wf(),
    ensures
        r == resolution_of(binds@, tracker@),
{
    Resolution {
        buttons: resolve_buttons(binds, tracker),
        lx: resolve_axis(binds, tracker, Axis::LX),
        ly: resolve_axis(binds, tracker, Axis::LY),
        rx: resolve_axis(binds, tracker, Axis::RX),
        ry: resolve_axis(binds, tracker, Axis::RY),
        left_trigger: resolve_trigger(binds, tracker, Trigger::Left),
        right_trigger: resolve_trigger(binds, tracker, Trigger::Right),
    }
}

/// Opposite-direction resolution of a positive and a negative input: the one
/// pressed later wins, the positive one on equal timestamps; `0` when neither is held.
pub fn handle_socd(pos: &KeyState, neg: &KeyState) -> (r: i32)
    ensures
        r == match (*pos, *neg) {
            (KeyState::Pressed(p), KeyState::Pressed(n)) => if p >= n {
                1i32
            } else {
                -1i32
            },
            (KeyState::Pressed(_), KeyState::Released) => 1i32,
            (KeyState::Released, KeyState::Pressed(_)) => -1i32,
            (KeyState::Released, KeyState::Released) => 0i32,
        },
{
    match (pos, neg) {
        (KeyState::Pressed(p), KeyState::Pressed(n)) => {
            if *p >= *n {
                1
            } else {
                -1
            }
        },
        (KeyState::Pressed(_), KeyState::Released) => 1,
        (KeyState::Released, KeyState::Pressed(_)) => -1,
        (KeyState::Released, KeyState::Released) => 0,
    }
}

/// The binding table of one mode: the key bindings, then the mouse-button bindings.
pub open spec fn table_of(keys: Seq<(u32, Output)>, buttons: Seq<(u32, Output)>) -> Seq<(Input, Output)> {
    keys.map_values(|p: (u32, Output)| (Input::Key(p.0), p.1)) + buttons.map_values(
        |p: (u32, Output)| (Input::MouseButton(p.0), p.1),
    )
}

/// Merges a mode's key bindings and mouse-button bindings into one table.
pub fn process_binds(keys: &Vec<(u32, Output)>, buttons: &Vec<(u32, Output)>) -> (r: Vec<(Input, Output)>)
    requires
        keys@.len() + buttons@.len() <= usize::MAX,
    ensures
        r@ == table_of(keys@, buttons@),
{
    let mut r: Vec<(Input, Output)> = Vec::new();
    let mut j: usize = 0;
    while j < keys.len()
        invariant
            j <= keys@.len(),
            r@ =~= keys@.subrange(0, j as int).map_values(|p: (u32, Output)| (Input::Key(p.0), p.1)),
        decreases keys@.len() - j,
    {
        let (k, o) = keys[j];
        r.push((Input::Key(k), o));
        j = j + 1;
        assert(r@ =~= keys@.subrange(0, j as int).map_values(|p: (u32, Output)| (Input::Key(p.0), p.1)));
    }
    let mut j: usize = 0;
    while j < buttons.len()
        invariant
            j <= buttons@.len(),
            r@ =~= keys@.map_values(|p: (u32, Output)| (Input::Key(p.0), p.1)) + buttons@.subrange(
                0,
                j as int,
            ).map_values(|p: (u32, Output)| (Input::MouseButton(p.0), p.1)),
        decreases buttons@.len() - j,
    {
        let (b, o) = buttons[j];
        r.push((Input::MouseButton(b), o));
        j = j + 1;
        assert(r@ =~= keys@.map_values(|p: (u32, Output)| (Input::Key(p.0), p.1)) + buttons@.subrange(
            0,
            j as int,
        ).map_values(|p: (u32, Output)| (Input::MouseButton(p.0), p.1)));
    }
    assert(buttons@.subrange(0, buttons@.len() as int) =~= buttons@);
    r
}

} // verus!
