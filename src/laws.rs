use crate::engine::{initial_model, replay_frames, tick_model, EngineConfig, EngineView};
use crate::gate::{gate_action, gate_after, Gate, GateAction};
use crate::resolve::{
    apply_modifiers, axis_candidate, axis_value, button_mask, candidate_value, is_held, press_time,
};
use crate::types::{apply_factor, stick_of, Axis, Input, KeyState, Mode, Output, RawEvent};
use vstd::prelude::*;

verus! {

/// Whether binding `k` is a held contribution to axis `a`.
pub open spec fn held_axis_binding(binds: Seq<(Input, Output)>, m: Map<Input, KeyState>, a: Axis, k: int) -> bool {
    &&& binds[k].1 is Axis
    &&& binds[k].1->Axis_0 == a
    &&& is_held(m, binds[k].0)
}

/// Whether binding `k` is a held modifier of axis `a`.
pub open spec fn held_modifier(binds: Seq<(Input, Output)>, m: Map<Input, KeyState>, a: Axis, k: int) -> bool {
    &&& binds[k].1 is Modifier
    &&& binds[k].1->Modifier_0 == a
    &&& is_held(m, binds[k].0)
}

proof fn lemma_no_candidate(binds: Seq<(Input, Output)>, m: Map<Input, KeyState>, a: Axis)
    requires
        forall|k: int| 0 <= k < binds.len() ==> !held_axis_binding(binds, m, a, k),
    ensures
        axis_candidate(binds, m, a) is None,
    decreases binds.len(),
{
    if binds.len() > 0 {
        let s = binds.drop_last();
        assert forall|k: int| 0 <= k < s.len() implies !held_axis_binding(s, m, a, k) by {
            assert(!held_axis_binding(binds, m, a, k));
        }
        assert(!held_axis_binding(binds, m, a, binds.len() - 1));
        lemma_no_candidate(s, m, a);
    }
}

/// With no held modifier of axis `a`, modifiers leave any value as it is.
pub proof fn lemma_no_held_modifier(binds: Seq<(Input, Output)>, m: Map<Input, KeyState>, a: Axis, v: i32)
    requires
        forall|k: int| 0 <= k < binds.len() ==> !held_modifier(binds, m, a, k),
    ensures
        apply_modifiers(binds, m, a, v) == v,
    decreases binds.len(),
{
    if binds.len() > 0 {
        let s = binds.drop_last();
        assert forall|k: int| 0 <= k < s.len() implies !held_modifier(s, m, a, k) by {
            assert(!held_modifier(binds, m, a, k));
        }
        assert(!held_modifier(binds, m, a, binds.len() - 1));
        lemma_no_held_modifier(s, m, a, v);
    }
}

proof fn lemma_modifiers_keep_zero(binds: Seq<(Input, Output)>, m: Map<Input, KeyState>, a: Axis)
    ensures
        apply_modifiers(binds, m, a, 0) == 0,
    decreases binds.len(),
{
    if binds.len() > 0 {
        lemma_modifiers_keep_zero(binds.drop_last(), m, a);
    }
}

/// An axis none of whose contributing inputs is held resolves to exactly zero,
/// and so does its stick.
pub proof fn lemma_unheld_axis_is_zero(binds: Seq<(Input, Output)>, m: Map<Input, KeyState>, a: Axis)
    requires
        forall|k: int| 0 <= k < binds.len() ==> !held_axis_binding(binds, m, a, k),
    ensures
        axis_value(binds, m, a) == 0,
        stick_of(axis_value(binds, m, a) as int) == 0,
{
    lemma_no_candidate(binds, m, a);
    lemma_modifiers_keep_zero(binds, m, a);
}

proof fn lemma_candidate_before(binds: Seq<(Input, Output)>, m: Map<Input, KeyState>, a: Axis, t: u64)
    requires
        forall|k: int|
            0 <= k < binds.len() && #[trigger] held_axis_binding(binds, m, a, k) ==> press_time(
                m,
                binds[k].0,
            ).unwrap() < t,
    ensures
        axis_candidate(binds, m, a) is None || axis_candidate(binds, m, a).unwrap().0 < t,
    decreases binds.len(),
{
    if binds.len() > 0 {
        let s = binds.drop_last();
        assert forall|k: int|
            0 <= k < s.len() && #[trigger] held_axis_binding(s, m, a, k) implies press_time(
                m,
                s[k].0,
            ).unwrap() < t by {
            assert(held_axis_binding(binds, m, a, k));
        }
        lemma_candidate_before(s, m, a, t);
        assert(held_axis_binding(binds, m, a, binds.len() - 1) ==> press_time(
            m,
            binds[binds.len() - 1].0,
        ).unwrap() < t);
    }
}

proof fn lemma_latest_candidate(binds: Seq<(Input, Output)>, m: Map<Input, KeyState>, a: Axis, j: int, v: i32, t: u64)
    requires
        0 <= j < binds.len(),
        binds[j].1 == Output::Axis(a, v),
        press_time(m, binds[j].0) == Some(t),
        forall|k: int|
            0 <= k < binds.len() && k != j && #[trigger] held_axis_binding(binds, m, a, k)
                ==> press_time(m, binds[k].0).unwrap() < t,
    ensures
        axis_candidate(binds, m, a) == Some((t, v)),
    decreases binds.len(),
{
    let s = binds.drop_last();
    let n = binds.len() - 1;
    if j == n {
        assert forall|k: int|
            0 <= k < s.len() && #[trigger] held_axis_binding(s, m, a, k) implies press_time(
                m,
                s[k].0,
            ).unwrap() < t by {
            assert(held_axis_binding(binds, m, a, k));
        }
        lemma_candidate_before(s, m, a, t);
    } else {
        assert forall|k: int|
            0 <= k < s.len() && k != j && #[trigger] held_axis_binding(s, m, a, k) implies press_time(
                m,
                s[k].0,
            ).unwrap() < t by {
            assert(held_axis_binding(binds, m, a, k));
        }
        lemma_latest_candidate(s, m, a, j, v, t);
        assert(held_axis_binding(binds, m, a, n) ==> press_time(m, binds[n].0).unwrap() < t);
    }
}

/// The most recently pressed contribution to an axis decides it: when binding
/// `j` gives value `v` to axis `a` and its input was pressed at `t`, after
/// every other held contribution to `a`, and no modifier of `a` is held, the
/// axis resolves to `v`.
pub proof fn lemma_latest_press_wins(binds: Seq<(Input, Output)>, m: Map<Input, KeyState>, a: Axis, j: int, v: i32, t: u64)
    requires
        0 <= j < binds.len(),
        binds[j].1 == Output::Axis(a, v),
        press_time(m, binds[j].0) == Some(t),
        forall|k: int|
            0 <= k < binds.len() && k != j && #[trigger] held_axis_binding(binds, m, a, k)
                ==> press_time(m, binds[k].0).unwrap() < t,
        forall|k: int| 0 <= k < binds.len() ==> !held_modifier(binds, m, a, k),
    ensures
        axis_value(binds, m, a) == v,
{
    lemma_latest_candidate(binds, m, a, j, v, t);
    lemma_no_held_modifier(binds, m, a, candidate_value(axis_candidate(binds, m, a)));
}

/// A single held modifier of axis `a`, with factor `f`, scales the axis by `f`;
/// modifiers that are not held have no effect.
pub proof fn lemma_single_modifier(binds: Seq<(Input, Output)>, m: Map<Input, KeyState>, a: Axis, v: i32, j: int, f: i32)
    requires
        0 <= j < binds.len(),
        binds[j].1 == Output::Modifier(a, f),
        is_held(m, binds[j].0),
        forall|k: int| 0 <= k < binds.len() && k != j ==> !held_modifier(binds, m, a, k),
    ensures
        apply_modifiers(binds, m, a, v) == apply_factor(v as int, f as int),
    decreases binds.len(),
{
    let s = binds.drop_last();
    let n = binds.len() - 1;
    if j == n {
        assert forall|k: int| 0 <= k < s.len() implies !held_modifier(s, m, a, k) by {
            assert(!held_modifier(binds, m, a, k));
        }
        lemma_no_held_modifier(s, m, a, v);
    } else {
        assert forall|k: int| 0 <= k < s.len() && k != j implies !held_modifier(s, m, a, k) by {
            assert(!held_modifier(binds, m, a, k));
        }
        lemma_single_modifier(s, m, a, v, j, f);
        assert(!held_modifier(binds, m, a, n));
    }
}

/// The button mask depends only on which inputs are held, not on when or in
/// what order they were pressed.
pub proof fn lemma_buttons_ignore_press_order(binds: Seq<(Input, Output)>, m1: Map<Input, KeyState>, m2: Map<Input, KeyState>)
    requires
        forall|i: Input| is_held(m1, i) == is_held(m2, i),
    ensures
        button_mask(binds, m1) == button_mask(binds, m2),
    decreases binds.len(),
{
    if binds.len() > 0 {
        lemma_buttons_ignore_press_order(binds.drop_last(), m1, m2);
        assert(is_held(m1, binds.last().0) == is_held(m2, binds.last().0));
    }
}

/// Every bit of every held button binding is set in the mask.
pub proof fn lemma_held_button_in_mask(binds: Seq<(Input, Output)>, m: Map<Input, KeyState>, j: int, c: u16)
    requires
        0 <= j < binds.len(),
        binds[j].1 == Output::Button(c),
        is_held(m, binds[j].0),
    ensures
        button_mask(binds, m) & c == c,
    decreases binds.len(),
{
    let s = binds.drop_last();
    let p = button_mask(s, m);
    if j == binds.len() - 1 {
        assert((p | c) & c == c) by (bit_vector);
    } else {
        lemma_held_button_in_mask(s, m, j, c);
        match binds.last().1 {
            Output::Button(d) => {
                assert(p & c == c ==> (p | d) & c == c) by (bit_vector);
            },
            _ => {},
        }
    }
}

/// Every bit of the mask comes from a held button binding.
pub proof fn lemma_mask_from_held_buttons(binds: Seq<(Input, Output)>, m: Map<Input, KeyState>, bit: u16)
    requires
        button_mask(binds, m) & bit != 0,
    ensures
        exists|k: int|
            0 <= k < binds.len() && is_held(m, binds[k].0) && #[trigger] binds[k].1 is Button
                && binds[k].1->Button_0 & bit != 0,
    decreases binds.len(),
{
    let s = binds.drop_last();
    let p = button_mask(s, m);
    let n = binds.len() - 1;
    if binds.len() == 0 {
        assert(0u16 & bit == 0) by (bit_vector);
    } else {
        match binds.last().1 {
            Output::Button(d) => {
                if is_held(m, binds.last().0) {
                    assert((p | d) & bit != 0 ==> p & bit != 0 || d & bit != 0) by (bit_vector);
                    if p & bit != 0 {
                        lemma_mask_from_held_buttons(s, m, bit);
                        let k = choose|k: int|
                            0 <= k < s.len() && is_held(m, s[k].0) && #[trigger] s[k].1 is Button
                                && s[k].1->Button_0 & bit != 0;
                        assert(binds[k] == s[k]);
                    } else {
                        assert(binds[n].1 is Button);
                    }
                } else {
                    lemma_mask_from_held_buttons(s, m, bit);
                    let k = choose|k: int|
                        0 <= k < s.len() && is_held(m, s[k].0) && #[trigger] s[k].1 is Button
                            && s[k].1->Button_0 & bit != 0;
                    assert(binds[k] == s[k]);
                }
            },
            _ => {
                lemma_mask_from_held_buttons(s, m, bit);
                let k = choose|k: int|
                    0 <= k < s.len() && is_held(m, s[k].0) && #[trigger] s[k].1 is Button
                        && s[k].1->Button_0 & bit != 0;
                assert(binds[k] == s[k]);
            },
        }
    }
}

/// An idle tick leaves the input states, buttons, triggers and key-driven axes
/// as they were; in the pointer-driven mode it sets the right stick to zero.
pub proof fn lemma_idle_tick(s: EngineView, now: u64)
    ensures
        tick_model(s, None, now).keys == s.keys,
        tick_model(s, None, now).frame.buttons == s.frame.buttons,
        tick_model(s, None, now).frame.left_trigger == s.frame.left_trigger,
        tick_model(s, None, now).frame.right_trigger == s.frame.right_trigger,
        tick_model(s, None, now).frame.thumb_lx == s.frame.thumb_lx,
        tick_model(s, None, now).frame.thumb_ly == s.frame.thumb_ly,
        s.config.mode == Mode::FPS ==> tick_model(s, None, now).frame.thumb_rx == 0
            && tick_model(s, None, now).frame.thumb_ry == 0,
        s.config.mode != Mode::FPS ==> tick_model(s, None, now).frame == s.frame,
{
}

/// While paused, an event other than the panic key is passed through and never
/// reaches the input states; while active, it is forwarded, and a forwarded
/// key press records the key as held since that moment. The toggle key flips
/// the switch.
pub proof fn lemma_pause_gate(g: Gate, ev: RawEvent, s: EngineView, now: u64)
    requires
        ev != RawEvent::KeyPress(g.panic_key),
    ensures
        g.paused ==> gate_action(g, ev) == GateAction::PassThrough,
        !g.paused ==> gate_action(g, ev) == GateAction::Forward,
        gate_after(g, ev).paused == (if ev == RawEvent::KeyPress(g.toggle_key) {
            !g.paused
        } else {
            g.paused
        }),
        !g.paused ==> (ev is KeyPress ==> tick_model(s, Some(ev), now).keys
            == s.keys.insert(Input::Key(ev->KeyPress_0), KeyState::Pressed(now))),
{
}

/// Engines built from the same configuration and binding table emit the same
/// frames for the same sequence of events and times.
pub proof fn lemma_replay_reproducible(
    c1: EngineConfig,
    b1: Seq<(Input, Output)>,
    c2: EngineConfig,
    b2: Seq<(Input, Output)>,
    evs: Seq<(Option<RawEvent>, u64)>,
)
    requires
        c1 == c2,
        b1 == b2,
    ensures
        replay_frames(initial_model(c1, b1), evs) == replay_frames(initial_model(c2, b2), evs),
{
}

} // verus!
