use crate::types::RawEvent;
use vstd::prelude::*;

verus! {

/// What becomes of a raw event.
#[derive(Clone, Copy, Debug, PartialEq, Eq, Structural)]
pub enum GateAction {
    /// The panic key: stop the process.
    Exit,
    /// Hand the event to the engine and keep it from the rest of the system.
    Forward,
    /// Leave the event to the rest of the system.
    PassThrough,
}

/// The pause switch between the input hook and the engine. It starts paused.
#[derive(Clone, Copy, Debug, PartialEq, Eq, Structural)]
pub struct Gate {
    pub paused: bool,
    /// Pressing this key flips the switch.
    pub toggle_key: u32,
    /// Pressing this key stops the process.
    pub panic_key: u32,
}

pub open spec fn gate_action(g: Gate, ev: RawEvent) -> GateAction {
    if ev == RawEvent::KeyPress(g.panic_key) {
        GateAction::Exit
    } else if g.paused {
        GateAction::PassThrough
    } else {
        GateAction::Forward
    }
}

/// The switch after `ev`: the toggle key flips it, nothing else changes it.
pub open spec fn gate_after(g: Gate, ev: RawEvent) -> Gate {
    if ev != RawEvent::KeyPress(g.panic_key) && ev == RawEvent::KeyPress(g.toggle_key) {
        Gate { paused: !g.paused, ..g }
    } else {
        g
    }
}

impl Gate {
    pub fn new(toggle_key: u32, panic_key: u32) -> (r: Gate)
        ensures
            r == (Gate { paused: true, toggle_key, panic_key }),
    {
        Gate { paused: true, toggle_key, panic_key }
    }

    /// Decides what becomes of `ev`; the toggle key itself is routed by the
    /// state it found.
    pub fn decide(&mut self, ev: RawEvent) -> (r: GateAction)
        ensures
            r == gate_action(*old(self), ev),
            *final(self) == gate_after(*old(self), ev),
    {
        if ev == RawEvent::KeyPress(self.panic_key) {
            return GateAction::Exit;
        }
        let r = if self.paused {
            GateAction::PassThrough
        } else {
            GateAction::Forward
        };
        if ev == RawEvent::KeyPress(self.toggle_key) {
            self.paused = !self.paused;
        }
        r
    }
}

} // verus!
