use crate::pointer::{pointer_axis, pointer_step};
use crate::resolve::{resolution_of, resolve, Resolution};
use crate::tracker::InputTracker;
use crate::types::{
    stick_of, to_stick, to_trigger, trigger_of, GamepadFrame, Input, KeyState, Mode, Output,
    RawEvent, UNIT,
};
use vstd::prelude::*;

verus! {

/// Settings fixed for the lifetime of an engine.
#[derive(Clone, Copy, Debug, PartialEq, Eq, Structural)]
pub struct EngineConfig {
    pub mode: Mode,
    /// Stick units per pixel of pointer movement, in thousandths.
    pub sensitivity: i32,
    /// Share of the gap to the pointer target that the right stick covers per
    /// pointer event, in thousandths; `UNIT` means no smoothing.
    pub blend: i32,
}

impl EngineConfig {
    /// A configuration without pointer smoothing.
    pub fn new(mode: Mode, sensitivity: i32) -> (r: EngineConfig)
        ensures
            r == (EngineConfig { mode, sensitivity, blend: UNIT as i32 }),
    {
        EngineConfig { mode, sensitivity, blend: UNIT as i32 }
    }
}

/// The input-to-gamepad engine: input states, pointer position and the last frame.
pub struct Engine {
    pub config: EngineConfig,
    pub binds: Vec<(Input, Output)>,
    pub tracker: InputTracker,
    pub last_pos: (i32, i32),
    pub frame: GamepadFrame,
}

/// What an engine holds, as mathematical values.
pub struct EngineView {
    pub config: EngineConfig,
    pub binds: Seq<(Input, Output)>,
    pub keys: Map<Input, KeyState>,
    pub last_pos: (i32, i32),
    pub frame: GamepadFrame,
}

impl View for Engine {
    type V = EngineView;

    open spec fn view(&self) -> EngineView {
        EngineView {
            config: self.config,
            binds: self.binds@,
            keys: self.tracker@,
            last_pos: self.last_pos,
            frame: self.frame,
        }
    }
}

pub open spec fn zero_frame() -> GamepadFrame {
    GamepadFrame {
        buttons: 0,
        left_trigger: 0,
        right_trigger: 0,
        thumb_lx: 0,
        thumb_ly: 0,
        thumb_rx: 0,
        thumb_ry: 0,
    }
}

pub open spec fn initial_model(config: EngineConfig, binds: Seq<(Input, Output)>) -> EngineView {
    EngineView {
        config,
        binds,
        keys: Map::empty(),
        last_pos: (0, 0),
        frame: zero_frame(),
    }
}

/// The input states after `ev` arrived at time `now`.
pub open spec fn apply_event(m: Map<Input, KeyState>, ev: RawEvent, now: u64) -> Map<Input, KeyState> {
    match ev {
        RawEvent::KeyPress(k) => m.insert(Input::Key(k), KeyState::Pressed(now)),
        RawEvent::KeyRelease(k) => m.insert(Input::Key(k), KeyState::Released),
        RawEvent::ButtonPress(b) => m.insert(Input::MouseButton(b), KeyState::Pressed(now)),
        RawEvent::ButtonRelease(b) => m.insert(Input::MouseButton(b), KeyState::Released),
        RawEvent::PointerMove { .. } => m,
    }
}

/// A frame from a resolution, with the right stick given.
pub open spec fn frame_of(res: Resolution, rx: i16, ry: i16) -> GamepadFrame {
    GamepadFrame {
        buttons: res.buttons,
        left_trigger: trigger_of(res.left_trigger as int),
        right_trigger: trigger_of(res.right_trigger as int),
        thumb_lx: stick_of(res.lx as int),
        thumb_ly: stick_of(res.ly as int),
        thumb_rx: rx,
        thumb_ry: ry,
    }
}

/// The frame of an idle tick: pointer-driven axes fall to zero.
pub open spec fn idle_frame(mode: Mode, f: GamepadFrame) -> GamepadFrame {
    if mode == Mode::FPS {
        GamepadFrame { thumb_rx: 0, thumb_ry: 0, ..f }
    } else {
        f
    }
}

/// One tick: `ev` is the forwarded event, if one was available, and `now` the time.
pub open spec fn tick_model(s: EngineView, ev: Option<RawEvent>, now: u64) -> EngineView {
    match ev {
        None => EngineView { frame: idle_frame(s.config.mode, s.frame), ..s },
        Some(e) => {
            let keys = apply_event(s.keys, e, now);
            let res = resolution_of(s.binds, keys);
            if s.config.mode == Mode::FPS {
                match e {
                    RawEvent::PointerMove { x, y } => {
                        let rx = pointer_axis(
                            s.frame.thumb_rx,
                            x - s.last_pos.0,
                            s.config.sensitivity as int,
                            s.config.blend as int,
                        );
                        let ry = pointer_axis(
                            s.frame.thumb_ry,
                            s.last_pos.1 - y,
                            s.config.sensitivity as int,
                            s.config.blend as int,
                        );
                        EngineView { keys, last_pos: (x, y), frame: frame_of(res, rx, ry), ..s }
                    },
                    _ => EngineView {
                        keys,
                        frame: frame_of(res, s.frame.thumb_rx, s.frame.thumb_ry),
                        ..s
                    },
                }
            } else {
                EngineView {
                    keys,
                    frame: frame_of(res, stick_of(res.rx as int), stick_of(res.ry as int)),
                    ..s
                }
            }
        },
    }
}

/// The state after each of `evs` was handled in turn.
pub open spec fn replay_state(s: EngineView, evs: Seq<(Option<RawEvent>, u64)>) -> EngineView
    decreases evs.len(),
{
    if evs.len() == 0 {
        s
    } else {
        tick_model(replay_state(s, evs.drop_last()), evs.last().0, evs.last().1)
    }
}

/// The frames emitted while `evs` were handled in turn.
pub open spec fn replay_frames(s: EngineView, evs: Seq<(Option<RawEvent>, u64)>) -> Seq<GamepadFrame>
    decreases evs.len(),
{
    if evs.len() == 0 {
        Seq::empty()
    } else {
        replay_frames(s, evs.drop_last()).push(replay_state(s, evs).frame)
    }
}

impl Engine {
    pub open spec fn wf(&self) -> bool {
        self.tracker.wf()
    }

    pub fn new(config: EngineConfig, binds: Vec<(Input, Output)>) -> (r: Engine)
        ensures
            r.wf(),
            r@ == initial_model(config, binds@),
    {
        Engine {
            config,
            binds,
            tracker: InputTracker::new(),
            last_pos: (0, 0),
            frame: GamepadFrame {
                buttons: 0,
                left_trigger: 0,
                right_trigger: 0,
                thumb_lx: 0,
                thumb_ly: 0,
                thumb_rx: 0,
                thumb_ry: 0,
            },
        }
    }

    fn apply(&mut self, ev: RawEvent, now: u64)
        requires
            old(self).wf(),
        ensures
            final(self).wf(),
            final(self)@ == (EngineView { keys: apply_event(old(self)@.keys, ev, now), ..old(self)@ }),
    {
        match ev {
            RawEvent::KeyPress(k) => self.tracker.record_press(Input::Key(k), now),
            RawEvent::KeyRelease(k) => self.tracker.record_release(Input::Key(k)),
            RawEvent::ButtonPress(b) => self.tracker.record_press(Input::MouseButton(b), now),
            RawEvent::ButtonRelease(b) => self.tracker.record_release(Input::MouseButton(b)),
            RawEvent::PointerMove { .. } => {},
        }
    }

    /// Handles one tick and returns the frame to emit.
    pub fn tick(&mut self, ev: Option<RawEvent>, now: u64) -> (r: GamepadFrame)
        requires
            old(self).wf(),
        ensures
            final(self).wf(),
            final(self)@ == tick_model(old(self)@, ev, now),
            r == final(self)@.frame,
    {
        match ev {
            None => {
                if self.config.mode == Mode::FPS {
                    self.frame.thumb_rx = 0;
                    self.frame.thumb_ry = 0;
                }
            },
            Some(e) => {
                self.apply(e, now);
                let res = resolve(&self.binds, &self.tracker);
                let (rx, ry) = if self.config.mode == Mode::FPS {
                    match e {
                        RawEvent::PointerMove { x, y } => {
                            let rx = pointer_step(
                                self.frame.thumb_rx,
                                self.last_pos.0,
                                x,
                                self.config.sensitivity,
                                self.config.blend,
                            );
                            let ry = pointer_step(
                                self.frame.thumb_ry,
                                y,
                                self.last_pos.1,
                                self.config.sensitivity,
                                self.config.blend,
                            );
                            self.last_pos = (x, y);
                            (rx, ry)
                        },
                        _ => (self.frame.thumb_rx, self.frame.thumb_ry),
                    }
                } else {
                    (to_stick(res.rx), to_stick(res.ry))
                };
                self.frame = GamepadFrame {
                    buttons: res.buttons,
                    left_trigger: to_trigger(res.left_trigger),
                    right_trigger: to_trigger(res.right_trigger),
                    thumb_lx: to_stick(res.lx),
                    thumb_ly: to_stick(res.ly),
                    thumb_rx: rx,
                    thumb_ry: ry,
                };
            },
        }
        self.frame
    }

    /// Handles each of `events` (an optional event and its time) in turn and
    /// returns the frames emitted.
    pub fn replay(&mut self, events: &Vec<(Option<RawEvent>, u64)>) -> (r: Vec<GamepadFrame>)
        requires
            old(self).wf(),
        ensures
            final(self).wf(),
            final(self)@ == replay_state(old(self)@, events@),
            r@ == replay_frames(old(self)@, events@),
    {
        let mut frames: Vec<GamepadFrame> = Vec::new();
        let mut j: usize = 0;
        while j < events.len()
            invariant
                self.wf(),
                j <= events@.len(),
                self@ == replay_state(old(self)@, events@.subrange(0, j as int)),
                frames@ == replay_frames(old(self)@, events@.subrange(0, j as int)),
            decreases events@.len() - j,
        {
            proof {
                assert(events@.subrange(0, j + 1).drop_last() =~= events@.subrange(0, j as int));
            }
            let (ev, now) = events[j];
            let f = self.tick(ev, now);
            frames.push(f);
            j = j + 1;
        }
        assert(events@.subrange(0, events@.len() as int) =~= events@);
        frames
    }
}

} // verus!
