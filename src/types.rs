use vstd::prelude::*;

verus! {

/// Operating profile: which binding table is active and how the right stick is driven.
#[derive(Clone, Copy, Debug, PartialEq, Eq, Structural, Hash)]
pub enum Mode {
    /// The right stick follows the pointer.
    FPS,
    /// Every stick follows the keys.
    SideScrolling,
}

#[derive(Clone, Copy, Debug, PartialEq, Eq, Structural)]
pub enum ModeError {
    InvalidMode,
}

#[derive(Clone, Copy, Debug, PartialEq, Eq, Structural, Hash)]
pub enum Axis {
    LX,
    LY,
    RX,
    RY,
}

#[derive(Clone, Copy, Debug, PartialEq, Eq, Structural, Hash)]
pub enum Trigger {
    Left,
    Right,
}

/// A key or a mouse button, by code.
#[derive(Clone, Copy, Debug, PartialEq, Eq, Structural, Hash)]
pub enum Input {
    Key(u32),
    MouseButton(u32),
}

/// The gamepad effect that an input is bound to.
#[derive(Clone, Copy, Debug, PartialEq, Eq, Structural)]
pub enum Output {
    /// Bits OR-ed into the button mask.
    Button(u16),
    /// A trigger level in thousandths.
    Trigger(Trigger, i32),
    /// A factor in thousandths applied to the resolved axis.
    Modifier(Axis, i32),
    /// A candidate axis value in thousandths.
    Axis(Axis, i32),
}

#[derive(Clone, Copy, Debug, PartialEq, Eq, Structural)]
pub enum KeyState {
    /// Held since the given timestamp.
    Pressed(u64),
    Released,
}

/// A raw event from the input hook; pointer positions are in pixels.
#[derive(Clone, Copy, Debug, PartialEq, Eq, Structural)]
pub enum RawEvent {
    KeyPress(u32),
    KeyRelease(u32),
    ButtonPress(u32),
    ButtonRelease(u32),
    PointerMove { x: i32, y: i32 },
}

/// One complete snapshot of the virtual controller.
#[derive(Clone, Copy, Debug, PartialEq, Eq, Structural, Default)]
pub struct GamepadFrame {
    pub buttons: u16,
    pub left_trigger: u8,
    pub right_trigger: u8,
    pub thumb_lx: i16,
    pub thumb_ly: i16,
    pub thumb_rx: i16,
    pub thumb_ry: i16,
}

/// A gamepad button mask.
#[derive(Clone, Copy, Debug, PartialEq, Eq, Structural)]
pub struct XButton(pub u16);

pub const BUTTON_UP: u16 = 0x0001;
pub const BUTTON_DOWN: u16 = 0x0002;
pub const BUTTON_LEFT: u16 = 0x0004;
pub const BUTTON_RIGHT: u16 = 0x0008;
pub const BUTTON_START: u16 = 0x0010;
pub const BUTTON_BACK: u16 = 0x0020;
pub const BUTTON_LTHUMB: u16 = 0x0040;
pub const BUTTON_RTHUMB: u16 = 0x0080;
pub const BUTTON_LB: u16 = 0x0100;
pub const BUTTON_RB: u16 = 0x0200;
pub const BUTTON_GUIDE: u16 = 0x0400;
pub const BUTTON_A: u16 = 0x1000;
pub const BUTTON_B: u16 = 0x2000;
pub const BUTTON_X: u16 = 0x4000;
pub const BUTTON_Y: u16 = 0x8000;

/// The mask that a button name stands for; an unknown name stands for no button.
pub open spec fn button_code_of(name: Seq<char>) -> u16 {
    if name == "UP"@ {
        BUTTON_UP
    } else if name == "DOWN"@ {
        BUTTON_DOWN
    } else if name == "LEFT"@ {
        BUTTON_LEFT
    } else if name == "RIGHT"@ {
        BUTTON_RIGHT
    } else if name == "START"@ {
        BUTTON_START
    } else if name == "BACK"@ {
        BUTTON_BACK
    } else if name == "LTHUMB"@ {
        BUTTON_LTHUMB
    } else if name == "RTHUMB"@ {
        BUTTON_RTHUMB
    } else if name == "LB"@ {
        BUTTON_LB
    } else if name == "RB"@ {
        BUTTON_RB
    } else if name == "GUIDE"@ {
        BUTTON_GUIDE
    } else if name == "A"@ {
        BUTTON_A
    } else if name == "B"@ {
        BUTTON_B
    } else if name == "X"@ {
        BUTTON_X
    } else if name == "Y"@ {
        BUTTON_Y
    } else {
        0
    }
}

pub open spec fn mode_of(name: Seq<char>) -> Option<Mode> {
    if name == "fps"@ {
        Some(Mode::FPS)
    } else if name == "side-scrolling"@ {
        Some(Mode::SideScrolling)
    } else {
        None
    }
}

/// Whether `s` and `t` hold the same characters.
pub fn same_text(s: &str, t: &str) -> (r: bool)
    ensures
        r == (s@ == t@),
{
    let n = s.unicode_len();
    if n != t.unicode_len() {
        return false;
    }
    let mut i: usize = 0;
    while i < n
        invariant
            n == s@.len(),
            n == t@.len(),
            i <= n,
            forall|k: int| 0 <= k < i ==> s@[k] == t@[k],
        decreases n - i,
    {
        if s.get_char(i) != t.get_char(i) {
            return false;
        }
        i = i + 1;
    }
    assert(s@ =~= t@);
    true
}

impl Mode {
    pub fn from_str(s: &str) -> (r: Result<Mode, ModeError>)
        ensures
            r == (match mode_of(s@) {
                Some(m) => Ok(m),
                None => Err(ModeError::InvalidMode),
            }),
    {
        if same_text(s, "fps") {
            Ok(Mode::FPS)
        } else if same_text(s, "side-scrolling") {
            Ok(Mode::SideScrolling)
        } else {
            Err(ModeError::InvalidMode)
        }
    }
}

impl XButton {
    /// The button that `name` stands for; an unknown name gives an empty mask.
    pub fn from_name(name: &str) -> (r: XButton)
        ensures
            r.0 == button_code_of(name@),
    {
        let code: u16 = if same_text(name, "UP") {
            BUTTON_UP
        } else if same_text(name, "DOWN") {
            BUTTON_DOWN
        } else if same_text(name, "LEFT") {
            BUTTON_LEFT
        } else if same_text(name, "RIGHT") {
            BUTTON_RIGHT
        } else if same_text(name, "START") {
            BUTTON_START
        } else if same_text(name, "BACK") {
            BUTTON_BACK
        } else if same_text(name, "LTHUMB") {
            BUTTON_LTHUMB
        } else if same_text(name, "RTHUMB") {
            BUTTON_RTHUMB
        } else if same_text(name, "LB") {
            BUTTON_LB
        } else if same_text(name, "RB") {
            BUTTON_RB
        } else if same_text(name, "GUIDE") {
            BUTTON_GUIDE
        } else if same_text(name, "A") {
            BUTTON_A
        } else if same_text(name, "B") {
            BUTTON_B
        } else if same_text(name, "X") {
            BUTTON_X
        } else if same_text(name, "Y") {
            BUTTON_Y
        } else {
            0
        };
        XButton(code)
    }
}

impl Axis {
    /// Every axis, in the order LX, LY, RX, RY.
    pub fn iterator() -> (r: Vec<Axis>)
        ensures
            r@ == seq![Axis::LX, Axis::LY, Axis::RX, Axis::RY],
    {
        vec![Axis::LX, Axis::LY, Axis::RX, Axis::RY]
    }
}

impl Trigger {
    /// Both triggers, right first.
    pub fn iterator() -> (r: Vec<Trigger>)
        ensures
            r@ == seq![Trigger::Right, Trigger::Left],
    {
        vec![Trigger::Right, Trigger::Left]
    }
}

/// One whole unit of an analog quantity, in thousandths.
pub const UNIT: i64 = 1000;

/// Largest stick deflection.
pub const STICK_MAX: i64 = 32767;

/// Largest trigger level.
pub const TRIGGER_MAX: i64 = 255;

/// Quotient of `a` by a positive `d`, rounded toward zero.
pub open spec fn trunc_div(a: int, d: int) -> int {
    if a >= 0 {
        a / d
    } else {
        -((-a) / d)
    }
}

pub open spec fn clamp(v: int, lo: int, hi: int) -> int {
    if v < lo {
        lo
    } else if v > hi {
        hi
    } else {
        v
    }
}

/// `v` scaled by the fixed-point factor `f`, saturated to the `i32` range.
pub open spec fn apply_factor(v: int, f: int) -> i32 {
    clamp(trunc_div(v * f, UNIT as int), i32::MIN as int, i32::MAX as int) as i32
}

/// A fixed-point axis value as a stick deflection.
pub open spec fn stick_of(v: int) -> i16 {
    clamp(trunc_div(v * STICK_MAX, UNIT as int), i16::MIN as int, i16::MAX as int) as i16
}

/// A fixed-point trigger level as an 8-bit trigger value.
pub open spec fn trigger_of(v: int) -> u8 {
    clamp(trunc_div(v * TRIGGER_MAX, UNIT as int), 0, 255) as u8
}

/// Rounds `a / d` toward zero, for a positive `d`.
pub fn div_toward_zero(a: i128, d: i128) -> (r: i128)
    requires
        d > 0,
        a > i128::MIN,
    ensures
        r == trunc_div(a as int, d as int),
{
    if a >= 0 {
        a / d
    } else {
        let m: i128 = (-a) / d;
        -m
    }
}

pub fn clamp_i128(v: i128, lo: i128, hi: i128) -> (r: i128)
    requires
        lo <= hi,
    ensures
        r == clamp(v as int, lo as int, hi as int),
{
    if v < lo {
        lo
    } else if v > hi {
        hi
    } else {
        v
    }
}

proof fn lemma_product_bound(a: int, b: int)
    requires
        -0x8000_0000 <= a <= 0x8000_0000,
        -0x8000_0000 <= b <= 0x8000_0000,
    ensures
        -0x4000_0000_0000_0000 <= a * b <= 0x4000_0000_0000_0000,
{
    assert(-0x4000_0000_0000_0000 <= a * b <= 0x4000_0000_0000_0000) by (nonlinear_arith)
        requires
            -0x8000_0000 <= a <= 0x8000_0000,
            -0x8000_0000 <= b <= 0x8000_0000,
    ;
}

pub fn scale_by_factor(v: i32, f: i32) -> (r: i32)
    ensures
        r == apply_factor(v as int, f as int),
{
    proof {
        lemma_product_bound(v as int, f as int);
    }
    let p: i128 = (v as i128) * (f as i128);
    let q = div_toward_zero(p, UNIT as i128);
    clamp_i128(q, i32::MIN as i128, i32::MAX as i128) as i32
}

pub fn to_stick(v: i32) -> (r: i16)
    ensures
        r == stick_of(v as int),
{
    proof {
        lemma_product_bound(v as int, STICK_MAX as int);
    }
    let p: i128 = (v as i128) * (STICK_MAX as i128);
    let q = div_toward_zero(p, UNIT as i128);
    clamp_i128(q, i16::MIN as i128, i16::MAX as i128) as i16
}

pub fn to_trigger(v: i32) -> (r: u8)
    ensures
        r == trigger_of(v as int),
{
    proof {
        lemma_product_bound(v as int, TRIGGER_MAX as int);
    }
    let p: i128 = (v as i128) * (TRIGGER_MAX as i128);
    let q = div_toward_zero(p, UNIT as i128);
    clamp_i128(q, 0, 255) as u8
}

} // verus!
