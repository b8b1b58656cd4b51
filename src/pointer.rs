use crate::types::{clamp, div_toward_zero, clamp_i128, trunc_div, UNIT};
use vstd::prelude::*;

verus! {

/// The new value of a pointer-driven stick axis: the pointer moved by `delta`
/// pixels, `sensitivity` is in thousandths of a stick unit per pixel, and the
/// old value moves toward the target by `blend` thousandths of the gap.
pub open spec fn pointer_axis(old: i16, delta: int, sensitivity: int, blend: int) -> i16 {
    let target = trunc_div(delta * sensitivity, UNIT as int);
    let next = old as int + trunc_div((target - old as int) * blend, UNIT as int);
    clamp(next, i16::MIN as int, i16::MAX as int) as i16
}

proof fn lemma_target_bound(delta: int, sensitivity: int)
    requires
        -0x1_0000_0000 <= delta <= 0x1_0000_0000,
        -0x8000_0000 <= sensitivity <= 0x8000_0000,
    ensures
        -0x8000_0000_0000_0000 <= delta * sensitivity <= 0x8000_0000_0000_0000,
{
    assert(-0x8000_0000_0000_0000 <= delta * sensitivity <= 0x8000_0000_0000_0000) by (nonlinear_arith)
        requires
            -0x1_0000_0000 <= delta <= 0x1_0000_0000,
            -0x8000_0000 <= sensitivity <= 0x8000_0000,
    ;
}

proof fn lemma_step_bound(gap: int, blend: int)
    requires
        -0x1_0000_0000_0000_0000 <= gap <= 0x1_0000_0000_0000_0000,
        -0x8000_0000 <= blend <= 0x8000_0000,
    ensures
        -0x1_0000_0000_0000_0000_0000_0000 <= gap * blend <= 0x1_0000_0000_0000_0000_0000_0000,
{
    assert(-0x1_0000_0000_0000_0000_0000_0000 <= gap * blend <= 0x1_0000_0000_0000_0000_0000_0000)
        by (nonlinear_arith)
        requires
            -0x1_0000_0000_0000_0000 <= gap <= 0x1_0000_0000_0000_0000,
            -0x8000_0000 <= blend <= 0x8000_0000,
    ;
}

/// Moves a pointer-driven stick axis after the pointer went from `from` to `to`.
pub fn pointer_step(old: i16, from: i32, to: i32, sensitivity: i32, blend: i32) -> (r: i16)
    ensures
        r == pointer_axis(old, to - from, sensitivity as int, blend as int),
{
    let delta: i128 = (to as i128) - (from as i128);
    proof {
        lemma_target_bound(delta as int, sensitivity as int);
    }
    let target = div_toward_zero(delta * (sensitivity as i128), UNIT as i128);
    proof {
        lemma_step_bound(target - old, blend as int);
    }
    let step = div_toward_zero((target - (old as i128)) * (blend as i128), UNIT as i128);
    clamp_i128((old as i128) + step, i16::MIN as i128, i16::MAX as i128) as i16
}

} // verus!
