//! Windows: both sides count wheel notches.
use vstd::prelude::*;

use crate::model::action::clamp_to_i32;

verus! {

/// The native delta of one wheel notch.
pub const WHEEL_DELTA_NOTCH: i64 = 120;

fn clamp_i32(v: i64) -> (r: i32)
    ensures
        r == clamp_to_i32(v as int),
{
    if v < i32::MIN as i64 {
        i32::MIN
    } else if v > i32::MAX as i64 {
        i32::MAX
    } else {
        v as i32
    }
}

/// Vertical scroll: the sign is inverted, the amount saturated to `i32`.
pub fn wheel_vertical_to_enigo(delta_y: i64) -> (notches: i32)
    requires
        delta_y != i64::MIN,
    ensures
        notches == clamp_to_i32(-delta_y),
{
    clamp_i32(-delta_y)
}

/// Horizontal scroll: kept as is, saturated to `i32`.
pub fn wheel_horizontal_to_enigo(delta_x: i64) -> (notches: i32)
    ensures
        notches == clamp_to_i32(delta_x as int),
{
    clamp_i32(delta_x)
}

} // verus!
