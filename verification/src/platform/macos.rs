//! macOS: the recorder reports pixel deltas, the replay backend scrolls in
//! lines.
use vstd::prelude::*;

use crate::model::action::{clamp_to_i32, div_round_half_away};

verus! {

/// Scroll pixels per line.
pub const MACOS_PIXELS_PER_LINE: i64 = 10;

/// The smallest vertical delta whose conversion fits in `i32` after the sign
/// is inverted.
pub const MACOS_MIN_VERTICAL_DELTA: i64 = -21_474_836_474;

/// Pixels to whole lines, halves away from zero (so both directions round
/// alike), saturated to `i32`.
pub open spec fn lines_of_pixels(delta_px: int) -> int {
    clamp_to_i32(div_round_half_away(delta_px, MACOS_PIXELS_PER_LINE as int))
}

fn pixels_to_lines(delta_px: i64) -> (lines: i32)
    ensures
        lines == lines_of_pixels(delta_px as int),
{
    let per_line = MACOS_PIXELS_PER_LINE as i128;
    let d = delta_px as i128;
    let q: i128 = if d >= 0 {
        (d + per_line / 2) / per_line
    } else {
        -((-d + per_line / 2) / per_line)
    };
    if q < i32::MIN as i128 {
        i32::MIN
    } else if q > i32::MAX as i128 {
        i32::MAX
    } else {
        q as i32
    }
}

/// Vertical scroll: the sign is inverted (up is positive when recorded,
/// down is positive when replayed).
pub fn wheel_vertical_to_enigo(delta_y: i64) -> (lines: i32)
    requires
        delta_y >= MACOS_MIN_VERTICAL_DELTA,
    ensures
        lines == -lines_of_pixels(delta_y as int),
{
    let l = pixels_to_lines(delta_y);
    -l
}

/// Horizontal scroll: right is positive on both sides, only the unit
/// changes.
pub fn wheel_horizontal_to_enigo(delta_x: i64) -> (lines: i32)
    ensures
        lines == lines_of_pixels(delta_x as int),
{
    pixels_to_lines(delta_x)
}

/// Rounding is symmetric: opposite deltas give opposite line counts.
pub proof fn lemma_lines_symmetric(delta_px: int)
    requires
        -21_474_836_474 <= delta_px <= 21_474_836_474,
    ensures
        lines_of_pixels(-delta_px) == -lines_of_pixels(delta_px),
{
}

} // verus!
