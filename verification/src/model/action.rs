//! Recorded mouse actions.
//!
//! Screen positions are absolute system coordinates, which may be negative on
//! multi-monitor setups. They are kept in fixed point: one pixel is
//! [`COORD_UNITS_PER_PIXEL`] coordinate units.
use vstd::prelude::*;

verus! {

/// Coordinate units per screen pixel.
pub const COORD_UNITS_PER_PIXEL: i64 = 1000;

#[derive(Debug, Clone, Copy, PartialEq, Eq, Hash, Structural)]
pub enum MouseButton {
    Left,
    Middle,
    Right,
    Back,
    Forward,
}

/// A raw mouse action: drags, clicks and long presses are sequences of these.
#[derive(Debug, Clone, Copy, PartialEq, Eq, Structural)]
pub enum MouseAction {
    /// Move to the absolute position `(x, y)`, in coordinate units.
    Move { x: i64, y: i64 },
    ButtonDown { button: MouseButton },
    ButtonUp { button: MouseButton },
    Wheel { delta_x: i64, delta_y: i64 },
}

/// `n / d` rounded to the nearest integer, halves away from zero.
pub open spec fn div_round_half_away(n: int, d: int) -> int
    recommends
        d > 0,
{
    if n >= 0 {
        (n + d / 2) / d
    } else {
        -((-n + d / 2) / d)
    }
}

/// `v` clamped into the range of `i32`.
pub open spec fn clamp_to_i32(v: int) -> int {
    if v < i32::MIN {
        i32::MIN as int
    } else if v > i32::MAX {
        i32::MAX as int
    } else {
        v
    }
}

/// The whole pixel nearest to a coordinate, halves away from zero,
/// saturated to the range of `i32`.
pub open spec fn pixel_of(coord: int) -> int {
    clamp_to_i32(div_round_half_away(coord, COORD_UNITS_PER_PIXEL as int))
}

/// The whole pixel nearest to `coord` (halves away from zero), saturated to
/// the range of `i32`: the position a move is replayed at.
pub fn to_pixel(coord: i64) -> (p: i32)
    ensures
        p == pixel_of(coord as int),
{
    let unit = COORD_UNITS_PER_PIXEL as i128;
    let c = coord as i128;
    let q: i128 = if c >= 0 {
        (c + unit / 2) / unit
    } else {
        -((-c + unit / 2) / unit)
    };
    if q < i32::MIN as i128 {
        i32::MIN
    } else if q > i32::MAX as i128 {
        i32::MAX
    } else {
        q as i32
    }
}

/// The largest whole pixel, either way, whose nearby coordinates all fit in
/// an `i64`.
pub const MAX_COORD_PIXEL: i64 = 9_223_372_036_854_774;

/// `v` clamped into `lo..=hi`.
pub open spec fn clamp_int(v: int, lo: int, hi: int) -> int {
    if v < lo {
        lo
    } else if v > hi {
        hi
    } else {
        v
    }
}

/// The coordinate of a position `offset` coordinate units from the whole
/// pixel `pixel`, the offset held within half a pixel (`-499..=499`) so
/// that the position stays nearest to `pixel`.
pub open spec fn coord_near(pixel: int, offset: int) -> int {
    pixel * COORD_UNITS_PER_PIXEL + clamp_int(offset, -499, 499)
}

proof fn lemma_coord_near_rounds_to_pixel(pixel: int, offset: int)
    ensures
        div_round_half_away(coord_near(pixel, offset), COORD_UNITS_PER_PIXEL as int) == pixel,
{
    let f = clamp_int(offset, -499, 499);
    let c = pixel * 1000 + f;
    if c >= 0 {
        assert(pixel >= 0) by (nonlinear_arith)
            requires
                c == pixel * 1000 + f,
                c >= 0,
                -499 <= f <= 499,
        ;
        vstd::arithmetic::div_mod::lemma_fundamental_div_mod_converse(c + 500, 1000, pixel, f + 500);
    } else {
        vstd::arithmetic::div_mod::lemma_fundamental_div_mod_converse(
            -c + 500,
            1000,
            -pixel,
            500 - f,
        );
    }
}

/// The coordinate to record for a position whose nearest whole pixel
/// (halves away from zero) is `pixel` and which lies `offset` coordinate
/// units from it: the offset is held within half a pixel, so the position
/// is replayed at exactly the pixel it was nearest to.
pub fn coord_near_pixel(pixel: i64, offset: i64) -> (c: i64)
    requires
        -MAX_COORD_PIXEL <= pixel <= MAX_COORD_PIXEL,
    ensures
        c == coord_near(pixel as int, offset as int),
        pixel_of(c as int) == clamp_to_i32(pixel as int),
{
    let f: i64 = if offset < -499 {
        -499
    } else if offset > 499 {
        499
    } else {
        offset
    };
    proof {
        lemma_coord_near_rounds_to_pixel(pixel as int, offset as int);
    }
    pixel * COORD_UNITS_PER_PIXEL + f
}

} // verus!
