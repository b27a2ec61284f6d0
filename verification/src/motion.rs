//! Player-movement decisions: where the player stands after one input
//! step, and which map tile a position falls on. The input system reads
//! the keys and hands the flags here; the drawing side only consumes the
//! resulting position.

use vstd::prelude::*;

verus! {

/// `v` forced into the closed range `[lo, hi]`.
pub open spec fn clamped(v: int, lo: int, hi: int) -> int {
    if v < lo {
        lo
    } else if v > hi {
        hi
    } else {
        v
    }
}

/// The direction keys held during one update.
#[derive(Clone, Copy, PartialEq, Eq, Structural, Debug)]
pub struct MoveKeys {
    pub right: bool,
    pub left: bool,
    pub down: bool,
    pub up: bool,
}

/// One movement step: the position shifts by `speed` for each held
/// direction key and is then clamped so a square of side `size` stays
/// inside the `bounds_w` by `bounds_h` map.
pub fn step_position(
    x: i32,
    y: i32,
    keys: MoveKeys,
    speed: i32,
    size: i32,
    bounds_w: i32,
    bounds_h: i32,
) -> (r: (i32, i32))
    requires
        speed >= 0,
        0 <= size <= bounds_w,
        size <= bounds_h,
    ensures
        r.0 == clamped(
            x + (if keys.right {
                speed as int
            } else {
                0
            }) - (if keys.left {
                speed as int
            } else {
                0
            }),
            0,
            bounds_w - size,
        ),
        r.1 == clamped(
            y + (if keys.down {
                speed as int
            } else {
                0
            }) - (if keys.up {
                speed as int
            } else {
                0
            }),
            0,
            bounds_h - size,
        ),
{
    let mut nx: i64 = x as i64;
    let mut ny: i64 = y as i64;
    if keys.right {
        nx = nx + speed as i64;
    }
    if keys.left {
        nx = nx - speed as i64;
    }
    if keys.down {
        ny = ny + speed as i64;
    }
    if keys.up {
        ny = ny - speed as i64;
    }
    let max_x: i64 = (bounds_w - size) as i64;
    let max_y: i64 = (bounds_h - size) as i64;
    if nx < 0 {
        nx = 0;
    } else if nx > max_x {
        nx = max_x;
    }
    if ny < 0 {
        ny = 0;
    } else if ny > max_y {
        ny = max_y;
    }
    (nx as i32, ny as i32)
}

/// The tile a position falls on: positions are measured from the map's
/// corner, and a tile's centre decides ownership, so the result is the
/// nearest tile boundary below `pos + tile_size / 2`.
pub fn tile_of(pos: i32, tile_size: i32) -> (t: i32)
    requires
        pos >= 0,
        tile_size > 0,
        pos + tile_size / 2 <= i32::MAX,
    ensures
        t == (pos + tile_size / 2) / (tile_size as int),
{
    (pos + tile_size / 2) / tile_size
}

} // verus!
