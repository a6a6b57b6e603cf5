use vstd::prelude::*;
use vstd::arithmetic::div_mod::lemma_fundamental_div_mod_converse;

verus! {

/// Positions are fixed-point integers: this many sub-units make one cell.
pub const UNIT: i64 = 1_000_000_000;

/// Radius of the player's circle, and of a key's or the goal's (0.3 cell).
pub const CIRCLE_RADIUS: i64 = 300_000_000;

/// Half the side of the square of a wall or a closed door (0.5 cell).
pub const HALF_SIDE: i64 = 500_000_000;

pub open spec fn sq(v: int) -> int {
    v * v
}

/// `v` brought into `[lo, hi]`.
pub open spec fn clamp(v: int, lo: int, hi: int) -> int {
    if v < lo {
        lo
    } else if v > hi {
        hi
    } else {
        v
    }
}

/// The player's circle at `(px, py)` touches the circle of the pickup in cell
/// `(cx, cy)`: the centres are at most two radii apart.
pub open spec fn circles_touch(px: int, py: int, cx: int, cy: int) -> bool {
    sq(px - cx * UNIT) + sq(py - cy * UNIT) <= sq(2 * CIRCLE_RADIUS)
}

/// The player's circle at `(px, py)` touches the square of cell `(cx, cy)`:
/// the point of the square closest to the centre is at most one radius away.
pub open spec fn circle_touches_square(px: int, py: int, cx: int, cy: int) -> bool {
    let nx = clamp(px, cx * UNIT - HALF_SIDE, cx * UNIT + HALF_SIDE);
    let ny = clamp(py, cy * UNIT - HALF_SIDE, cy * UNIT + HALF_SIDE);
    sq(px - nx) + sq(py - ny) <= sq(CIRCLE_RADIUS as int)
}

/// The cell that holds position `v`, on one axis: `v / UNIT` rounded down.
pub open spec fn cell_coord(v: int) -> int {
    v / (UNIT as int)
}

proof fn lemma_sq_grows(a: int, b: int)
    requires
        0 <= b < a,
    ensures
        sq(b) < sq(a),
{
    assert(b * b < a * a) by (nonlinear_arith)
        requires
            0 <= b < a,
    ;
}

proof fn lemma_sq_abs(a: int)
    ensures
        sq(a) == sq(-a),
        sq(a) >= 0,
{
    assert(a * a == (-a) * (-a) && a * a >= 0) by (nonlinear_arith);
}

/// Whether the sum of the squares of `dx` and `dy` is at most `r * r`.
fn within(dx: i128, dy: i128, r: i128) -> (b: bool)
    requires
        0 <= r <= 2 * CIRCLE_RADIUS,
    ensures
        b == (sq(dx as int) + sq(dy as int) <= sq(r as int)),
{
    proof {
        lemma_sq_abs(dx as int);
        lemma_sq_abs(dy as int);
    }
    if dx > r || dx < -r {
        proof {
            if dx > r {
                lemma_sq_grows(dx as int, r as int);
            } else {
                lemma_sq_grows(-dx as int, r as int);
            }
        }
        return false;
    }
    if dy > r || dy < -r {
        proof {
            if dy > r {
                lemma_sq_grows(dy as int, r as int);
            } else {
                lemma_sq_grows(-dy as int, r as int);
            }
        }
        return false;
    }
    assert(dx * dx <= r * r && dy * dy <= r * r && r * r <= 360_000_000_000_000_000) by (nonlinear_arith)
        requires
            -r <= dx <= r,
            -r <= dy <= r,
            0 <= r <= 600_000_000,
    ;
    dx * dx + dy * dy <= r * r
}

/// Whether the player at `(player_x, player_y)` picks up what lies in cell
/// `(key_x, key_y)`.
pub fn check_circle_collision(player_x: i64, player_y: i64, key_x: i64, key_y: i64) -> (b: bool)
    ensures
        b == circles_touch(player_x as int, player_y as int, key_x as int, key_y as int),
{
    let kx = (key_x as i128) * (UNIT as i128);
    let ky = (key_y as i128) * (UNIT as i128);
    let dx = player_x as i128 - kx;
    let dy = player_y as i128 - ky;
    within(dx, dy, 2 * (CIRCLE_RADIUS as i128))
}

/// `v` brought into `[lo, hi]`.
fn clamp_exec(v: i128, lo: i128, hi: i128) -> (r: i128)
    ensures
        r == clamp(v as int, lo as int, hi as int),
{
    if v < lo {
        lo
    } else if v > hi {
        hi
    } else {
        v
    }
}

/// Whether the player at `(player_x, player_y)` runs into the square of cell
/// `(wall_x, wall_y)`.
pub fn check_wall_collision(player_x: i64, player_y: i64, wall_x: i64, wall_y: i64) -> (b: bool)
    ensures
        b == circle_touches_square(player_x as int, player_y as int, wall_x as int, wall_y as int),
{
    let px = player_x as i128;
    let py = player_y as i128;
    let wx = (wall_x as i128) * (UNIT as i128);
    let wy = (wall_y as i128) * (UNIT as i128);
    let half = HALF_SIDE as i128;
    let nx = clamp_exec(px, wx - half, wx + half);
    let ny = clamp_exec(py, wy - half, wy + half);
    within(px - nx, py - ny, CIRCLE_RADIUS as i128)
}

/// The cell that holds position `v` on one axis.
pub fn cell_of(v: i64) -> (r: i64)
    ensures
        r == cell_coord(v as int),
{
    if v >= 0 {
        v / UNIT
    } else {
        let u = -(v + 1);
        let q = u / UNIT;
        proof {
            lemma_fundamental_div_mod_converse(
                v as int,
                UNIT as int,
                -(q as int) - 1,
                UNIT - 1 - (u as int % UNIT as int),
            );
        }
        -q - 1
    }
}

pub open spec fn abs(v: int) -> int {
    if v < 0 {
        -v
    } else {
        v
    }
}

/// A player centred on a wall's cell always runs into it; one whose centre is
/// farther than half a side plus a radius from the wall's centre along either
/// axis never does.
pub proof fn lemma_wall_contact(px: int, py: int, wx: int, wy: int)
    ensures
        circle_touches_square(wx * UNIT, wy * UNIT, wx, wy),
        abs(px - wx * UNIT) > HALF_SIDE + CIRCLE_RADIUS || abs(py - wy * UNIT) > HALF_SIDE
            + CIRCLE_RADIUS ==> !circle_touches_square(px, py, wx, wy),
{
    let nx = clamp(px, wx * UNIT - HALF_SIDE, wx * UNIT + HALF_SIDE);
    let ny = clamp(py, wy * UNIT - HALF_SIDE, wy * UNIT + HALF_SIDE);
    assert(sq(0) == 0);
    lemma_sq_abs(CIRCLE_RADIUS as int);
    lemma_sq_abs(px - nx);
    lemma_sq_abs(py - ny);
    if abs(px - wx * UNIT) > HALF_SIDE + CIRCLE_RADIUS {
        lemma_sq_grows(abs(px - nx), CIRCLE_RADIUS as int);
    }
    if abs(py - wy * UNIT) > HALF_SIDE + CIRCLE_RADIUS {
        lemma_sq_grows(abs(py - ny), CIRCLE_RADIUS as int);
    }
}

/// A pickup is reached when the centres are exactly two radii apart, and
/// missed as soon as they are any farther.
pub proof fn lemma_pickup_reach(px: int, py: int, cx: int, cy: int)
    ensures
        sq(px - cx * UNIT) + sq(py - cy * UNIT) == sq(2 * CIRCLE_RADIUS) ==> circles_touch(px, py, cx, cy),
        sq(px - cx * UNIT) + sq(py - cy * UNIT) > sq(2 * CIRCLE_RADIUS) ==> !circles_touch(px, py, cx, cy),
        circles_touch(cx * UNIT + 2 * CIRCLE_RADIUS, cy * UNIT, cx, cy),
        !circles_touch(cx * UNIT + 2 * CIRCLE_RADIUS + 1, cy * UNIT, cx, cy),
{
    lemma_sq_grows(2 * CIRCLE_RADIUS + 1, 2 * CIRCLE_RADIUS);
}

} // verus!
