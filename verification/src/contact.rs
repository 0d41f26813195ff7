//! Stateless geometric contact queries: circle against half-plane wall,
//! circle against circle, and the elastic reflection of a velocity off a
//! contact normal. Everything is exact integer arithmetic; circle contact
//! compares squared distances, and reflection works with the unnormalised
//! direction vector `d`, using the exact identity
//! `v' = v - (2 (v . d) / (d . d)) d` with truncating division.

use vstd::arithmetic::div_mod::lemma_div_nonincreasing;
use vstd::arithmetic::div_mod::lemma_div_pos_is_pos;
use vstd::prelude::*;

use crate::person::vel_ok;
use crate::POS_LIMIT;
use crate::POS_TICK_LIMIT;
use crate::RADIUS_LIMIT;
use crate::VEL_LIMIT;

verus! {

/// The magnitude of a product is at most the product of the magnitudes.
pub proof fn lemma_mul_le(a: int, b: int, bound_a: int, bound_b: int)
    requires
        -bound_a <= a <= bound_a,
        -bound_b <= b <= bound_b,
    ensures
        -(bound_a * bound_b) <= a * b <= bound_a * bound_b,
{
    assert(-(bound_a * bound_b) <= a * b <= bound_a * bound_b) by (nonlinear_arith)
        requires
            -bound_a <= a <= bound_a,
            -bound_b <= b <= bound_b,
    ;
}

/// A square is non-negative, and positive off zero.
pub proof fn lemma_square_pos(a: int)
    ensures
        a * a >= 0,
        a != 0 ==> a * a > 0,
{
    assert(a * a >= 0 && (a != 0 ==> a * a > 0)) by (nonlinear_arith);
}

/// Truncating division of `a` by a positive `b`: the quotient is rounded
/// toward zero, as machine division rounds.
pub open spec fn tdiv(a: int, b: int) -> int {
    if a >= 0 {
        a / b
    } else {
        -((-a) / b)
    }
}

/// A unit vector along one of the two axes.
pub open spec fn axis_normal(nx: int, ny: int) -> bool {
    ||| (nx == 0 && (ny == 1 || ny == -1))
    ||| ((nx == 1 || nx == -1) && ny == 0)
}

/// Signed distance from the point `(px, py)` to the plane through
/// `(ax, ay)` with unit normal `(nx, ny)`, measured along the normal.
pub open spec fn spec_plane_gap(ax: int, ay: int, nx: int, ny: int, px: int, py: int) -> int {
    (px - ax) * nx + (py - ay) * ny
}

/// Whether a disc of the given radius at `(px, py)` is within `margin` of
/// the plane: its signed distance minus the radius is at most the margin.
pub open spec fn spec_plane_contact(
    ax: int,
    ay: int,
    nx: int,
    ny: int,
    px: int,
    py: int,
    radius: int,
    margin: int,
) -> bool {
    spec_plane_gap(ax, ay, nx, ny, px, py) - radius <= margin
}

/// Whether two discs are within `margin` of touching: the distance of the
/// centers is at most the sum of the radii plus the margin, compared on
/// squares so that it is exact.
pub open spec fn spec_circle_contact(
    ax: int,
    ay: int,
    radius_a: int,
    bx: int,
    by: int,
    radius_b: int,
    margin: int,
) -> bool {
    let dx = ax - bx;
    let dy = ay - by;
    let reach = radius_a + radius_b + margin;
    dx * dx + dy * dy <= reach * reach
}

/// The velocity `v` reflected off the (unnormalised) contact direction `d`:
/// `v - (2 (v . d) / (d . d)) d`, each component with truncating division.
/// Negating `d` leaves the result unchanged. Requires `d` nonzero.
pub open spec fn spec_reflect(vx: int, vy: int, dx: int, dy: int) -> (int, int) {
    let n2 = 2 * (vx * dx + vy * dy);
    let dd = dx * dx + dy * dy;
    (vx - tdiv(n2 * dx, dd), vy - tdiv(n2 * dy, dd))
}

/// The velocity `v` reflected off an axis-aligned unit normal:
/// `v - 2 (v . n) n`, which simply flips the component along the normal.
pub open spec fn spec_axis_reflect(vx: int, vy: int, nx: int, ny: int) -> (int, int) {
    let dot = vx * nx + vy * ny;
    (vx - 2 * dot * nx, vy - 2 * dot * ny)
}

/// Circle-vs-half-plane contact query: the wall's normal when the disc is
/// within `margin` of the plane, nothing otherwise.
pub fn contact_plane(
    anchor_x: i64,
    anchor_y: i64,
    normal_x: i64,
    normal_y: i64,
    px: i64,
    py: i64,
    radius: i64,
    margin: i64,
) -> (r: Option<(i64, i64)>)
    requires
        axis_normal(normal_x as int, normal_y as int),
        -POS_LIMIT <= anchor_x <= POS_LIMIT as int,
        -POS_LIMIT <= anchor_y <= POS_LIMIT as int,
        -POS_TICK_LIMIT <= px <= POS_TICK_LIMIT as int,
        -POS_TICK_LIMIT <= py <= POS_TICK_LIMIT as int,
        0 <= radius <= RADIUS_LIMIT as int,
        0 <= margin <= RADIUS_LIMIT as int,
    ensures
        r == (if spec_plane_contact(
            anchor_x as int,
            anchor_y as int,
            normal_x as int,
            normal_y as int,
            px as int,
            py as int,
            radius as int,
            margin as int,
        ) {
            Option::Some((normal_x, normal_y))
        } else {
            Option::None::<(i64, i64)>
        }),
{
    let gap: i64 = (px - anchor_x) * normal_x + (py - anchor_y) * normal_y;
    if gap - radius <= margin {
        Option::Some((normal_x, normal_y))
    } else {
        Option::None
    }
}

/// Circle-vs-circle contact query: the (unnormalised) direction from the
/// second disc's center toward the first disc's center when the discs are
/// within `margin` of touching, nothing otherwise.
pub fn contact_circle(
    ax: i64,
    ay: i64,
    radius_a: i64,
    bx: i64,
    by: i64,
    radius_b: i64,
    margin: i64,
) -> (r: Option<(i64, i64)>)
    requires
        -POS_TICK_LIMIT <= ax <= POS_TICK_LIMIT as int,
        -POS_TICK_LIMIT <= ay <= POS_TICK_LIMIT as int,
        -POS_TICK_LIMIT <= bx <= POS_TICK_LIMIT as int,
        -POS_TICK_LIMIT <= by <= POS_TICK_LIMIT as int,
        0 <= radius_a <= RADIUS_LIMIT as int,
        0 <= radius_b <= RADIUS_LIMIT as int,
        0 <= margin <= RADIUS_LIMIT as int,
    ensures
        r == (if spec_circle_contact(
            ax as int,
            ay as int,
            radius_a as int,
            bx as int,
            by as int,
            radius_b as int,
            margin as int,
        ) {
            Option::Some(((ax - bx) as i64, (ay - by) as i64))
        } else {
            Option::None::<(i64, i64)>
        }),
{
    let dx: i64 = ax - bx;
    let dy: i64 = ay - by;
    let reach: i64 = radius_a + radius_b + margin;
    proof {
        lemma_mul_le(dx as int, dx as int, 0x5000_0000, 0x5000_0000);
        lemma_mul_le(dy as int, dy as int, 0x5000_0000, 0x5000_0000);
        lemma_mul_le(reach as int, reach as int, 0x3_0000, 0x3_0000);
        lemma_square_pos(dx as int);
        lemma_square_pos(dy as int);
        lemma_square_pos(reach as int);
    }
    let dist_sq: i64 = dx * dx + dy * dy;
    if dist_sq <= reach * reach {
        Option::Some((dx, dy))
    } else {
        Option::None
    }
}

/// Truncating division of a bounded `a` by a positive `b`.
fn tdiv_exec(a: i128, b: i64) -> (r: i128)
    requires
        b > 0,
        -0x4000_0000_0000_0000_0000_0000 <= a <= 0x4000_0000_0000_0000_0000_0000,
    ensures
        r == tdiv(a as int, b as int),
        -a <= r <= a || a <= r <= -a,
{
    let bw: u128 = b as u128;
    if a >= 0 {
        let q: u128 = (a as u128) / bw;
        proof {
            lemma_div_pos_is_pos(a as int, b as int);
            lemma_div_nonincreasing(a as int, b as int);
        }
        q as i128
    } else {
        let q: u128 = ((-a) as u128) / bw;
        proof {
            lemma_div_pos_is_pos(-(a as int), b as int);
            lemma_div_nonincreasing(-(a as int), b as int);
        }
        -(q as i128)
    }
}

/// Reflect the velocity `v` off the nonzero contact direction `d`. Returns
/// the reflected velocity exactly when it stays within the velocity limit;
/// nothing when it would leave it, which the caller surfaces as an
/// invariant violation.
pub fn reflect(vx: i64, vy: i64, dx: i64, dy: i64) -> (r: Option<(i64, i64)>)
    requires
        vel_ok(vx as int, vy as int),
        -2 * (POS_TICK_LIMIT as int) <= dx <= 2 * (POS_TICK_LIMIT as int),
        -2 * (POS_TICK_LIMIT as int) <= dy <= 2 * (POS_TICK_LIMIT as int),
        dx != 0 || dy != 0,
    ensures
        ({
            let (ax, ay) = spec_reflect(vx as int, vy as int, dx as int, dy as int);
            &&& r is Some <==> vel_ok(ax, ay)
            &&& (r matches Option::Some(v) ==> v.0 as int == ax && v.1 as int == ay)
        }),
{
    proof {
        lemma_mul_le(vx as int, dx as int, 0x1_0000, 0x5000_0000);
        lemma_mul_le(vy as int, dy as int, 0x1_0000, 0x5000_0000);
        lemma_mul_le(dx as int, dx as int, 0x5000_0000, 0x5000_0000);
        lemma_mul_le(dy as int, dy as int, 0x5000_0000, 0x5000_0000);
        lemma_square_pos(dx as int);
        lemma_square_pos(dy as int);
    }
    let dot: i64 = vx * dx + vy * dy;
    let n2: i64 = 2 * dot;
    let dd: i64 = dx * dx + dy * dy;
    proof {
        lemma_mul_le(n2 as int, dx as int, 0x1_4000_0000_0000, 0x5000_0000);
        lemma_mul_le(n2 as int, dy as int, 0x1_4000_0000_0000, 0x5000_0000);
    }
    let num_x: i128 = (n2 as i128) * (dx as i128);
    let num_y: i128 = (n2 as i128) * (dy as i128);
    let rx: i128 = tdiv_exec(num_x, dd);
    let ry: i128 = tdiv_exec(num_y, dd);
    let out_x: i128 = (vx as i128) - rx;
    let out_y: i128 = (vy as i128) - ry;
    if -VEL_LIMIT as i128 <= out_x && out_x <= VEL_LIMIT as i128 && -VEL_LIMIT as i128 <= out_y
        && out_y <= VEL_LIMIT as i128 {
        Option::Some((out_x as i64, out_y as i64))
    } else {
        Option::None
    }
}

} // verus!
