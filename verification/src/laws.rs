//! The simulation's global laws, proved once over the tick specification:
//! wall reflection preserves speed, agents that never touch never infect
//! each other, and a tick is a function of the prior state and the delta.

use vstd::prelude::*;

use crate::contact::axis_normal;
use crate::contact::spec_axis_reflect;
use crate::contact::spec_plane_contact;
use crate::person::PersonView;
use crate::spec_pair_interact;
use crate::spec_tick;
use crate::spec_wall_step;
use crate::SimView;
use crate::WALL_MARGIN;
use crate::wall::WallView;

verus! {

/// Reflecting a velocity off an axis-aligned unit normal preserves the
/// squared speed exactly and flips the sign of the velocity component
/// along the normal.
pub proof fn lemma_axis_reflect_preserves_speed(vx: int, vy: int, nx: int, ny: int)
    requires
        axis_normal(nx, ny),
    ensures
        ({
            let (rx, ry) = spec_axis_reflect(vx, vy, nx, ny);
            &&& rx * rx + ry * ry == vx * vx + vy * vy
            &&& rx * nx + ry * ny == -(vx * nx + vy * ny)
        }),
{
    assert(({
        let (rx, ry) = spec_axis_reflect(vx, vy, nx, ny);
        rx * rx + ry * ry == vx * vx + vy * vy && rx * nx + ry * ny == -(vx * nx + vy * ny)
    })) by (nonlinear_arith)
        requires
            (nx == 0 && (ny == 1 || ny == -1)) || ((nx == 1 || nx == -1) && ny == 0),
    ;
}

/// An agent that contacts a wall while moving into it leaves the wall step
/// with the same squared speed, the velocity component along the wall
/// normal flipped in sign, and its position, status, timer, radius and
/// distancing flag untouched.
pub proof fn lemma_wall_reflection_preserves_speed(p: PersonView, w: WallView)
    requires
        axis_normal(w.normal_x, w.normal_y),
        spec_plane_contact(
            w.anchor_x,
            w.anchor_y,
            w.normal_x,
            w.normal_y,
            p.x,
            p.y,
            p.radius,
            WALL_MARGIN as int,
        ),
        p.vx * w.normal_x + p.vy * w.normal_y < 0,
    ensures
        ({
            let q = spec_wall_step(p, w);
            &&& q.vx * q.vx + q.vy * q.vy == p.vx * p.vx + p.vy * p.vy
            &&& q.vx * w.normal_x + q.vy * w.normal_y == -(p.vx * w.normal_x + p.vy
                * w.normal_y)
            &&& q.x == p.x
            &&& q.y == p.y
            &&& q.status == p.status
            &&& q.sick_time == p.sick_time
            &&& q.radius == p.radius
            &&& q.is_distancing == p.is_distancing
        }),
{
    lemma_axis_reflect_preserves_speed(p.vx, p.vy, w.normal_x, w.normal_y);
}

/// Two agents whose center distance exceeds the sum of their radii do not
/// interact at all in a pair step: neither agent's status, timer, position
/// or velocity changes.
pub proof fn lemma_no_contact_no_infection(people: Seq<PersonView>, i: int, j: int)
    requires
        0 <= i < people.len(),
        0 <= j < people.len(),
        i != j,
        ({
            let pi = people[i];
            let pj = people[j];
            let dx = pi.x - pj.x;
            let dy = pi.y - pj.y;
            dx * dx + dy * dy > (pi.radius + pj.radius) * (pi.radius + pj.radius)
        }),
    ensures
        spec_pair_interact(people, i, j) == Option::Some(people),
{
    let pi = people[i];
    let pj = people[j];
    assert((pi.x - pj.x) * (pi.x - pj.x) == (pj.x - pi.x) * (pj.x - pi.x)) by (nonlinear_arith);
    assert((pi.y - pj.y) * (pi.y - pj.y) == (pj.y - pi.y) * (pj.y - pi.y)) by (nonlinear_arith);
}

/// A tick is a pure function of the prior state and the delta: two
/// simulations in identical states, advanced by the same delta, reach
/// identical states (or fail identically). Together with the contract of
/// `Simulation::update`, whose outcome equals `spec_tick` of the prior
/// state, identical runs produce identical trajectories.
pub proof fn lemma_update_deterministic(s1: SimView, s2: SimView, delta: int)
    requires
        s1 == s2,
    ensures
        spec_tick(s1, delta) == spec_tick(s2, delta),
{
}

} // verus!
