//! A small 2D agent-based epidemic-spread simulator: a bounded rectangular
//! arena holds a fixed population of circular agents that move, bounce off
//! the four arena walls and off each other, and carry an infection status
//! that spreads on contact and resolves after a fixed sickness duration.
//!
//! All geometry is exact integer arithmetic on fixed-point coordinates with
//! four subdivisions per world unit: an agent radius of 3.75 world units is
//! the constant 15, the wall prediction margin of 1.0 world units is 4.
//! Randomness is an injected capability: construction takes a sequence of
//! pre-drawn values in `[0, RAND_UNIT)` supplied by the caller.
//!
//! Each tick visits the agents in fixed index order; an agent interacts
//! with partners already holding this tick's state when they come earlier
//! in the order, and last tick's state when they come later. This in-place,
//! order-dependent scheme is deliberate, as is the asymmetric collision
//! response: on contact the partner's new velocity is computed from the
//! current agent's freshly reflected velocity, not from its own.

#![verifier::loop_isolation(false)]

use vstd::prelude::*;

pub mod contact;
pub mod laws;
pub mod person;
pub mod wall;

use crate::contact::axis_normal;
use crate::contact::contact_circle;
use crate::contact::contact_plane;
use crate::contact::lemma_mul_le;
use crate::contact::reflect;
use crate::contact::spec_axis_reflect;
use crate::contact::spec_circle_contact;
use crate::contact::spec_plane_contact;
use crate::contact::spec_reflect;
use crate::person::person_ok;
use crate::person::spec_person_step;
use crate::person::spec_set_status;
use crate::person::status_follows;
use crate::person::timer_matches_status;
use crate::person::timer_ok;
use crate::person::vel_ok;
use crate::person::Person;
use crate::person::PersonView;
use crate::person::SerializablePerson;
use crate::person::SnapshotView;
use crate::person::Status;
use crate::wall::dims_ok;
use crate::wall::spec_wall;
use crate::wall::Direction;
use crate::wall::Wall;
use crate::wall::WallView;

verus! {

/// Collision radius of every agent, in quarter world units (3.75 units).
pub const RADIUS: i64 = 15;

/// Prediction margin for wall contact, in quarter world units (1.0 unit):
/// a wall check triggers this early so a fast agent cannot tunnel through.
pub const WALL_MARGIN: i64 = 4;

/// Time an agent stays sick before it recovers, in time units.
pub const SICKNESS_DURATION: i64 = 450;

/// Largest coordinate magnitude a well-formed state may hold at the start
/// of a tick; a position beyond it is an invariant violation.
pub const POS_LIMIT: i64 = 0x800_0000;

/// Largest velocity component magnitude a well-formed state may hold.
pub const VEL_LIMIT: i64 = 0x1_0000;

/// Largest time delta one tick may advance by.
pub const DELTA_LIMIT: i64 = 0x2000;

/// Largest agent radius a well-formed state may hold.
pub const RADIUS_LIMIT: i64 = 0x1_0000;

/// Largest coordinate magnitude reachable within one tick: a position
/// starts within `POS_LIMIT` and moves by at most `VEL_LIMIT * DELTA_LIMIT`.
pub const POS_TICK_LIMIT: i64 = POS_LIMIT + VEL_LIMIT * DELTA_LIMIT;

/// One more than the largest value an injected random draw may take.
pub const RAND_UNIT: i64 = 0x1_0000;

/// Largest magnitude of a seeded velocity component (1.5 world units).
pub const SEED_SPEED: i64 = 6;

/// Number of agents a seeded simulation holds.
pub const TOTAL_PEOPLE: usize = 50;

/// How the population is seeded.
#[derive(Clone, Copy, PartialEq, Eq, Structural, Debug)]
pub enum Mode {
    /// Every agent moves.
    FreeForAll,
    /// The given percentage of agents never self-propels.
    Distancing,
}

/// A construction input the simulation rejects.
#[derive(Clone, Copy, PartialEq, Eq, Structural, Debug)]
pub enum ConfigError {
    /// The distancing percentage lies outside 0 to 100.
    PercentageOutOfRange,
}

/// A fatal fault surfaced by a tick: some agent's position, velocity or
/// timer left the range on which the exact arithmetic is defined, the
/// integer analogue of a non-finite number.
#[derive(Clone, Copy, PartialEq, Eq, Structural, Debug)]
pub enum SimError {
    StateOutOfRange,
}

/// Mathematical image of a whole simulation.
#[verifier::ext_equal]
pub ghost struct SimView {
    pub width: int,
    pub height: int,
    pub people: Seq<PersonView>,
    pub snapshots: Seq<SnapshotView>,
    pub healthy: int,
    pub sick: int,
    pub recovered: int,
}

/// The agents of an agent vector, as mathematical values.
pub open spec fn people_view(s: Seq<Person>) -> Seq<PersonView> {
    Seq::new(s.len(), |k: int| s[k]@)
}

/// The snapshots of a snapshot vector, as mathematical values.
pub open spec fn snaps_view(s: Seq<SerializablePerson>) -> Seq<SnapshotView> {
    Seq::new(s.len(), |k: int| s[k]@)
}

/// The externally visible snapshot of an agent state.
pub open spec fn spec_snap(p: PersonView) -> SnapshotView {
    SnapshotView { x: p.x, y: p.y, status: p.status }
}

/// Every agent in the sequence is well-formed.
pub open spec fn all_people_ok(people: Seq<PersonView>) -> bool {
    forall|k: int| 0 <= k < people.len() ==> person_ok(#[trigger] people[k])
}

/// One wall's effect on an agent: when the agent's disc is within the wall
/// margin of the plane and the agent moves into the wall, its velocity
/// reflects off the wall normal; a separating or grazing contact is ignored.
pub open spec fn spec_wall_step(p: PersonView, w: WallView) -> PersonView {
    if spec_plane_contact(
        w.anchor_x,
        w.anchor_y,
        w.normal_x,
        w.normal_y,
        p.x,
        p.y,
        p.radius,
        WALL_MARGIN as int,
    ) {
        let dot = p.vx * w.normal_x + p.vy * w.normal_y;
        if dot < 0 {
            let (nvx, nvy) = spec_axis_reflect(p.vx, p.vy, w.normal_x, w.normal_y);
            PersonView { vx: nvx, vy: nvy, ..p }
        } else {
            p
        }
    } else {
        p
    }
}

/// The wall pass of one agent: the four walls in the fixed order Top,
/// Bottom, Left, Right.
pub open spec fn spec_wall_pass(p: PersonView, width: int, height: int) -> PersonView {
    let p1 = spec_wall_step(p, spec_wall(Direction::Top, width, height));
    let p2 = spec_wall_step(p1, spec_wall(Direction::Bottom, width, height));
    let p3 = spec_wall_step(p2, spec_wall(Direction::Left, width, height));
    spec_wall_step(p3, spec_wall(Direction::Right, width, height))
}

/// One ordered pair interaction of the current agent `i` with partner `j`.
/// On contact, infection transfers between a Sick and a Healthy member of
/// the pair; when the current agent also moves toward the partner
/// (positive velocity component along the current-to-partner contact
/// direction), the current agent's velocity reflects off the contact
/// direction and the partner then takes the reflection of that fresh
/// velocity. A separating pair keeps its velocities. Nothing is returned
/// when a reflected velocity leaves the well-formed range.
pub open spec fn spec_pair_interact(people: Seq<PersonView>, i: int, j: int) -> Option<
    Seq<PersonView>,
> {
    let pi = people[i];
    let pj = people[j];
    if !spec_circle_contact(pj.x, pj.y, pj.radius, pi.x, pi.y, pi.radius, 0) {
        Option::Some(people)
    } else {
        let pi1 = if pi.status == Status::Healthy && pj.status == Status::Sick {
            spec_set_status(pi, Status::Sick)
        } else {
            pi
        };
        let pj1 = if pi.status == Status::Sick && pj.status == Status::Healthy {
            spec_set_status(pj, Status::Sick)
        } else {
            pj
        };
        let dx = pj.x - pi.x;
        let dy = pj.y - pi.y;
        if pi.vx * dx + pi.vy * dy > 0 {
            let (avx, avy) = spec_reflect(pi1.vx, pi1.vy, dx, dy);
            if !vel_ok(avx, avy) {
                Option::None
            } else {
                let (bvx, bvy) = spec_reflect(avx, avy, dx, dy);
                if !vel_ok(bvx, bvy) {
                    Option::None
                } else {
                    Option::Some(
                        people.update(i, PersonView { vx: avx, vy: avy, ..pi1 }).update(
                            j,
                            PersonView { vx: bvx, vy: bvy, ..pj1 },
                        ),
                    )
                }
            }
        } else {
            Option::Some(people.update(i, pi1).update(j, pj1))
        }
    }
}

/// The pair pass of agent `i` over the partners `j, j+1, ..., n-1`,
/// skipping `i` itself.
pub open spec fn spec_pair_rest(people: Seq<PersonView>, i: int, j: int, n: int) -> Option<
    Seq<PersonView>,
>
    decreases n - j,
{
    if j < 0 || j >= n {
        Option::Some(people)
    } else if j == i {
        spec_pair_rest(people, i, j + 1, n)
    } else {
        match spec_pair_interact(people, i, j) {
            Option::Some(ps) => spec_pair_rest(ps, i, j + 1, n),
            Option::None => Option::None,
        }
    }
}

/// The whole per-tick step of agent `i`: its own timer and motion step,
/// one counter bumped for its (possibly just updated) status, the wall
/// pass, the pair pass over all partners in index order, and finally its
/// snapshot appended to the tick's output.
pub open spec fn spec_agent_step(s: SimView, delta: int, i: int) -> Option<SimView> {
    let p1 = spec_person_step(s.people[i], delta);
    let p2 = spec_wall_pass(p1, s.width, s.height);
    let staged = s.people.update(i, p2);
    match spec_pair_rest(staged, i, 0, staged.len() as int) {
        Option::None => Option::None,
        Option::Some(ps) => Option::Some(
            SimView {
                people: ps,
                snapshots: s.snapshots.push(spec_snap(ps[i])),
                healthy: s.healthy + (if p1.status == Status::Healthy {
                    1int
                } else {
                    0int
                }),
                sick: s.sick + (if p1.status == Status::Sick {
                    1int
                } else {
                    0int
                }),
                recovered: s.recovered + (if p1.status == Status::Recovered {
                    1int
                } else {
                    0int
                }),
                ..s
            },
        ),
    }
}

/// The tick's agent steps from agent `i` up to agent `n - 1`, in order.
pub open spec fn spec_tick_rest(s: SimView, delta: int, i: int, n: int) -> Option<SimView>
    decreases n - i,
{
    if i < 0 || i >= n {
        Option::Some(s)
    } else {
        match spec_agent_step(s, delta, i) {
            Option::Some(t) => spec_tick_rest(t, delta, i + 1, n),
            Option::None => Option::None,
        }
    }
}

/// One whole tick: nothing when the delta leaves the representable range
/// or some agent is not well-formed (the invariant-violation outcomes);
/// otherwise the counters and the snapshot list start from zero and every
/// agent takes its step in index order.
pub open spec fn spec_tick(s: SimView, delta: int) -> Option<SimView> {
    if !(0 <= delta <= DELTA_LIMIT as int) {
        Option::None
    } else if !all_people_ok(s.people) {
        Option::None
    } else {
        let reset = SimView { snapshots: Seq::empty(), healthy: 0, sick: 0, recovered: 0, ..s };
        spec_tick_rest(reset, delta, 0, s.people.len() as int)
    }
}

/// How many agents of the sequence carry the given status.
pub open spec fn count_status(people: Seq<PersonView>, st: Status) -> int
    decreases people.len(),
{
    if people.len() == 0 {
        0
    } else {
        count_status(people.drop_last(), st) + (if people.last().status == st {
            1int
        } else {
            0int
        })
    }
}

/// The three status counts of a sequence sum to its length.
pub proof fn lemma_counts_sum(people: Seq<PersonView>)
    ensures
        count_status(people, Status::Healthy) + count_status(people, Status::Sick) + count_status(
            people,
            Status::Recovered,
        ) == people.len(),
    decreases people.len(),
{
    if people.len() > 0 {
        lemma_counts_sum(people.drop_last());
    }
}

/// Mid-tick well-formedness of one agent: everything of `person_ok` except
/// that the position may have moved one integration step beyond the
/// start-of-tick range.
pub open spec fn person_mid_ok(p: PersonView) -> bool {
    &&& -POS_TICK_LIMIT <= p.x <= POS_TICK_LIMIT as int
    &&& -POS_TICK_LIMIT <= p.y <= POS_TICK_LIMIT as int
    &&& vel_ok(p.vx, p.vy)
    &&& 0 <= p.radius <= RADIUS_LIMIT as int
    &&& timer_ok(p)
    &&& timer_matches_status(p)
}

/// What every step of a tick keeps of one agent: the radius and the
/// distancing flag never change, the status only moves forward along
/// Healthy -> Sick -> Recovered, and the agent stays well-formed.
pub open spec fn agent_kept(before: PersonView, after: PersonView) -> bool {
    &&& after.radius == before.radius
    &&& after.is_distancing == before.is_distancing
    &&& status_follows(before.status, after.status)
    &&& person_mid_ok(after)
}

/// A pair interaction keeps positions too: only velocity, status and
/// timer may change.
pub open spec fn pair_kept(before: PersonView, after: PersonView) -> bool {
    &&& agent_kept(before, after)
    &&& after.x == before.x
    &&& after.y == before.y
}

proof fn lemma_agent_kept_trans(a: PersonView, b: PersonView, c: PersonView)
    requires
        agent_kept(a, b),
        agent_kept(b, c),
    ensures
        agent_kept(a, c),
{
}

proof fn lemma_people_view_update(s: Seq<Person>, i: int, p: Person)
    requires
        0 <= i < s.len(),
    ensures
        people_view(s.update(i, p)) == people_view(s).update(i, p@),
{
    assert(people_view(s.update(i, p)) =~= people_view(s).update(i, p@));
}

proof fn lemma_snaps_view_push(s: Seq<SerializablePerson>, p: SerializablePerson)
    ensures
        snaps_view(s.push(p)) == snaps_view(s).push(p@),
{
    assert(snaps_view(s.push(p)) =~= snaps_view(s).push(p@));
}

proof fn lemma_people_view_push(s: Seq<Person>, p: Person)
    ensures
        people_view(s.push(p)) == people_view(s).push(p@),
{
    assert(people_view(s.push(p)) =~= people_view(s).push(p@));
}

/// A sequence of all-Healthy agents counts as all healthy.
proof fn lemma_count_all_healthy(s: Seq<PersonView>)
    requires
        forall|k: int| 0 <= k < s.len() ==> #[trigger] s[k].status == Status::Healthy,
    ensures
        count_status(s, Status::Healthy) == s.len(),
        count_status(s, Status::Sick) == 0,
        count_status(s, Status::Recovered) == 0,
    decreases s.len(),
{
    if s.len() > 0 {
        lemma_count_all_healthy(s.drop_last());
    }
}

/// The agent that position `k` of a fresh population receives, before the
/// one initial infection: placed uniformly in the arena rectangle inset by
/// the agent radius, with a bounded random velocity, or a zero velocity
/// for the distancing-flagged prefix of the population.
pub open spec fn spec_seeded_base(
    width: int,
    height: int,
    mode: Mode,
    percentage: int,
    draws: Seq<i64>,
    k: int,
) -> PersonView {
    let x = RADIUS as int + (draws[4 * k] as int) * (width - 2 * (RADIUS as int)) / (
    RAND_UNIT as int);
    let y = RADIUS as int + (draws[4 * k + 1] as int) * (height - 2 * (RADIUS as int)) / (
    RAND_UNIT as int);
    let distancing = mode == Mode::Distancing && k < (TOTAL_PEOPLE as int) * percentage / 100;
    let vx = if distancing {
        0int
    } else {
        (draws[4 * k + 2] as int) * (2 * (SEED_SPEED as int) + 1) / (RAND_UNIT as int) - (
        SEED_SPEED as int)
    };
    let vy = if distancing {
        0int
    } else {
        (draws[4 * k + 3] as int) * (2 * (SEED_SPEED as int) + 1) / (RAND_UNIT as int) - (
        SEED_SPEED as int)
    };
    PersonView {
        x,
        y,
        vx,
        vy,
        radius: RADIUS as int,
        status: Status::Healthy,
        sick_time: Option::None,
        is_distancing: distancing,
    }
}

/// The agent that position `k` of a fresh population holds: as seeded,
/// except that the last agent starts Sick with a zeroed infection timer.
pub open spec fn spec_seeded_person(
    width: int,
    height: int,
    mode: Mode,
    percentage: int,
    draws: Seq<i64>,
    k: int,
) -> PersonView {
    let base = spec_seeded_base(width, height, mode, percentage, draws, k);
    if k == TOTAL_PEOPLE as int - 1 {
        spec_set_status(base, Status::Sick)
    } else {
        base
    }
}

/// Scale one random draw into `[0, span]`: the numerator of the uniform
/// placement, `draw * span / RAND_UNIT`, computed exactly.
fn scale_draw(draw: i64, span: i64) -> (r: i64)
    requires
        0 <= draw < RAND_UNIT as int,
        0 <= span <= POS_LIMIT as int,
    ensures
        r as int == (draw as int) * (span as int) / (RAND_UNIT as int),
        0 <= r <= span,
{
    proof {
        assert(0 <= (draw as int) * (span as int) <= 0x1_0000 * (span as int))
            by (nonlinear_arith)
            requires
                0 <= draw <= 0x1_0000,
                0 <= span,
        ;
        vstd::arithmetic::div_mod::lemma_div_pos_is_pos((draw as int) * (span as int), 0x1_0000);
        vstd::arithmetic::div_mod::lemma_div_is_ordered(
            (draw as int) * (span as int),
            0x1_0000 * (span as int),
            0x1_0000,
        );
        vstd::arithmetic::div_mod::lemma_div_multiples_vanish(span as int, 0x1_0000);
    }
    let q: u64 = ((draw as u64) * (span as u64)) / (RAND_UNIT as u64);
    q as i64
}

/// The simulation: the agent population, the four walls, the previous
/// tick's snapshot list and the aggregate status counters.
pub struct Simulation {
    people: Vec<Person>,
    updated_people: Vec<SerializablePerson>,
    walls: Vec<Wall>,
    width: i64,
    height: i64,
    sick_total: u16,
    healthy_total: u16,
    recovered_total: u16,
}

impl View for Simulation {
    type V = SimView;

    closed spec fn view(&self) -> SimView {
        SimView {
            width: self.width as int,
            height: self.height as int,
            people: people_view(self.people@),
            snapshots: snaps_view(self.updated_people@),
            healthy: self.healthy_total as int,
            sick: self.sick_total as int,
            recovered: self.recovered_total as int,
        }
    }
}

/// Whether an agent is within the ranges on which one tick of exact
/// arithmetic is defined: the simulation's finite-number check.
fn person_in_range(p: &Person) -> (r: bool)
    ensures
        r == person_ok(p@),
{
    let (x, y) = p.get_position();
    let (vx, vy) = p.get_velocity();
    let radius = p.get_ball();
    let timer_fine = match p.get_sick_time() {
        Option::None => p.get_status() != Status::Sick,
        Option::Some(t) => 0 <= t && t <= SICKNESS_DURATION && p.get_status() == Status::Sick,
    };
    -POS_LIMIT <= x && x <= POS_LIMIT && -POS_LIMIT <= y && y <= POS_LIMIT && -VEL_LIMIT <= vx
        && vx <= VEL_LIMIT && -VEL_LIMIT <= vy && vy <= VEL_LIMIT && 0 <= radius
        && radius <= RADIUS_LIMIT && timer_fine
}

/// Bounce one agent off one wall, as `spec_wall_step` says.
fn wall_bounce(person: &mut Person, wall: &Wall)
    requires
        axis_normal(wall@.normal_x, wall@.normal_y),
        -POS_LIMIT <= wall@.anchor_x <= POS_LIMIT as int,
        -POS_LIMIT <= wall@.anchor_y <= POS_LIMIT as int,
        person_mid_ok(old(person)@),
    ensures
        final(person)@ == spec_wall_step(old(person)@, wall@),
        person_mid_ok(final(person)@),
{
    let (ax, ay) = wall.get_position();
    let (nx, ny) = wall.get_plane();
    let (px, py) = person.get_position();
    let radius = person.get_ball();
    if let Option::Some((cnx, cny)) = contact_plane(ax, ay, nx, ny, px, py, radius, WALL_MARGIN) {
        let (vx, vy) = person.get_velocity();
        let dot: i64 = vx * cnx + vy * cny;
        if dot < 0 {
            person.set_velocity(vx - 2 * dot * cnx, vy - 2 * dot * cny);
        }
    }
}

/// One ordered pair interaction on the population, as `spec_pair_interact`
/// says. Returns false exactly when that interaction is undefined (a
/// reflected velocity left the well-formed range); the population is then
/// unchanged.
fn pair_step(people: &mut Vec<Person>, i: usize, j: usize) -> (ok: bool)
    requires
        i < old(people)@.len(),
        j < old(people)@.len(),
        i != j,
        person_mid_ok(people_view(old(people)@)[i as int]),
        person_mid_ok(people_view(old(people)@)[j as int]),
    ensures
        final(people)@.len() == old(people)@.len(),
        ok ==> spec_pair_interact(people_view(old(people)@), i as int, j as int) == Option::Some(
            people_view(final(people)@),
        ),
        !ok ==> spec_pair_interact(people_view(old(people)@), i as int, j as int) is None,
        !ok ==> final(people)@ == old(people)@,
        forall|k: int|
            0 <= k < old(people)@.len() && k != i && k != j ==> final(people)@[k] == old(
                people,
            )@[k],
        pair_kept(people_view(old(people)@)[i as int], people_view(final(people)@)[i as int]),
        pair_kept(people_view(old(people)@)[j as int], people_view(final(people)@)[j as int]),
{
    let pi = people[i];
    let pj = people[j];
    let (pix, piy) = pi.get_position();
    let (pjx, pjy) = pj.get_position();
    let c = contact_circle(pjx, pjy, pj.get_ball(), pix, piy, pi.get_ball(), 0);
    match c {
        Option::None => true,
        Option::Some((dx, dy)) => {
            let pi_status = pi.get_status();
            let pj_status = pj.get_status();
            let mut new_pi = pi;
            let mut new_pj = pj;
            if pi_status == Status::Healthy && pj_status == Status::Sick {
                new_pi.set_status(Status::Sick);
            }
            if pi_status == Status::Sick && pj_status == Status::Healthy {
                new_pj.set_status(Status::Sick);
            }
            let (vx, vy) = new_pi.get_velocity();
            proof {
                lemma_mul_le(vx as int, dx as int, 0x1_0000, 0x5000_0000);
                lemma_mul_le(vy as int, dy as int, 0x1_0000, 0x5000_0000);
            }
            if vx * dx + vy * dy > 0 {
                proof {
                    assert(dx != 0 || dy != 0) by {
                        if dx == 0 && dy == 0 {
                            assert(vx * dx + vy * dy == 0) by (nonlinear_arith)
                                requires
                                    dx == 0,
                                    dy == 0,
                            ;
                        }
                    };
                }
                match reflect(vx, vy, dx, dy) {
                    Option::None => false,
                    Option::Some((avx, avy)) => {
                        new_pi.set_velocity(avx, avy);
                        match reflect(avx, avy, dx, dy) {
                            Option::None => false,
                            Option::Some((bvx, bvy)) => {
                                new_pj.set_velocity(bvx, bvy);
                                people.set(i, new_pi);
                                people.set(j, new_pj);
                                proof {
                                    lemma_people_view_update(old(people)@, i as int, new_pi);
                                    lemma_people_view_update(
                                        old(people)@.update(i as int, new_pi),
                                        j as int,
                                        new_pj,
                                    );
                                }
                                true
                            },
                        }
                    },
                }
            } else {
                people.set(i, new_pi);
                people.set(j, new_pj);
                proof {
                    lemma_people_view_update(old(people)@, i as int, new_pi);
                    lemma_people_view_update(
                        old(people)@.update(i as int, new_pi),
                        j as int,
                        new_pj,
                    );
                }
                true
            }
        },
    }
}

impl Simulation {
    /// The internal shape every simulation keeps: a valid arena size, the
    /// four canonical walls in the fixed order Top, Bottom, Left, Right,
    /// and a population small enough for the counters.
    pub closed spec fn wf(&self) -> bool {
        &&& dims_ok(self.width as int, self.height as int)
        &&& self.walls@.len() == 4
        &&& self.walls@[0]@ == spec_wall(Direction::Top, self.width as int, self.height as int)
        &&& self.walls@[1]@ == spec_wall(Direction::Bottom, self.width as int, self.height as int)
        &&& self.walls@[2]@ == spec_wall(Direction::Left, self.width as int, self.height as int)
        &&& self.walls@[3]@ == spec_wall(Direction::Right, self.width as int, self.height as int)
        &&& self.people@.len() <= 0xFFFF
    }

    /// A fresh simulation of `TOTAL_PEOPLE` agents, placed and propelled by
    /// the injected random draws exactly as `spec_seeded_person` says: each
    /// agent consumes four draws (x, y, vx, vy); in Distancing mode the
    /// first `TOTAL_PEOPLE * percentage / 100` agents are pinned to zero
    /// velocity; the last agent starts Sick. A percentage outside 0 to 100
    /// is a configuration error, and nothing is built.
    pub fn new(width: i64, height: i64, mode: Mode, percentage: i64, draws: &Vec<i64>) -> (r:
        Result<Simulation, ConfigError>)
        requires
            dims_ok(width as int, height as int),
            draws@.len() >= 4 * TOTAL_PEOPLE,
            forall|k: int| 0 <= k < draws@.len() ==> 0 <= #[trigger] draws@[k] < RAND_UNIT as int,
        ensures
            r is Err <==> !(0 <= percentage <= 100),
            r matches Result::Ok(s) ==> {
                &&& s.wf()
                &&& s@.width == width as int
                &&& s@.height == height as int
                &&& s@.people.len() == TOTAL_PEOPLE as int
                &&& forall|k: int|
                    0 <= k < TOTAL_PEOPLE as int ==> #[trigger] s@.people[k] == spec_seeded_person(
                        width as int,
                        height as int,
                        mode,
                        percentage as int,
                        draws@,
                        k,
                    )
                &&& s@.snapshots == s@.people.map_values(|p: PersonView| spec_snap(p))
                &&& s@.healthy == TOTAL_PEOPLE as int - 1
                &&& s@.sick == 1
                &&& s@.recovered == 0
            },
    {
        if percentage < 0 || percentage > 100 {
            return Result::Err(ConfigError::PercentageOutOfRange);
        }
        let distancing_total: i64 = (((TOTAL_PEOPLE as i64) * percentage) as u64 / 100) as i64;
        assert(distancing_total as int == (TOTAL_PEOPLE as int) * (percentage as int) / 100);
        let mut people: Vec<Person> = Vec::new();
        let mut idx: usize = 0;
        while idx < TOTAL_PEOPLE
            invariant
                0 <= idx <= TOTAL_PEOPLE,
                people@.len() == idx as int,
                0 <= percentage <= 100,
                distancing_total as int == (TOTAL_PEOPLE as int) * (percentage as int) / 100,
                forall|k: int|
                    0 <= k < idx as int ==> #[trigger] people_view(people@)[k] == spec_seeded_base(
                        width as int,
                        height as int,
                        mode,
                        percentage as int,
                        draws@,
                        k,
                    ),
            decreases TOTAL_PEOPLE - idx,
        {
            let ghost before = people@;
            let x: i64 = RADIUS + scale_draw(draws[4 * idx], width - 2 * RADIUS);
            let y: i64 = RADIUS + scale_draw(draws[4 * idx + 1], height - 2 * RADIUS);
            let distancing = mode == Mode::Distancing && (idx as i64) < distancing_total;
            let vx: i64 = if distancing {
                0
            } else {
                scale_draw(draws[4 * idx + 2], 2 * SEED_SPEED + 1) - SEED_SPEED
            };
            let vy: i64 = if distancing {
                0
            } else {
                scale_draw(draws[4 * idx + 3], 2 * SEED_SPEED + 1) - SEED_SPEED
            };
            let fresh = Person::new(x, y, distancing, vx, vy);
            people.push(fresh);
            proof {
                lemma_people_view_push(before, fresh);
                assert(people_view(people@)[idx as int] == spec_seeded_base(
                    width as int,
                    height as int,
                    mode,
                    percentage as int,
                    draws@,
                    idx as int,
                ));
            }
            idx = idx + 1;
        }
        let mut last = people[TOTAL_PEOPLE - 1];
        last.set_status(Status::Sick);
        let ghost before_last = people@;
        people.set(TOTAL_PEOPLE - 1, last);
        proof {
            lemma_people_view_update(before_last, TOTAL_PEOPLE as int - 1, last);
            assert forall|k: int| 0 <= k < TOTAL_PEOPLE as int implies #[trigger] people_view(
                people@,
            )[k] == spec_seeded_person(
                width as int,
                height as int,
                mode,
                percentage as int,
                draws@,
                k,
            ) by {
                if k == TOTAL_PEOPLE as int - 1 {
                    assert(people_view(people@)[k] == last@);
                    assert(last@ == spec_set_status(people_view(before_last)[k], Status::Sick));
                    assert(people_view(before_last)[k] == spec_seeded_base(
                        width as int,
                        height as int,
                        mode,
                        percentage as int,
                        draws@,
                        k,
                    ));
                } else {
                    assert(people_view(people@)[k] == people_view(before_last)[k]);
                }
            }
        }
        let sim = Self::from_people(width, height, people);
        proof {
            let pv = people_view(people@);
            assert(pv.drop_last() =~= pv.take(TOTAL_PEOPLE as int - 1));
            assert forall|k: int| 0 <= k < pv.drop_last().len() implies #[trigger] pv.drop_last(
            )[k].status == Status::Healthy by {}
            lemma_count_all_healthy(pv.drop_last());
            assert(count_status(pv, Status::Healthy) == TOTAL_PEOPLE as int - 1);
            assert(count_status(pv, Status::Sick) == 1);
            assert(count_status(pv, Status::Recovered) == 0);
        }
        Result::Ok(sim)
    }

    /// A simulation over an explicitly given population: the four walls are
    /// built from the arena size, the counters are computed from the agents'
    /// statuses, and the snapshot list shows the given states.
    pub fn from_people(width: i64, height: i64, people: Vec<Person>) -> (r: Simulation)
        requires
            dims_ok(width as int, height as int),
            people@.len() <= 0xFFFF,
        ensures
            r.wf(),
            r@.width == width as int,
            r@.height == height as int,
            r@.people == people_view(people@),
            r@.snapshots == people_view(people@).map_values(|p: PersonView| spec_snap(p)),
            r@.healthy == count_status(people_view(people@), Status::Healthy),
            r@.sick == count_status(people_view(people@), Status::Sick),
            r@.recovered == count_status(people_view(people@), Status::Recovered),
            r@.healthy + r@.sick + r@.recovered == r@.people.len(),
    {
        let n = people.len();
        let mut updated_people: Vec<SerializablePerson> = Vec::new();
        let mut healthy_total: u16 = 0;
        let mut sick_total: u16 = 0;
        let mut recovered_total: u16 = 0;
        let mut k: usize = 0;
        while k < n
            invariant
                0 <= k <= n,
                n == people@.len(),
                n <= 0xFFFF,
                updated_people@.len() == k as int,
                snaps_view(updated_people@) =~= people_view(people@).take(k as int).map_values(
                    |p: PersonView| spec_snap(p),
                ),
                healthy_total as int == count_status(
                    people_view(people@).take(k as int),
                    Status::Healthy,
                ),
                sick_total as int == count_status(
                    people_view(people@).take(k as int),
                    Status::Sick,
                ),
                recovered_total as int == count_status(
                    people_view(people@).take(k as int),
                    Status::Recovered,
                ),
                healthy_total as int + sick_total as int + recovered_total as int == k as int,
            decreases n - k,
        {
            proof {
                assert(people_view(people@).take(k as int + 1).drop_last() =~= people_view(
                    people@,
                ).take(k as int));
                assert(people_view(people@).take(k as int + 1).last() == people_view(people@)[
                    k as int
                ]);
            }
            let ghost snaps_before = updated_people@;
            let p = people[k];
            let snap = p.get_serializable_data();
            updated_people.push(snap);
            match p.get_status() {
                Status::Healthy => { healthy_total = healthy_total + 1; },
                Status::Sick => { sick_total = sick_total + 1; },
                Status::Recovered => { recovered_total = recovered_total + 1; },
            }
            k = k + 1;
            proof {
                lemma_snaps_view_push(snaps_before, snap);
                assert(snaps_view(updated_people@) =~= people_view(people@).take(
                    k as int,
                ).map_values(|p: PersonView| spec_snap(p)));
            }
        }
        let mut walls: Vec<Wall> = Vec::new();
        walls.push(Wall::new(Direction::Top, width, height));
        walls.push(Wall::new(Direction::Bottom, width, height));
        walls.push(Wall::new(Direction::Left, width, height));
        walls.push(Wall::new(Direction::Right, width, height));
        proof {
            assert(people_view(people@).take(n as int) =~= people_view(people@));
            assert(snaps_view(updated_people@) =~= people_view(people@).map_values(
                |p: PersonView| spec_snap(p),
            ));
        }
        Simulation {
            people,
            updated_people,
            walls,
            width,
            height,
            sick_total,
            healthy_total,
            recovered_total,
        }
    }

    pub fn get_updated_people(&self) -> (r: &Vec<SerializablePerson>)
        ensures
            snaps_view(r@) == self@.snapshots,
    {
        &self.updated_people
    }

    pub fn get_people(&self) -> (r: &Vec<Person>)
        ensures
            people_view(r@) == self@.people,
    {
        &self.people
    }

    pub fn get_sick_total(&self) -> (r: u16)
        ensures
            r as int == self@.sick,
    {
        self.sick_total
    }

    pub fn get_healthy_total(&self) -> (r: u16)
        ensures
            r as int == self@.healthy,
    {
        self.healthy_total
    }

    pub fn get_recovered_total(&self) -> (r: u16)
        ensures
            r as int == self@.recovered,
    {
        self.recovered_total
    }

    /// One tick of the simulation, exactly as `spec_tick` says: every agent,
    /// in index order, advances its timer, integrates its motion, is counted,
    /// bounces off walls, interacts with every partner, and records its
    /// snapshot. An out-of-range delta or agent state surfaces as an error
    /// (the tick may then have been partially applied); no agent's radius or
    /// distancing flag ever changes, statuses only move forward, and on
    /// success the three counters sum to the population size.
    #[verifier::rlimit(30)]
    pub fn update(&mut self, delta: i64) -> (r: Result<(), SimError>)
        requires
            old(self).wf(),
            0 <= delta,
        ensures
            final(self).wf(),
            final(self)@.width == old(self)@.width,
            final(self)@.height == old(self)@.height,
            final(self)@.people.len() == old(self)@.people.len(),
            match spec_tick(old(self)@, delta as int) {
                Option::Some(s) => r is Ok && final(self)@ == s,
                Option::None => r is Err,
            },
            r is Ok ==> final(self)@.healthy + final(self)@.sick + final(self)@.recovered
                == final(self)@.people.len(),
            forall|k: int|
                0 <= k < old(self)@.people.len() ==> #[trigger] final(self)@.people[k].radius
                    == old(self)@.people[k].radius,
            forall|k: int|
                0 <= k < old(self)@.people.len() ==> status_follows(
                    old(self)@.people[k].status,
                    #[trigger] final(self)@.people[k].status,
                ),
            forall|k: int|
                0 <= k < old(self)@.people.len() ==> #[trigger] final(self)@.people[
                    k
                ].is_distancing == old(self)@.people[k].is_distancing,
    {
        let n = self.people.len();
        if delta > DELTA_LIMIT {
            return Result::Err(SimError::StateOutOfRange);
        }
        let mut k: usize = 0;
        while k < n
            invariant
                0 <= k <= n,
                n == self.people@.len(),
                *self == *old(self),
                forall|m: int| 0 <= m < k ==> person_ok(#[trigger] people_view(self.people@)[m]),
            decreases n - k,
        {
            if !person_in_range(&self.people[k]) {
                assert(!person_ok(old(self)@.people[k as int]));
                return Result::Err(SimError::StateOutOfRange);
            }
            k = k + 1;
        }
        assert(all_people_ok(old(self)@.people));

        self.updated_people.clear();
        self.healthy_total = 0;
        self.sick_total = 0;
        self.recovered_total = 0;
        proof {
            assert(self@ =~= (SimView {
                snapshots: Seq::empty(),
                healthy: 0,
                sick: 0,
                recovered: 0,
                ..old(self)@
            }));
        }
        let ghost target = spec_tick(old(self)@, delta as int);
        assert(target == spec_tick_rest(self@, delta as int, 0, n as int));

        let mut i: usize = 0;
        while i < n
            invariant
                0 <= i <= n,
                0 <= delta <= DELTA_LIMIT,
                n == self.people@.len(),
                n <= 0xFFFF,
                self.wf(),
                self.width == old(self).width,
                self.height == old(self).height,
                old(self)@.people.len() == n as int,
                target == spec_tick(old(self)@, delta as int),
                target == spec_tick_rest(self@, delta as int, i as int, n as int),
                self@.healthy + self@.sick + self@.recovered == i as int,
                self@.snapshots.len() == i as int,
                forall|m: int|
                    0 <= m < n ==> agent_kept(
                        old(self)@.people[m],
                        #[trigger] people_view(self.people@)[m],
                    ),
                forall|m: int|
                    i <= m < n ==> -POS_LIMIT <= #[trigger] people_view(self.people@)[m].x
                        <= POS_LIMIT as int && -POS_LIMIT <= people_view(self.people@)[m].y
                        <= POS_LIMIT as int,
            decreases n - i,
        {
            let ghost s_top = self@;
            let ok = self.tick_agent(i, delta);
            if !ok {
                proof {
                    assert(spec_tick_rest(s_top, delta as int, i as int, n as int) is None);
                    assert(target is None);
                    assert forall|m: int| 0 <= m < n implies agent_kept(
                        old(self)@.people[m],
                        #[trigger] people_view(self.people@)[m],
                    ) by {
                        lemma_agent_kept_trans(
                            old(self)@.people[m],
                            s_top.people[m],
                            people_view(self.people@)[m],
                        );
                    };
                }
                return Result::Err(SimError::StateOutOfRange);
            }
            proof {
                assert(spec_tick_rest(s_top, delta as int, i as int, n as int) == spec_tick_rest(
                    self@,
                    delta as int,
                    i as int + 1,
                    n as int,
                ));
                assert forall|m: int| 0 <= m < n implies agent_kept(
                    old(self)@.people[m],
                    #[trigger] people_view(self.people@)[m],
                ) by {
                    lemma_agent_kept_trans(
                        old(self)@.people[m],
                        s_top.people[m],
                        people_view(self.people@)[m],
                    );
                };
            }
            i = i + 1;
        }
        assert(target == Option::Some(self@));
        Result::Ok(())
    }

    /// One agent's whole per-tick step, as `spec_agent_step` says. Returns
    /// false exactly when the step is undefined (a reflected velocity left
    /// the well-formed range in some pair interaction); the step is then
    /// abandoned part way through.
    #[verifier::rlimit(100)]
    fn tick_agent(&mut self, i: usize, delta: i64) -> (ok: bool)
        requires
            old(self).wf(),
            0 <= delta <= DELTA_LIMIT,
            i < old(self)@.people.len(),
            old(self)@.healthy + old(self)@.sick + old(self)@.recovered < 0xFFFF,
            0 <= old(self)@.healthy,
            0 <= old(self)@.sick,
            0 <= old(self)@.recovered,
            forall|m: int|
                0 <= m < old(self)@.people.len() ==> person_mid_ok(
                    #[trigger] old(self)@.people[m],
                ),
            -POS_LIMIT <= old(self)@.people[i as int].x <= POS_LIMIT as int,
            -POS_LIMIT <= old(self)@.people[i as int].y <= POS_LIMIT as int,
        ensures
            final(self).wf(),
            final(self).width == old(self).width,
            final(self).height == old(self).height,
            final(self)@.people.len() == old(self)@.people.len(),
            ok ==> spec_agent_step(old(self)@, delta as int, i as int) == Option::Some(
                final(self)@,
            ),
            !ok ==> spec_agent_step(old(self)@, delta as int, i as int) is None,
            forall|m: int|
                0 <= m < old(self)@.people.len() ==> agent_kept(
                    old(self)@.people[m],
                    #[trigger] final(self)@.people[m],
                ),
            forall|m: int|
                0 <= m < old(self)@.people.len() && m != i ==> #[trigger] final(self)@.people[m].x
                    == old(self)@.people[m].x && final(self)@.people[m].y == old(
                    self,
                )@.people[m].y,
            final(self)@.snapshots.len() == old(self)@.snapshots.len() + (if ok {
                1int
            } else {
                0int
            }),
            ok ==> final(self)@.healthy + final(self)@.sick + final(self)@.recovered == old(
                self,
            )@.healthy + old(self)@.sick + old(self)@.recovered + 1,
    {
        let n = self.people.len();
        let ghost s_top = self@;
        let mut person = self.people[i];
        person.update(delta);
        let ghost p1 = person@;
        assert(p1 == spec_person_step(s_top.people[i as int], delta as int));
        proof {
            lemma_mul_le(s_top.people[i as int].vx, delta as int, 0x1_0000, 0x2000);
            lemma_mul_le(s_top.people[i as int].vy, delta as int, 0x1_0000, 0x2000);
            assert(person_mid_ok(p1));
        }
        match person.get_status() {
            Status::Healthy => { self.healthy_total = self.healthy_total + 1; },
            Status::Sick => { self.sick_total = self.sick_total + 1; },
            Status::Recovered => { self.recovered_total = self.recovered_total + 1; },
        }
        wall_bounce(&mut person, &self.walls[0]);
        wall_bounce(&mut person, &self.walls[1]);
        wall_bounce(&mut person, &self.walls[2]);
        wall_bounce(&mut person, &self.walls[3]);
        let ghost p2 = person@;
        assert(p2 == spec_wall_pass(p1, s_top.width, s_top.height));
        let ghost before_set = self.people@;
        self.people.set(i, person);
        proof {
            lemma_people_view_update(before_set, i as int, person);
        }
        let ghost staged = s_top.people.update(i as int, p2);
        assert(people_view(self.people@) == staged);
        let ghost pair_goal = spec_pair_rest(staged, i as int, 0, n as int);
        let ghost mid = *self;

        let mut j: usize = 0;
        while j < n
            invariant
                0 <= j <= n,
                i < n,
                n == self.people@.len(),
                self.walls@ == mid.walls@,
                self.width == mid.width,
                self.height == mid.height,
                self.updated_people@ == mid.updated_people@,
                self.healthy_total == mid.healthy_total,
                self.sick_total == mid.sick_total,
                self.recovered_total == mid.recovered_total,
                spec_pair_rest(people_view(self.people@), i as int, j as int, n as int)
                    == pair_goal,
                forall|m: int|
                    0 <= m < n ==> pair_kept(
                        people_view(mid.people@)[m],
                        #[trigger] people_view(self.people@)[m],
                    ),
            decreases n - j,
        {
            if j != i {
                let ok = pair_step(&mut self.people, i, j);
                if !ok {
                    proof {
                        assert(spec_pair_interact(
                            people_view(self.people@),
                            i as int,
                            j as int,
                        ) is None);
                        assert(spec_pair_rest(
                            people_view(self.people@),
                            i as int,
                            j as int,
                            n as int,
                        ) is None);
                        assert(pair_goal is None);
                        assert(staged.len() == n as int);
                        assert(spec_agent_step(s_top, delta as int, i as int) is None);
                        assert(agent_kept(s_top.people[i as int], p2));
                        assert forall|m: int| 0 <= m < n implies agent_kept(
                            s_top.people[m],
                            #[trigger] people_view(self.people@)[m],
                        ) by {
                            lemma_agent_kept_trans(
                                s_top.people[m],
                                people_view(mid.people@)[m],
                                people_view(self.people@)[m],
                            );
                        };
                    }
                    return false;
                }
            }
            j = j + 1;
        }
        let ghost ps = people_view(self.people@);
        assert(pair_goal == Option::Some(ps));

        let snap = self.people[i].get_serializable_data();
        self.updated_people.push(snap);
        proof {
            lemma_snaps_view_push(mid.updated_people@, snap);
            assert(staged.len() == n as int);
            assert(self@ =~= (SimView {
                people: ps,
                snapshots: s_top.snapshots.push(spec_snap(ps[i as int])),
                healthy: s_top.healthy + (if p1.status == Status::Healthy {
                    1int
                } else {
                    0int
                }),
                sick: s_top.sick + (if p1.status == Status::Sick {
                    1int
                } else {
                    0int
                }),
                recovered: s_top.recovered + (if p1.status == Status::Recovered {
                    1int
                } else {
                    0int
                }),
                ..s_top
            }));
            assert(spec_agent_step(s_top, delta as int, i as int) == Option::Some(self@));
            assert(agent_kept(s_top.people[i as int], p2));
            assert forall|m: int| 0 <= m < n implies agent_kept(
                s_top.people[m],
                #[trigger] people_view(self.people@)[m],
            ) by {
                lemma_agent_kept_trans(
                    s_top.people[m],
                    people_view(mid.people@)[m],
                    people_view(self.people@)[m],
                );
            };
        }
        true
    }
}

} // verus!
