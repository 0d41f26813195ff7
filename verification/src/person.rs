//! One agent of the simulation: position, velocity, fixed collision radius,
//! epidemic status and the optional time-since-infected counter.

use vstd::prelude::*;

use crate::DELTA_LIMIT;
use crate::POS_LIMIT;
use crate::RADIUS;
use crate::RADIUS_LIMIT;
use crate::SICKNESS_DURATION;
use crate::VEL_LIMIT;

verus! {

/// Epidemic status of one agent. Transitions only ever run
/// Healthy -> Sick -> Recovered; nothing moves backwards.
#[derive(Clone, Copy, PartialEq, Eq, Structural, Debug)]
pub enum Status {
    Healthy,
    Sick,
    Recovered,
}

/// Whether `b` is a status that `a` may lawfully have turned into:
/// equal, or one or two steps along Healthy -> Sick -> Recovered.
pub open spec fn status_follows(a: Status, b: Status) -> bool {
    ||| a == b
    ||| (a == Status::Healthy && (b == Status::Sick || b == Status::Recovered))
    ||| (a == Status::Sick && b == Status::Recovered)
}

/// The externally visible snapshot of one agent: position and status.
#[derive(Clone, Copy, PartialEq, Eq, Structural, Debug)]
pub struct SerializablePerson {
    x: i64,
    y: i64,
    status: Status,
}

/// Mathematical image of a snapshot.
pub ghost struct SnapshotView {
    pub x: int,
    pub y: int,
    pub status: Status,
}

impl View for SerializablePerson {
    type V = SnapshotView;

    closed spec fn view(&self) -> SnapshotView {
        SnapshotView { x: self.x as int, y: self.y as int, status: self.status }
    }
}

impl SerializablePerson {
    pub fn new(x: i64, y: i64) -> (r: Self)
        ensures
            r@ == (SnapshotView { x: x as int, y: y as int, status: Status::Healthy }),
    {
        Self { x, y, status: Status::Healthy }
    }

    pub fn get_x(&self) -> (r: i64)
        ensures
            r as int == self@.x,
    {
        self.x
    }

    pub fn get_y(&self) -> (r: i64)
        ensures
            r as int == self@.y,
    {
        self.y
    }

    pub fn get_status(&self) -> (r: Status)
        ensures
            r == self@.status,
    {
        self.status
    }
}

/// Mathematical image of one agent.
pub ghost struct PersonView {
    pub x: int,
    pub y: int,
    pub vx: int,
    pub vy: int,
    pub radius: int,
    pub status: Status,
    pub sick_time: Option<int>,
    pub is_distancing: bool,
}

/// One agent: a snapshot plus velocity, radius, infection timer and the
/// distancing flag. The radius is fixed at construction and never changes.
#[derive(Clone, Copy)]
pub struct Person {
    serializable_data: SerializablePerson,
    velocity_x: i64,
    velocity_y: i64,
    radius: i64,
    sick_time: Option<i64>,
    is_distancing: bool,
}

impl View for Person {
    type V = PersonView;

    closed spec fn view(&self) -> PersonView {
        PersonView {
            x: self.serializable_data.x as int,
            y: self.serializable_data.y as int,
            vx: self.velocity_x as int,
            vy: self.velocity_y as int,
            radius: self.radius as int,
            status: self.serializable_data.status,
            sick_time: match self.sick_time {
                Option::Some(t) => Option::Some(t as int),
                Option::None => Option::None,
            },
            is_distancing: self.is_distancing,
        }
    }
}

/// Both velocity components within the well-formed range.
pub open spec fn vel_ok(vx: int, vy: int) -> bool {
    &&& -VEL_LIMIT <= vx <= VEL_LIMIT as int
    &&& -VEL_LIMIT <= vy <= VEL_LIMIT as int
}

/// The infection timer, when present, lies within `[0, SICKNESS_DURATION]`.
pub open spec fn timer_ok(p: PersonView) -> bool {
    p.sick_time matches Option::Some(t) ==> 0 <= t <= SICKNESS_DURATION as int
}

/// The infection timer is present exactly while the agent is Sick: the
/// tag itself encodes "currently infected".
pub open spec fn timer_matches_status(p: PersonView) -> bool {
    p.sick_time is Some <==> p.status == Status::Sick
}

/// A well-formed agent state: the finiteness check of the simulation. Every
/// quantity lies within the ranges on which one tick of exact integer
/// arithmetic cannot overflow, and the infection timer is present exactly
/// while the agent is Sick.
pub open spec fn person_ok(p: PersonView) -> bool {
    &&& -POS_LIMIT <= p.x <= POS_LIMIT as int
    &&& -POS_LIMIT <= p.y <= POS_LIMIT as int
    &&& vel_ok(p.vx, p.vy)
    &&& 0 <= p.radius <= RADIUS_LIMIT as int
    &&& timer_ok(p)
    &&& timer_matches_status(p)
}

/// What `set_status` does: entering Sick initialises the infection timer,
/// and any other status clears it, so the timer is present exactly while
/// the agent is Sick.
pub open spec fn spec_set_status(p: PersonView, status: Status) -> PersonView {
    if status == Status::Sick {
        PersonView { status, sick_time: Option::Some(0), ..p }
    } else {
        PersonView { status, sick_time: Option::None, ..p }
    }
}

/// One agent's timer step: a present infection timer advances by `delta`,
/// and once it exceeds the sickness duration the agent recovers and the
/// timer is cleared.
pub open spec fn spec_timer_step(p: PersonView, delta: int) -> PersonView {
    match p.sick_time {
        Option::None => p,
        Option::Some(t) => if t + delta > SICKNESS_DURATION as int {
            PersonView { status: Status::Recovered, sick_time: Option::None, ..p }
        } else {
            PersonView { sick_time: Option::Some(t + delta), ..p }
        },
    }
}

/// One agent's motion integration: position advances by velocity times delta.
pub open spec fn spec_integrate(p: PersonView, delta: int) -> PersonView {
    PersonView { x: p.x + p.vx * delta, y: p.y + p.vy * delta, ..p }
}

/// One agent's whole per-tick step: timer first, then motion.
pub open spec fn spec_person_step(p: PersonView, delta: int) -> PersonView {
    spec_integrate(spec_timer_step(p, delta), delta)
}

impl Person {
    /// A fresh agent at `(x, y)` with the given velocity, Healthy, with the
    /// simulation's fixed radius and no infection timer.
    pub fn new(x: i64, y: i64, is_distancing: bool, velocity_x: i64, velocity_y: i64) -> (r: Self)
        ensures
            r@ == (PersonView {
                x: x as int,
                y: y as int,
                vx: velocity_x as int,
                vy: velocity_y as int,
                radius: RADIUS as int,
                status: Status::Healthy,
                sick_time: Option::None,
                is_distancing,
            }),
    {
        Self {
            serializable_data: SerializablePerson::new(x, y),
            velocity_x,
            velocity_y,
            radius: RADIUS,
            sick_time: Option::None,
            is_distancing,
        }
    }

    pub fn get_position(&self) -> (r: (i64, i64))
        ensures
            r.0 as int == self@.x,
            r.1 as int == self@.y,
    {
        (self.serializable_data.x, self.serializable_data.y)
    }

    pub fn get_serializable_data(&self) -> (r: SerializablePerson)
        ensures
            r@ == (SnapshotView { x: self@.x, y: self@.y, status: self@.status }),
    {
        self.serializable_data
    }

    pub fn get_x(&self) -> (r: i64)
        ensures
            r as int == self@.x,
    {
        self.serializable_data.x
    }

    pub fn set_x(&mut self, x: i64)
        ensures
            final(self)@ == (PersonView { x: x as int, ..old(self)@ }),
    {
        self.serializable_data.x = x;
    }

    pub fn get_y(&self) -> (r: i64)
        ensures
            r as int == self@.y,
    {
        self.serializable_data.y
    }

    pub fn set_y(&mut self, y: i64)
        ensures
            final(self)@ == (PersonView { y: y as int, ..old(self)@ }),
    {
        self.serializable_data.y = y;
    }

    /// The radius of the agent's collision disc.
    pub fn get_ball(&self) -> (r: i64)
        ensures
            r as int == self@.radius,
    {
        self.radius
    }

    pub fn get_velocity(&self) -> (r: (i64, i64))
        ensures
            r.0 as int == self@.vx,
            r.1 as int == self@.vy,
    {
        (self.velocity_x, self.velocity_y)
    }

    pub fn set_velocity(&mut self, velocity_x: i64, velocity_y: i64)
        ensures
            final(self)@ == (PersonView {
                vx: velocity_x as int,
                vy: velocity_y as int,
                ..old(self)@
            }),
    {
        self.velocity_x = velocity_x;
        self.velocity_y = velocity_y;
    }

    pub fn set_status(&mut self, status: Status)
        ensures
            final(self)@ == spec_set_status(old(self)@, status),
    {
        if status == Status::Sick {
            self.sick_time = Option::Some(0);
        } else {
            self.sick_time = Option::None;
        }
        self.serializable_data.status = status;
    }

    pub fn get_status(&self) -> (r: Status)
        ensures
            r == self@.status,
    {
        self.serializable_data.status
    }

    pub fn get_sick_time(&self) -> (r: Option<i64>)
        ensures
            r is Some <==> self@.sick_time is Some,
            r matches Option::Some(t) ==> self@.sick_time == Option::Some(t as int),
    {
        self.sick_time
    }

    /// One agent's own per-tick work: advance the infection timer (possibly
    /// recovering) and integrate motion.
    pub fn update(&mut self, delta: i64)
        requires
            person_ok(old(self)@),
            0 <= delta <= DELTA_LIMIT,
        ensures
            final(self)@ == spec_person_step(old(self)@, delta as int),
    {
        if let Option::Some(t) = self.sick_time {
            let advanced: i64 = t + delta;
            if advanced > SICKNESS_DURATION {
                self.sick_time = Option::None;
                self.serializable_data.status = Status::Recovered;
            } else {
                self.sick_time = Option::Some(advanced);
            }
        }

        proof {
            assert(-(VEL_LIMIT as int) * (DELTA_LIMIT as int) <= self@.vx * delta
                <= (VEL_LIMIT as int) * (DELTA_LIMIT as int)) by (nonlinear_arith)
                requires
                    -VEL_LIMIT <= self@.vx <= VEL_LIMIT as int,
                    0 <= delta <= DELTA_LIMIT as int,
            ;
            assert(-(VEL_LIMIT as int) * (DELTA_LIMIT as int) <= self@.vy * delta
                <= (VEL_LIMIT as int) * (DELTA_LIMIT as int)) by (nonlinear_arith)
                requires
                    -VEL_LIMIT <= self@.vy <= VEL_LIMIT as int,
                    0 <= delta <= DELTA_LIMIT as int,
            ;
        }
        let new_x: i64 = self.serializable_data.x + self.velocity_x * delta;
        let new_y: i64 = self.serializable_data.y + self.velocity_y * delta;
        self.serializable_data.x = new_x;
        self.serializable_data.y = new_y;
    }
}

} // verus!
