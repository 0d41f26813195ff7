// End-to-end tests of the simulation, in quarter world units: the agent
// radius 3.75 is 15, the wall margin 1.0 is 4, a 100 x 100 arena is 400 x 400.

use epidemic_sim::person::Person;
use epidemic_sim::person::Status;
use epidemic_sim::ConfigError;
use epidemic_sim::SimError;
use epidemic_sim::Mode;
use epidemic_sim::Simulation;

fn sick_person(x: i64, y: i64, vx: i64, vy: i64) -> Person {
    let mut p = Person::new(x, y, false, vx, vy);
    p.set_status(Status::Sick);
    p
}

fn recovered_person(x: i64, y: i64) -> Person {
    let mut p = Person::new(x, y, false, 0, 0);
    p.set_status(Status::Recovered);
    p
}

#[test]
fn two_agents_collide_and_infect() {
    // A sick agent at (10, 50) moving right at 5 units per tick meets a
    // healthy one at (14, 50) moving left: contact this tick and the
    // infection transfers. By the time contact is evaluated the fast
    // agents have tunneled past each other and are separating, so neither
    // pass applies a reflection: both velocities pass through unchanged.
    let a = sick_person(40, 200, 20, 0);
    let b = Person::new(56, 200, false, -20, 0);
    let mut sim = Simulation::from_people(400, 400, vec![a, b]);
    assert_eq!(sim.get_healthy_total(), 1);
    assert_eq!(sim.get_sick_total(), 1);

    sim.update(1).unwrap();

    let people = sim.get_people();
    assert_eq!(people[0].get_status(), Status::Sick);
    assert_eq!(people[1].get_status(), Status::Sick);
    assert_eq!(people[1].get_sick_time(), Some(1));
    assert_eq!(people[0].get_position(), (60, 200));
    assert_eq!(people[1].get_position(), (36, 200));
    assert_eq!(people[0].get_velocity(), (20, 0));
    assert_eq!(people[1].get_velocity(), (-20, 0));
    assert_eq!(sim.get_healthy_total(), 0);
    assert_eq!(sim.get_sick_total(), 2);
    assert_eq!(sim.get_recovered_total(), 0);
}

#[test]
fn approaching_agents_bounce_apart() {
    // Two overlapping agents drifting toward each other bounce: the
    // current agent reflects off the contact direction toward its partner
    // and the partner takes the reflection of that fresh velocity. In the
    // partner's own pass the pair is already separating, so no second
    // reflection fires.
    let a = sick_person(40, 200, 2, 0);
    let b = Person::new(68, 200, false, -2, 0);
    let mut sim = Simulation::from_people(400, 400, vec![a, b]);

    sim.update(1).unwrap();

    let people = sim.get_people();
    assert_eq!(people[0].get_position(), (42, 200));
    assert_eq!(people[1].get_position(), (70, 200));
    assert_eq!(people[0].get_velocity(), (-2, 0));
    assert_eq!(people[1].get_velocity(), (2, 0));
    assert_eq!(people[1].get_status(), Status::Sick);
    assert_eq!(sim.get_sick_total(), 2);
}

#[test]
fn set_status_keeps_timer_only_while_sick() {
    // Entering Sick initialises the infection timer; leaving Sick clears
    // it: the timer is present exactly while the agent is sick.
    let mut p = Person::new(100, 100, false, 0, 0);
    assert_eq!(p.get_sick_time(), None);
    p.set_status(Status::Sick);
    assert_eq!(p.get_sick_time(), Some(0));
    p.set_status(Status::Recovered);
    assert_eq!(p.get_sick_time(), None);
    p.set_status(Status::Sick);
    assert_eq!(p.get_sick_time(), Some(0));
    p.set_status(Status::Healthy);
    assert_eq!(p.get_sick_time(), None);
}

#[test]
fn sick_agent_recovers_and_stays_recovered() {
    // A lone sick agent at the arena center with zero velocity: after the
    // sickness duration elapses the status becomes Recovered and the timer
    // is cleared, and later contact with a sick agent never re-infects it.
    let a = sick_person(200, 200, 0, 0);
    let mut sim = Simulation::from_people(400, 400, vec![a]);

    sim.update(450).unwrap();
    assert_eq!(sim.get_people()[0].get_status(), Status::Sick);
    assert_eq!(sim.get_people()[0].get_sick_time(), Some(450));

    sim.update(1).unwrap();
    assert_eq!(sim.get_people()[0].get_status(), Status::Recovered);
    assert_eq!(sim.get_people()[0].get_sick_time(), None);
    assert_eq!(sim.get_recovered_total(), 1);

    // A recovered agent in full overlap with a sick one stays recovered.
    let r = recovered_person(200, 200);
    let s = sick_person(210, 200, 0, 0);
    let mut sim2 = Simulation::from_people(400, 400, vec![r, s]);
    for _ in 0..5 {
        sim2.update(1).unwrap();
        assert_eq!(sim2.get_people()[0].get_status(), Status::Recovered);
    }
}

#[test]
fn coincident_centers_infect_without_bounce() {
    // Two stationary agents on the same point: contact holds (distance
    // zero), infection transfers, but with no contact direction and no
    // motion neither velocity changes.
    let a = sick_person(200, 200, 0, 0);
    let b = Person::new(200, 200, false, 0, 0);
    let mut sim = Simulation::from_people(400, 400, vec![a, b]);
    sim.update(1).unwrap();
    assert_eq!(sim.get_people()[1].get_status(), Status::Sick);
    assert_eq!(sim.get_people()[0].get_velocity(), (0, 0));
    assert_eq!(sim.get_people()[1].get_velocity(), (0, 0));
    assert_eq!(sim.get_sick_total(), 2);
}

#[test]
fn wall_margin_boundary_is_inclusive() {
    // At exactly radius + margin (15 + 4 = 19) from the left wall, moving
    // toward it, the contact triggers and the velocity flips; one unit
    // further out it must not.
    let touching = Person::new(19, 200, false, -4, 0);
    let mut sim = Simulation::from_people(400, 400, vec![touching]);
    sim.update(0).unwrap();
    assert_eq!(sim.get_people()[0].get_velocity(), (4, 0));

    let clear = Person::new(20, 200, false, -4, 0);
    let mut sim2 = Simulation::from_people(400, 400, vec![clear]);
    sim2.update(0).unwrap();
    assert_eq!(sim2.get_people()[0].get_velocity(), (-4, 0));
}

#[test]
fn wall_reflection_preserves_speed() {
    // An agent moving diagonally into the top wall keeps its speed: only
    // the component along the wall normal flips sign.
    let p = Person::new(200, 17, false, 3, -8);
    let mut sim = Simulation::from_people(400, 400, vec![p]);
    sim.update(0).unwrap();
    let (vx, vy) = sim.get_people()[0].get_velocity();
    assert_eq!((vx, vy), (3, 8));
    assert_eq!(vx * vx + vy * vy, 3 * 3 + 8 * 8);
}

#[test]
fn distant_agents_never_change_each_other() {
    // Two agents whose distance never comes near the sum of the radii:
    // many ticks change neither status.
    let a = sick_person(50, 50, 1, 0);
    let b = Person::new(300, 300, false, -1, 0);
    let mut sim = Simulation::from_people(400, 400, vec![a, b]);
    for _ in 0..20 {
        sim.update(1).unwrap();
        assert_eq!(sim.get_people()[0].get_status(), Status::Sick);
        assert_eq!(sim.get_people()[1].get_status(), Status::Healthy);
    }
}

fn test_draws() -> Vec<i64> {
    let mut draws = Vec::new();
    let mut state: u64 = 0x1234_5678;
    for _ in 0..200 {
        state = state.wrapping_mul(6364136223846793005).wrapping_add(1442695040888963407);
        draws.push(((state >> 33) & 0xFFFF) as i64);
    }
    draws
}

#[test]
fn counts_always_sum_to_population() {
    let draws = test_draws();
    let mut sim = Simulation::new(1000, 800, Mode::FreeForAll, 0, &draws).unwrap();
    assert_eq!(sim.get_healthy_total(), 49);
    assert_eq!(sim.get_sick_total(), 1);
    assert_eq!(sim.get_recovered_total(), 0);
    for _ in 0..30 {
        sim.update(1).unwrap();
        let total = sim.get_healthy_total() + sim.get_sick_total() + sim.get_recovered_total();
        assert_eq!(total, 50);
        assert_eq!(sim.get_updated_people().len(), 50);
    }
}

#[test]
fn seeding_is_exact() {
    // Agent 0's placement follows the documented formula: with width 400
    // the inset span is 370, so draw 32768 gives x = 15 + 185 = 200 and
    // draw 16384 gives y = 15 + 92 = 107; velocity draws 65535 and 0 give
    // the extreme seeded velocities 6 and -6.
    let mut draws = test_draws();
    draws[0] = 32768;
    draws[1] = 16384;
    draws[2] = 65535;
    draws[3] = 0;
    let sim = Simulation::new(400, 400, Mode::FreeForAll, 0, &draws).unwrap();
    let people = sim.get_people();
    assert_eq!(people.len(), 50);
    assert_eq!(people[0].get_position(), (200, 107));
    assert_eq!(people[0].get_velocity(), (6, -6));
    assert_eq!(people[0].get_status(), Status::Healthy);
    assert_eq!(people[49].get_status(), Status::Sick);
    assert_eq!(people[49].get_sick_time(), Some(0));
}

#[test]
fn distancing_pins_velocities() {
    let draws = test_draws();
    let sim = Simulation::new(400, 400, Mode::Distancing, 50, &draws).unwrap();
    let people = sim.get_people();
    for k in 0..25 {
        assert_eq!(people[k].get_velocity(), (0, 0));
    }
}

#[test]
fn out_of_range_percentage_is_rejected() {
    let draws = test_draws();
    match Simulation::new(400, 400, Mode::Distancing, 101, &draws) {
        Err(e) => assert_eq!(e, ConfigError::PercentageOutOfRange),
        Ok(_) => panic!("a percentage above 100 must be rejected"),
    }
    match Simulation::new(400, 400, Mode::Distancing, -1, &draws) {
        Err(e) => assert_eq!(e, ConfigError::PercentageOutOfRange),
        Ok(_) => panic!("a negative percentage must be rejected"),
    }
}

#[test]
fn out_of_range_state_is_fatal() {
    let runaway = Person::new(0x800_0000 + 1, 200, false, 0, 0);
    let mut sim = Simulation::from_people(400, 400, vec![runaway]);
    assert_eq!(sim.update(1).unwrap_err(), SimError::StateOutOfRange);

    let fine = Person::new(200, 200, false, 0, 0);
    let mut sim2 = Simulation::from_people(400, 400, vec![fine]);
    assert_eq!(sim2.update(0x2000 + 1).unwrap_err(), SimError::StateOutOfRange);
}

#[test]
fn identical_runs_are_identical() {
    let draws = test_draws();
    let mut sim1 = Simulation::new(1000, 800, Mode::Distancing, 30, &draws).unwrap();
    let mut sim2 = Simulation::new(1000, 800, Mode::Distancing, 30, &draws).unwrap();
    for _ in 0..20 {
        sim1.update(2).unwrap();
        sim2.update(2).unwrap();
    }
    assert_eq!(sim1.get_healthy_total(), sim2.get_healthy_total());
    assert_eq!(sim1.get_sick_total(), sim2.get_sick_total());
    assert_eq!(sim1.get_recovered_total(), sim2.get_recovered_total());
    let snaps1 = sim1.get_updated_people();
    let snaps2 = sim2.get_updated_people();
    assert_eq!(snaps1.len(), snaps2.len());
    for k in 0..snaps1.len() {
        assert_eq!(snaps1[k].get_x(), snaps2[k].get_x());
        assert_eq!(snaps1[k].get_y(), snaps2[k].get_y());
        assert_eq!(snaps1[k].get_status(), snaps2[k].get_status());
    }
}

#[test]
fn snapshots_match_agents() {
    let a = sick_person(40, 200, 20, 0);
    let b = Person::new(300, 100, false, -4, 4);
    let mut sim = Simulation::from_people(400, 400, vec![a, b]);
    sim.update(1).unwrap();
    let people = sim.get_people();
    let snaps = sim.get_updated_people();
    assert_eq!(snaps.len(), 2);
    for k in 0..2 {
        assert_eq!(snaps[k].get_x(), people[k].get_position().0);
        assert_eq!(snaps[k].get_y(), people[k].get_position().1);
        assert_eq!(snaps[k].get_status(), people[k].get_status());
    }
}
