// Unit tests of the contact queries and the elastic reflection.

use epidemic_sim::contact::contact_circle;
use epidemic_sim::contact::contact_plane;
use epidemic_sim::contact::reflect;
use epidemic_sim::person::Person;
use epidemic_sim::wall::Direction;
use epidemic_sim::wall::Wall;

#[test]
fn plane_contact_margin_is_inclusive() {
    // Left wall: anchor at the origin, normal +x, radius 15, margin 4:
    // a center at x = 19 touches, at x = 20 it does not.
    assert_eq!(contact_plane(0, 0, 1, 0, 19, 200, 15, 4), Some((1, 0)));
    assert_eq!(contact_plane(0, 0, 1, 0, 20, 200, 15, 4), None);
    // A center already past the plane still reports contact.
    assert_eq!(contact_plane(0, 0, 1, 0, -3, 200, 15, 4), Some((1, 0)));
}

#[test]
fn circle_contact_boundary_is_inclusive() {
    // Radii 15 and 15 with margin 4 reach to a center distance of 34.
    assert_eq!(contact_circle(34, 0, 15, 0, 0, 15, 4), Some((34, 0)));
    assert_eq!(contact_circle(35, 0, 15, 0, 0, 15, 4), None);
    // Zero margin needs exact overlap of the discs.
    assert_eq!(contact_circle(30, 0, 15, 0, 0, 15, 0), Some((30, 0)));
    assert_eq!(contact_circle(31, 0, 15, 0, 0, 15, 0), None);
}

#[test]
fn reflection_flips_and_preserves_speed() {
    // Head-on along the x axis: the velocity reverses exactly.
    assert_eq!(reflect(20, 0, -4, 0), Some((-20, 0)));
    // Against a diagonal contact direction the velocity turns the corner:
    // (3, 0) off direction (-1, -1) becomes (0, -3), same squared speed.
    assert_eq!(reflect(3, 0, -1, -1), Some((0, -3)));
    // Reflecting the reflected velocity undoes the exchange.
    assert_eq!(reflect(-20, 0, -4, 0), Some((20, 0)));
}

#[test]
fn walls_are_anchored_to_the_arena() {
    let top = Wall::new(Direction::Top, 400, 300);
    assert_eq!(top.get_position(), (0, 0));
    assert_eq!(top.get_plane(), (0, 1));
    let bottom = Wall::new(Direction::Bottom, 400, 300);
    assert_eq!(bottom.get_position(), (0, 300));
    assert_eq!(bottom.get_plane(), (0, -1));
    let left = Wall::new(Direction::Left, 400, 300);
    assert_eq!(left.get_position(), (0, 0));
    assert_eq!(left.get_plane(), (1, 0));
    let right = Wall::new(Direction::Right, 400, 300);
    assert_eq!(right.get_position(), (400, 0));
    assert_eq!(right.get_plane(), (-1, 0));
}

#[test]
fn person_accessors_round_trip() {
    let mut p = Person::new(100, 120, true, 3, -2);
    assert_eq!(p.get_position(), (100, 120));
    assert_eq!(p.get_velocity(), (3, -2));
    assert_eq!(p.get_ball(), 15);
    assert_eq!(p.get_sick_time(), None);
    p.set_x(140);
    p.set_y(160);
    p.set_velocity(-3, 2);
    assert_eq!(p.get_x(), 140);
    assert_eq!(p.get_y(), 160);
    assert_eq!(p.get_velocity(), (-3, 2));
    let snap = p.get_serializable_data();
    assert_eq!(snap.get_x(), 140);
    assert_eq!(snap.get_y(), 160);
}
