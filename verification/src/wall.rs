//! The four static arena walls: each a half-plane given by an anchor point
//! and an axis-aligned unit normal, derived once from the arena size.

use vstd::prelude::*;

use crate::POS_LIMIT;
use crate::RADIUS;

verus! {

/// Which arena edge a wall is.
#[derive(Clone, Copy, PartialEq, Eq, Structural, Debug)]
pub enum Direction {
    Top,
    Bottom,
    Left,
    Right,
}

/// Mathematical image of a wall: its edge, anchor point and unit normal.
pub ghost struct WallView {
    pub direction: Direction,
    pub anchor_x: int,
    pub anchor_y: int,
    pub normal_x: int,
    pub normal_y: int,
}

/// The wall a given edge of a `width` by `height` arena carries: Top is
/// anchored at the origin with normal +y, Bottom at `(0, height)` with
/// normal -y, Left at the origin with normal +x, Right at `(width, 0)`
/// with normal -x.
pub open spec fn spec_wall(direction: Direction, width: int, height: int) -> WallView {
    match direction {
        Direction::Top => WallView {
            direction,
            anchor_x: 0,
            anchor_y: 0,
            normal_x: 0,
            normal_y: 1,
        },
        Direction::Bottom => WallView {
            direction,
            anchor_x: 0,
            anchor_y: height,
            normal_x: 0,
            normal_y: -1,
        },
        Direction::Left => WallView {
            direction,
            anchor_x: 0,
            anchor_y: 0,
            normal_x: 1,
            normal_y: 0,
        },
        Direction::Right => WallView {
            direction,
            anchor_x: width,
            anchor_y: 0,
            normal_x: -1,
            normal_y: 0,
        },
    }
}

/// Arena dimensions on which every wall quantity stays in range: at least
/// one agent diameter wide, and within the coordinate limit.
pub open spec fn dims_ok(width: int, height: int) -> bool {
    &&& 2 * RADIUS <= width <= POS_LIMIT as int
    &&& 2 * RADIUS <= height <= POS_LIMIT as int
}

/// One static arena wall.
pub struct Wall {
    direction: Direction,
    anchor_x: i64,
    anchor_y: i64,
    normal_x: i64,
    normal_y: i64,
}

impl View for Wall {
    type V = WallView;

    closed spec fn view(&self) -> WallView {
        WallView {
            direction: self.direction,
            anchor_x: self.anchor_x as int,
            anchor_y: self.anchor_y as int,
            normal_x: self.normal_x as int,
            normal_y: self.normal_y as int,
        }
    }
}

impl Wall {
    /// The wall of the given arena edge, for a `width` by `height` arena.
    pub fn new(direction: Direction, width: i64, height: i64) -> (r: Wall)
        ensures
            r@ == spec_wall(direction, width as int, height as int),
    {
        match direction {
            Direction::Top => Wall {
                direction,
                anchor_x: 0,
                anchor_y: 0,
                normal_x: 0,
                normal_y: 1,
            },
            Direction::Bottom => Wall {
                direction,
                anchor_x: 0,
                anchor_y: height,
                normal_x: 0,
                normal_y: -1,
            },
            Direction::Left => Wall {
                direction,
                anchor_x: 0,
                anchor_y: 0,
                normal_x: 1,
                normal_y: 0,
            },
            Direction::Right => Wall {
                direction,
                anchor_x: width,
                anchor_y: 0,
                normal_x: -1,
                normal_y: 0,
            },
        }
    }

    /// The wall's anchor point.
    pub fn get_position(&self) -> (r: (i64, i64))
        ensures
            r.0 as int == self@.anchor_x,
            r.1 as int == self@.anchor_y,
    {
        (self.anchor_x, self.anchor_y)
    }

    /// The wall's outward unit normal.
    pub fn get_plane(&self) -> (r: (i64, i64))
        ensures
            r.0 as int == self@.normal_x,
            r.1 as int == self@.normal_y,
    {
        (self.normal_x, self.normal_y)
    }
}

} // verus!
