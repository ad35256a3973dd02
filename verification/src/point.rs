//! A 2D integer point on the grid. A transform operation returns a new point
//! offset by a direction and a magnitude; callers validate bounds before
//! committing a move — the operation itself does no clamping.

use vstd::prelude::*;
use crate::direction::Direction;

verus! {

#[derive(Debug, Copy, Clone, PartialEq, Eq, Structural)]
pub struct Point {
    pub x: u16,
    pub y: u16,
}

/// What `transform` returns: the point shifted by `magnitude` along the
/// direction's axis (Up: y decreases, Down: y increases, Left: x decreases,
/// Right: x increases); with no direction, the point itself.
pub open spec fn spec_transform(p: Point, direction: Option<Direction>, magnitude: u16) -> Point {
    match direction {
        None => p,
        Some(Direction::Up) => Point { x: p.x, y: (p.y - magnitude) as u16 },
        Some(Direction::Down) => Point { x: p.x, y: (p.y + magnitude) as u16 },
        Some(Direction::Left) => Point { x: (p.x - magnitude) as u16, y: p.y },
        Some(Direction::Right) => Point { x: (p.x + magnitude) as u16, y: p.y },
    }
}

impl Point {
    pub fn new(x: u16, y: u16) -> (r: Self)
        ensures
            r == (Point { x, y }),
    {
        Self { x, y }
    }

    pub fn transform(&self, direction: Option<Direction>, magnitude: u16) -> (r: Point)
        requires
            direction == Some(Direction::Up) ==> magnitude <= self.y,
            direction == Some(Direction::Down) ==> self.y + magnitude <= u16::MAX,
            direction == Some(Direction::Left) ==> magnitude <= self.x,
            direction == Some(Direction::Right) ==> self.x + magnitude <= u16::MAX,
        ensures
            r == spec_transform(*self, direction, magnitude),
    {
        match direction {
            None => *self,
            Some(Direction::Up) => Point { x: self.x, y: self.y - magnitude },
            Some(Direction::Down) => Point { x: self.x, y: self.y + magnitude },
            Some(Direction::Left) => Point { x: self.x - magnitude, y: self.y },
            Some(Direction::Right) => Point { x: self.x + magnitude, y: self.y },
        }
    }
}

/// A shift moves exactly one coordinate by exactly the magnitude, leaving the
/// other alone, and a shift with no direction is the identity.
pub proof fn lemma_transform_axes(p: Point, m: u16)
    ensures
        spec_transform(p, None, m) == p,
        m <= p.x ==> spec_transform(p, Some(Direction::Left), m) == (Point { x: (p.x - m) as u16, y: p.y }),
        p.x + m <= u16::MAX ==> spec_transform(p, Some(Direction::Right), m) == (Point { x: (p.x + m) as u16, y: p.y }),
        m <= p.y ==> spec_transform(p, Some(Direction::Up), m) == (Point { x: p.x, y: (p.y - m) as u16 }),
        p.y + m <= u16::MAX ==> spec_transform(p, Some(Direction::Down), m) == (Point { x: p.x, y: (p.y + m) as u16 }),
{
}

} // verus!
