//! The player-controlled marker: a position and an optional intended
//! direction. `None` means "not yet moving / stopped". The controller decides
//! whether a move is legal; `move_player` commits it unconditionally.

use vstd::prelude::*;
use crate::direction::Direction;
use crate::point::{Point, spec_transform};

verus! {

#[derive(Debug)]
pub struct Player {
    pub position: Point,
    pub direction: Option<Direction>,
}

impl Player {
    pub fn new(start: Point) -> (r: Self)
        ensures
            r.position == start,
            r.direction is None,
    {
        Self { position: start, direction: None }
    }

    pub fn get_position(&self) -> (r: Point)
        ensures
            r == self.position,
    {
        self.position
    }

    pub fn get_direction(&self) -> (r: Option<Direction>)
        ensures
            r == self.direction,
    {
        self.direction
    }

    /// Commits a one-unit move along the current direction. Callers validate
    /// legality first; with no direction set, the position is unchanged.
    pub fn move_player(&mut self)
        requires
            old(self).direction == Some(Direction::Up) ==> old(self).position.y >= 1,
            old(self).direction == Some(Direction::Down) ==> old(self).position.y < u16::MAX,
            old(self).direction == Some(Direction::Left) ==> old(self).position.x >= 1,
            old(self).direction == Some(Direction::Right) ==> old(self).position.x < u16::MAX,
        ensures
            final(self).position == spec_transform(old(self).position, old(self).direction, 1),
            final(self).direction == old(self).direction,
    {
        self.position = self.position.transform(self.direction, 1);
    }

    pub fn set_direction(&mut self, direction: Option<Direction>)
        ensures
            final(self).position == old(self).position,
            final(self).direction == direction,
    {
        self.direction = direction;
    }
}

} // verus!
