use vstd::prelude::*;

use crate::direction::Direction;

verus! {

/// A position on the board: column `x`, row `y`, with row 0 at the top.
#[derive(Clone, Copy, Debug, PartialEq, Eq, Structural)]
pub struct SnakeGameCord {
    pub x: usize,
    pub y: usize,
}

impl SnakeGameCord {
    /// Moving one unit in `d` stays within the range of `usize`.
    pub open spec fn can_move(self, d: Direction) -> bool {
        match d {
            Direction::Up => self.y > 0,
            Direction::Down => self.y < usize::MAX,
            Direction::Left => self.x > 0,
            Direction::Right => self.x < usize::MAX,
        }
    }

    /// The position one unit away in direction `d`.
    pub open spec fn shifted(self, d: Direction) -> SnakeGameCord
        recommends
            self.can_move(d),
    {
        match d {
            Direction::Up => SnakeGameCord { x: self.x, y: (self.y - 1) as usize },
            Direction::Down => SnakeGameCord { x: self.x, y: (self.y + 1) as usize },
            Direction::Left => SnakeGameCord { x: (self.x - 1) as usize, y: self.y },
            Direction::Right => SnakeGameCord { x: (self.x + 1) as usize, y: self.y },
        }
    }

    /// Moves this position one unit in `direction`.
    pub fn move_direction(&mut self, direction: &Direction)
        requires
            old(self).can_move(*direction),
        ensures
            *final(self) == old(self).shifted(*direction),
    {
        match direction {
            Direction::Up => self.y -= 1,
            Direction::Down => self.y += 1,
            Direction::Left => self.x -= 1,
            Direction::Right => self.x += 1,
        }
    }

    /// The position one unit away from this one in `direction`.
    pub fn moved_direction(&self, direction: &Direction) -> (r: SnakeGameCord)
        requires
            self.can_move(*direction),
        ensures
            r == self.shifted(*direction),
    {
        let mut new_cord = *self;
        new_cord.move_direction(direction);
        new_cord
    }
}

} // verus!
