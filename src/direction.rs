use vstd::prelude::*;

verus! {

/// One of the four travel directions on the board.
#[derive(Clone, Copy, Debug, PartialEq, Eq, Structural)]
pub enum Direction {
    Up,
    Down,
    Left,
    Right,
}

/// The axis a direction travels along.
#[derive(Clone, Copy, Debug, PartialEq, Eq, Structural)]
pub enum DirectionKind {
    Horizontal,
    Vertical,
}

impl Direction {
    /// The axis of this direction, as a spec value.
    pub open spec fn axis(self) -> DirectionKind {
        match self {
            Direction::Up | Direction::Down => DirectionKind::Vertical,
            _ => DirectionKind::Horizontal,
        }
    }

    /// The axis this direction travels along.
    pub fn kind(&self) -> (r: DirectionKind)
        ensures
            r == self.axis(),
    {
        match self {
            Direction::Up => DirectionKind::Vertical,
            Direction::Down => DirectionKind::Vertical,
            _ => DirectionKind::Horizontal,
        }
    }
}

} // verus!
