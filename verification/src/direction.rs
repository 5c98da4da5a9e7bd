//! Headings of the snake and their pairing into opposites.

use vstd::prelude::*;

verus! {

/// One of the four headings on the grid.
#[derive(Clone, Copy, Debug, PartialEq, Eq, Structural)]
pub enum Direction {
    Up,
    Down,
    Left,
    Right,
}

impl Direction {
    /// The heading that points the other way: `Up` pairs with `Down`,
    /// `Left` with `Right`.
    pub open spec fn spec_opposite(&self) -> Direction {
        match *self {
            Direction::Up => Direction::Down,
            Direction::Down => Direction::Up,
            Direction::Left => Direction::Right,
            Direction::Right => Direction::Left,
        }
    }

    /// The offset of one step along the `x` axis: `-1` for `Left`, `1` for
    /// `Right`, `0` for the two vertical headings.
    pub open spec fn dx(&self) -> int {
        match *self {
            Direction::Left => -1,
            Direction::Right => 1,
            _ => 0,
        }
    }

    /// The offset of one step along the `y` axis: `-1` for `Up`, `1` for
    /// `Down`, `0` for the two horizontal headings.
    pub open spec fn dy(&self) -> int {
        match *self {
            Direction::Up => -1,
            Direction::Down => 1,
            _ => 0,
        }
    }

    /// Returns the heading that points the other way.
    #[verifier::when_used_as_spec(spec_opposite)]
    pub fn opposite(&self) -> (r: Direction)
        ensures
            r == self.spec_opposite(),
    {
        match *self {
            Direction::Up => Direction::Down,
            Direction::Down => Direction::Up,
            Direction::Left => Direction::Right,
            Direction::Right => Direction::Left,
        }
    }

    /// Taking the opposite twice gives the heading back, and no heading is
    /// its own opposite.
    pub proof fn lemma_opposite_involutive(d: Direction)
        ensures
            d.spec_opposite().spec_opposite() == d,
            d.spec_opposite() != d,
    {
    }
}

} // verus!
