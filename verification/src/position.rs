//! Cells of the grid and the wrap-around step between neighbouring cells.

use vstd::prelude::*;
use vstd::arithmetic::div_mod::{
    lemma_fundamental_div_mod,
    lemma_fundamental_div_mod_converse,
    lemma_mod_bound,
};
use crate::direction::Direction;

verus! {

/// A cell of the grid, by column `x` and row `y`.
#[derive(Clone, Copy, Debug, PartialEq, Eq, Structural)]
pub struct Position {
    pub x: i32,
    pub y: i32,
}

/// The coordinate `c` wrapped into `0..n`: the remainder of `c` modulo `n`,
/// which is never negative.
pub open spec fn wrap(c: int, n: int) -> int {
    c % n
}

impl Position {
    /// Whether both coordinates lie in `0..n`, that is, whether the cell
    /// belongs to the grid of dimension `n`.
    pub open spec fn in_grid(self, n: int) -> bool {
        0 <= self.x < n && 0 <= self.y < n
    }

    /// The neighbour of this cell in direction `d` on the grid of dimension
    /// `n`: the cell moved by the offset of `d`, which is one step along
    /// exactly one axis, with each coordinate wrapped into `0..n`, so that
    /// leaving the grid by one edge enters it by the opposite one.
    pub open spec fn spec_step(self, d: Direction, n: int) -> Position {
        Position {
            x: wrap(self.x + d.dx(), n) as i32,
            y: wrap(self.y + d.dy(), n) as i32,
        }
    }

    /// Returns the neighbour of this cell in direction `d` on the grid of
    /// dimension `n`, wrapping at the edges. The result is a cell of the
    /// grid, wherever this cell lies.
    pub fn step(self, d: Direction, n: i32) -> (r: Position)
        requires
            n >= 1,
        ensures
            r == self.spec_step(d, n as int),
            r.in_grid(n as int),
    {
        let (dx, dy): (i32, i32) = match d {
            Direction::Up => (0, -1),
            Direction::Down => (0, 1),
            Direction::Left => (-1, 0),
            Direction::Right => (1, 0),
        };
        Position { x: wrap_coord(self.x, dx, n), y: wrap_coord(self.y, dy, n) }
    }
}

/// The remainder of a negative number: `-b` leaves `0` where `b` does, and
/// `n - b % n` otherwise.
proof fn lemma_mod_of_negative(b: int, n: int)
    requires
        b > 0,
        n > 0,
    ensures
        (-b) % n == (if b % n == 0 { 0 } else { n - b % n }),
{
    let q: int = b / n;
    let r: int = b % n;
    lemma_fundamental_div_mod(b, n);
    lemma_mod_bound(b, n);
    if r == 0 {
        assert(-b == (-q) * n + 0) by (nonlinear_arith)
            requires
                b == n * q + r,
                r == 0,
        ;
        lemma_fundamental_div_mod_converse(-b, n, -q, 0);
    } else {
        assert(-b == (-q - 1) * n + (n - r)) by (nonlinear_arith)
            requires
                b == n * q + r,
        ;
        lemma_fundamental_div_mod_converse(-b, n, -q - 1, n - r);
    }
}

/// Moves the coordinate `c` by `delta` and wraps it into `0..n`.
fn wrap_coord(c: i32, delta: i32, n: i32) -> (r: i32)
    requires
        n >= 1,
        -1 <= delta <= 1,
    ensures
        r == wrap(c + delta, n as int),
        0 <= r < n,
{
    let moved: i64 = c as i64 + delta as i64;
    let rem: i64 = moved % (n as i64);
    proof {
        lemma_mod_bound(moved as int, n as int);
        if moved < 0 {
            lemma_mod_of_negative(-moved, n as int);
        }
    }
    if rem < 0 {
        (rem + n as i64) as i32
    } else {
        rem as i32
    }
}

/// Wrap round trip: on a grid of dimension `n`, one step from a cell of the
/// grid in direction `d`, followed by one step in the opposite direction,
/// ends on the cell it started from.
pub proof fn lemma_step_round_trip(p: Position, d: Direction, n: int)
    requires
        1 <= n <= i32::MAX,
        p.in_grid(n),
    ensures
        p.spec_step(d, n).in_grid(n),
        p.spec_step(d, n).spec_step(d.spec_opposite(), n) == p,
{
    lemma_wrap_round_trip(p.x as int, n);
    lemma_wrap_round_trip(p.y as int, n);
    lemma_wrap_near(p.x as int, n);
    lemma_wrap_near(p.y as int, n);
}

/// For a coordinate in `0..n`, moving by one and back by one, wrapping each
/// time, returns to the coordinate.
proof fn lemma_wrap_round_trip(c: int, n: int)
    requires
        n >= 1,
        0 <= c < n,
    ensures
        0 <= wrap(c + 1, n) < n,
        0 <= wrap(c - 1, n) < n,
        wrap(wrap(c + 1, n) - 1, n) == c,
        wrap(wrap(c - 1, n) + 1, n) == c,
{
    lemma_wrap_near(c + 1, n);
    lemma_wrap_near(c - 1, n);
    lemma_wrap_near(wrap(c + 1, n) - 1, n);
    lemma_wrap_near(wrap(c - 1, n) + 1, n);
}

/// Wrapping a coordinate that is at most one cell off the grid: `-1` wraps
/// to `n - 1`, `n` wraps to `0`, and a coordinate in `0..n` stays.
proof fn lemma_wrap_near(c: int, n: int)
    requires
        n >= 1,
        -1 <= c <= n,
    ensures
        wrap(c, n) == (if c == -1 { n - 1 } else if c == n { 0 } else { c }),
{
    if c == -1 {
        lemma_fundamental_div_mod_converse(c, n, -1, n - 1);
    } else if c == n {
        lemma_fundamental_div_mod_converse(c, n, 1, 0);
    } else {
        lemma_fundamental_div_mod_converse(c, n, 0, c);
    }
}

} // verus!
