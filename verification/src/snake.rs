//! The snake: an ordered body of cells with a heading, and the transitions
//! that move it, turn it and let it grow.

use vstd::prelude::*;
use crate::direction::Direction;
use crate::position::Position;

verus! {

/// A snake on a square grid with wrap-around edges.
///
/// `body[0]` is the head and the last element is the tail. A snake that the
/// operations below can advance has a body of at least one cell and a grid
/// of at least one cell: see [`SnakeView::wf`].
#[derive(Clone, Debug)]
pub struct Snake {
    pub body: Vec<Position>,
    pub direction: Direction,
    pub grid_size: i32,
}

/// The mathematical value of a [`Snake`].
pub struct SnakeView {
    pub body: Seq<Position>,
    pub direction: Direction,
    pub grid_size: int,
}

impl View for Snake {
    type V = SnakeView;

    open spec fn view(&self) -> SnakeView {
        SnakeView { body: self.body@, direction: self.direction, grid_size: self.grid_size as int }
    }
}

impl SnakeView {
    /// The snake every game starts with on a grid of dimension `n`: three
    /// cells in a column, head on top, heading right.
    pub open spec fn initial(n: int) -> SnakeView {
        SnakeView {
            body: seq![
                Position { x: 5, y: 5 },
                Position { x: 5, y: 6 },
                Position { x: 5, y: 7 },
            ],
            direction: Direction::Right,
            grid_size: n,
        }
    }

    /// Well-formedness: the body is not empty, and the grid has at least one
    /// cell along each axis.
    pub open spec fn wf(self) -> bool {
        self.body.len() >= 1 && 1 <= self.grid_size <= i32::MAX
    }

    /// Whether every cell of the body belongs to the grid.
    pub open spec fn on_grid(self) -> bool {
        forall|i: int| 0 <= i < self.body.len() ==> (#[trigger] self.body[i]).in_grid(self.grid_size)
    }

    /// The snake after one step: the neighbour of the head in the current
    /// direction is inserted at the front and the tail is removed.
    pub open spec fn move_forward(self) -> SnakeView {
        SnakeView {
            body: self.body.insert(
                0,
                self.body[0].spec_step(self.direction, self.grid_size),
            ).drop_last(),
            ..self
        }
    }

    /// The snake after a request to head in direction `d`: the request is
    /// ignored where `d` is the opposite of the current direction, and
    /// followed otherwise.
    pub open spec fn change_direction(self, d: Direction) -> SnakeView {
        if d == self.direction.spec_opposite() {
            self
        } else {
            SnakeView { direction: d, ..self }
        }
    }

    /// The snake after eating: a copy of the tail is appended to the body.
    pub open spec fn eat(self) -> SnakeView {
        SnakeView { body: self.body.push(self.body.last()), ..self }
    }

    /// Whether the head lies on another segment of the body.
    pub open spec fn collides(self) -> bool {
        exists|i: int| 1 <= i < self.body.len() && #[trigger] self.body[i] == self.body[0]
    }
}

/// One call that changes a snake.
#[derive(Clone, Copy, Debug, PartialEq, Eq, Structural)]
pub enum Call {
    MoveForward,
    Eat,
    ChangeDirection(Direction),
}

impl SnakeView {
    /// The snake after `call`.
    pub open spec fn apply(self, call: Call) -> SnakeView {
        match call {
            Call::MoveForward => self.move_forward(),
            Call::Eat => self.eat(),
            Call::ChangeDirection(d) => self.change_direction(d),
        }
    }

    /// The snake after `calls`, made in order.
    pub open spec fn run(self, calls: Seq<Call>) -> SnakeView
        decreases calls.len(),
    {
        if calls.len() == 0 {
            self
        } else {
            self.run(calls.drop_last()).apply(calls.last())
        }
    }
}

/// How many of `calls` are [`Call::Eat`].
pub open spec fn eat_count(calls: Seq<Call>) -> nat
    decreases calls.len(),
{
    if calls.len() == 0 {
        0
    } else {
        eat_count(calls.drop_last()) + if calls.last() == Call::Eat {
            1nat
        } else {
            0nat
        }
    }
}

/// Length after any calls: a well-formed snake stays well-formed through
/// every sequence of calls, on the same grid, and its body has grown by
/// exactly one segment for each `Eat` among them.
pub proof fn lemma_length_counts_eats(s: SnakeView, calls: Seq<Call>)
    requires
        s.wf(),
    ensures
        s.run(calls).wf(),
        s.run(calls).grid_size == s.grid_size,
        s.run(calls).body.len() == s.body.len() + eat_count(calls),
    decreases calls.len(),
{
    if calls.len() > 0 {
        lemma_length_counts_eats(s, calls.drop_last());
    }
}

/// Length monotonicity: at no point during a sequence of calls is the body
/// of a well-formed snake shorter than it was at an earlier point. `k` and
/// `m` count the calls made up to the earlier and the later point.
pub proof fn lemma_length_never_decreases(s: SnakeView, calls: Seq<Call>, k: int, m: int)
    requires
        s.wf(),
        0 <= k <= m <= calls.len(),
    ensures
        s.run(calls.take(k)).body.len() <= s.run(calls.take(m)).body.len(),
    decreases m - k,
{
    if k < m {
        lemma_length_never_decreases(s, calls, k, m - 1);
        lemma_length_counts_eats(s, calls.take(m - 1));
        assert(calls.take(m).drop_last() =~= calls.take(m - 1));
    }
}

/// No reversal: a request to head opposite to the current direction leaves
/// the direction as it is, and every other request is followed. The body
/// and the grid stay as they are either way.
pub proof fn lemma_no_reversal(s: SnakeView, d: Direction)
    ensures
        s.change_direction(s.direction.spec_opposite()) == s,
        d != s.direction.spec_opposite() ==> s.change_direction(d).direction == d,
        s.change_direction(d).body == s.body,
        s.change_direction(d).grid_size == s.grid_size,
{
}

/// A snake whose head lies on the segment at index `i`, other than the head
/// itself, collides.
pub proof fn lemma_collides_when_head_repeats(s: SnakeView, i: int)
    requires
        1 <= i < s.body.len(),
        s.body[i] == s.body[0],
    ensures
        s.collides(),
{
}

/// A snake no two of whose segments share a cell does not collide.
pub proof fn lemma_no_collision_without_duplicates(s: SnakeView)
    requires
        s.body.no_duplicates(),
    ensures
        !s.collides(),
{
}

/// A snake of a single segment, or of none, does not collide.
pub proof fn lemma_single_segment_never_collides(s: SnakeView)
    requires
        s.body.len() <= 1,
    ensures
        !s.collides(),
{
}

impl Snake {
    /// Creates the snake every game starts with, for a grid of dimension
    /// `grid_size`.
    ///
    /// The body is the same on every grid. It lies on the grid if the grid
    /// has at least eight cells along each axis; on a smaller grid it starts
    /// off the grid, and each step brings its head onto it.
    pub fn new(grid_size: i32) -> (s: Snake)
        ensures
            s@ == SnakeView::initial(grid_size as int),
            grid_size >= 1 ==> s@.wf(),
            grid_size >= 8 ==> s@.on_grid(),
    {
        let mut body: Vec<Position> = Vec::new();
        body.push(Position { x: 5, y: 5 });
        body.push(Position { x: 5, y: 6 });
        body.push(Position { x: 5, y: 7 });
        assert(body@ =~= SnakeView::initial(grid_size as int).body);
        Snake { body, direction: Direction::Right, grid_size }
    }

    /// Advances the snake by one cell in its current direction. The new head
    /// is a cell of the grid, every other segment takes the place of the one
    /// before it, and the length stays as it was.
    pub fn move_forward(&mut self)
        requires
            old(self)@.wf(),
        ensures
            final(self)@ == old(self)@.move_forward(),
            final(self)@.body.len() == old(self)@.body.len(),
            final(self)@.body[0].in_grid(final(self)@.grid_size),
            final(self)@.wf(),
            old(self)@.on_grid() ==> final(self)@.on_grid(),
    {
        let new_head = self.body[0].step(self.direction, self.grid_size);
        self.body.insert(0, new_head);
        self.body.pop();
    }

    /// Turns the snake towards `new_direction`, unless that is the opposite
    /// of its current direction: the snake cannot reverse into its own neck,
    /// and such a request is ignored.
    pub fn change_direction(&mut self, new_direction: Direction)
        ensures
            final(self)@ == old(self)@.change_direction(new_direction),
            new_direction == old(self).direction.spec_opposite()
                ==> final(self).direction == old(self).direction,
            new_direction != old(self).direction.spec_opposite()
                ==> final(self).direction == new_direction,
    {
        if new_direction != self.direction.opposite() {
            self.direction = new_direction;
        }
    }

    /// Grows the snake by one segment, a copy of its tail.
    pub fn eat(&mut self)
        requires
            old(self)@.body.len() >= 1,
        ensures
            final(self)@ == old(self)@.eat(),
            final(self)@.body.len() == old(self)@.body.len() + 1,
            old(self)@.wf() ==> final(self)@.wf(),
            old(self)@.on_grid() ==> final(self)@.on_grid(),
    {
        let tail = self.body[self.body.len() - 1];
        self.body.push(tail);
    }

    /// Tells whether the head lies on another segment of the body. A body of
    /// fewer than two segments never collides.
    pub fn check_collision(&self) -> (r: bool)
        ensures
            r == self@.collides(),
    {
        if self.body.len() < 2 {
            return false;
        }
        let head = self.body[0];
        let mut i: usize = 1;
        while i < self.body.len()
            invariant
                1 <= i <= self.body.len(),
                head == self.body@[0],
                forall|j: int| 1 <= j < i ==> self.body@[j] != head,
            decreases self.body.len() - i,
        {
            if self.body[i] == head {
                assert(self@.body[i as int] == self@.body[0]);
                return true;
            }
            i += 1;
        }
        false
    }
}

} // verus!
