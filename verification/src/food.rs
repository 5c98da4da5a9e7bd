//! Food placement: the free cells of the grid, and a random choice among
//! them.

use vstd::prelude::*;
use vstd::arithmetic::div_mod::{
    lemma_fundamental_div_mod,
    lemma_fundamental_div_mod_converse,
    lemma_mod_bound,
};
use rand::seq::SliceRandom;
use crate::position::Position;

verus! {

/// The grid has no free cell left: every cell is occupied.
#[derive(Clone, Copy, Debug, PartialEq, Eq, Structural)]
pub struct GridExhausted;

/// All cells of the grid of dimension `n`, column by column: first the
/// cells with `x == 0` by rising `y`, then those with `x == 1`, and so on.
/// A grid whose dimension is not positive has no cells.
pub open spec fn grid_cells(n: int) -> Seq<Position> {
    Seq::new(
        (if n > 0 { n * n } else { 0 }) as nat,
        |i: int| Position { x: (i / n) as i32, y: (i % n) as i32 },
    )
}

/// The test that a cell is free: it is none of the `occupied` ones.
pub open spec fn is_free(occupied: Seq<Position>) -> spec_fn(Position) -> bool {
    |p: Position| !occupied.contains(p)
}

/// The free cells of the grid of dimension `n`: its cells, in the order of
/// [`grid_cells`], without the `occupied` ones.
pub open spec fn free_cells(occupied: Seq<Position>, n: int) -> Seq<Position> {
    grid_cells(n).filter(is_free(occupied))
}

/// The cell at index `x * n + y` of the grid is the one in column `x` and
/// row `y`.
proof fn lemma_grid_cell_at(x: int, y: int, n: int)
    requires
        0 <= x < n <= i32::MAX,
        0 <= y < n,
    ensures
        0 <= x * n + y < grid_cells(n).len(),
        grid_cells(n)[x * n + y] == (Position { x: x as i32, y: y as i32 }),
{
    assert(0 <= x * n && x * n + n <= n * n) by (nonlinear_arith)
        requires
            0 <= x < n,
    ;
    lemma_fundamental_div_mod_converse(x * n + y, n, x, y);
}

/// The grid's cells are exactly the positions with both coordinates in
/// `0..n`.
pub proof fn lemma_grid_cells_members(n: int, p: Position)
    requires
        n <= i32::MAX,
    ensures
        grid_cells(n).contains(p) <==> p.in_grid(n),
{
    if p.in_grid(n) {
        lemma_grid_cell_at(p.x as int, p.y as int, n);
        assert(grid_cells(n)[p.x * n + p.y] == p);
    }
    if grid_cells(n).contains(p) {
        let i: int = choose|i: int| 0 <= i < grid_cells(n).len() && grid_cells(n)[i] == p;
        lemma_fundamental_div_mod(i, n);
        lemma_mod_bound(i, n);
        assert(0 <= i / n < n) by (nonlinear_arith)
            requires
                0 <= i < n * n,
                n > 0,
                i == n * (i / n) + i % n,
                0 <= i % n < n,
        ;
    }
}

/// A cell is free exactly if it belongs to the grid and is not occupied.
pub proof fn lemma_free_cells_members(occupied: Seq<Position>, n: int, p: Position)
    requires
        n <= i32::MAX,
    ensures
        free_cells(occupied, n).contains(p) <==> p.in_grid(n) && !occupied.contains(p),
{
    let cells = grid_cells(n);
    let free = free_cells(occupied, n);
    lemma_grid_cells_members(n, p);
    if free.contains(p) {
        cells.lemma_filter_contains_rev(is_free(occupied), p);
        let j: int = choose|j: int| 0 <= j < free.len() && free[j] == p;
        cells.lemma_filter_pred(is_free(occupied), j);
    }
    if p.in_grid(n) && !occupied.contains(p) {
        let i: int = choose|i: int| 0 <= i < cells.len() && cells[i] == p;
        cells.lemma_filter_contains(is_free(occupied), i);
    }
}

/// Tells whether `p` is one of `cells`.
fn occurs_in(cells: &[Position], p: Position) -> (r: bool)
    ensures
        r == cells@.contains(p),
{
    let mut i: usize = 0;
    while i < cells.len()
        invariant
            i <= cells.len(),
            forall|j: int| 0 <= j < i ==> cells@[j] != p,
        decreases cells.len() - i,
    {
        if cells[i] == p {
            return true;
        }
        i += 1;
    }
    false
}

/// Lists the free cells of the grid of dimension `n`: every cell of the
/// grid that is not among `occupied`, column by column.
pub fn free_positions(occupied: &[Position], n: i32) -> (free: Vec<Position>)
    ensures
        free@ == free_cells(occupied@, n as int),
{
    let mut free: Vec<Position> = Vec::new();
    if n <= 0 {
        proof {
            reveal(Seq::filter);
        }
        return free;
    }
    let ghost cells = grid_cells(n as int);
    let ghost pred = is_free(occupied@);
    let mut x: i32 = 0;
    proof {
        reveal(Seq::filter);
        assert(cells.take(0) =~= Seq::<Position>::empty());
    }
    while x < n
        invariant
            0 <= x <= n,
            cells == grid_cells(n as int),
            pred == is_free(occupied@),
            0 <= x * n <= cells.len(),
            free@ == cells.take(x * n).filter(pred),
        decreases n - x,
    {
        let mut y: i32 = 0;
        while y < n
            invariant
                0 <= x < n,
                0 <= y <= n,
                cells == grid_cells(n as int),
                pred == is_free(occupied@),
                0 <= x * n + y <= cells.len(),
                free@ == cells.take(x * n + y).filter(pred),
            decreases n - y,
        {
            let p = Position { x, y };
            proof {
                let k: int = x * n + y;
                lemma_grid_cell_at(x as int, y as int, n as int);
                assert(cells.take(k + 1) =~= cells.take(k).push(p));
                cells.take(k).lemma_filter_push(p, pred);
            }
            if !occurs_in(occupied, p) {
                free.push(p);
            }
            y += 1;
        }
        proof {
            assert(x * n + n == (x + 1) * n) by (nonlinear_arith);
        }
        x += 1;
    }
    proof {
        assert(cells.take(n * n) =~= cells);
    }
    free
}

/// `rand::rngs::ThreadRng`, the handle to the random number generator of
/// the calling thread. Nothing is known of what it holds.
#[verifier::external_type_specification]
#[verifier::external_body]
pub struct ExThreadRng(rand::rngs::ThreadRng);

/// Trusted: `rand::thread_rng` returns the handle to the generator of the
/// calling thread. Nothing is claimed of it. The generator is seeded by the
/// operating system, and `rand` panics if the system gives it no entropy.
pub assume_specification[ rand::thread_rng ]() -> (rng: rand::rngs::ThreadRng);

/// Picks one of `cells` with a number drawn from `rng`.
///
/// Trusted: calls `rand::seq::SliceRandom::choose` on the slice. By its
/// source, `choose` returns `None` for an empty slice, and otherwise a
/// reference to the element at an index that it draws from `rng` below the
/// slice's length. Which element that is depends on the generator and is
/// not stated.
#[verifier::external_body]
fn choose_cell(cells: &Vec<Position>, rng: &mut rand::rngs::ThreadRng) -> (r: Option<Position>)
    ensures
        cells@.len() == 0 ==> r is None,
        cells@.len() > 0 ==> r is Some && cells@.contains(r.unwrap()),
{
    cells.choose(rng).copied()
}

/// The outcome of a placement, from the outcome of the choice among the
/// free cells: the chosen cell, or [`GridExhausted`] where there was none to
/// choose.
pub fn food_from_choice(choice: Option<Position>) -> (r: Result<Position, GridExhausted>)
    ensures
        r == (match choice {
            Some(p) => Ok::<Position, GridExhausted>(p),
            None => Err::<Position, GridExhausted>(GridExhausted),
        }),
{
    match choice {
        Some(p) => Ok(p),
        None => Err(GridExhausted),
    }
}

/// Places food on the grid of dimension `n`: chooses at random one of the
/// cells of the grid that is not among `occupied`.
///
/// Fails with [`GridExhausted`] exactly if the grid has no free cell, that
/// is, if every cell of the grid is occupied.
pub fn place_food(occupied: &[Position], n: i32) -> (r: Result<Position, GridExhausted>)
    ensures
        r is Err <==> free_cells(occupied@, n as int).len() == 0,
        r is Err <==> forall|p: Position| p.in_grid(n as int) ==> occupied@.contains(p),
        r matches Ok(p) ==> free_cells(occupied@, n as int).contains(p),
        r matches Ok(p) ==> p.in_grid(n as int) && !occupied@.contains(p),
{
    let free = free_positions(occupied, n);
    let mut rng = rand::thread_rng();
    let choice = choose_cell(&free, &mut rng);
    proof {
        if free@.len() > 0 {
            lemma_free_cells_members(occupied@, n as int, free@[0]);
            lemma_free_cells_members(occupied@, n as int, choice.unwrap());
        } else {
            assert forall|p: Position| p.in_grid(n as int) implies occupied@.contains(p) by {
                lemma_free_cells_members(occupied@, n as int, p);
            }
        }
    }
    food_from_choice(choice)
}

} // verus!
