//! One round of the game: a snake, the food it is after, and the update
//! that a driver applies once per step of simulated time.

use vstd::prelude::*;
use crate::food::{free_cells, place_food, GridExhausted};
use crate::position::Position;
use crate::snake::{Snake, SnakeView};

verus! {

/// The state of a round.
#[derive(Debug)]
pub struct Game {
    pub snake: Snake,
    pub food: Position,
}

/// How a round stands after an update.
#[derive(Clone, Copy, Debug, PartialEq, Eq, Structural)]
pub enum Status {
    /// The round goes on.
    Running,
    /// The snake ran into itself: the round is over.
    Collided,
    /// The snake ate and no cell is left for new food: the round is over.
    GridExhausted,
}

/// The mathematical value of a [`Game`].
pub struct GameView {
    pub snake: SnakeView,
    pub food: Position,
}

impl View for Game {
    type V = GameView;

    open spec fn view(&self) -> GameView {
        GameView { snake: self.snake@, food: self.food }
    }
}

impl GameView {
    /// Whether the next step brings the head onto the food.
    pub open spec fn eats(self) -> bool {
        self.snake.move_forward().body[0] == self.food
    }

    /// The snake after the next update: moved one step, and grown by one
    /// segment if that step brought its head onto the food.
    pub open spec fn snake_after(self) -> SnakeView {
        if self.eats() {
            self.snake.move_forward().eat()
        } else {
            self.snake.move_forward()
        }
    }

    /// Whether the next update needs new food and finds no free cell for
    /// it.
    pub open spec fn exhausts(self) -> bool {
        self.eats() && free_cells(self.snake_after().body, self.snake.grid_size).len() == 0
    }

    /// Whether the food may lie on `food` after the next update: on one of
    /// the free cells if the food was eaten and a free cell is left, and
    /// where it was otherwise.
    pub open spec fn admits_food(self, food: Position) -> bool {
        if self.eats() && !self.exhausts() {
            free_cells(self.snake_after().body, self.snake.grid_size).contains(food)
        } else {
            food == self.food
        }
    }

    /// How the round stands after the next update. Food is dealt with
    /// before collision is looked for: an exhausted grid ends the round
    /// whether or not the snake also collides.
    pub open spec fn status_after(self) -> Status {
        if self.exhausts() {
            Status::GridExhausted
        } else if self.snake_after().collides() {
            Status::Collided
        } else {
            Status::Running
        }
    }
}

impl Game {
    /// Starts a round on a grid of dimension `grid_size`, with the initial
    /// snake and food on a random free cell.
    ///
    /// Fails exactly if the grid has no cell at all.
    pub fn new(grid_size: i32) -> (r: Result<Game, GridExhausted>)
        ensures
            r is Err <==> grid_size <= 0,
            r matches Ok(game) ==> game.snake@ == SnakeView::initial(grid_size as int),
            r matches Ok(game) ==> game.snake@.wf(),
            r matches Ok(game) ==> game.food.in_grid(grid_size as int),
            r matches Ok(game) ==> !game.snake@.body.contains(game.food),
    {
        let snake = Snake::new(grid_size);
        let placed = place_food(snake.body.as_slice(), grid_size);
        proof {
            let origin = Position { x: 0, y: 0 };
            assert(!snake.body@.contains(origin));
            assert(grid_size >= 1 ==> origin.in_grid(grid_size as int));
        }
        match placed {
            Ok(food) => Ok(Game { snake, food }),
            Err(e) => Err(e),
        }
    }

    /// Advances the round by one step of simulated time: moves the snake;
    /// if its head then lies on the food, lets it eat and places new food
    /// on a random free cell; then looks for a collision.
    ///
    /// The snake and the status afterwards are determined by the state
    /// before. The food stays where it was unless it was eaten and a free
    /// cell was left, and then lies on one of the free cells.
    pub fn tick(&mut self) -> (status: Status)
        requires
            old(self).snake@.wf(),
        ensures
            final(self).snake@ == old(self)@.snake_after(),
            final(self).snake@.wf(),
            status == old(self)@.status_after(),
            old(self)@.admits_food(final(self).food),
            old(self)@.eats() && !old(self)@.exhausts()
                ==> final(self).food.in_grid(final(self).snake@.grid_size),
            old(self)@.eats() && !old(self)@.exhausts()
                ==> !final(self).snake@.body.contains(final(self).food),
    {
        self.snake.move_forward();
        if self.snake.body[0] == self.food {
            self.snake.eat();
            match place_food(self.snake.body.as_slice(), self.snake.grid_size) {
                Ok(food) => {
                    self.food = food;
                },
                Err(_) => {
                    return Status::GridExhausted;
                },
            }
        }
        if self.snake.check_collision() {
            Status::Collided
        } else {
            Status::Running
        }
    }
}

} // verus!
