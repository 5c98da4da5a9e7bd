use snake_game::{Direction, Game, GridExhausted, Position, Snake, Status};

fn at(x: i32, y: i32) -> Position {
    Position { x, y }
}

fn snake(cells: &[(i32, i32)], direction: Direction, grid_size: i32) -> Snake {
    Snake { body: cells.iter().map(|&(x, y)| at(x, y)).collect(), direction, grid_size }
}

#[test]
fn new_game_has_the_initial_snake_and_food_off_it() {
    for _ in 0..50 {
        let game = Game::new(20).unwrap();
        assert_eq!(game.snake.body, vec![at(5, 5), at(5, 6), at(5, 7)]);
        assert_eq!(game.snake.direction, Direction::Right);
        assert_eq!(game.snake.grid_size, 20);
        assert!(!game.snake.body.contains(&game.food));
        assert!(0 <= game.food.x && game.food.x < 20);
        assert!(0 <= game.food.y && game.food.y < 20);
    }
}

#[test]
fn new_game_on_a_single_cell() {
    let game = Game::new(1).unwrap();
    assert_eq!(game.food, at(0, 0));
    assert_eq!(game.snake.body, vec![at(5, 5), at(5, 6), at(5, 7)]);
}

#[test]
fn new_game_without_a_grid_is_exhaustion() {
    assert_eq!(Game::new(0).err(), Some(GridExhausted));
    assert_eq!(Game::new(-20).err(), Some(GridExhausted));
}

#[test]
fn tick_moves_the_snake_and_keeps_the_food() {
    let mut game = Game { snake: Snake::new(20), food: at(10, 10) };
    assert_eq!(game.tick(), Status::Running);
    assert_eq!(game.snake.body, vec![at(6, 5), at(5, 5), at(5, 6)]);
    assert_eq!(game.food, at(10, 10));
}

#[test]
fn tick_eats_the_food_ahead_and_places_new_food() {
    for _ in 0..50 {
        let mut game = Game { snake: Snake::new(20), food: at(6, 5) };
        assert_eq!(game.tick(), Status::Running);
        assert_eq!(game.snake.body, vec![at(6, 5), at(5, 5), at(5, 6), at(5, 6)]);
        assert!(!game.snake.body.contains(&game.food));
        assert!(0 <= game.food.x && game.food.x < 20);
        assert!(0 <= game.food.y && game.food.y < 20);
    }
}

#[test]
fn tick_does_not_eat_food_that_is_not_under_the_head() {
    let mut game = Game { snake: Snake::new(20), food: at(5, 6) };
    assert_eq!(game.tick(), Status::Running);
    assert_eq!(game.snake.body.len(), 3);
    assert_eq!(game.food, at(5, 6));
}

#[test]
fn tick_reports_a_collision() {
    let body = snake(&[(4, 6), (3, 6), (3, 5), (4, 5), (5, 5)], Direction::Up, 20);
    let mut game = Game { snake: body, food: at(0, 0) };
    assert_eq!(game.tick(), Status::Collided);
    assert_eq!(game.snake.body, vec![at(4, 5), at(4, 6), at(3, 6), at(3, 5), at(4, 5)]);
    assert_eq!(game.food, at(0, 0));
}

#[test]
fn tick_spares_a_snake_that_follows_its_tail() {
    let body = snake(&[(0, 0), (0, 1), (1, 1), (1, 0)], Direction::Right, 20);
    let mut game = Game { snake: body, food: at(9, 9) };
    assert_eq!(game.tick(), Status::Running);
    assert_eq!(game.snake.body, vec![at(1, 0), at(0, 0), at(0, 1), at(1, 1)]);
}

#[test]
fn tick_reports_exhaustion_when_the_last_cell_is_eaten() {
    let body = snake(&[(0, 1), (0, 0), (1, 0), (1, 0)], Direction::Right, 2);
    let mut game = Game { snake: body, food: at(1, 1) };
    assert_eq!(game.tick(), Status::GridExhausted);
    assert_eq!(game.snake.body, vec![at(1, 1), at(0, 1), at(0, 0), at(1, 0), at(1, 0)]);
    assert_eq!(game.food, at(1, 1));
}

#[test]
fn tick_puts_new_food_on_the_only_free_cell() {
    let body = snake(&[(0, 1), (0, 0), (1, 0)], Direction::Right, 2);
    let mut game = Game { snake: body, food: at(1, 1) };
    assert_eq!(game.tick(), Status::Running);
    assert_eq!(game.snake.body, vec![at(1, 1), at(0, 1), at(0, 0), at(0, 0)]);
    assert_eq!(game.food, at(1, 0));
}

#[test]
fn tick_deals_with_food_before_collision() {
    let body = snake(&[(0, 0), (1, 0), (1, 1), (0, 1), (1, 0)], Direction::Right, 2);
    let mut game = Game { snake: body, food: at(1, 0) };
    assert_eq!(game.tick(), Status::GridExhausted);
    assert_eq!(game.snake.body.len(), 6);
    assert!(game.snake.check_collision());
}

#[test]
fn tick_after_a_turn() {
    let mut game = Game { snake: Snake::new(20), food: at(0, 0) };
    game.snake.change_direction(Direction::Left);
    assert_eq!(game.tick(), Status::Running);
    assert_eq!(game.snake.body[0], at(6, 5));
    game.snake.change_direction(Direction::Up);
    assert_eq!(game.tick(), Status::Running);
    assert_eq!(game.snake.body, vec![at(6, 4), at(6, 5), at(5, 5)]);
}

#[test]
fn a_round_never_shortens_the_snake() {
    let mut game = Game::new(6).unwrap();
    let turns = [Direction::Down, Direction::Right, Direction::Up, Direction::Left];
    let mut length = game.snake.body.len();
    for round in 0..300 {
        game.snake.change_direction(turns[(round / 7) % 4]);
        let status = game.tick();
        assert!(game.snake.body.len() == length || game.snake.body.len() == length + 1);
        length = game.snake.body.len();
        if status != Status::Running {
            break;
        }
        assert!(!game.snake.body.contains(&game.food));
    }
}
