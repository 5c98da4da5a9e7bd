use snake_game::{food_from_choice, free_positions, place_food, GridExhausted, Position, Snake};

fn at(x: i32, y: i32) -> Position {
    Position { x, y }
}

fn whole_grid(n: i32) -> Vec<Position> {
    let mut cells = Vec::new();
    for x in 0..n {
        for y in 0..n {
            cells.push(at(x, y));
        }
    }
    cells
}

#[test]
fn free_positions_of_an_empty_grid_in_column_order() {
    assert_eq!(free_positions(&[], 2), vec![at(0, 0), at(0, 1), at(1, 0), at(1, 1)]);
    assert_eq!(free_positions(&[], 20), whole_grid(20));
}

#[test]
fn free_positions_leaves_out_the_occupied_cells() {
    let occupied = [at(1, 0), at(0, 0), at(1, 0), at(7, 7)];
    assert_eq!(free_positions(&occupied, 2), vec![at(0, 1), at(1, 1)]);
    let body = Snake::new(20).body;
    let free = free_positions(&body, 20);
    assert_eq!(free.len(), 397);
    assert_eq!(free[0], at(0, 0));
    assert_eq!(free[105], at(5, 8));
    assert_eq!(free[396], at(19, 19));
    assert!(body.iter().all(|p| !free.contains(p)));
}

#[test]
fn free_positions_of_a_grid_without_cells() {
    assert_eq!(free_positions(&[], 0), vec![]);
    assert_eq!(free_positions(&[at(0, 0)], -3), vec![]);
}

#[test]
fn free_positions_of_a_full_grid() {
    assert_eq!(free_positions(&whole_grid(3), 3), vec![]);
}

#[test]
fn food_from_choice_keeps_the_chosen_cell() {
    assert_eq!(food_from_choice(Some(at(3, 4))), Ok(at(3, 4)));
}

#[test]
fn food_from_choice_without_a_choice_is_exhaustion() {
    assert_eq!(food_from_choice(None), Err(GridExhausted));
}

#[test]
fn place_food_on_a_full_grid_is_exhaustion() {
    let occupied = whole_grid(20);
    assert_eq!(occupied.len(), 400);
    assert_eq!(place_food(&occupied, 20), Err(GridExhausted));
}

#[test]
fn place_food_on_a_grid_without_cells_is_exhaustion() {
    assert_eq!(place_food(&[], 0), Err(GridExhausted));
    assert_eq!(place_food(&[], -1), Err(GridExhausted));
}

#[test]
fn place_food_takes_the_only_free_cell() {
    for spare in [at(0, 0), at(7, 13), at(19, 19)] {
        let occupied: Vec<Position> =
            whole_grid(20).into_iter().filter(|p| *p != spare).collect();
        assert_eq!(occupied.len(), 399);
        assert_eq!(place_food(&occupied, 20), Ok(spare));
    }
}

#[test]
fn place_food_avoids_the_occupied_cells() {
    let body = Snake::new(20).body;
    for _ in 0..200 {
        let food = place_food(&body, 20).unwrap();
        assert!(!body.contains(&food));
        assert!(0 <= food.x && food.x < 20 && 0 <= food.y && food.y < 20);
    }
}

#[test]
fn place_food_avoids_the_occupied_cells_on_a_crowded_grid() {
    let occupied = [at(0, 0), at(1, 1), at(0, 1)];
    for _ in 0..50 {
        assert_eq!(place_food(&occupied, 2), Ok(at(1, 0)));
    }
    let occupied = [at(0, 0), at(1, 1)];
    for _ in 0..50 {
        let food = place_food(&occupied, 2).unwrap();
        assert!(food == at(0, 1) || food == at(1, 0));
    }
}

#[test]
fn place_food_reaches_every_free_cell() {
    let occupied = [at(0, 0)];
    let mut seen = Vec::new();
    for _ in 0..2000 {
        let food = place_food(&occupied, 2).unwrap();
        if !seen.contains(&food) {
            seen.push(food);
        }
    }
    assert_eq!(seen.len(), 3);
}

#[test]
fn place_food_ignores_occupied_cells_off_the_grid() {
    let occupied = [at(5, 5), at(-1, 0), at(0, 0)];
    assert_eq!(place_food(&occupied, 1), Err(GridExhausted));
    assert_eq!(place_food(&occupied[..2], 1), Ok(at(0, 0)));
}
