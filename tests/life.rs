use monkey::life::{Cell, Direction, GameState, Point};

fn sample_board() -> GameState {
    let mut game = GameState::new(50, 50);
    for (col, row) in [(0, 1), (1, 1), (1, 0), (2, 0), (2, 1)] {
        game.set_cell(Point::new(col, row), Cell::Alive);
    }
    game
}

#[test]
fn cell_states() {
    assert!(Cell::Alive.is_alive());
    assert!(!Cell::Alive.is_dead());
    assert!(Cell::Dead.is_dead());
    assert!(!Cell::Dead.is_alive());
}

#[test]
fn neighbors_in_each_direction() {
    let p = Point::new(5, 7);
    let expected = [
        (Direction::N, 5, 8),
        (Direction::NE, 6, 8),
        (Direction::E, 6, 7),
        (Direction::SE, 6, 6),
        (Direction::S, 5, 6),
        (Direction::SW, 4, 6),
        (Direction::W, 4, 7),
        (Direction::NW, 4, 8),
    ];
    for (d, col, row) in expected {
        assert_eq!(p.get_neighbor(&d), Some(Point::new(col, row)), "{:?}", d);
    }
}

#[test]
fn neighbors_off_the_edges() {
    let origin = Point::new(0, 0);
    assert_eq!(origin.get_neighbor(&Direction::S), None);
    assert_eq!(origin.get_neighbor(&Direction::W), None);
    assert_eq!(origin.get_neighbor(&Direction::SW), None);
    assert_eq!(origin.get_neighbor(&Direction::NE), Some(Point::new(1, 1)));
    let far = Point::new(usize::MAX, usize::MAX);
    assert_eq!(far.get_neighbor(&Direction::N), None);
    assert_eq!(far.get_neighbor(&Direction::E), None);
    assert_eq!(far.get_neighbor(&Direction::SW), Some(Point::new(usize::MAX - 1, usize::MAX - 1)));
}

#[test]
fn all_directions_in_order() {
    assert_eq!(
        Direction::all(),
        vec![
            Direction::N,
            Direction::NE,
            Direction::E,
            Direction::SE,
            Direction::S,
            Direction::SW,
            Direction::W,
            Direction::NW
        ]
    );
}

#[test]
fn new_board_is_dead() {
    let game = GameState::new(3, 2);
    assert_eq!(game.width(), 3);
    assert_eq!(game.height(), 2);
    assert_eq!(game.alive_cell_count(), 0);
    assert_eq!(game.get_cell(Point::new(2, 1)), Some(Cell::Dead));
    assert_eq!(game.get_cell(Point::new(3, 0)), None);
    assert_eq!(game.get_cell(Point::new(0, 2)), None);
}

#[test]
fn set_and_get_cell() {
    let mut game = GameState::new(4, 3);
    game.set_cell(Point::new(3, 2), Cell::Alive);
    assert_eq!(game.get_cell(Point::new(3, 2)), Some(Cell::Alive));
    assert_eq!(game.get_cell(Point::new(2, 3)), None);
    assert_eq!(game.get_cell(Point::new(2, 2)), Some(Cell::Dead));
    assert_eq!(game.alive_cell_count(), 1);
    game.set_cell(Point::new(3, 2), Cell::Dead);
    assert_eq!(game.alive_cell_count(), 0);
}

#[test]
fn alive_counts_on_sample_board() {
    let game = sample_board();
    assert_eq!(game.alive_cell_count(), 5);
    assert_eq!(game.alive_neighbor_count(Point::new(0, 0)), 3);
    assert_eq!(game.alive_neighbor_count(Point::new(1, 1)), 4);
    assert_eq!(game.alive_neighbor_count(Point::new(10, 10)), 0);
}

#[test]
fn neighbor_count_at_far_corner() {
    let mut game = GameState::new(3, 3);
    game.set_cell(Point::new(1, 1), Cell::Alive);
    game.set_cell(Point::new(2, 1), Cell::Alive);
    game.set_cell(Point::new(1, 2), Cell::Alive);
    assert_eq!(game.alive_neighbor_count(Point::new(2, 2)), 3);
    assert_eq!(game.alive_neighbor_count(Point::new(1, 1)), 2);
}

#[test]
fn update_keeps_board() {
    let mut game = sample_board();
    game.update();
    assert_eq!(game.alive_cell_count(), 5);
    assert_eq!(game.get_cell(Point::new(0, 1)), Some(Cell::Alive));
}

#[test]
fn empty_board() {
    let game = GameState::new(0, 0);
    assert_eq!(game.alive_cell_count(), 0);
    assert_eq!(game.get_cell(Point::new(0, 0)), None);
    assert_eq!(game.alive_neighbor_count(Point::new(0, 0)), 0);
}
