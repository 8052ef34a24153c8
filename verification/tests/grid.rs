//! Tests for the grid engine: indexing, bounds reporting, the toroidal
//! tick, and the mutation helpers.

use game_of_life::Cell;
use game_of_life::IndexError;
use game_of_life::Universe;

fn input_spaceship() -> Universe {
    let mut universe = Universe::new(6, 6);
    universe.set_cells_alive(&[(1, 2), (2, 3), (3, 1), (3, 2), (3, 3)]);
    universe
}

fn expected_spaceship() -> Universe {
    let mut universe = Universe::new(6, 6);
    universe.set_cells_alive(&[(2, 1), (2, 3), (3, 2), (3, 3), (4, 2)]);
    universe
}

fn empty_universe() -> Universe {
    Universe::new(6, 6)
}

#[test]
pub fn test_get_index() {
    let universe = Universe::new(3, 4);
    assert_eq!(universe.get_index(0, 0), 0);
    assert_eq!(universe.get_index(1, 1), 4);
    assert_eq!(universe.get_index(1, 2), 5);
    assert_eq!(universe.get_index(3, 2), 11);
}

#[test]
fn test_row_bounds_error() {
    let universe = Universe::new(6, 6);
    assert_eq!(
        universe.checked_index(6, 1),
        Err(IndexError::RowOutOfBounds)
    );
    // The row is checked first even when the column is bad too.
    assert_eq!(
        universe.checked_index(6, 6),
        Err(IndexError::RowOutOfBounds)
    );
}

#[test]
fn test_column_bounds_error() {
    let universe = Universe::new(6, 6);
    assert_eq!(
        universe.checked_index(1, 6),
        Err(IndexError::ColumnOutOfBounds)
    );
}

#[test]
fn test_checked_index_in_bounds() {
    let universe = Universe::new(3, 4);
    assert_eq!(universe.checked_index(0, 0), Ok(0));
    assert_eq!(universe.checked_index(3, 2), Ok(11));
}

#[test]
pub fn test_tick() {
    let mut universe = input_spaceship();
    let expected_universe = expected_spaceship();
    universe.tick();
    assert_eq!(&universe, &expected_universe);
}

#[test]
fn test_tick_exact_alive_set() {
    let mut universe = input_spaceship();
    universe.tick();
    let expected_alive = [(2, 1), (2, 3), (3, 2), (3, 3), (4, 2)];
    for row in 0..6 {
        for col in 0..6 {
            let should_live = expected_alive.contains(&(row, col));
            assert_eq!(universe.is_cell_alive(row, col), should_live);
        }
    }
}

#[test]
pub fn test_clear() {
    let mut universe = input_spaceship();
    let expected_universe = empty_universe();
    universe.clear();
    assert_eq!(&universe, &expected_universe);
    for row in 0..6 {
        for col in 0..6 {
            assert!(!universe.is_cell_alive(row, col));
        }
    }
}

#[test]
fn test_clear_on_empty_is_noop() {
    let mut universe = empty_universe();
    let expected_universe = empty_universe();
    universe.clear();
    assert_eq!(&universe, &expected_universe);
}

#[test]
pub fn test_set_cell_alive() {
    let mut universe = empty_universe();
    // setting a dead cell alive should return true
    assert!(universe.set_cell_alive(2, 1));
    assert!(universe.is_cell_alive(2, 1));
    // setting an alive cell should return false
    assert!(!universe.set_cell_alive(2, 1));
    assert!(universe.is_cell_alive(2, 1));
}

#[test]
fn test_toggle_cell() {
    let mut universe = Universe::new(4, 4);
    universe.toggle_cell(2, 3);
    assert!(universe.is_cell_alive(2, 3));
    assert!(!universe.is_cell_alive(3, 2));
    universe.toggle_cell(2, 3);
    assert!(!universe.is_cell_alive(2, 3));
}

#[test]
fn test_dimensions_and_cells_view() {
    let universe = Universe::new(3, 4);
    assert_eq!(universe.width(), 3);
    assert_eq!(universe.height(), 4);
    let cells = universe.cells();
    assert_eq!(cells.len(), 12);
    assert!(cells.iter().all(|c| *c == Cell::Dead));
}

#[test]
fn test_initialize_pattern() {
    let mut universe = Universe::new(3, 3);
    universe.initialize();
    for row in 0..3u32 {
        for col in 0..3u32 {
            let i = (row * 3 + col) as usize;
            let expected = i % 2 == 0 || i % 7 == 0;
            assert_eq!(universe.is_cell_alive(row, col), expected);
        }
    }
    // flat position 7 is odd but divisible by 7, so it must be alive
    assert!(universe.is_cell_alive(2, 1));
}

#[test]
fn test_rule_completeness_all_sixteen_cases() {
    for n in 0u8..=8 {
        let from_alive = Cell::Alive.next_state(n);
        let from_dead = Cell::Dead.next_state(n);
        if n < 2 {
            assert_eq!(from_alive, Cell::Dead); // underpopulation
        } else if n == 2 || n == 3 {
            assert_eq!(from_alive, Cell::Alive); // survival
        } else {
            assert_eq!(from_alive, Cell::Dead); // overpopulation
        }
        if n == 3 {
            assert_eq!(from_dead, Cell::Alive); // reproduction
        } else {
            assert_eq!(from_dead, Cell::Dead); // unchanged
        }
    }
}

#[test]
fn test_cell_from_bool() {
    assert_eq!(Cell::from(true), Cell::Alive);
    assert_eq!(Cell::from(false), Cell::Dead);
}

#[test]
fn test_degenerate_width_neighbor_count() {
    // A 1-wide grid: east and west wrap onto the cell's own column.
    let mut universe = Universe::new(1, 3);
    assert!(universe.set_cell_alive(0, 0));
    // Neighbors of (1, 0): the cell at (0, 0) is its NW, N and NE
    // neighbor at once, so it counts three times.
    assert_eq!(universe.live_neighbor_count(1, 0), 3);
    // Neighbors of (0, 0): the cell itself is its own W and E neighbor,
    // so it counts twice; rows 1 and 2 are dead.
    assert_eq!(universe.live_neighbor_count(0, 0), 2);
}

#[test]
fn test_degenerate_height_neighbor_count() {
    // A 1-high grid, symmetric to the 1-wide case.
    let mut universe = Universe::new(3, 1);
    assert!(universe.set_cell_alive(0, 0));
    assert_eq!(universe.live_neighbor_count(0, 1), 3);
    assert_eq!(universe.live_neighbor_count(0, 0), 2);
}

#[test]
fn test_single_cell_grid_neighbor_count() {
    // On a 1x1 grid all eight wrapped neighbors are the cell itself.
    let mut universe = Universe::new(1, 1);
    assert_eq!(universe.live_neighbor_count(0, 0), 0);
    assert!(universe.set_cell_alive(0, 0));
    assert_eq!(universe.live_neighbor_count(0, 0), 8);
}

#[test]
fn test_toroidal_corner_wrap() {
    // On a 2x2 grid, (0, 0) is the diagonal neighbor of (1, 1) through
    // all four corners, so it is counted four times.
    let mut universe = Universe::new(2, 2);
    assert!(universe.set_cell_alive(0, 0));
    assert_eq!(universe.live_neighbor_count(1, 1), 4);
    // and twice each as the straight neighbor of (0, 1) and (1, 0)
    assert_eq!(universe.live_neighbor_count(0, 1), 2);
    assert_eq!(universe.live_neighbor_count(1, 0), 2);
}

#[test]
fn test_set_cells_alive_empty_list() {
    let mut universe = empty_universe();
    let expected_universe = empty_universe();
    universe.set_cells_alive(&[]);
    assert_eq!(&universe, &expected_universe);
}

#[test]
fn test_render() {
    let mut universe = Universe::new(2, 2);
    universe.set_cell_alive(0, 1);
    assert_eq!(universe.render(), "◻◼\n◻◻\n");
}

#[test]
fn test_render_shape() {
    let universe = Universe::new(3, 2);
    let text = universe.render();
    let lines: Vec<&str> = text.lines().collect();
    assert_eq!(lines.len(), 2);
    for line in lines {
        assert_eq!(line.chars().count(), 3);
    }
}
