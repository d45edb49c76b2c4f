use game_of_life::constants::{UNIVERSE_HEIGHT, UNIVERSE_WIDTH};
use game_of_life::{Universe, UniverseError, CELL_IS_FREE, CELL_IS_POPULATED};

fn iterate_universe<F: FnMut(u8, u8)>(shape: (usize, usize), mut indexer: F) {
    let (universe_height, universe_width) = shape;
    for row_index in 0..universe_height {
        for column_index in 0..universe_width {
            indexer(row_index as u8, column_index as u8);
        }
    }
}

fn free_universe(width: usize, height: usize) -> Universe {
    Universe::new(width, height).unwrap()
}

fn populated_cells(universe: &Universe) -> Vec<(u8, u8)> {
    let mut cells = Vec::new();
    iterate_universe(universe.shape(), |row, column| {
        if universe.get_cell_state(row, column) == CELL_IS_POPULATED {
            cells.push((row, column));
        }
    });
    cells
}

fn universe_with(width: usize, height: usize, cells: &[(u8, u8)]) -> Universe {
    let mut universe = free_universe(width, height);
    for &(row, column) in cells {
        universe.populate_cell(row, column);
    }
    universe
}

fn sorted(mut cells: Vec<(u8, u8)>) -> Vec<(u8, u8)> {
    cells.sort();
    cells
}

#[test]
fn at_least_one_cell_is_populated() {
    let universe = Universe::new_random();
    let mut number_of_populated_cells: usize = 0;

    let indexer = |row_index: u8, column_index: u8| {
        if universe.get_cell_state(row_index, column_index) == CELL_IS_POPULATED {
            number_of_populated_cells += 1;
        }
    };

    iterate_universe(universe.shape(), indexer);
    assert!(number_of_populated_cells > 0);
}

#[test]
fn at_least_one_cell_is_free() {
    let universe = Universe::new_random();
    let mut number_of_free_cells: usize = 0;

    let indexer = |row_index: u8, column_index: u8| {
        if universe.get_cell_state(row_index, column_index) == CELL_IS_FREE {
            number_of_free_cells += 1;
        }
    };

    iterate_universe(universe.shape(), indexer);
    assert!(number_of_free_cells > 0);
}

#[test]
fn any_cell_can_be_populated() {
    let mut universe = Universe::new_random();
    let shape = universe.shape();

    let indexer = |row_index: u8, column_index: u8| {
        universe.populate_cell(row_index, column_index);

        let cell_state = universe.get_cell_state(row_index, column_index);
        assert_eq!(cell_state, CELL_IS_POPULATED);
    };

    iterate_universe(shape, indexer);
}

#[test]
fn any_cell_can_be_freed() {
    let mut universe = Universe::new_random();
    let shape = universe.shape();

    let indexer = |row_index: u8, column_index: u8| {
        universe.free_cell(row_index, column_index);

        let cell_state = universe.get_cell_state(row_index, column_index);
        assert_eq!(cell_state, CELL_IS_FREE);
    };

    iterate_universe(shape, indexer);
}

#[test]
fn random_universe_has_default_shape_and_cell_states() {
    let universe = Universe::new_random();
    assert_eq!(universe.shape(), (UNIVERSE_HEIGHT, UNIVERSE_WIDTH));
    iterate_universe(universe.shape(), |row, column| {
        let state = universe.get_cell_state(row, column);
        assert!(state == CELL_IS_FREE || state == CELL_IS_POPULATED);
    });
}

#[test]
fn new_universe_is_all_free_with_requested_shape() {
    let universe = free_universe(7, 4);
    assert_eq!(universe.shape(), (4, 7));
    assert!(populated_cells(&universe).is_empty());
}

#[test]
fn zero_sized_universe_is_refused() {
    assert_eq!(Universe::new(0, 5).err(), Some(UniverseError::ZeroDimension));
    assert_eq!(Universe::new(5, 0).err(), Some(UniverseError::ZeroDimension));
    assert_eq!(Universe::new(0, 0).err(), Some(UniverseError::ZeroDimension));
}

#[test]
fn smallest_universe_is_accepted() {
    let universe = free_universe(1, 1);
    assert_eq!(universe.shape(), (1, 1));
    assert_eq!(universe.get_cell_state(0, 0), CELL_IS_FREE);
}

#[test]
fn setting_one_cell_leaves_the_others() {
    let mut universe = free_universe(5, 5);
    universe.populate_cell(2, 3);
    assert_eq!(populated_cells(&universe), vec![(2, 3)]);
    universe.revive_cell(0, 4);
    assert_eq!(sorted(populated_cells(&universe)), vec![(0, 4), (2, 3)]);
    universe.kill_cell(2, 3);
    assert_eq!(populated_cells(&universe), vec![(0, 4)]);
    universe.free_cell(0, 4);
    assert!(populated_cells(&universe).is_empty());
}

#[test]
fn free_universe_stays_free() {
    let mut universe = free_universe(6, 5);
    for _ in 0..10 {
        universe.next_generation();
        assert!(populated_cells(&universe).is_empty());
    }
}

#[test]
fn block_is_a_still_life() {
    let block = [(2, 2), (2, 3), (3, 2), (3, 3)];
    let mut universe = universe_with(6, 6, &block);
    universe.next_generation();
    assert_eq!(sorted(populated_cells(&universe)), block.to_vec());
}

#[test]
fn block_across_the_corner_is_a_still_life() {
    let block = [(0, 0), (0, 5), (5, 0), (5, 5)];
    let mut universe = universe_with(6, 6, &block);
    universe.next_generation();
    assert_eq!(sorted(populated_cells(&universe)), block.to_vec());
}

#[test]
fn blinker_turns_from_row_to_column() {
    let mut universe = universe_with(5, 5, &[(2, 1), (2, 2), (2, 3)]);
    universe.next_generation();
    assert_eq!(sorted(populated_cells(&universe)), vec![(1, 2), (2, 2), (3, 2)]);
    universe.next_generation();
    assert_eq!(sorted(populated_cells(&universe)), vec![(2, 1), (2, 2), (2, 3)]);
}

#[test]
fn blinker_wraps_across_the_top_edge() {
    let mut universe = universe_with(5, 5, &[(0, 1), (0, 2), (0, 3)]);
    universe.next_generation();
    assert_eq!(sorted(populated_cells(&universe)), vec![(0, 2), (1, 2), (4, 2)]);
}

#[test]
fn lone_cell_dies_and_crowded_cell_dies() {
    let mut lone = universe_with(5, 5, &[(2, 2)]);
    lone.next_generation();
    assert!(populated_cells(&lone).is_empty());

    // the centre of a plus has four neighbours and dies; the arms survive
    // with two or three and the corners of the square are born
    let mut plus = universe_with(5, 5, &[(1, 2), (2, 1), (2, 2), (2, 3), (3, 2)]);
    plus.next_generation();
    assert_eq!(plus.get_cell_state(2, 2), CELL_IS_FREE);
    assert_eq!(
        sorted(populated_cells(&plus)),
        vec![(1, 1), (1, 2), (1, 3), (2, 1), (2, 3), (3, 1), (3, 2), (3, 3)]
    );
}

fn glider_at(row: usize, column: usize, height: usize, width: usize) -> Vec<(u8, u8)> {
    let shape = [(0, 1), (1, 2), (2, 0), (2, 1), (2, 2)];
    shape
        .iter()
        .map(|&(r, c)| (((row + r) % height) as u8, ((column + c) % width) as u8))
        .collect()
}

#[test]
fn glider_moves_one_cell_diagonally_in_four_generations() {
    let mut universe = universe_with(10, 10, &glider_at(4, 4, 10, 10));
    for _ in 0..4 {
        universe.next_generation();
    }
    assert_eq!(sorted(populated_cells(&universe)), sorted(glider_at(5, 5, 10, 10)));
}

#[test]
fn glider_crosses_the_bottom_right_corner() {
    let mut universe = universe_with(10, 10, &glider_at(8, 8, 10, 10));
    for _ in 0..4 {
        universe.next_generation();
    }
    assert_eq!(sorted(populated_cells(&universe)), sorted(glider_at(9, 9, 10, 10)));
    for _ in 0..4 {
        universe.next_generation();
    }
    assert_eq!(sorted(populated_cells(&universe)), sorted(glider_at(0, 0, 10, 10)));
}

#[test]
fn glider_returns_after_circling_the_torus() {
    let start = glider_at(1, 2, 10, 12);
    let mut universe = universe_with(12, 10, &start);
    // sixty cells along both axes is a whole number of laps of 10 rows and 12 columns
    for _ in 0..(4 * 60) {
        universe.next_generation();
    }
    assert_eq!(sorted(populated_cells(&universe)), sorted(start));
}

#[test]
fn seeding_copies_the_given_states() {
    let mut universe = free_universe(3, 2);
    let states = vec![vec![1u8, 0, 1], vec![0u8, 1, 1]];
    universe.seed_from(&states);
    assert_eq!(sorted(populated_cells(&universe)), vec![(0, 0), (0, 2), (1, 1), (1, 2)]);
    let mut random = Universe::new_random();
    let all_free = vec![vec![0u8; UNIVERSE_WIDTH]; UNIVERSE_HEIGHT];
    random.seed_from(&all_free);
    assert!(populated_cells(&random).is_empty());
}
