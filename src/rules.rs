use vstd::prelude::*;

verus! {

/// State of a cell that holds life.
pub const CELL_IS_POPULATED: u8 = 1;

/// State of an empty cell.
pub const CELL_IS_FREE: u8 = 0;

/// A value that a cell of the universe may hold.
pub open spec fn is_cell_state(s: u8) -> bool {
    s == CELL_IS_FREE || s == CELL_IS_POPULATED
}

/// A populated cell with fewer than two or more than three populated
/// neighbours dies.
pub open spec fn is_killed(state: u8, neighbours: int) -> bool {
    state == CELL_IS_POPULATED && (neighbours < 2 || neighbours > 3)
}

/// A free cell with exactly three populated neighbours comes to life.
pub open spec fn is_born(state: u8, neighbours: int) -> bool {
    state == CELL_IS_FREE && neighbours == 3
}

/// The state that a cell takes in the next generation, given its current
/// state and the number of its populated neighbours.
pub open spec fn next_state(state: u8, neighbours: int) -> u8 {
    if is_born(state, neighbours) {
        CELL_IS_POPULATED
    } else if is_killed(state, neighbours) {
        CELL_IS_FREE
    } else {
        state
    }
}

pub fn is_need_to_be_killed(current_cell: u8, number_of_alive_neighbours: u8) -> (r: bool)
    ensures
        r == is_killed(current_cell, number_of_alive_neighbours as int),
{
    current_cell == CELL_IS_POPULATED && (number_of_alive_neighbours < 2
        || number_of_alive_neighbours > 3)
}

pub fn is_need_to_be_alived(current_cell: u8, number_of_alive_neighbours: u8) -> (r: bool)
    ensures
        r == is_born(current_cell, number_of_alive_neighbours as int),
{
    current_cell == CELL_IS_FREE && number_of_alive_neighbours == 3
}

/// Applies Life's rule to one cell: birth on exactly three populated
/// neighbours, death below two or above three, otherwise no change.
pub fn next_cell_state(current_cell: u8, number_of_alive_neighbours: u8) -> (r: u8)
    ensures
        r == next_state(current_cell, number_of_alive_neighbours as int),
        is_cell_state(current_cell) ==> is_cell_state(r),
{
    if is_need_to_be_alived(current_cell, number_of_alive_neighbours) {
        CELL_IS_POPULATED
    } else if is_need_to_be_killed(current_cell, number_of_alive_neighbours) {
        CELL_IS_FREE
    } else {
        current_cell
    }
}

} // verus!
