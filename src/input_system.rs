use vstd::prelude::*;
use crate::components::Position;
use crate::rules::{CELL_IS_FREE, CELL_IS_POPULATED};
use crate::torus::{height_of, holds_states, is_grid, width_of, with_cell};
use crate::universe::Universe;

verus! {

/// What a queued mouse press asks of the cell under it.
#[derive(Debug, Clone, Copy, PartialEq, Eq, Structural)]
pub enum PaintAction {
    /// Populate the cell.
    Populate,
    /// Free the cell.
    Free,
    /// Leave the cell as it is.
    Ignore,
}

/// `v` brought into `[0, n)`: the last index where it lies beyond.
pub open spec fn clamp_index(v: int, n: int) -> int {
    if v > n - 1 {
        n - 1
    } else {
        v
    }
}

/// The grid after one paint request at `position`, clamped into the grid.
pub open spec fn apply_paint(g: Seq<Seq<u8>>, action: PaintAction, position: Position) -> Seq<
    Seq<u8>,
> {
    let row = clamp_index(position.y as int, height_of(g));
    let column = clamp_index(position.x as int, width_of(g));
    match action {
        PaintAction::Populate => with_cell(g, row, column, CELL_IS_POPULATED),
        PaintAction::Free => with_cell(g, row, column, CELL_IS_FREE),
        PaintAction::Ignore => g,
    }
}

/// The grid after the paint requests of both queues, taken in pairs from
/// their ends, latest first, until one queue is empty.
pub open spec fn apply_paints(
    g: Seq<Seq<u8>>,
    actions: Seq<PaintAction>,
    positions: Seq<Position>,
) -> Seq<Seq<u8>>
    decreases actions.len(),
{
    if actions.len() == 0 || positions.len() == 0 {
        g
    } else {
        apply_paints(
            apply_paint(g, actions.last(), positions.last()),
            actions.drop_last(),
            positions.drop_last(),
        )
    }
}

/// Brings a screen coordinate into `[0, n)`.
fn clamp_coordinate(v: u8, n: usize) -> (r: u8)
    requires
        n > 0,
    ensures
        r == clamp_index(v as int, n as int),
{
    if (v as usize) > n - 1 {
        (n - 1) as u8
    } else {
        v
    }
}

/// Applies the paint requests that mouse presses have queued to the universe.
pub struct InputSystem {}

impl InputSystem {
    /// Takes the requests from the ends of both queues in pairs until one of
    /// them is empty, and populates or frees the cell at each position,
    /// clamped into the universe.
    pub fn run(
        &mut self,
        universe: &mut Universe,
        mouse_button_events: &mut Vec<PaintAction>,
        pressed_cell_positions: &mut Vec<Position>,
    )
        requires
            old(universe).wf(),
        ensures
            final(universe).wf(),
            is_grid(final(universe)@),
            holds_states(final(universe)@),
            final(universe)@ == apply_paints(
                old(universe)@,
                old(mouse_button_events)@,
                old(pressed_cell_positions)@,
            ),
            final(mouse_button_events)@.len() == 0 || final(pressed_cell_positions)@.len() == 0,
            old(mouse_button_events)@.len() - final(mouse_button_events)@.len() == old(
                pressed_cell_positions,
            )@.len() - final(pressed_cell_positions)@.len(),
            final(mouse_button_events)@ == old(mouse_button_events)@.take(
                final(mouse_button_events)@.len() as int,
            ),
            final(pressed_cell_positions)@ == old(pressed_cell_positions)@.take(
                final(pressed_cell_positions)@.len() as int,
            ),
    {
        let ghost g0 = universe@;
        let ghost a0 = mouse_button_events@;
        let ghost p0 = pressed_cell_positions@;
        while mouse_button_events.len() > 0 && pressed_cell_positions.len() > 0
            invariant
                universe.wf(),
                apply_paints(universe@, mouse_button_events@, pressed_cell_positions@)
                    == apply_paints(g0, a0, p0),
                a0.len() - mouse_button_events@.len() == p0.len() - pressed_cell_positions@.len(),
                mouse_button_events@ == a0.take(mouse_button_events@.len() as int),
                pressed_cell_positions@ == p0.take(pressed_cell_positions@.len() as int),
                mouse_button_events@.len() <= a0.len(),
            decreases mouse_button_events@.len(),
        {
            let ghost before_actions = mouse_button_events@;
            let ghost before_positions = pressed_cell_positions@;
            let button = mouse_button_events.pop().unwrap();
            let pressed_position = pressed_cell_positions.pop().unwrap();
            assert(mouse_button_events@ =~= a0.take(mouse_button_events@.len() as int));
            assert(pressed_cell_positions@ =~= p0.take(pressed_cell_positions@.len() as int));
            let (universe_height, universe_width) = universe.shape();
            let row = clamp_coordinate(pressed_position.y, universe_height);
            let column = clamp_coordinate(pressed_position.x, universe_width);
            match button {
                PaintAction::Populate => universe.populate_cell(row, column),
                PaintAction::Free => universe.free_cell(row, column),
                PaintAction::Ignore => {},
            }
        }
        proof {
            universe.lemma_view_is_grid();
        }
    }
}

} // verus!
