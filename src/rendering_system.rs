use vstd::prelude::*;
use crate::components::Position;
use crate::rules::CELL_IS_POPULATED;
use crate::universe::Universe;

verus! {

/// The position lies on a cell of the grid.
pub open spec fn on_grid(g: Seq<Seq<u8>>, p: Position) -> bool {
    (p.y as int) < g.len() && (p.x as int) < g[0].len()
}

/// The cell at the position is populated, and so is drawn.
pub open spec fn shows_populated(g: Seq<Seq<u8>>, p: Position) -> bool {
    g[p.y as int][p.x as int] == CELL_IS_POPULATED
}

/// The positions, in their order, whose cells are populated: those that a
/// frame draws.
pub fn visible_positions(universe: &Universe, positions: &Vec<Position>) -> (r: Vec<Position>)
    requires
        universe.wf(),
        forall|i: int| 0 <= i < positions@.len() ==> on_grid(universe@, #[trigger] positions@[i]),
    ensures
        r@ == positions@.filter(|p: Position| shows_populated(universe@, p)),
{
    let ghost pred = |p: Position| shows_populated(universe@, p);
    let mut visible: Vec<Position> = Vec::new();
    let mut i: usize = 0;
    while i < positions.len()
        invariant
            universe.wf(),
            forall|k: int| 0 <= k < positions@.len() ==> on_grid(universe@, #[trigger] positions@[k]),
            i <= positions@.len(),
            pred == (|p: Position| shows_populated(universe@, p)),
            visible@ == positions@.take(i as int).filter(pred),
        decreases positions@.len() - i,
    {
        let position = positions[i];
        proof {
            positions@.take(i as int).lemma_filter_push(position, pred);
            assert(positions@.take(i as int).push(position) =~= positions@.take(i + 1));
            assert(on_grid(universe@, position));
        }
        let state = universe.get_cell_state(position.y, position.x);
        assert(pred(position) == (state == CELL_IS_POPULATED));
        if state == CELL_IS_POPULATED {
            visible.push(position);
        }
        i += 1;
    }
    assert(positions@.take(i as int) =~= positions@);
    visible
}

} // verus!
