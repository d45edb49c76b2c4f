use vstd::prelude::*;
use crate::constants::{
    RULE_KERNEL_HEIGHT_HALF, RULE_KERNEL_WIDTH_HALF, UNIVERSE_HEIGHT, UNIVERSE_WIDTH,
};
use crate::plane::{convolve_torus, counts_entry, in_interior, interior, is_wrapped_plane, rows_view};
use crate::rules::{is_cell_state, next_cell_state, next_state, CELL_IS_FREE, CELL_IS_POPULATED};
use crate::torus::{
    all_free, holds_states, is_grid, lemma_wrap_near, neighbour_count, step, torus_cell, with_cell,
};

verus! {

/// Why a universe could not be made.
#[derive(Debug, PartialEq, Eq, Structural, Clone, Copy)]
pub enum UniverseError {
    /// A universe needs at least one row and one column.
    ZeroDimension,
}

/// A universe of Conway's Game of Life on a torus: a fixed grid of cells
/// whose edges join the opposite edges.
pub struct Universe {
    height: usize,
    width: usize,
    /// The cells, surrounded by a halo that mirrors the opposite edges; the
    /// halo is brought in sync before each generation.
    next_generation_wrapped: Vec<Vec<u8>>,
    /// The neighbour counts of the last generation step, at plane positions.
    alive_neighbours_wrapped: Vec<Vec<u8>>,
}

impl View for Universe {
    type V = Seq<Seq<u8>>;

    /// The grid of cell states, row by row, without the halo.
    closed spec fn view(&self) -> Seq<Seq<u8>> {
        interior(rows_view(&self.next_generation_wrapped))
    }
}

/// Relies on rand's `Uniform::new_inclusive(0, 1)`, sampled with
/// `rand::thread_rng()`: each draw lies in the closed range `[0, 1]`.
#[verifier::external_body]
fn draw_cell_state() -> (r: u8)
    ensures
        is_cell_state(r),
{
    rand::distributions::Distribution::sample(
        &rand::distributions::Uniform::new_inclusive(0u8, 1u8),
        &mut rand::thread_rng(),
    )
}

/// A cell of the torus that lies inside the grid is the grid's own cell.
proof fn lemma_torus_cell_inside(g: Seq<Seq<u8>>, r: int, c: int)
    requires
        is_grid(g),
        0 <= r < g.len(),
        0 <= c < g[0].len(),
    ensures
        torus_cell(g, r, c) == g[r][c],
{
    lemma_wrap_near(r, g.len() as int);
    lemma_wrap_near(c, g[0].len() as int);
}

impl Universe {
    /// The universe is well formed: a plane of `height + 2` rows of
    /// `width + 2` cells whose interior holds cell states.
    pub closed spec fn wf(&self) -> bool {
        let p = rows_view(&self.next_generation_wrapped);
        &&& is_wrapped_plane(p)
        &&& holds_states(interior(p))
        &&& self.height == p.len() - 2 * RULE_KERNEL_HEIGHT_HALF
        &&& self.width == p[0].len() - 2 * RULE_KERNEL_WIDTH_HALF
    }

    proof fn lemma_wf_grid(&self)
        requires
            self.wf(),
        ensures
            is_grid(self@),
            holds_states(self@),
            self@.len() == self.height,
            self@[0].len() == self.width,
            self.height > 0,
            self.width > 0,
    {
        let p = rows_view(&self.next_generation_wrapped);
        assert(self@[0].len() == p[0].len() - 2 * RULE_KERNEL_WIDTH_HALF);
    }

    /// The cells of a well-formed universe form a grid of at least one row
    /// and one column, every row as long as the first, and every cell holds
    /// a cell state.
    pub proof fn lemma_view_is_grid(&self)
        requires
            self.wf(),
        ensures
            is_grid(self@),
            holds_states(self@),
    {
        self.lemma_wf_grid();
    }

    /// Makes a universe of `height` rows of `width` cells, all free.
    pub fn new(width: usize, height: usize) -> (r: Result<Universe, UniverseError>)
        requires
            width <= usize::MAX - 2 * RULE_KERNEL_WIDTH_HALF,
            height <= usize::MAX - 2 * RULE_KERNEL_HEIGHT_HALF,
        ensures
            match r {
                Ok(u) => {
                    &&& width > 0 && height > 0
                    &&& u.wf()
                    &&& is_grid(u@)
                    &&& holds_states(u@)
                    &&& u@ == all_free(height as int, width as int)
                },
                Err(e) => (width == 0 || height == 0) && e == UniverseError::ZeroDimension,
            },
    {
        if width == 0 || height == 0 {
            return Err(UniverseError::ZeroDimension);
        }
        let ph = height + 2 * RULE_KERNEL_HEIGHT_HALF;
        let pw = width + 2 * RULE_KERNEL_WIDTH_HALF;
        let mut plane: Vec<Vec<u8>> = Vec::new();
        let mut i: usize = 0;
        while i < ph
            invariant
                i <= ph,
                rows_view(&plane).len() == i,
                forall|a: int| 0 <= a < i ==> (#[trigger] rows_view(&plane)[a]) == Seq::new(
                    pw as nat,
                    |c: int| CELL_IS_FREE,
                ),
            decreases ph - i,
        {
            let mut row: Vec<u8> = Vec::new();
            let mut j: usize = 0;
            while j < pw
                invariant
                    j <= pw,
                    row@ == Seq::new(j as nat, |c: int| CELL_IS_FREE),
                decreases pw - j,
            {
                row.push(CELL_IS_FREE);
                j += 1;
                assert(row@ =~= Seq::new(j as nat, |c: int| CELL_IS_FREE));
            }
            let ghost before = rows_view(&plane);
            plane.push(row);
            assert(rows_view(&plane) =~= before.push(row@));
            i += 1;
        }
        let ghost p = rows_view(&plane);
        assert(interior(p) =~~= all_free(height as int, width as int));
        let universe = Universe {
            height,
            width,
            next_generation_wrapped: plane,
            alive_neighbours_wrapped: Vec::new(),
        };
        proof {
            universe.lemma_wf_grid();
        }
        Ok(universe)
    }

    /// Makes a universe of the default shape whose cells are each drawn
    /// populated or free at random.
    pub fn new_random() -> (u: Universe)
        ensures
            u.wf(),
            is_grid(u@),
            holds_states(u@),
            u@.len() == UNIVERSE_HEIGHT,
            u@[0].len() == UNIVERSE_WIDTH,
    {
        let mut universe = match Universe::new(UNIVERSE_WIDTH, UNIVERSE_HEIGHT) {
            Ok(u) => u,
            Err(_) => vstd::pervasive::unreached(),
        };
        let initial_generation = Universe::seed_initial_generation();
        universe.seed_from(&initial_generation);
        universe
    }

    /// Draws the cells of a universe of the default shape, each populated or
    /// free at random.
    fn seed_initial_generation() -> (states: Vec<Vec<u8>>)
        ensures
            rows_view(&states).len() == UNIVERSE_HEIGHT,
            forall|r: int|
                0 <= r < UNIVERSE_HEIGHT ==> (#[trigger] rows_view(&states)[r]).len()
                    == UNIVERSE_WIDTH,
            holds_states(rows_view(&states)),
    {
        let mut states: Vec<Vec<u8>> = Vec::new();
        let mut row: usize = 0;
        while row < UNIVERSE_HEIGHT
            invariant
                row <= UNIVERSE_HEIGHT,
                rows_view(&states).len() == row,
                forall|a: int| 0 <= a < row ==> (#[trigger] rows_view(&states)[a]).len() == UNIVERSE_WIDTH,
                forall|a: int, b: int|
                    0 <= a < row && 0 <= b < UNIVERSE_WIDTH ==> is_cell_state(
                        #[trigger] rows_view(&states)[a][b],
                    ),
            decreases UNIVERSE_HEIGHT - row,
        {
            let mut cells: Vec<u8> = Vec::new();
            let mut column: usize = 0;
            while column < UNIVERSE_WIDTH
                invariant
                    column <= UNIVERSE_WIDTH,
                    cells@.len() == column,
                    forall|b: int| 0 <= b < column ==> is_cell_state(#[trigger] cells@[b]),
                decreases UNIVERSE_WIDTH - column,
            {
                let state = draw_cell_state();
                cells.push(state);
                column += 1;
            }
            let ghost before = rows_view(&states);
            states.push(cells);
            assert(rows_view(&states) =~= before.push(cells@));
            row += 1;
        }
        states
    }

    /// Makes the cells of the universe those of `states`, row by row.
    pub fn seed_from(&mut self, states: &Vec<Vec<u8>>)
        requires
            old(self).wf(),
            rows_view(states).len() == old(self)@.len(),
            forall|r: int|
                0 <= r < rows_view(states).len() ==> (#[trigger] rows_view(states)[r]).len()
                    == old(self)@[0].len(),
            holds_states(rows_view(states)),
        ensures
            final(self).wf(),
            is_grid(final(self)@),
            holds_states(final(self)@),
            final(self)@ == rows_view(states),
    {
        proof {
            self.lemma_wf_grid();
        }
        let ghost g0 = self@;
        let ghost s = rows_view(states);
        let height = self.height;
        let width = self.width;
        let mut row: usize = 0;
        while row < height
            invariant
                self.wf(),
                is_grid(g0),
                s == rows_view(states),
                self@.len() == height,
                self@[0].len() == width,
                g0.len() == height,
                g0[0].len() == width,
                s.len() == height,
                forall|r: int| 0 <= r < height ==> (#[trigger] s[r]).len() == width,
                holds_states(s),
                row <= height,
                forall|a: int, b: int|
                    0 <= a < height && 0 <= b < width ==> #[trigger] self@[a][b] == if a < row {
                        s[a][b]
                    } else {
                        g0[a][b]
                    },
            decreases height - row,
        {
            let mut column: usize = 0;
            while column < width
                invariant
                    self.wf(),
                    is_grid(g0),
                    s == rows_view(states),
                    self@.len() == height,
                    self@[0].len() == width,
                    g0.len() == height,
                    g0[0].len() == width,
                    s.len() == height,
                    forall|r: int| 0 <= r < height ==> (#[trigger] s[r]).len() == width,
                    holds_states(s),
                    row < height,
                    column <= width,
                    forall|a: int, b: int|
                        0 <= a < height && 0 <= b < width ==> #[trigger] self@[a][b] == if a < row
                            || (a == row && b < column) {
                            s[a][b]
                        } else {
                            g0[a][b]
                        },
                decreases width - column,
            {
                proof {
                    self.lemma_wf_grid();
                }
                let ghost before = self@;
                assert(s[row as int].len() == width);
                let state = states[row][column];
                assert(is_cell_state(state));
                self.set_cell(row, column, state);
                proof {
                    self.lemma_wf_grid();
                    assert forall|a: int, b: int| 0 <= a < height && 0 <= b < width implies #[trigger] self@[a][b]
                        == (if a < row || (a == row && b < column + 1) {
                        s[a][b]
                    } else {
                        g0[a][b]
                    }) by {
                        assert(before[a].len() == width);
                    }
                }
                column += 1;
            }
            row += 1;
        }
        proof {
            self.lemma_wf_grid();
            assert forall|r: int| 0 <= r < height implies #[trigger] self@[r] =~= s[r] by {
                assert(self@[r].len() == width);
            }
        }
        assert(self@ =~= s);
    }

    /// The number of rows and the number of columns.
    pub fn shape(&self) -> (r: (usize, usize))
        requires
            self.wf(),
        ensures
            r.0 == self@.len(),
            r.1 == self@[0].len(),
            r.0 > 0,
            r.1 > 0,
            is_grid(self@),
            holds_states(self@),
    {
        proof {
            self.lemma_wf_grid();
        }
        (self.height, self.width)
    }

    /// The plane position of the cell at `(cell_row, cell_column)`.
    fn get_plane_position(cell_row: u8, cell_column: u8) -> (r: (usize, usize))
        ensures
            r.0 == cell_row + RULE_KERNEL_HEIGHT_HALF,
            r.1 == cell_column + RULE_KERNEL_WIDTH_HALF,
    {
        ((cell_row as usize) + RULE_KERNEL_HEIGHT_HALF, (cell_column as usize) + RULE_KERNEL_WIDTH_HALF)
    }

    fn set_cell(&mut self, cell_row: usize, cell_column: usize, state: u8)
        requires
            old(self).wf(),
            (cell_row as int) < old(self)@.len(),
            (cell_column as int) < old(self)@[0].len(),
            is_cell_state(state),
        ensures
            final(self).wf(),
            is_grid(final(self)@),
            holds_states(final(self)@),
            final(self)@ == with_cell(old(self)@, cell_row as int, cell_column as int, state),
    {
        proof {
            self.lemma_wf_grid();
        }
        let ghost g0 = self@;
        let ghost p0 = rows_view(&self.next_generation_wrapped);
        let position = (
            cell_row + RULE_KERNEL_HEIGHT_HALF,
            cell_column + RULE_KERNEL_WIDTH_HALF,
        );
        assert(p0[position.0 as int].len() == p0[0].len());
        self.next_generation_wrapped[position.0][position.1] = state;
        let ghost p1 = rows_view(&self.next_generation_wrapped);
        assert(p1 =~~= p0.update(position.0 as int, p0[position.0 as int].update(position.1 as int, state)));
        assert(interior(p1) =~~= with_cell(g0, cell_row as int, cell_column as int, state));
        assert(is_wrapped_plane(p1)) by {
            assert forall|r: int| 0 <= r < p1.len() implies (#[trigger] p1[r]).len() == p1[0].len() by {
                assert(p0[r].len() == p0[0].len());
            }
        }
    }

    /// Makes the cell at `(cell_row, cell_column)` populated.
    pub fn populate_cell(&mut self, cell_row: u8, cell_column: u8)
        requires
            old(self).wf(),
            (cell_row as int) < old(self)@.len(),
            (cell_column as int) < old(self)@[0].len(),
        ensures
            final(self).wf(),
            is_grid(final(self)@),
            holds_states(final(self)@),
            final(self)@ == with_cell(old(self)@, cell_row as int, cell_column as int, CELL_IS_POPULATED),
    {
        self.set_cell(cell_row as usize, cell_column as usize, CELL_IS_POPULATED);
    }

    /// Makes the cell at `(cell_row, cell_column)` free.
    pub fn free_cell(&mut self, cell_row: u8, cell_column: u8)
        requires
            old(self).wf(),
            (cell_row as int) < old(self)@.len(),
            (cell_column as int) < old(self)@[0].len(),
        ensures
            final(self).wf(),
            is_grid(final(self)@),
            holds_states(final(self)@),
            final(self)@ == with_cell(old(self)@, cell_row as int, cell_column as int, CELL_IS_FREE),
    {
        self.set_cell(cell_row as usize, cell_column as usize, CELL_IS_FREE);
    }

    /// Brings the cell at `(cell_row, cell_column)` to life; the same as
    /// [`Universe::populate_cell`].
    pub fn revive_cell(&mut self, cell_row: u8, cell_column: u8)
        requires
            old(self).wf(),
            (cell_row as int) < old(self)@.len(),
            (cell_column as int) < old(self)@[0].len(),
        ensures
            final(self).wf(),
            is_grid(final(self)@),
            holds_states(final(self)@),
            final(self)@ == with_cell(old(self)@, cell_row as int, cell_column as int, CELL_IS_POPULATED),
    {
        self.populate_cell(cell_row, cell_column);
    }

    /// Kills the cell at `(cell_row, cell_column)`; the same as
    /// [`Universe::free_cell`].
    pub fn kill_cell(&mut self, cell_row: u8, cell_column: u8)
        requires
            old(self).wf(),
            (cell_row as int) < old(self)@.len(),
            (cell_column as int) < old(self)@[0].len(),
        ensures
            final(self).wf(),
            is_grid(final(self)@),
            holds_states(final(self)@),
            final(self)@ == with_cell(old(self)@, cell_row as int, cell_column as int, CELL_IS_FREE),
    {
        self.free_cell(cell_row, cell_column);
    }

    /// The state of the cell at `(cell_row, cell_column)`.
    pub fn get_cell_state(&self, cell_row: u8, cell_column: u8) -> (r: u8)
        requires
            self.wf(),
            (cell_row as int) < self@.len(),
            (cell_column as int) < self@[0].len(),
        ensures
            r == self@[cell_row as int][cell_column as int],
            is_cell_state(r),
            is_grid(self@),
            holds_states(self@),
    {
        proof {
            self.lemma_wf_grid();
        }
        let ghost p = rows_view(&self.next_generation_wrapped);
        let position = Universe::get_plane_position(cell_row, cell_column);
        assert(p[position.0 as int].len() == p[0].len());
        self.next_generation_wrapped[position.0][position.1]
    }

    /// Advances the universe by one generation: every cell takes, all at
    /// once, the state that Life's rule gives for its state and its number
    /// of populated neighbours on the torus.
    pub fn next_generation(&mut self)
        requires
            old(self).wf(),
        ensures
            final(self).wf(),
            is_grid(final(self)@),
            holds_states(final(self)@),
            final(self)@ == step(old(self)@),
    {
        proof {
            self.lemma_wf_grid();
        }
        let ghost g = self@;
        let ghost p0 = rows_view(&self.next_generation_wrapped);
        let counts = convolve_torus(&mut self.next_generation_wrapped);
        let ph = self.next_generation_wrapped.len();
        let pw = self.next_generation_wrapped[0].len();
        assert(rows_view(&self.next_generation_wrapped)[0].len() == p0[0].len());
        let mut i: usize = RULE_KERNEL_HEIGHT_HALF;
        while i < ph - RULE_KERNEL_HEIGHT_HALF
            invariant
                is_wrapped_plane(p0),
                is_grid(g),
                holds_states(g),
                g == interior(p0),
                ph == p0.len(),
                pw == p0[0].len(),
                self.height == ph - 2 * RULE_KERNEL_HEIGHT_HALF,
                self.width == pw - 2 * RULE_KERNEL_WIDTH_HALF,
                RULE_KERNEL_HEIGHT_HALF <= i <= ph - RULE_KERNEL_HEIGHT_HALF,
                rows_view(&self.next_generation_wrapped).len() == ph,
                forall|a: int|
                    0 <= a < ph ==> (#[trigger] rows_view(&self.next_generation_wrapped)[a]).len()
                        == pw,
                rows_view(&counts).len() == ph,
                forall|a: int| 0 <= a < ph ==> (#[trigger] rows_view(&counts)[a]).len() == pw,
                forall|a: int, b: int|
                    0 <= a < ph && 0 <= b < pw ==> #[trigger] rows_view(&counts)[a][b] as int
                        == counts_entry(p0, g, a, b),
                forall|a: int, b: int|
                    0 <= a < ph && 0 <= b < pw ==> #[trigger] rows_view(
                        &self.next_generation_wrapped,
                    )[a][b] == if in_interior(p0, a, b) && a < i {
                        next_state(
                            g[a - RULE_KERNEL_HEIGHT_HALF][b - RULE_KERNEL_WIDTH_HALF],
                            neighbour_count(g, a - RULE_KERNEL_HEIGHT_HALF, b - RULE_KERNEL_WIDTH_HALF),
                        )
                    } else {
                        torus_cell(g, a - RULE_KERNEL_HEIGHT_HALF, b - RULE_KERNEL_WIDTH_HALF)
                    },
            decreases ph - i,
        {
            let mut j: usize = RULE_KERNEL_WIDTH_HALF;
            while j < pw - RULE_KERNEL_WIDTH_HALF
                invariant
                    is_wrapped_plane(p0),
                    is_grid(g),
                    holds_states(g),
                    g == interior(p0),
                    ph == p0.len(),
                    pw == p0[0].len(),
                    self.height == ph - 2 * RULE_KERNEL_HEIGHT_HALF,
                    self.width == pw - 2 * RULE_KERNEL_WIDTH_HALF,
                    RULE_KERNEL_HEIGHT_HALF <= i < ph - RULE_KERNEL_HEIGHT_HALF,
                    RULE_KERNEL_WIDTH_HALF <= j <= pw - RULE_KERNEL_WIDTH_HALF,
                    rows_view(&self.next_generation_wrapped).len() == ph,
                    forall|a: int|
                        0 <= a < ph ==> (#[trigger] rows_view(&self.next_generation_wrapped)[a]).len()
                            == pw,
                    rows_view(&counts).len() == ph,
                    forall|a: int| 0 <= a < ph ==> (#[trigger] rows_view(&counts)[a]).len() == pw,
                    forall|a: int, b: int|
                        0 <= a < ph && 0 <= b < pw ==> #[trigger] rows_view(&counts)[a][b] as int
                            == counts_entry(p0, g, a, b),
                    forall|a: int, b: int|
                        0 <= a < ph && 0 <= b < pw ==> #[trigger] rows_view(
                            &self.next_generation_wrapped,
                        )[a][b] == if in_interior(p0, a, b) && (a < i || (a == i && b < j)) {
                            next_state(
                                g[a - RULE_KERNEL_HEIGHT_HALF][b - RULE_KERNEL_WIDTH_HALF],
                                neighbour_count(
                                    g,
                                    a - RULE_KERNEL_HEIGHT_HALF,
                                    b - RULE_KERNEL_WIDTH_HALF,
                                ),
                            )
                        } else {
                            torus_cell(g, a - RULE_KERNEL_HEIGHT_HALF, b - RULE_KERNEL_WIDTH_HALF)
                        },
                decreases pw - j,
            {
                let ghost before = rows_view(&self.next_generation_wrapped);
                assert(before[i as int].len() == pw);
                assert(rows_view(&counts)[i as int].len() == pw);
                let current = self.next_generation_wrapped[i][j];
                let neighbours = counts[i][j];
                proof {
                    lemma_torus_cell_inside(
                        g,
                        i - RULE_KERNEL_HEIGHT_HALF,
                        j - RULE_KERNEL_WIDTH_HALF,
                    );
                }
                let next = next_cell_state(current, neighbours);
                self.next_generation_wrapped[i][j] = next;
                assert(rows_view(&self.next_generation_wrapped) =~~= before.update(
                    i as int,
                    before[i as int].update(j as int, next),
                ));
                j += 1;
            }
            i += 1;
        }
        self.alive_neighbours_wrapped = counts;
        let ghost p1 = rows_view(&self.next_generation_wrapped);
        assert(interior(p1) =~~= step(g)) by {
            assert forall|r: int, c: int|
                0 <= r < g.len() && 0 <= c < g[0].len() implies #[trigger] interior(p1)[r][c]
                == step(g)[r][c] by {
                assert(g[r].len() == g[0].len());
                assert(p1[r + RULE_KERNEL_HEIGHT_HALF][c + RULE_KERNEL_WIDTH_HALF] == interior(
                    p1,
                )[r][c]);
            }
        }
        proof {
            let g1 = interior(p1);
            assert forall|r: int, c: int| 0 <= r < g1.len() && 0 <= c < g1[0].len() implies is_cell_state(
                #[trigger] g1[r][c],
            ) by {
                assert(is_cell_state(g[r][c]));
            }
            assert(is_wrapped_plane(p1)) by {
                assert forall|r: int| 0 <= r < p1.len() implies (#[trigger] p1[r]).len()
                    == p1[0].len() by {}
            }
            assert(g1.len() == g.len());
            assert(g1[0].len() == p1[0].len() - 2 * RULE_KERNEL_WIDTH_HALF);
        }
    }
}

} // verus!
