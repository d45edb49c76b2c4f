use vstd::prelude::*;
use vstd::arithmetic::div_mod::lemma_fundamental_div_mod_converse_mod;
use crate::constants::{RULE_KERNEL_HEIGHT, RULE_KERNEL_HEIGHT_HALF, RULE_KERNEL_WIDTH, RULE_KERNEL_WIDTH_HALF};
use crate::rules::{is_cell_state, next_state, CELL_IS_FREE, CELL_IS_POPULATED};

verus! {

/// A grid of `height` by `width` cells, stored row by row, with at least one
/// row and one column.
pub open spec fn is_grid(g: Seq<Seq<u8>>) -> bool {
    &&& g.len() > 0
    &&& g[0].len() > 0
    &&& forall|r: int| 0 <= r < g.len() ==> (#[trigger] g[r]).len() == g[0].len()
}

pub open spec fn height_of(g: Seq<Seq<u8>>) -> int {
    g.len() as int
}

pub open spec fn width_of(g: Seq<Seq<u8>>) -> int {
    g[0].len() as int
}

/// Every cell of the grid holds a cell state.
pub open spec fn holds_states(g: Seq<Seq<u8>>) -> bool {
    forall|r: int, c: int|
        0 <= r < height_of(g) && 0 <= c < width_of(g) ==> is_cell_state(#[trigger] g[r][c])
}

/// The cell that the coordinates `(r, c)` denote on the torus: rows and
/// columns outside the grid wrap round to the opposite edge.
pub open spec fn torus_cell(g: Seq<Seq<u8>>, r: int, c: int) -> u8 {
    g[r % height_of(g)][c % width_of(g)]
}

/// Weight of the kernel entry `(i, j)`: every cell of the 3 by 3 window counts
/// once, but the centre, which counts nothing.
pub open spec fn rule_kernel(i: int, j: int) -> int {
    if i == RULE_KERNEL_HEIGHT_HALF as int && j == RULE_KERNEL_WIDTH_HALF as int {
        0
    } else {
        1
    }
}

/// The first `k` terms, row by row, of the dot product of the kernel with the
/// window of the torus centred at `(r, c)`.
pub open spec fn window_sum(g: Seq<Seq<u8>>, r: int, c: int, k: nat) -> int
    decreases k,
{
    if k == 0 {
        0
    } else {
        let i = (k - 1) / (RULE_KERNEL_WIDTH as int);
        let j = (k - 1) % (RULE_KERNEL_WIDTH as int);
        window_sum(g, r, c, (k - 1) as nat) + rule_kernel(i, j) * torus_cell(
            g,
            r + i - RULE_KERNEL_HEIGHT_HALF as int,
            c + j - RULE_KERNEL_WIDTH_HALF as int,
        ) as int
    }
}

/// The number of populated cells among the eight neighbours of `(r, c)` on
/// the torus: the whole dot product of the kernel with the window.
pub open spec fn neighbour_count(g: Seq<Seq<u8>>, r: int, c: int) -> int {
    window_sum(g, r, c, (RULE_KERNEL_WIDTH * RULE_KERNEL_HEIGHT) as nat)
}

/// The grid after one generation: every cell takes its next state from its
/// state and its neighbour count in `g`, all at once.
pub open spec fn step(g: Seq<Seq<u8>>) -> Seq<Seq<u8>> {
    Seq::new(
        g.len(),
        |r: int| Seq::new(g[r].len(), |c: int| next_state(g[r][c], neighbour_count(g, r, c))),
    )
}

/// The grid after `n` generations.
pub open spec fn generations(g: Seq<Seq<u8>>, n: nat) -> Seq<Seq<u8>>
    decreases n,
{
    if n == 0 {
        g
    } else {
        step(generations(g, (n - 1) as nat))
    }
}

/// The grid with the cell `(r, c)` set to `s`.
pub open spec fn with_cell(g: Seq<Seq<u8>>, r: int, c: int, s: u8) -> Seq<Seq<u8>> {
    g.update(r, g[r].update(c, s))
}

/// A coordinate at most one grid length away from `[0, n)` wraps by at most
/// one length.
pub proof fn lemma_wrap_near(x: int, n: int)
    requires
        n > 0,
        -n <= x < 2 * n,
    ensures
        x % n == (if x < 0 {
            x + n
        } else if x >= n {
            x - n
        } else {
            x
        }),
{
    if x < 0 {
        lemma_fundamental_div_mod_converse_mod(x, n, -1, x + n);
    } else if x >= n {
        lemma_fundamental_div_mod_converse_mod(x, n, 1, x - n);
    } else {
        lemma_fundamental_div_mod_converse_mod(x, n, 0, x);
    }
}

/// Setting a cell from free to populated raises by exactly one the
/// neighbour count of each cell of the torus at a unit offset `(dr, dc)`
/// from it, across edges and corners alike. It needs the grid to be long
/// enough along each axis that the window round the neighbour meets the cell
/// once: three cells along an axis with a nonzero offset, two along the other.
pub proof fn lemma_neighbour_counted_once(g: Seq<Seq<u8>>, r: int, c: int, dr: int, dc: int)
    requires
        is_grid(g),
        0 <= r < height_of(g),
        0 <= c < width_of(g),
        -1 <= dr <= 1,
        -1 <= dc <= 1,
        dr != 0 || dc != 0,
        height_of(g) >= (if dr == 0 { 2int } else { 3int }),
        width_of(g) >= (if dc == 0 { 2int } else { 3int }),
    ensures
        neighbour_count(
            with_cell(g, r, c, CELL_IS_POPULATED),
            (r + dr) % height_of(g),
            (c + dc) % width_of(g),
        ) == neighbour_count(
            with_cell(g, r, c, CELL_IS_FREE),
            (r + dr) % height_of(g),
            (c + dc) % width_of(g),
        ) + 1,
{
    let h = height_of(g);
    let w = width_of(g);
    let g1 = with_cell(g, r, c, CELL_IS_POPULATED);
    let g0 = with_cell(g, r, c, CELL_IS_FREE);
    assert(g[r].len() == w);
    assert(height_of(g1) == h && width_of(g1) == w);
    assert(height_of(g0) == h && width_of(g0) == w);
    lemma_wrap_near(r + dr, h);
    lemma_wrap_near(c + dc, w);
    let rr = (r + dr) % h;
    let cc = (c + dc) % w;
    lemma_wrap_near(rr - 1, h);
    lemma_wrap_near(rr, h);
    lemma_wrap_near(rr + 1, h);
    lemma_wrap_near(cc - 1, w);
    lemma_wrap_near(cc, w);
    lemma_wrap_near(cc + 1, w);
    assert forall|x: int, y: int| 0 <= x < h && 0 <= y < w implies #[trigger] g1[x][y] == (if x
        == r && y == c {
        CELL_IS_POPULATED
    } else {
        g[x][y]
    }) && g0[x][y] == (if x == r && y == c {
        CELL_IS_FREE
    } else {
        g[x][y]
    }) by {
        assert(g[x].len() == w);
    }
    reveal_with_fuel(window_sum, 10);
}

/// The torus joins the top and bottom rows: a populated cell in the top row
/// counts as a neighbour of the cell below it in the bottom row, and a
/// populated cell in the bottom row counts as a neighbour of the cell above
/// it in the top row, in every column.
pub proof fn edge_cells_are_neighbours_across_rows(g: Seq<Seq<u8>>, c: int)
    requires
        is_grid(g),
        height_of(g) >= 3,
        width_of(g) >= 2,
        0 <= c < width_of(g),
    ensures
        neighbour_count(with_cell(g, 0, c, CELL_IS_POPULATED), height_of(g) - 1, c)
            == neighbour_count(with_cell(g, 0, c, CELL_IS_FREE), height_of(g) - 1, c) + 1,
        neighbour_count(with_cell(g, height_of(g) - 1, c, CELL_IS_POPULATED), 0, c)
            == neighbour_count(with_cell(g, height_of(g) - 1, c, CELL_IS_FREE), 0, c) + 1,
{
    let h = height_of(g);
    let w = width_of(g);
    lemma_neighbour_counted_once(g, 0, c, -1, 0);
    lemma_neighbour_counted_once(g, h - 1, c, 1, 0);
    lemma_wrap_near(-1, h);
    lemma_wrap_near(h, h);
    lemma_wrap_near(c, w);
}

/// The torus joins the leftmost and rightmost columns: a populated cell in
/// either counts as a neighbour of the cell of the same row in the other.
pub proof fn edge_cells_are_neighbours_across_columns(g: Seq<Seq<u8>>, r: int)
    requires
        is_grid(g),
        height_of(g) >= 2,
        width_of(g) >= 3,
        0 <= r < height_of(g),
    ensures
        neighbour_count(with_cell(g, r, 0, CELL_IS_POPULATED), r, width_of(g) - 1)
            == neighbour_count(with_cell(g, r, 0, CELL_IS_FREE), r, width_of(g) - 1) + 1,
        neighbour_count(with_cell(g, r, width_of(g) - 1, CELL_IS_POPULATED), r, 0)
            == neighbour_count(with_cell(g, r, width_of(g) - 1, CELL_IS_FREE), r, 0) + 1,
{
    let h = height_of(g);
    let w = width_of(g);
    lemma_neighbour_counted_once(g, r, 0, 0, -1);
    lemma_neighbour_counted_once(g, r, w - 1, 0, 1);
    lemma_wrap_near(-1, w);
    lemma_wrap_near(w, w);
    lemma_wrap_near(r, h);
}

/// The torus joins the corners: a populated cell at the top-left corner
/// counts as a diagonal neighbour of the bottom-right corner, and one at the
/// top-right corner as a diagonal neighbour of the bottom-left corner.
pub proof fn corner_cells_are_diagonal_neighbours(g: Seq<Seq<u8>>)
    requires
        is_grid(g),
        height_of(g) >= 3,
        width_of(g) >= 3,
    ensures
        neighbour_count(with_cell(g, 0, 0, CELL_IS_POPULATED), height_of(g) - 1, width_of(g) - 1)
            == neighbour_count(
            with_cell(g, 0, 0, CELL_IS_FREE),
            height_of(g) - 1,
            width_of(g) - 1,
        ) + 1,
        neighbour_count(with_cell(g, 0, width_of(g) - 1, CELL_IS_POPULATED), height_of(g) - 1, 0)
            == neighbour_count(
            with_cell(g, 0, width_of(g) - 1, CELL_IS_FREE),
            height_of(g) - 1,
            0,
        ) + 1,
{
    let h = height_of(g);
    let w = width_of(g);
    lemma_neighbour_counted_once(g, 0, 0, -1, -1);
    lemma_neighbour_counted_once(g, 0, w - 1, -1, 1);
    lemma_wrap_near(-1, h);
    lemma_wrap_near(-1, w);
    lemma_wrap_near(w, w);
}

/// The grid of `height` rows of `width` free cells.
pub open spec fn all_free(height: int, width: int) -> Seq<Seq<u8>> {
    Seq::new(height as nat, |r: int| Seq::new(width as nat, |c: int| CELL_IS_FREE))
}

proof fn lemma_free_window_sum(height: int, width: int, r: int, c: int, k: nat)
    requires
        height > 0,
        width > 0,
    ensures
        window_sum(all_free(height, width), r, c, k) == 0,
    decreases k,
{
    if k > 0 {
        let g = all_free(height, width);
        lemma_free_window_sum(height, width, r, c, (k - 1) as nat);
        let i = (k - 1) / (RULE_KERNEL_WIDTH as int);
        let j = (k - 1) % (RULE_KERNEL_WIDTH as int);
        let x = r + i - RULE_KERNEL_HEIGHT_HALF as int;
        let y = c + j - RULE_KERNEL_WIDTH_HALF as int;
        vstd::arithmetic::div_mod::lemma_mod_bound(x, height);
        vstd::arithmetic::div_mod::lemma_mod_bound(y, width);
        assert(torus_cell(g, x, y) == CELL_IS_FREE);
    }
}

/// The generation after an all-free grid is the same all-free grid.
proof fn lemma_free_grid_step(height: int, width: int)
    requires
        height > 0,
        width > 0,
    ensures
        step(all_free(height, width)) == all_free(height, width),
{
    let g = all_free(height, width);
    assert forall|r: int, c: int| 0 <= r < height && 0 <= c < width implies #[trigger] step(g)[r][c]
        == g[r][c] by {
        lemma_free_window_sum(height, width, r, c, (RULE_KERNEL_WIDTH * RULE_KERNEL_HEIGHT) as nat);
    }
    assert(step(g) =~~= g);
}

/// A grid whose cells are all free stays all free after any number of
/// generations: no cell is born without populated neighbours.
pub proof fn free_grid_stays_free(height: int, width: int, n: nat)
    requires
        height > 0,
        width > 0,
    ensures
        generations(all_free(height, width), n) == all_free(height, width),
    decreases n,
{
    if n > 0 {
        free_grid_stays_free(height, width, (n - 1) as nat);
        lemma_free_grid_step(height, width);
    }
}

/// The next generation decides each cell by its state and its neighbour
/// count alone: two cells, of the same grid or of two grids, that agree on
/// both take the same state.
pub proof fn next_generation_depends_only_on_state_and_count(
    g1: Seq<Seq<u8>>,
    r1: int,
    c1: int,
    g2: Seq<Seq<u8>>,
    r2: int,
    c2: int,
)
    requires
        is_grid(g1),
        is_grid(g2),
        0 <= r1 < height_of(g1),
        0 <= c1 < width_of(g1),
        0 <= r2 < height_of(g2),
        0 <= c2 < width_of(g2),
        g1[r1][c1] == g2[r2][c2],
        neighbour_count(g1, r1, c1) == neighbour_count(g2, r2, c2),
    ensures
        step(g1)[r1][c1] == step(g2)[r2][c2],
        step(g1)[r1][c1] == next_state(g1[r1][c1], neighbour_count(g1, r1, c1)),
{
    assert(g1[r1].len() == width_of(g1));
    assert(g2[r2].len() == width_of(g2));
}

} // verus!
