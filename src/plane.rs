use vstd::prelude::*;
use crate::constants::{
    RULE_KERNEL_HEIGHT, RULE_KERNEL_HEIGHT_HALF, RULE_KERNEL_WIDTH, RULE_KERNEL_WIDTH_HALF,
};
use crate::rules::is_cell_state;
use crate::torus::{
    height_of, holds_states, is_grid, lemma_wrap_near, neighbour_count, rule_kernel, torus_cell,
    width_of, window_sum,
};

verus! {

/// The rows of a plane as sequences.
pub open spec fn rows_view(p: &Vec<Vec<u8>>) -> Seq<Seq<u8>> {
    p@.map_values(|row: Vec<u8>| row@)
}

/// A wrapped plane: a grid of at least one cell, surrounded by a halo as
/// wide as half the kernel on every side.
pub open spec fn is_wrapped_plane(p: Seq<Seq<u8>>) -> bool {
    &&& is_grid(p)
    &&& p.len() > 2 * RULE_KERNEL_HEIGHT_HALF
    &&& p[0].len() > 2 * RULE_KERNEL_WIDTH_HALF
}

/// The grid that a wrapped plane holds inside its halo.
pub open spec fn interior(p: Seq<Seq<u8>>) -> Seq<Seq<u8>> {
    Seq::new(
        (p.len() - 2 * RULE_KERNEL_HEIGHT_HALF) as nat,
        |r: int|
            Seq::new(
                (p[0].len() - 2 * RULE_KERNEL_WIDTH_HALF) as nat,
                |c: int| p[r + RULE_KERNEL_HEIGHT_HALF][c + RULE_KERNEL_WIDTH_HALF],
            ),
    )
}

/// Every cell of the plane, halo included, shows the torus cell of the
/// interior that it stands for.
pub open spec fn halo_synced(p: Seq<Seq<u8>>) -> bool {
    forall|i: int, j: int|
        0 <= i < p.len() && 0 <= j < p[0].len() ==> #[trigger] p[i][j] == torus_cell(
            interior(p),
            i - RULE_KERNEL_HEIGHT_HALF,
            j - RULE_KERNEL_WIDTH_HALF,
        )
}

/// The plane index whose value the plane index `i` mirrors, along an axis of
/// `n` interior cells with a halo of `half` cells on each side: a halo index
/// mirrors the interior index one length away, an interior index itself.
pub open spec fn halo_source(i: int, n: int, half: int) -> int {
    if i < half {
        i + n
    } else if i >= n + half {
        i - n
    } else {
        i
    }
}

proof fn lemma_halo_source_wraps(i: int, n: int, half: int)
    requires
        n >= half,
        n > 0,
        half >= 0,
        0 <= i < n + 2 * half,
    ensures
        halo_source(i, n, half) - half == (i - half) % n,
        half <= halo_source(i, n, half) < n + half,
{
    lemma_wrap_near(i - half, n);
}

fn halo_source_index(i: usize, n: usize, half: usize) -> (s: usize)
    requires
        n >= half,
        n > 0,
        i < n + 2 * half,
        n + 2 * half <= usize::MAX,
    ensures
        s == halo_source(i as int, n as int, half as int),
        half <= s < n + half,
{
    if i < half {
        i + n
    } else if i >= n + half {
        i - n
    } else {
        i
    }
}

/// Copies each interior edge and corner block into the halo on the opposite
/// side, so that the plane shows the torus of its interior.
fn sync_halo(plane: &mut Vec<Vec<u8>>)
    requires
        is_wrapped_plane(rows_view(old(plane))),
    ensures
        rows_view(final(plane)).len() == rows_view(old(plane)).len(),
        forall|i: int|
            0 <= i < rows_view(final(plane)).len() ==> (#[trigger] rows_view(final(plane))[i]).len()
                == rows_view(old(plane))[0].len(),
        forall|i: int, j: int|
            0 <= i < rows_view(old(plane)).len() && 0 <= j < rows_view(old(plane))[0].len()
                ==> #[trigger] rows_view(final(plane))[i][j] == rows_view(old(plane))[halo_source(
                i,
                rows_view(old(plane)).len() - 2 * RULE_KERNEL_HEIGHT_HALF,
                RULE_KERNEL_HEIGHT_HALF as int,
            )][halo_source(
                j,
                rows_view(old(plane))[0].len() - 2 * RULE_KERNEL_WIDTH_HALF,
                RULE_KERNEL_WIDTH_HALF as int,
            )],
{
    let ghost p0 = rows_view(plane);
    let ph = plane.len();
    let pw = plane[0].len();
    let h = ph - 2 * RULE_KERNEL_HEIGHT_HALF;
    let w = pw - 2 * RULE_KERNEL_WIDTH_HALF;
    assert(p0[0].len() == pw);
    let mut i: usize = 0;
    while i < ph
        invariant
            p0 == rows_view(old(plane)),
            is_wrapped_plane(p0),
            ph == p0.len(),
            pw == p0[0].len(),
            h == ph - 2 * RULE_KERNEL_HEIGHT_HALF,
            w == pw - 2 * RULE_KERNEL_WIDTH_HALF,
            0 <= i <= ph,
            rows_view(plane).len() == ph,
            forall|a: int| 0 <= a < ph ==> (#[trigger] rows_view(plane)[a]).len() == pw,
            forall|a: int, b: int|
                0 <= a < ph && 0 <= b < pw ==> #[trigger] rows_view(plane)[a][b] == if a < i {
                    p0[halo_source(a, h as int, RULE_KERNEL_HEIGHT_HALF as int)][halo_source(
                        b,
                        w as int,
                        RULE_KERNEL_WIDTH_HALF as int,
                    )]
                } else {
                    p0[a][b]
                },
        decreases ph - i,
    {
        let si = halo_source_index(i, h, RULE_KERNEL_HEIGHT_HALF);
        let mut j: usize = 0;
        while j < pw
            invariant
                p0 == rows_view(old(plane)),
                is_wrapped_plane(p0),
                ph == p0.len(),
                pw == p0[0].len(),
                h == ph - 2 * RULE_KERNEL_HEIGHT_HALF,
                w == pw - 2 * RULE_KERNEL_WIDTH_HALF,
                0 <= i < ph,
                0 <= j <= pw,
                si == halo_source(i as int, h as int, RULE_KERNEL_HEIGHT_HALF as int),
                RULE_KERNEL_HEIGHT_HALF <= si < h + RULE_KERNEL_HEIGHT_HALF,
                rows_view(plane).len() == ph,
                forall|a: int| 0 <= a < ph ==> (#[trigger] rows_view(plane)[a]).len() == pw,
                forall|a: int, b: int|
                    0 <= a < ph && 0 <= b < pw ==> #[trigger] rows_view(plane)[a][b] == if a < i
                        || (a == i && b < j) {
                        p0[halo_source(a, h as int, RULE_KERNEL_HEIGHT_HALF as int)][halo_source(
                            b,
                            w as int,
                            RULE_KERNEL_WIDTH_HALF as int,
                        )]
                    } else {
                        p0[a][b]
                    },
            decreases pw - j,
        {
            let sj = halo_source_index(j, w, RULE_KERNEL_WIDTH_HALF);
            if si != i || sj != j {
                assert(rows_view(plane)[si as int].len() == pw);
                assert(rows_view(plane)[i as int].len() == pw);
                let v = plane[si][sj];
                let ghost before = rows_view(plane);
                plane[i][j] = v;
                assert(rows_view(plane) =~~= before.update(
                    i as int,
                    before[i as int].update(j as int, v),
                ));
            }
            j += 1;
        }
        i += 1;
    }
}

/// A plane whose every cell took the value of its halo source shows, cell
/// for cell, the torus of the interior it was made from.
proof fn lemma_synced_plane_shows_torus(p0: Seq<Seq<u8>>, p1: Seq<Seq<u8>>)
    requires
        is_wrapped_plane(p0),
        p1.len() == p0.len(),
        forall|i: int| 0 <= i < p1.len() ==> (#[trigger] p1[i]).len() == p0[0].len(),
        forall|i: int, j: int|
            0 <= i < p0.len() && 0 <= j < p0[0].len() ==> #[trigger] p1[i][j] == p0[halo_source(
                i,
                p0.len() - 2 * RULE_KERNEL_HEIGHT_HALF,
                RULE_KERNEL_HEIGHT_HALF as int,
            )][halo_source(j, p0[0].len() - 2 * RULE_KERNEL_WIDTH_HALF, RULE_KERNEL_WIDTH_HALF as int)],
    ensures
        is_wrapped_plane(p1),
        interior(p1) =~~= interior(p0),
        halo_synced(p1),
        forall|i: int, j: int|
            0 <= i < p0.len() && 0 <= j < p0[0].len() ==> #[trigger] p1[i][j] == torus_cell(
                interior(p0),
                i - RULE_KERNEL_HEIGHT_HALF,
                j - RULE_KERNEL_WIDTH_HALF,
            ),
{
    let h = p0.len() - 2 * RULE_KERNEL_HEIGHT_HALF;
    let w = p0[0].len() - 2 * RULE_KERNEL_WIDTH_HALF;
    assert(p1[0].len() == p0[0].len());
    assert forall|i: int, j: int|
        0 <= i < p0.len() && 0 <= j < p0[0].len() implies #[trigger] p1[i][j] == torus_cell(
            interior(p0),
            i - RULE_KERNEL_HEIGHT_HALF,
            j - RULE_KERNEL_WIDTH_HALF,
        ) by {
        lemma_halo_source_wraps(i, h, RULE_KERNEL_HEIGHT_HALF as int);
        lemma_halo_source_wraps(j, w, RULE_KERNEL_WIDTH_HALF as int);
    }
    assert forall|r: int, c: int| 0 <= r < h && 0 <= c < w implies interior(p1)[r][c] == interior(
        p0,
    )[r][c] by {
        lemma_halo_source_wraps(r + RULE_KERNEL_HEIGHT_HALF, h, RULE_KERNEL_HEIGHT_HALF as int);
        lemma_halo_source_wraps(c + RULE_KERNEL_WIDTH_HALF, w, RULE_KERNEL_WIDTH_HALF as int);
        assert(p1[r + RULE_KERNEL_HEIGHT_HALF][c + RULE_KERNEL_WIDTH_HALF] == p0[r + RULE_KERNEL_HEIGHT_HALF][c + RULE_KERNEL_WIDTH_HALF]);
    }
    assert(interior(p1) =~~= interior(p0));
}

/// A cell of the torus of a grid of cell states is a cell state.
proof fn lemma_torus_cell_is_state(g: Seq<Seq<u8>>, r: int, c: int)
    requires
        is_grid(g),
        holds_states(g),
    ensures
        is_cell_state(torus_cell(g, r, c)),
{
    let rr = r % height_of(g);
    let cc = c % width_of(g);
    vstd::arithmetic::div_mod::lemma_mod_bound(r, height_of(g));
    vstd::arithmetic::div_mod::lemma_mod_bound(c, width_of(g));
    assert(is_cell_state(g[rr][cc]));
}

/// The kernel's weight at row `i`, column `j`.
fn rule_kernel_weight(i: usize, j: usize) -> (w: u8)
    ensures
        w == rule_kernel(i as int, j as int),
{
    if i == RULE_KERNEL_HEIGHT_HALF && j == RULE_KERNEL_WIDTH_HALF {
        0
    } else {
        1
    }
}

/// The dot product of the kernel with the window of the plane centred at
/// the plane position `(r, c)`.
fn kernel_dot(plane: &Vec<Vec<u8>>, r: usize, c: usize) -> (s: u8)
    requires
        is_wrapped_plane(rows_view(plane)),
        halo_synced(rows_view(plane)),
        holds_states(interior(rows_view(plane))),
        RULE_KERNEL_HEIGHT_HALF <= r < rows_view(plane).len() - RULE_KERNEL_HEIGHT_HALF,
        RULE_KERNEL_WIDTH_HALF <= c < rows_view(plane)[0].len() - RULE_KERNEL_WIDTH_HALF,
    ensures
        s == neighbour_count(
            interior(rows_view(plane)),
            r - RULE_KERNEL_HEIGHT_HALF,
            c - RULE_KERNEL_WIDTH_HALF,
        ),
{
    let ghost p = rows_view(plane);
    let ghost g = interior(p);
    let ghost x = r - RULE_KERNEL_HEIGHT_HALF;
    let ghost y = c - RULE_KERNEL_WIDTH_HALF;
    assert(is_grid(g)) by {
        assert(g[0].len() == p[0].len() - 2 * RULE_KERNEL_WIDTH_HALF);
    }
    let ph = plane.len();
    let pw = plane[0].len();
    let top = r - RULE_KERNEL_HEIGHT_HALF;
    let left = c - RULE_KERNEL_WIDTH_HALF;
    let mut s: u8 = 0;
    let mut k: usize = 0;
    while k < RULE_KERNEL_WIDTH * RULE_KERNEL_HEIGHT
        invariant
            p == rows_view(plane),
            g == interior(p),
            is_wrapped_plane(p),
            is_grid(g),
            halo_synced(p),
            holds_states(g),
            RULE_KERNEL_HEIGHT_HALF <= r < p.len() - RULE_KERNEL_HEIGHT_HALF,
            RULE_KERNEL_WIDTH_HALF <= c < p[0].len() - RULE_KERNEL_WIDTH_HALF,
            top == x,
            left == y,
            ph == p.len(),
            pw == p[0].len(),
            x == r - RULE_KERNEL_HEIGHT_HALF,
            y == c - RULE_KERNEL_WIDTH_HALF,
            k <= RULE_KERNEL_WIDTH * RULE_KERNEL_HEIGHT,
            s <= k,
            s == window_sum(g, x, y, k as nat),
        decreases RULE_KERNEL_WIDTH * RULE_KERNEL_HEIGHT - k,
    {
        let i = k / RULE_KERNEL_WIDTH;
        let j = k % RULE_KERNEL_WIDTH;
        assert(i < RULE_KERNEL_HEIGHT && j < RULE_KERNEL_WIDTH);
        assert(p[(top + i) as int].len() == p[0].len());
        let v = plane[top + i][left + j];
        proof {
            lemma_torus_cell_is_state(g, x + i - RULE_KERNEL_HEIGHT_HALF, y + j - RULE_KERNEL_WIDTH_HALF);
        }
        s = s + rule_kernel_weight(i, j) * v;
        k += 1;
    }
    s
}

/// The plane position `(i, j)` is an interior cell, not part of the halo.
pub open spec fn in_interior(p: Seq<Seq<u8>>, i: int, j: int) -> bool {
    &&& RULE_KERNEL_HEIGHT_HALF <= i < p.len() - RULE_KERNEL_HEIGHT_HALF
    &&& RULE_KERNEL_WIDTH_HALF <= j < p[0].len() - RULE_KERNEL_WIDTH_HALF
}

/// The neighbour counts that a wrapped plane holding the grid `g` gives: the
/// count of each interior cell at its plane position, zero on the halo.
pub open spec fn counts_entry(p: Seq<Seq<u8>>, g: Seq<Seq<u8>>, i: int, j: int) -> int {
    if in_interior(p, i, j) {
        neighbour_count(g, i - RULE_KERNEL_HEIGHT_HALF, j - RULE_KERNEL_WIDTH_HALF)
    } else {
        0
    }
}

/// Computes, for every interior cell of a plane whose halo is in sync, the
/// dot product of the kernel with the window round it.
fn count_neighbours(plane: &Vec<Vec<u8>>) -> (counts: Vec<Vec<u8>>)
    requires
        is_wrapped_plane(rows_view(plane)),
        halo_synced(rows_view(plane)),
        holds_states(interior(rows_view(plane))),
    ensures
        rows_view(&counts).len() == rows_view(plane).len(),
        forall|i: int|
            0 <= i < rows_view(&counts).len() ==> (#[trigger] rows_view(&counts)[i]).len()
                == rows_view(plane)[0].len(),
        forall|i: int, j: int|
            0 <= i < rows_view(plane).len() && 0 <= j < rows_view(plane)[0].len()
                ==> #[trigger] rows_view(&counts)[i][j] as int == counts_entry(
                rows_view(plane),
                interior(rows_view(plane)),
                i,
                j,
            ),
{
    let ghost p = rows_view(plane);
    let ph = plane.len();
    let pw = plane[0].len();
    let mut counts: Vec<Vec<u8>> = Vec::new();
    let mut i: usize = 0;
    while i < ph
        invariant
            p == rows_view(plane),
            is_wrapped_plane(p),
            halo_synced(p),
            holds_states(interior(p)),
            ph == p.len(),
            pw == p[0].len(),
            i <= ph,
            rows_view(&counts).len() == i,
            forall|a: int| 0 <= a < i ==> (#[trigger] rows_view(&counts)[a]).len() == pw,
            forall|a: int, b: int|
                0 <= a < i && 0 <= b < pw ==> #[trigger] rows_view(&counts)[a][b] as int
                    == counts_entry(p, interior(p), a, b),
        decreases ph - i,
    {
        let mut row: Vec<u8> = Vec::new();
        let mut j: usize = 0;
        while j < pw
            invariant
                p == rows_view(plane),
                is_wrapped_plane(p),
                halo_synced(p),
                holds_states(interior(p)),
                ph == p.len(),
                pw == p[0].len(),
                i < ph,
                j <= pw,
                row@.len() == j,
                forall|b: int| 0 <= b < j ==> #[trigger] row@[b] as int == counts_entry(p, interior(p), i as int, b),
            decreases pw - j,
        {
            if RULE_KERNEL_HEIGHT_HALF <= i && i < ph - RULE_KERNEL_HEIGHT_HALF
                && RULE_KERNEL_WIDTH_HALF <= j && j < pw - RULE_KERNEL_WIDTH_HALF {
                let n = kernel_dot(plane, i, j);
                row.push(n);
            } else {
                row.push(0);
            }
            j += 1;
        }
        let ghost before = rows_view(&counts);
        counts.push(row);
        assert(rows_view(&counts) =~= before.push(row@));
        i += 1;
    }
    counts
}

/// Brings the halo of the plane in sync with its interior, then returns the
/// number of populated neighbours of every interior cell on the torus, at the
/// cell's plane position; the halo positions of the result hold zero.
pub fn convolve_torus(torus_wrapped_plane: &mut Vec<Vec<u8>>) -> (counts: Vec<Vec<u8>>)
    requires
        is_wrapped_plane(rows_view(old(torus_wrapped_plane))),
        holds_states(interior(rows_view(old(torus_wrapped_plane)))),
    ensures
        rows_view(final(torus_wrapped_plane)).len() == rows_view(old(torus_wrapped_plane)).len(),
        forall|i: int|
            0 <= i < rows_view(final(torus_wrapped_plane)).len() ==> (#[trigger] rows_view(
                final(torus_wrapped_plane),
            )[i]).len() == rows_view(old(torus_wrapped_plane))[0].len(),
        forall|i: int, j: int|
            0 <= i < rows_view(old(torus_wrapped_plane)).len() && 0 <= j < rows_view(
                old(torus_wrapped_plane),
            )[0].len() ==> #[trigger] rows_view(final(torus_wrapped_plane))[i][j] == torus_cell(
                interior(rows_view(old(torus_wrapped_plane))),
                i - RULE_KERNEL_HEIGHT_HALF,
                j - RULE_KERNEL_WIDTH_HALF,
            ),
        rows_view(&counts).len() == rows_view(old(torus_wrapped_plane)).len(),
        forall|i: int|
            0 <= i < rows_view(&counts).len() ==> (#[trigger] rows_view(&counts)[i]).len()
                == rows_view(old(torus_wrapped_plane))[0].len(),
        forall|i: int, j: int|
            0 <= i < rows_view(old(torus_wrapped_plane)).len() && 0 <= j < rows_view(
                old(torus_wrapped_plane),
            )[0].len() ==> #[trigger] rows_view(&counts)[i][j] as int == counts_entry(
                rows_view(old(torus_wrapped_plane)),
                interior(rows_view(old(torus_wrapped_plane))),
                i,
                j,
            ),
{
    let ghost p0 = rows_view(torus_wrapped_plane);
    sync_halo(torus_wrapped_plane);
    proof {
        lemma_synced_plane_shows_torus(p0, rows_view(torus_wrapped_plane));
    }
    count_neighbours(torus_wrapped_plane)
}

} // verus!
