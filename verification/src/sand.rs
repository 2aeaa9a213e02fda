use vstd::prelude::*;
use crate::element::Element;
use crate::grid::{Grid, GridModel, spec_swap};
use crate::rng::{SimRng, rng_next, coin_of};

verus! {

/// The cells sand falls into: open air, or water it sinks through.
pub open spec fn sand_falls_into(e: Element) -> bool {
    e == Element::Empty || e == Element::Water
}

/// One application of the sand rule at (x, y): fall straight down into
/// Empty or Water (sand displaces water); otherwise try the two
/// diagonal-down cells in an order drawn from the stream; otherwise rest.
/// The second component is the stream state after the draw the rule
/// consumed, if any.
pub open spec fn sand_step(g: GridModel, x: int, y: int, r: u64) -> (GridModel, u64) {
    if y + 1 >= g.height {
        (g, r)
    } else if sand_falls_into(g.cell(x, y + 1)) {
        (spec_swap(g, x, y, x, y + 1), r)
    } else {
        let d1: int = if coin_of(r) {
            -1
        } else {
            1
        };
        let r1 = rng_next(r);
        if sand_falls_into(g.cell(x + d1, y + 1)) {
            (spec_swap(g, x, y, x + d1, y + 1), r1)
        } else if sand_falls_into(g.cell(x - d1, y + 1)) {
            (spec_swap(g, x, y, x - d1, y + 1), r1)
        } else {
            (g, r1)
        }
    }
}

/// Whether the diagonal-down neighbour on the given side qualifies for a
/// sand move.  The boundary sentinel makes the out-of-range sides read as
/// Stone, which never qualifies.
fn diag_ok(grid: &Grid, x: usize, y: usize, left: bool) -> (r: bool)
    requires
        grid.wf(),
        grid@.in_bounds(x as int, y as int),
        y + 1 < grid@.height,
    ensures
        r == sand_falls_into(
            grid@.cell(x as int + (if left { -1int } else { 1int }), y as int + 1),
        ),
{
    let w = grid.width();
    let h = grid.height();
    if left {
        if x == 0 {
            false
        } else {
            let e = grid.get(x - 1, y + 1);
            e == Element::Empty || e == Element::Water
        }
    } else {
        let e = grid.get(x + 1, y + 1);
        e == Element::Empty || e == Element::Water
    }
}

/// The sand update rule; called on a cell already known to hold Sand.
pub fn update(grid: &mut Grid, x: usize, y: usize, rng: &mut SimRng)
    requires
        old(grid).wf(),
        old(grid)@.cell(x as int, y as int) == Element::Sand,
    ensures
        final(grid).wf(),
        (final(grid)@, final(rng)@) == sand_step(old(grid)@, x as int, y as int, old(rng)@),
{
    let h = grid.height();
    let w = grid.width();
    if h == 0 || y >= h - 1 {
        return;
    }
    let below = grid.get(x, y + 1);
    if below == Element::Empty || below == Element::Water {
        grid.swap_cells(x, y, x, y + 1);
        return;
    }
    let left_first = rng.coin();
    if diag_ok(grid, x, y, left_first) {
        let nx = if left_first {
            x - 1
        } else {
            x + 1
        };
        grid.swap_cells(x, y, nx, y + 1);
        return;
    }
    if diag_ok(grid, x, y, !left_first) {
        let nx = if left_first {
            x + 1
        } else {
            x - 1
        };
        grid.swap_cells(x, y, nx, y + 1);
        return;
    }
}

} // verus!
