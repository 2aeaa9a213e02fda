use vstd::prelude::*;
use crate::element::Element;
use crate::grid::{Grid, GridModel, spec_swap};
use crate::rng::{SimRng, rng_next, coin_of};

verus! {

/// One application of the water rule at (x, y): fall straight down into
/// Empty; otherwise try the two diagonal-down cells, then the two same-row
/// neighbours, in an order drawn from the stream.  Water only ever moves
/// into Empty.  The second component is the stream state after the draw
/// the rule consumed, if any.
pub open spec fn water_step(g: GridModel, x: int, y: int, r: u64) -> (GridModel, u64) {
    if y + 1 >= g.height {
        (g, r)
    } else if g.cell(x, y + 1) == Element::Empty {
        (spec_swap(g, x, y, x, y + 1), r)
    } else {
        let d1: int = if coin_of(r) {
            -1
        } else {
            1
        };
        let r1 = rng_next(r);
        if g.cell(x + d1, y + 1) == Element::Empty {
            (spec_swap(g, x, y, x + d1, y + 1), r1)
        } else if g.cell(x - d1, y + 1) == Element::Empty {
            (spec_swap(g, x, y, x - d1, y + 1), r1)
        } else if g.cell(x + d1, y) == Element::Empty {
            (spec_swap(g, x, y, x + d1, y), r1)
        } else if g.cell(x - d1, y) == Element::Empty {
            (spec_swap(g, x, y, x - d1, y), r1)
        } else {
            (g, r1)
        }
    }
}

/// Whether the neighbour one column to the given side, in row `yy`, is
/// Empty.  The boundary sentinel makes out-of-range sides read as Stone.
fn side_is_empty(grid: &Grid, x: usize, yy: usize, left: bool) -> (r: bool)
    requires
        grid.wf(),
        x < grid@.width,
    ensures
        r == (grid@.cell(x as int + (if left { -1int } else { 1int }), yy as int)
            == Element::Empty),
{
    let w = grid.width();
    if left {
        if x == 0 {
            false
        } else {
            grid.get(x - 1, yy) == Element::Empty
        }
    } else {
        grid.get(x + 1, yy) == Element::Empty
    }
}

/// The water update rule; called on a cell already known to hold Water.
pub fn update(grid: &mut Grid, x: usize, y: usize, rng: &mut SimRng)
    requires
        old(grid).wf(),
        old(grid)@.cell(x as int, y as int) == Element::Water,
    ensures
        final(grid).wf(),
        (final(grid)@, final(rng)@) == water_step(old(grid)@, x as int, y as int, old(rng)@),
{
    let h = grid.height();
    let w = grid.width();
    if h == 0 || y >= h - 1 {
        return;
    }
    if grid.get(x, y + 1) == Element::Empty {
        grid.swap_cells(x, y, x, y + 1);
        return;
    }
    let left_first = rng.coin();
    if side_is_empty(grid, x, y + 1, left_first) {
        let nx = if left_first {
            x - 1
        } else {
            x + 1
        };
        grid.swap_cells(x, y, nx, y + 1);
        return;
    }
    if side_is_empty(grid, x, y + 1, !left_first) {
        let nx = if left_first {
            x + 1
        } else {
            x - 1
        };
        grid.swap_cells(x, y, nx, y + 1);
        return;
    }
    if side_is_empty(grid, x, y, left_first) {
        let nx = if left_first {
            x - 1
        } else {
            x + 1
        };
        grid.swap_cells(x, y, nx, y);
        return;
    }
    if side_is_empty(grid, x, y, !left_first) {
        let nx = if left_first {
            x + 1
        } else {
            x - 1
        };
        grid.swap_cells(x, y, nx, y);
        return;
    }
}

} // verus!
