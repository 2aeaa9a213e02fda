use vstd::prelude::*;
use crate::element::Element;
use crate::grid::{Grid, GridModel};
use crate::rng::{SimRng, rng_next, coin_of};
use crate::sand;
use crate::water;
use crate::person;

verus! {

/// Dispatch one cell to its update rule; kinds without a rule rest.
pub open spec fn dispatch_step(g: GridModel, x: int, y: int, r: u64) -> (GridModel, u64) {
    match g.cell(x, y) {
        Element::Sand => sand::sand_step(g, x, y, r),
        Element::Water => water::water_step(g, x, y, r),
        Element::Agent => person::person_step(g, x, y, r),
        _ => (g, r),
    }
}

/// The element catalog's movability flag matches rule dispatch exactly:
/// a cell whose kind is not movable rests, whatever the stream holds.
pub proof fn lemma_dispatch_immovable(g: GridModel, x: int, y: int, r: u64)
    requires
        !g.cell(x, y).spec_is_movable(),
    ensures
        dispatch_step(g, x, y, r) == (g, r),
{
}

/// The column the `i`th visit of a row scan lands on.
pub open spec fn scan_x(w: nat, ltr: bool, i: int) -> int {
    if ltr {
        i
    } else {
        w - 1 - i
    }
}

/// Scan one row from column index `i` on: in a left-to-right scan the
/// `i`th visited column is `i`, in a right-to-left scan it is `w - 1 - i`.
pub open spec fn scan_row_from(w: nat, g: GridModel, r: u64, y: int, ltr: bool, i: nat) -> (
    GridModel,
    u64,
)
    decreases w - i,
{
    if i >= w {
        (g, r)
    } else {
        let stepped = dispatch_step(g, scan_x(w, ltr, i as int), y, r);
        scan_row_from(w, stepped.0, stepped.1, y, ltr, i + 1)
    }
}

/// Scan the rows from the bottom up, `k` rows already done; each row draws
/// its direction from the stream before it is scanned.
pub open spec fn scan_rows_from(w: nat, h: nat, g: GridModel, r: u64, k: nat) -> (GridModel, u64)
    decreases h - k,
{
    if k >= h {
        (g, r)
    } else {
        let y: int = h - 1 - k;
        let ltr = coin_of(r);
        let row = scan_row_from(w, g, rng_next(r), y, ltr, 0);
        scan_rows_from(w, h, row.0, row.1, k + 1)
    }
}

/// One full simulation tick of the model: rows bottom-to-top, each row in
/// a direction drawn fresh from the stream, each visited cell dispatched
/// to its rule on its current contents.
pub open spec fn tick_spec(g: GridModel, r: u64) -> (GridModel, u64) {
    scan_rows_from(g.width, g.height, g, r, 0)
}

/// `n` ticks in a row, threading the stream.
pub open spec fn tick_n(g: GridModel, r: u64, n: nat) -> (GridModel, u64)
    decreases n,
{
    if n == 0 {
        (g, r)
    } else {
        let t = tick_spec(g, r);
        tick_n(t.0, t.1, (n - 1) as nat)
    }
}

impl Grid {
    /// Advance the simulation by exactly one tick.  The resulting grid and
    /// stream are a pure function of the old ones, which is what makes a
    /// seeded run reproducible.
    pub fn update(&mut self, rng: &mut SimRng)
        requires
            old(self).wf(),
        ensures
            final(self).wf(),
            (final(self)@, final(rng)@) == tick_spec(old(self)@, old(rng)@),
    {
        let w = self.width();
        let h = self.height();
        let ghost g0 = old(self)@;
        let ghost r0 = old(rng)@;
        let mut k: usize = 0;
        while k < h
            invariant
                self.wf(),
                w == self@.width,
                h == self@.height,
                k <= h,
                scan_rows_from(w as nat, h as nat, self@, rng@, k as nat) == scan_rows_from(
                    w as nat,
                    h as nat,
                    g0,
                    r0,
                    0,
                ),
            decreases h - k,
        {
            let y = h - 1 - k;
            let ghost g_k = self@;
            let ghost r_k = rng@;
            let ltr = rng.coin();
            let ghost r_row = rng@;
            let mut i: usize = 0;
            while i < w
                invariant
                    self.wf(),
                    w == self@.width,
                    h == self@.height,
                    i <= w,
                    k < h,
                    y == h - 1 - k,
                    scan_row_from(w as nat, self@, rng@, y as int, ltr, i as nat) == scan_row_from(
                        w as nat,
                        g_k,
                        r_row,
                        y as int,
                        ltr,
                        0,
                    ),
                decreases w - i,
            {
                let x = if ltr {
                    i
                } else {
                    w - 1 - i
                };
                let ghost gi = self@;
                let ghost ri = rng@;
                let e = self.get(x, y);
                match e {
                    Element::Sand => sand::update(self, x, y, rng),
                    Element::Water => water::update(self, x, y, rng),
                    Element::Agent => person::update(self, x, y, rng),
                    _ => {},
                }
                proof {
                    assert((self@, rng@) == dispatch_step(gi, x as int, y as int, ri));
                    assert(scan_row_from(w as nat, gi, ri, y as int, ltr, i as nat)
                        == scan_row_from(w as nat, self@, rng@, y as int, ltr, (i + 1) as nat));
                }
                i = i + 1;
            }
            proof {
                assert(scan_row_from(w as nat, self@, rng@, y as int, ltr, w as nat) == (
                    self@,
                    rng@,
                ));
                assert(scan_rows_from(w as nat, h as nat, g_k, r_k, k as nat) == scan_rows_from(
                    w as nat,
                    h as nat,
                    self@,
                    rng@,
                    (k + 1) as nat,
                ));
            }
            k = k + 1;
        }
    }
}

} // verus!
