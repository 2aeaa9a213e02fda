use vstd::prelude::*;
use crate::element::Element;
use crate::person_state::PersonState;
use crate::grid::{
    GridModel, group_grid_transitions, spec_set, spec_swap, spec_set_state,
    lemma_set_preserves_consistency, lemma_swap_preserves_consistency,
    lemma_set_state_preserves_consistency,
};
use crate::sand::{sand_step, sand_falls_into};
use crate::water::water_step;
use crate::person::{person_step, person_try_dir, is_suffocating, walkable_or_agent, DROWN_TICKS};
use crate::rng::{rng_next, coin_of};
use crate::tick::{
    dispatch_step, tick_spec, tick_n, scan_x, scan_row_from, scan_rows_from,
    lemma_dispatch_immovable,
};

verus! {

/// Boundary sentinel: reading any coordinate outside the rectangle answers
/// Stone, never a failure, whatever the grid holds.
pub proof fn lemma_boundary_sentinel(g: GridModel, x: int, y: int)
    requires
        x < 0 || y < 0 || x >= g.width || y >= g.height,
    ensures
        g.cell(x, y) == Element::Stone,
{
}

/// Scan determinism: two runs from equal grids and equal stream states
/// coincide after any number of ticks.  Together with `Grid::update`'s
/// contract - which pins the stepped grid and stream as a pure function of
/// the old ones - this makes a seeded run reproducible bit for bit.
pub proof fn lemma_scan_deterministic(g1: GridModel, r1: u64, g2: GridModel, r2: u64, n: nat)
    requires
        g1 == g2,
        r1 == r2,
    ensures
        tick_n(g1, r1, n) == tick_n(g2, r2, n),
{
}

/// Sand sinks through water: a sand cell directly above a water cell swaps
/// with it in a single application of the sand rule, whatever the stream
/// holds, and no other cell changes.
pub proof fn lemma_sand_sinks_through_water(g: GridModel, x: int, y: int, r: u64)
    requires
        g.cell(x, y) == Element::Sand,
        g.cell(x, y + 1) == Element::Water,
    ensures
        ({
            let g1 = sand_step(g, x, y, r).0;
            &&& g1.cell(x, y) == Element::Water
            &&& g1.cell(x, y + 1) == Element::Sand
            &&& sand_step(g, x, y, r).1 == r
            &&& forall|a: int, b: int|
                #![trigger g1.cell(a, b)]
                !(a == x && b == y) && !(a == x && b == y + 1) ==> g1.cell(a, b) == g.cell(a, b)
        }),
{
    broadcast use group_grid_transitions;

}

/// Drowning is exact: an agent one breath short of the threshold, with
/// water or sand still above, converts to Empty on this very tick, its
/// state entry disappearing with the cell.
pub proof fn lemma_agent_drowns_at_threshold(g: GridModel, x: int, y: int, r: u64)
    requires
        g.cell(x, y) == Element::Agent,
        y + 1 < g.height,
        is_suffocating(g, x, y),
        g.state_or_default(x, y).water_ticks >= DROWN_TICKS - 1,
    ensures
        person_step(g, x, y, r).0.cell(x, y) == Element::Empty,
        person_step(g, x, y, r).0.state_at(x, y) is None,
        person_step(g, x, y, r).1 == r,
{
    broadcast use group_grid_transitions;

}

/// Somewhere in the grid an agent stands with exactly this breath count.
pub open spec fn agent_alive_with_breath(g: GridModel, wt: u32) -> bool {
    exists|a: int, b: int|
        (#[trigger] g.state_at(a, b)) is Some && g.cell(a, b) == Element::Agent && g.state_at(
            a,
            b,
        )->Some_0.water_ticks == wt
}

/// No early death, and the counter is live: below the drown threshold the
/// agent survives the tick - wherever its move takes it - and its breath
/// counter ticks up under water or sand, or resets to zero in open air.
pub proof fn lemma_agent_survives_below_threshold(g: GridModel, x: int, y: int, r: u64)
    requires
        g.cell(x, y) == Element::Agent,
        y + 1 < g.height,
        !(is_suffocating(g, x, y) && g.state_or_default(x, y).water_ticks >= DROWN_TICKS - 1),
    ensures
        agent_alive_with_breath(
            person_step(g, x, y, r).0,
            if is_suffocating(g, x, y) {
                (g.state_or_default(x, y).water_ticks + 1) as u32
            } else {
                0u32
            },
        ),
{
    broadcast use group_grid_transitions;

    let st0 = g.state_or_default(x, y);
    let suff = is_suffocating(g, x, y);
    let wt1: u32 = if suff {
        (st0.water_ticks + 1) as u32
    } else {
        0u32
    };
    let st1 = PersonState { water_ticks: wt1, jump_velocity: st0.jump_velocity };
    let g1 = person_step(g, x, y, r).0;
    let jump_open = y > 0 && (g.cell(x, y - 1) == Element::Empty || g.cell(x, y - 1)
        == Element::Water);
    if st1.jump_velocity > 0 && jump_open {
        assert(g1.state_at(x, y - 1) is Some && g1.cell(x, y - 1) == Element::Agent
            && g1.state_at(x, y - 1)->Some_0.water_ticks == wt1);
    } else {
        let st2 = if st1.jump_velocity > 0 {
            PersonState { jump_velocity: 0, water_ticks: st1.water_ticks }
        } else {
            st1
        };
        let below = g.cell(x, y + 1);
        if below == Element::Empty || below == Element::Water {
            assert(g1.state_at(x, y + 1) is Some && g1.cell(x, y + 1) == Element::Agent
                && g1.state_at(x, y + 1)->Some_0.water_ticks == wt1);
        } else if walkable_or_agent(below) {
            let d1: int = if coin_of(r) {
                -1
            } else {
                1
            };
            let ra = rng_next(r);
            lemma_try_dir_keeps_agent(g, x, y, st2, d1, ra);
            let first = person_try_dir(g, x, y, st2, d1, ra);
            match first.0 {
                Some(ga) => {
                    assert(agent_alive_with_breath(ga, wt1));
                },
                None => {
                    lemma_try_dir_keeps_agent(g, x, y, st2, -d1, first.1);
                    let second = person_try_dir(g, x, y, st2, -d1, first.1);
                    match second.0 {
                        Some(gb) => {
                            assert(agent_alive_with_breath(gb, wt1));
                        },
                        None => {
                            assert(g1.state_at(x, y) is Some && g1.cell(x, y) == Element::Agent
                                && g1.state_at(x, y)->Some_0.water_ticks == wt1);
                        },
                    }
                },
            }
        } else {
            assert(g1.state_at(x, y) is Some && g1.cell(x, y) == Element::Agent && g1.state_at(
                x,
                y,
            )->Some_0.water_ticks == wt1);
        }
    }
}

/// Whichever lateral branch fires, the agent survives it, carrying the
/// state it was handed.
proof fn lemma_try_dir_keeps_agent(g: GridModel, x: int, y: int, st: PersonState, d: int, r: u64)
    requires
        g.cell(x, y) == Element::Agent,
        y + 1 < g.height,
    ensures
        ({
            let outcome = person_try_dir(g, x, y, st, d, r);
            outcome.0 is Some ==> agent_alive_with_breath(outcome.0->Some_0, st.water_ticks)
        }),
{
    broadcast use group_grid_transitions;

    let target = g.cell(x + d, y);
    let outcome = person_try_dir(g, x, y, st, d, r);
    if target == Element::Empty && walkable_or_agent(g.cell(x + d, y + 1)) {
        let ga = outcome.0->Some_0;
        assert(ga.state_at(x + d, y) is Some && ga.cell(x + d, y) == Element::Agent && ga.state_at(
            x + d,
            y,
        )->Some_0.water_ticks == st.water_ticks);
    } else if y > 0 && target.spec_can_walk_on() && g.cell(x + d, y - 1) == Element::Empty {
        let ga = outcome.0->Some_0;
        assert(ga.state_at(x + d, y - 1) is Some && ga.cell(x + d, y - 1) == Element::Agent
            && ga.state_at(x + d, y - 1)->Some_0.water_ticks == st.water_ticks);
    } else if outcome.0 is Some {
        let ga = outcome.0->Some_0;
        assert(ga.state_at(x, y) is Some && ga.cell(x, y) == Element::Agent && ga.state_at(
            x,
            y,
        )->Some_0.water_ticks == st.water_ticks);
    }
}

/// A lone grain of sand in an otherwise-empty grid over a flat stone floor
/// on the bottom row.
pub open spec fn lone_sand_over_floor(g: GridModel, sx: int, sy: int) -> bool {
    &&& g.height >= 2
    &&& 0 <= sx < g.width
    &&& 0 <= sy < g.height - 1
    &&& g.cell(sx, sy) == Element::Sand
    &&& forall|x: int| 0 <= x < g.width ==> #[trigger] g.cell(x, g.height - 1) == Element::Stone
    &&& forall|x: int, y: int|
        #![trigger g.cell(x, y)]
        (0 <= x < g.width && 0 <= y < g.height - 1 && !(x == sx && y == sy)) ==> g.cell(x, y)
            == Element::Empty
}

/// Scanning the rest of a row whose remaining visits all land on immovable
/// cells changes nothing, and draws nothing from the stream.
proof fn lemma_scan_row_inert_from(w: nat, g: GridModel, r: u64, y: int, ltr: bool, i: nat)
    requires
        forall|i2: int|
            i <= i2 < w ==> !(#[trigger] g.cell(scan_x(w, ltr, i2), y)).spec_is_movable(),
    ensures
        scan_row_from(w, g, r, y, ltr, i) == (g, r),
    decreases w - i,
{
    if i < w {
        let x = scan_x(w, ltr, i as int);
        assert(!g.cell(x, y).spec_is_movable());
        lemma_dispatch_immovable(g, x, y, r);
        lemma_scan_row_inert_from(w, g, r, y, ltr, i + 1);
    }
}

/// Scanning a row that holds one grain of sand and otherwise Empty cells,
/// the sand not yet visited: the grain falls straight down if it can, and
/// rests - consuming one draw - if neither its below cell nor either
/// diagonal accepts it.
proof fn lemma_scan_row_lone_sand(
    w: nat,
    g: GridModel,
    r: u64,
    y: int,
    ltr: bool,
    i: nat,
    sx: int,
)
    requires
        w == g.width,
        0 <= y < g.height - 1,
        0 <= sx < w,
        g.cell(sx, y) == Element::Sand,
        forall|x: int|
            #![trigger g.cell(x, y)]
            (0 <= x < w && x != sx) ==> g.cell(x, y) == Element::Empty,
        i <= (if ltr {
            sx
        } else {
            w - 1 - sx
        }),
    ensures
        sand_falls_into(g.cell(sx, y + 1)) ==> scan_row_from(w, g, r, y, ltr, i) == (
            spec_swap(g, sx, y, sx, y + 1),
            r,
        ),
        (!sand_falls_into(g.cell(sx, y + 1)) && !sand_falls_into(g.cell(sx - 1, y + 1))
            && !sand_falls_into(g.cell(sx + 1, y + 1))) ==> scan_row_from(w, g, r, y, ltr, i) == (
            g,
            rng_next(r),
        ),
    decreases w - i,
{
    broadcast use group_grid_transitions;

    let pos: int = if ltr {
        sx
    } else {
        w - 1 - sx
    };
    if i < pos {
        let x = scan_x(w, ltr, i as int);
        assert(x != sx);
        assert(0 <= x < w);
        assert(g.cell(x, y) == Element::Empty);
        lemma_dispatch_immovable(g, x, y, r);
        lemma_scan_row_lone_sand(w, g, r, y, ltr, i + 1, sx);
    } else {
        assert(scan_x(w, ltr, i as int) == sx);
        if sand_falls_into(g.cell(sx, y + 1)) {
            let g2 = spec_swap(g, sx, y, sx, y + 1);
            assert forall|i2: int| i + 1 <= i2 < w implies !(#[trigger] g2.cell(
                scan_x(w, ltr, i2),
                y,
            )).spec_is_movable() by {
                let x2 = scan_x(w, ltr, i2);
                assert(x2 != sx);
                assert(0 <= x2 < w);
                assert(g2.cell(x2, y) == g.cell(x2, y));
            }
            lemma_scan_row_inert_from(w, g2, r, y, ltr, i + 1);
        } else if !sand_falls_into(g.cell(sx - 1, y + 1)) && !sand_falls_into(
            g.cell(sx + 1, y + 1),
        ) {
            assert forall|i2: int| i + 1 <= i2 < w implies !(#[trigger] g.cell(
                scan_x(w, ltr, i2),
                y,
            )).spec_is_movable() by {
                let x2 = scan_x(w, ltr, i2);
                assert(x2 != sx);
                assert(0 <= x2 < w);
            }
            lemma_scan_row_inert_from(w, g, rng_next(r), y, ltr, i + 1);
        }
    }
}

/// Scanning the remaining rows of a grid whose not-yet-visited rows hold
/// only immovable cells leaves the grid unchanged (though each row still
/// draws its scan direction).
proof fn lemma_scan_rows_inert(w: nat, h: nat, g: GridModel, r: u64, k: nat)
    requires
        w == g.width,
        h == g.height,
        forall|x: int, y: int|
            #![trigger g.cell(x, y)]
            (0 <= x < w && 0 <= y <= h - 1 - k) ==> !g.cell(x, y).spec_is_movable(),
    ensures
        scan_rows_from(w, h, g, r, k).0 == g,
    decreases h - k,
{
    if k < h {
        let y: int = h - 1 - k;
        let ltr = coin_of(r);
        assert forall|i2: int| 0 <= i2 < w implies !(#[trigger] g.cell(
            scan_x(w, ltr, i2),
            y,
        )).spec_is_movable() by {
            let x2 = scan_x(w, ltr, i2);
            assert(0 <= x2 < w);
        }
        lemma_scan_row_inert_from(w, g, rng_next(r), y, ltr, 0);
        lemma_scan_rows_inert(w, h, g, rng_next(r), k + 1);
    }
}

/// Scanning from any row at or below the lone grain: the grain falls one
/// row if the cell under it is free, and rests once it sits on the floor.
proof fn lemma_scan_rows_lone_sand(
    w: nat,
    h: nat,
    g: GridModel,
    r: u64,
    k: nat,
    sx: int,
    sy: int,
)
    requires
        w == g.width,
        h == g.height,
        lone_sand_over_floor(g, sx, sy),
        k <= h - 1 - sy,
    ensures
        sy < h - 2 ==> scan_rows_from(w, h, g, r, k).0 == spec_swap(g, sx, sy, sx, sy + 1),
        sy == h - 2 ==> scan_rows_from(w, h, g, r, k).0 == g,
    decreases h - k,
{
    broadcast use group_grid_transitions;

    let y: int = h - 1 - k;
    let ltr = coin_of(r);
    let r1 = rng_next(r);
    if y > sy {
        assert forall|i2: int| 0 <= i2 < w implies !(#[trigger] g.cell(
            scan_x(w, ltr, i2),
            y,
        )).spec_is_movable() by {
            let x2 = scan_x(w, ltr, i2);
            assert(0 <= x2 < w);
            if y == h - 1 {
                assert(g.cell(x2, y) == Element::Stone);
            } else {
                assert(g.cell(x2, y) == Element::Empty);
            }
        }
        lemma_scan_row_inert_from(w, g, r1, y, ltr, 0);
        lemma_scan_rows_lone_sand(w, h, g, r1, k + 1, sx, sy);
    } else {
        assert(y == sy);
        lemma_scan_row_lone_sand(w, g, r1, sy, ltr, 0, sx);
        if sy < h - 2 {
            assert(g.cell(sx, sy + 1) == Element::Empty);
            let g2 = spec_swap(g, sx, sy, sx, sy + 1);
            assert forall|x: int, y2: int|
                (0 <= x < w && 0 <= y2 <= h - 1 - (k + 1)) implies !(#[trigger] g2.cell(
                x,
                y2,
            )).spec_is_movable() by {
                assert(g2.cell(x, y2) == g.cell(x, y2));
                assert(g.cell(x, y2) == Element::Empty);
            }
            lemma_scan_rows_inert(w, h, g2, r1, k + 1);
        } else {
            assert(g.cell(sx, sy + 1) == Element::Stone);
            assert(!sand_falls_into(g.cell(sx - 1, sy + 1)));
            assert(!sand_falls_into(g.cell(sx + 1, sy + 1)));
            assert forall|x: int, y2: int|
                (0 <= x < w && 0 <= y2 <= h - 1 - (k + 1)) implies !(#[trigger] g.cell(
                x,
                y2,
            )).spec_is_movable() by {
                assert(g.cell(x, y2) == Element::Empty);
            }
            lemma_scan_rows_inert(w, h, g, rng_next(r1), k + 1);
        }
    }
}

/// One tick of the lone-sand scenario above open ground: the grain falls
/// exactly one row, nothing else changes, and the scenario re-establishes
/// itself one row lower.
pub proof fn lemma_sand_falls_one_tick(g: GridModel, r: u64, sx: int, sy: int)
    requires
        lone_sand_over_floor(g, sx, sy),
        sy < g.height - 2,
    ensures
        tick_spec(g, r).0 == spec_swap(g, sx, sy, sx, sy + 1),
        lone_sand_over_floor(tick_spec(g, r).0, sx, sy + 1),
{
    broadcast use group_grid_transitions;

    lemma_scan_rows_lone_sand(g.width, g.height, g, r, 0, sx, sy);
    let g2 = spec_swap(g, sx, sy, sx, sy + 1);
    assert(g2.cell(sx, sy + 1) == Element::Sand);
    assert forall|x: int| 0 <= x < g2.width implies #[trigger] g2.cell(x, g2.height - 1)
        == Element::Stone by {
        assert(g2.cell(x, g.height - 1) == g.cell(x, g.height - 1));
    }
    assert forall|x: int, y: int|
        (0 <= x < g2.width && 0 <= y < g2.height - 1 && !(x == sx && y == sy + 1)) implies #[trigger] g2.cell(
        x,
        y,
    ) == Element::Empty by {
        if x == sx && y == sy {
            assert(g2.cell(sx, sy) == g.cell(sx, sy + 1));
        } else {
            assert(g2.cell(x, y) == g.cell(x, y));
        }
    }
}

/// Once the grain rests on the floor, the grid is a fixed point of the
/// tick: it never moves again, whatever the stream draws.
pub proof fn lemma_sand_at_rest(g: GridModel, r: u64, sx: int)
    requires
        lone_sand_over_floor(g, sx, g.height - 2),
    ensures
        tick_spec(g, r).0 == g,
{
    lemma_scan_rows_lone_sand(g.width, g.height, g, r, 0, sx, g.height - 2);
}

/// Sand settling: falling one row per tick, the lone grain reaches the row
/// just above the floor within `height - 2 - sy` ticks, and every grid
/// from then on still satisfies the resting scenario (so, with the lemma
/// above, it never changes again).
pub proof fn lemma_sand_settles(g: GridModel, r: u64, sx: int, sy: int, n: nat)
    requires
        lone_sand_over_floor(g, sx, sy),
        n >= g.height - 2 - sy,
    ensures
        lone_sand_over_floor(tick_n(g, r, n).0, sx, g.height - 2),
        tick_n(g, r, n).0.cell(sx, g.height - 2) == Element::Sand,
    decreases n,
{
    if n == 0 {
        assert(sy == g.height - 2);
    } else {
        let t = tick_spec(g, r);
        if sy < g.height - 2 {
            lemma_sand_falls_one_tick(g, r, sx, sy);
            lemma_sand_settles(t.0, t.1, sx, sy + 1, (n - 1) as nat);
        } else {
            lemma_sand_at_rest(g, r, sx);
            lemma_sand_settles(t.0, t.1, sx, sy, (n - 1) as nat);
        }
    }
}

/// One sand step keeps the dimensions and the side-table match.
proof fn lemma_sand_step_shape(g: GridModel, x: int, y: int, r: u64)
    requires
        g.agents_consistent(),
    ensures
        sand_step(g, x, y, r).0.width == g.width,
        sand_step(g, x, y, r).0.height == g.height,
        sand_step(g, x, y, r).0.agents_consistent(),
{
    lemma_swap_preserves_consistency(g, x, y, x, y + 1);
    lemma_swap_preserves_consistency(g, x, y, x - 1, y + 1);
    lemma_swap_preserves_consistency(g, x, y, x + 1, y + 1);
}

/// One water step keeps the dimensions and the side-table match.
proof fn lemma_water_step_shape(g: GridModel, x: int, y: int, r: u64)
    requires
        g.agents_consistent(),
    ensures
        water_step(g, x, y, r).0.width == g.width,
        water_step(g, x, y, r).0.height == g.height,
        water_step(g, x, y, r).0.agents_consistent(),
{
    lemma_swap_preserves_consistency(g, x, y, x, y + 1);
    lemma_swap_preserves_consistency(g, x, y, x - 1, y + 1);
    lemma_swap_preserves_consistency(g, x, y, x + 1, y + 1);
    lemma_swap_preserves_consistency(g, x, y, x - 1, y);
    lemma_swap_preserves_consistency(g, x, y, x + 1, y);
}

/// One lateral attempt keeps the dimensions and the side-table match.
proof fn lemma_person_try_dir_shape(
    g: GridModel,
    x: int,
    y: int,
    st: PersonState,
    d: int,
    r: u64,
)
    requires
        g.agents_consistent(),
    ensures
        ({
            let o = person_try_dir(g, x, y, st, d, r).0;
            o is Some ==> {
                let g1 = o->Some_0;
                &&& g1.width == g.width
                &&& g1.height == g.height
                &&& g1.agents_consistent()
            }
        }),
{
    lemma_swap_preserves_consistency(g, x, y, x + d, y);
    lemma_set_state_preserves_consistency(spec_swap(g, x, y, x + d, y), x + d, y, st);
    lemma_swap_preserves_consistency(g, x, y, x + d, y - 1);
    lemma_set_state_preserves_consistency(spec_swap(g, x, y, x + d, y - 1), x + d, y - 1, st);
    lemma_set_state_preserves_consistency(
        g,
        x,
        y,
        PersonState { jump_velocity: 2, water_ticks: st.water_ticks },
    );
}

/// One agent step keeps the dimensions and the side-table match.
proof fn lemma_person_step_shape(g: GridModel, x: int, y: int, r: u64)
    requires
        g.agents_consistent(),
    ensures
        person_step(g, x, y, r).0.width == g.width,
        person_step(g, x, y, r).0.height == g.height,
        person_step(g, x, y, r).0.agents_consistent(),
{
    if y + 1 >= g.height {
    } else {
        let st0 = g.state_or_default(x, y);
        let suff = is_suffocating(g, x, y);
        if suff && st0.water_ticks >= DROWN_TICKS - 1 {
            lemma_set_preserves_consistency(g, x, y, Element::Empty);
        } else {
            let st1 = PersonState {
                water_ticks: if suff {
                    (st0.water_ticks + 1) as u32
                } else {
                    0u32
                },
                jump_velocity: st0.jump_velocity,
            };
            let jump_open = y > 0 && (g.cell(x, y - 1) == Element::Empty || g.cell(x, y - 1)
                == Element::Water);
            if st1.jump_velocity > 0 && jump_open {
                let st2 = PersonState {
                    jump_velocity: (st1.jump_velocity - 1) as i32,
                    water_ticks: st1.water_ticks,
                };
                lemma_swap_preserves_consistency(g, x, y, x, y - 1);
                lemma_set_state_preserves_consistency(spec_swap(g, x, y, x, y - 1), x, y - 1, st2);
            } else {
                let st2 = if st1.jump_velocity > 0 {
                    PersonState { jump_velocity: 0, water_ticks: st1.water_ticks }
                } else {
                    st1
                };
                let below = g.cell(x, y + 1);
                if below == Element::Empty || below == Element::Water {
                    lemma_swap_preserves_consistency(g, x, y, x, y + 1);
                    lemma_set_state_preserves_consistency(
                        spec_swap(g, x, y, x, y + 1),
                        x,
                        y + 1,
                        st2,
                    );
                } else if walkable_or_agent(below) {
                    let d1: int = if coin_of(r) {
                        -1
                    } else {
                        1
                    };
                    let ra = rng_next(r);
                    lemma_person_try_dir_shape(g, x, y, st2, d1, ra);
                    let first = person_try_dir(g, x, y, st2, d1, ra);
                    if first.0 is None {
                        lemma_person_try_dir_shape(g, x, y, st2, -d1, first.1);
                        lemma_set_state_preserves_consistency(g, x, y, st2);
                    }
                } else {
                    lemma_set_state_preserves_consistency(g, x, y, st2);
                }
            }
        }
    }
}

/// One dispatch keeps the dimensions and the side-table match.
proof fn lemma_dispatch_shape(g: GridModel, x: int, y: int, r: u64)
    requires
        g.agents_consistent(),
    ensures
        dispatch_step(g, x, y, r).0.width == g.width,
        dispatch_step(g, x, y, r).0.height == g.height,
        dispatch_step(g, x, y, r).0.agents_consistent(),
{
    lemma_sand_step_shape(g, x, y, r);
    lemma_water_step_shape(g, x, y, r);
    lemma_person_step_shape(g, x, y, r);
}

proof fn lemma_scan_row_shape(w: nat, g: GridModel, r: u64, y: int, ltr: bool, i: nat)
    requires
        g.agents_consistent(),
    ensures
        scan_row_from(w, g, r, y, ltr, i).0.width == g.width,
        scan_row_from(w, g, r, y, ltr, i).0.height == g.height,
        scan_row_from(w, g, r, y, ltr, i).0.agents_consistent(),
    decreases w - i,
{
    if i < w {
        let x = scan_x(w, ltr, i as int);
        lemma_dispatch_shape(g, x, y, r);
        let stepped = dispatch_step(g, x, y, r);
        lemma_scan_row_shape(w, stepped.0, stepped.1, y, ltr, i + 1);
    }
}

proof fn lemma_scan_rows_shape(w: nat, h: nat, g: GridModel, r: u64, k: nat)
    requires
        g.agents_consistent(),
    ensures
        scan_rows_from(w, h, g, r, k).0.width == g.width,
        scan_rows_from(w, h, g, r, k).0.height == g.height,
        scan_rows_from(w, h, g, r, k).0.agents_consistent(),
    decreases h - k,
{
    if k < h {
        let y: int = h - 1 - k;
        lemma_scan_row_shape(w, g, rng_next(r), y, coin_of(r), 0);
        let row = scan_row_from(w, g, rng_next(r), y, coin_of(r), 0);
        lemma_scan_rows_shape(w, h, row.0, row.1, k + 1);
    }
}

/// Invariant preservation through a whole tick, at the model level: a tick
/// of a grid whose side table matches its Agent cells yields a grid of the
/// same dimensions whose side table still matches.
pub proof fn lemma_tick_preserves_invariant(g: GridModel, r: u64)
    requires
        g.agents_consistent(),
    ensures
        tick_spec(g, r).0.width == g.width,
        tick_spec(g, r).0.height == g.height,
        tick_spec(g, r).0.agents_consistent(),
{
    lemma_scan_rows_shape(g.width, g.height, g, r, 0);
}

/// The same, over any number of ticks.
pub proof fn lemma_run_preserves_invariant(g: GridModel, r: u64, n: nat)
    requires
        g.agents_consistent(),
    ensures
        tick_n(g, r, n).0.width == g.width,
        tick_n(g, r, n).0.height == g.height,
        tick_n(g, r, n).0.agents_consistent(),
    decreases n,
{
    if n > 0 {
        lemma_tick_preserves_invariant(g, r);
        let t = tick_spec(g, r);
        lemma_run_preserves_invariant(t.0, t.1, (n - 1) as nat);
    }
}


/// An agent shut in a stone box with sand resting on its head: the one
/// arrangement in which nothing in the grid can move, so the submersion
/// counter is the only thing that changes from tick to tick.
pub open spec fn boxed_agent(g: GridModel, sx: int, sy: int, wt: u32) -> bool {
    &&& g.agents_consistent()
    &&& 1 <= sy
    &&& sy + 1 < g.height
    &&& 0 <= sx < g.width
    &&& g.cell(sx, sy) == Element::Agent
    &&& g.state_at(sx, sy) == Some(PersonState { water_ticks: wt, jump_velocity: 0 })
    &&& g.cell(sx, sy - 1) == Element::Sand
    &&& g.cell(sx - 1, sy) == Element::Stone
    &&& g.cell(sx + 1, sy) == Element::Stone
    &&& g.cell(sx - 1, sy - 1) == Element::Stone
    &&& g.cell(sx + 1, sy - 1) == Element::Stone
    &&& g.cell(sx, sy + 1) == Element::Stone
    &&& forall|x: int, y: int|
        #![trigger g.cell(x, y)]
        (0 <= x < g.width && 0 <= y < g.height && !(x == sx && (y == sy || y == sy - 1))) ==> (
        g.cell(x, y) == Element::Stone || g.cell(x, y) == Element::Empty)
}

/// Scanning a row whose only movable cell sits at column `sx`, not yet
/// visited, where that cell's dispatch yields the same grid `g1` whatever
/// the stream holds.
proof fn lemma_scan_row_one_active(
    w: nat,
    g: GridModel,
    r: u64,
    y: int,
    ltr: bool,
    i: nat,
    sx: int,
    g1: GridModel,
)
    requires
        0 <= sx < w,
        forall|i2: int|
            (i <= i2 < w && scan_x(w, ltr, i2) != sx) ==> !(#[trigger] g.cell(
                scan_x(w, ltr, i2),
                y,
            )).spec_is_movable(),
        forall|rr: u64| (#[trigger] dispatch_step(g, sx, y, rr)).0 == g1,
        forall|i2: int|
            (i <= i2 < w && scan_x(w, ltr, i2) != sx) ==> !(#[trigger] g1.cell(
                scan_x(w, ltr, i2),
                y,
            )).spec_is_movable(),
        i <= (if ltr {
            sx
        } else {
            w - 1 - sx
        }),
    ensures
        scan_row_from(w, g, r, y, ltr, i).0 == g1,
    decreases w - i,
{
    let pos: int = if ltr {
        sx
    } else {
        w - 1 - sx
    };
    if i < pos {
        let x = scan_x(w, ltr, i as int);
        assert(x != sx);
        assert(!g.cell(x, y).spec_is_movable());
        lemma_dispatch_immovable(g, x, y, r);
        lemma_scan_row_one_active(w, g, r, y, ltr, i + 1, sx, g1);
    } else {
        assert(scan_x(w, ltr, i as int) == sx);
        let stepped = dispatch_step(g, sx, y, r);
        assert(stepped.0 == g1);
        assert forall|i2: int| i + 1 <= i2 < w implies !(#[trigger] g1.cell(
            scan_x(w, ltr, i2),
            y,
        )).spec_is_movable() by {
            assert(scan_x(w, ltr, i2) != sx);
        }
        lemma_scan_row_inert_from(w, g1, stepped.1, y, ltr, i + 1);
    }
}

/// The boxed agent's own dispatch, for any stream: count one breath, or
/// die at the threshold; the walls rule out every move and every jump.
proof fn lemma_boxed_agent_dispatch(g: GridModel, sx: int, sy: int, wt: u32, rr: u64)
    requires
        boxed_agent(g, sx, sy, wt),
    ensures
        wt < DROWN_TICKS - 1 ==> dispatch_step(g, sx, sy, rr).0 == spec_set_state(
            g,
            sx,
            sy,
            PersonState { water_ticks: (wt + 1) as u32, jump_velocity: 0 },
        ),
        wt >= DROWN_TICKS - 1 ==> dispatch_step(g, sx, sy, rr).0 == spec_set(
            g,
            sx,
            sy,
            Element::Empty,
        ),
{
}

/// The sand's own dispatch in the boxed arrangement, for any stream: rest
/// on the agent while it lives, fall into its cell once it is gone.
proof fn lemma_boxed_sand_dispatch(g1: GridModel, sx: int, sy: int, rr: u64)
    requires
        g1.cell(sx, sy - 1) == Element::Sand,
        sy < g1.height,
        g1.cell(sx - 1, sy) == Element::Stone,
        g1.cell(sx + 1, sy) == Element::Stone,
    ensures
        g1.cell(sx, sy) == Element::Agent ==> dispatch_step(g1, sx, sy - 1, rr).0 == g1,
        g1.cell(sx, sy) == Element::Empty ==> dispatch_step(g1, sx, sy - 1, rr).0 == spec_swap(
            g1,
            sx,
            sy - 1,
            sx,
            sy,
        ),
{
}

/// Scanning all remaining rows of the boxed arrangement: one tick either
/// counts one breath or - at the threshold - removes the agent, the sand
/// falling into its cell later in the same tick.
proof fn lemma_scan_rows_boxed(
    w: nat,
    h: nat,
    g: GridModel,
    r: u64,
    k: nat,
    sx: int,
    sy: int,
    wt: u32,
)
    requires
        w == g.width,
        h == g.height,
        boxed_agent(g, sx, sy, wt),
        k <= h - 1 - sy,
    ensures
        wt < DROWN_TICKS - 1 ==> scan_rows_from(w, h, g, r, k).0 == spec_set_state(
            g,
            sx,
            sy,
            PersonState { water_ticks: (wt + 1) as u32, jump_velocity: 0 },
        ),
        wt >= DROWN_TICKS - 1 ==> scan_rows_from(w, h, g, r, k).0 == spec_swap(
            spec_set(g, sx, sy, Element::Empty),
            sx,
            sy - 1,
            sx,
            sy,
        ),
    decreases h - k,
{
    broadcast use group_grid_transitions;

    let y: int = h - 1 - k;
    let ltr = coin_of(r);
    let r1 = rng_next(r);
    if y > sy {
        assert forall|i2: int| 0 <= i2 < w implies !(#[trigger] g.cell(
            scan_x(w, ltr, i2),
            y,
        )).spec_is_movable() by {
            let x2 = scan_x(w, ltr, i2);
            assert(0 <= x2 < w);
            assert(g.cell(x2, y) == Element::Stone || g.cell(x2, y) == Element::Empty);
        }
        lemma_scan_row_inert_from(w, g, r1, y, ltr, 0);
        lemma_scan_rows_boxed(w, h, g, r1, k + 1, sx, sy, wt);
    } else {
        assert(y == sy);
        // The agent's row: count a breath, or die at the threshold.
        let g1 = if wt < DROWN_TICKS - 1 {
            spec_set_state(g, sx, sy, PersonState { water_ticks: (wt + 1) as u32, jump_velocity: 0 })
        } else {
            spec_set(g, sx, sy, Element::Empty)
        };
        assert forall|rr: u64| (#[trigger] dispatch_step(g, sx, sy, rr)).0 == g1 by {
            lemma_boxed_agent_dispatch(g, sx, sy, wt, rr);
        }
        assert forall|i2: int|
            (0 <= i2 < w && scan_x(w, ltr, i2) != sx) implies !(#[trigger] g.cell(
            scan_x(w, ltr, i2),
            sy,
        )).spec_is_movable() by {
            let x2 = scan_x(w, ltr, i2);
            assert(0 <= x2 < w);
            assert(g.cell(x2, sy) == Element::Stone || g.cell(x2, sy) == Element::Empty);
        }
        assert forall|i2: int|
            (0 <= i2 < w && scan_x(w, ltr, i2) != sx) implies !(#[trigger] g1.cell(
            scan_x(w, ltr, i2),
            sy,
        )).spec_is_movable() by {
            let x2 = scan_x(w, ltr, i2);
            assert(0 <= x2 < w);
            assert(g1.cell(x2, sy) == g.cell(x2, sy));
        }
        lemma_scan_row_one_active(w, g, r1, sy, ltr, 0, sx, g1);
        let row = scan_row_from(w, g, r1, sy, ltr, 0);
        assert(row.0 == g1);

        // The sand's row, scanned next: rest on the living agent, or fall
        // into the vacated cell.
        let ltr2 = coin_of(row.1);
        let r2 = rng_next(row.1);
        let g2 = if wt < DROWN_TICKS - 1 {
            g1
        } else {
            spec_swap(g1, sx, sy - 1, sx, sy)
        };
        assert(g1.cell(sx, sy - 1) == Element::Sand);
        assert(g1.cell(sx - 1, sy) == Element::Stone);
        assert(g1.cell(sx + 1, sy) == Element::Stone);
        assert forall|rr: u64| (#[trigger] dispatch_step(g1, sx, sy - 1, rr)).0 == g2 by {
            lemma_boxed_sand_dispatch(g1, sx, sy, rr);
            if wt < DROWN_TICKS - 1 {
                assert(g1.cell(sx, sy) == Element::Agent);
            } else {
                assert(g1.cell(sx, sy) == Element::Empty);
            }
        }
        assert forall|i2: int|
            (0 <= i2 < w && scan_x(w, ltr2, i2) != sx) implies !(#[trigger] g1.cell(
            scan_x(w, ltr2, i2),
            sy - 1,
        )).spec_is_movable() by {
            let x2 = scan_x(w, ltr2, i2);
            assert(0 <= x2 < w);
            assert(g1.cell(x2, sy - 1) == g.cell(x2, sy - 1));
            assert(g.cell(x2, sy - 1) == Element::Stone || g.cell(x2, sy - 1) == Element::Empty);
        }
        assert forall|i2: int|
            (0 <= i2 < w && scan_x(w, ltr2, i2) != sx) implies !(#[trigger] g2.cell(
            scan_x(w, ltr2, i2),
            sy - 1,
        )).spec_is_movable() by {
            let x2 = scan_x(w, ltr2, i2);
            assert(0 <= x2 < w);
            assert(g2.cell(x2, sy - 1) == g1.cell(x2, sy - 1));
        }
        lemma_scan_row_one_active(w, g1, r2, sy - 1, ltr2, 0, sx, g2);
        let row2 = scan_row_from(w, g1, r2, sy - 1, ltr2, 0);
        assert(row2.0 == g2);

        // Every row above holds only stone and air, in g2 as in g.
        assert forall|x: int, y2: int|
            (0 <= x < w && 0 <= y2 <= h - 1 - (k + 2)) implies !(#[trigger] g2.cell(
            x,
            y2,
        )).spec_is_movable() by {
            assert(y2 < sy - 1);
            assert(g2.cell(x, y2) == g.cell(x, y2));
            assert(g.cell(x, y2) == Element::Stone || g.cell(x, y2) == Element::Empty);
        }
        lemma_scan_rows_inert(w, h, g2, row2.1, k + 2);
        assert(scan_rows_from(w, h, g, r, k) == scan_rows_from(w, h, g1, row.1, k + 1));
        assert(scan_rows_from(w, h, g1, row.1, k + 1) == scan_rows_from(w, h, g2, row2.1, k + 2));
    }
}

/// One tick of the boxed arrangement below the threshold: the breath
/// counter ticks up by one and nothing else changes, whatever the stream
/// draws; the arrangement re-establishes itself.
proof fn lemma_boxed_tick_alive(g: GridModel, r: u64, sx: int, sy: int, wt: u32)
    requires
        boxed_agent(g, sx, sy, wt),
        wt < DROWN_TICKS - 1,
    ensures
        boxed_agent(tick_spec(g, r).0, sx, sy, (wt + 1) as u32),
    decreases 0nat,
{
    broadcast use group_grid_transitions;

    lemma_scan_rows_boxed(g.width, g.height, g, r, 0, sx, sy, wt);
    let st1 = PersonState { water_ticks: (wt + 1) as u32, jump_velocity: 0 };
    let g1 = spec_set_state(g, sx, sy, st1);
    lemma_set_state_preserves_consistency(g, sx, sy, st1);
    assert forall|x: int, y: int|
        (0 <= x < g1.width && 0 <= y < g1.height && !(x == sx && (y == sy || y == sy - 1)))
            implies (#[trigger] g1.cell(x, y) == Element::Stone || g1.cell(x, y)
            == Element::Empty) by {
        assert(g1.cell(x, y) == g.cell(x, y));
    }
}

/// One tick of the boxed arrangement at the threshold: the agent converts
/// to Empty, its state entry disappears, and the sand above falls into the
/// vacated cell later in the same tick.
proof fn lemma_boxed_tick_death(g: GridModel, r: u64, sx: int, sy: int, wt: u32)
    requires
        boxed_agent(g, sx, sy, wt),
        wt >= DROWN_TICKS - 1,
    ensures
        tick_spec(g, r).0.cell(sx, sy) == Element::Sand,
        tick_spec(g, r).0.cell(sx, sy - 1) == Element::Empty,
        tick_spec(g, r).0.state_at(sx, sy) is None,
        tick_spec(g, r).0.state_at(sx, sy - 1) is None,
{
    broadcast use group_grid_transitions;

    lemma_scan_rows_boxed(g.width, g.height, g, r, 0, sx, sy, wt);
}

/// Agent drowning, end to end, and not a tick early: under a resting layer
/// of sand in a stone box, the agent is still alive with an exactly
/// counted breath after every tick that leaves the counter short of the
/// threshold.
pub proof fn lemma_boxed_agent_alive_before_threshold(
    g: GridModel,
    r: u64,
    sx: int,
    sy: int,
    wt0: u32,
    n: nat,
)
    requires
        boxed_agent(g, sx, sy, wt0),
        wt0 + n <= DROWN_TICKS - 1,
    ensures
        boxed_agent(tick_n(g, r, n).0, sx, sy, (wt0 + n) as u32),
        tick_n(g, r, n).0.cell(sx, sy) == Element::Agent,
    decreases n,
{
    if n > 0 {
        lemma_boxed_tick_alive(g, r, sx, sy, wt0);
        let t = tick_spec(g, r);
        lemma_boxed_agent_alive_before_threshold(t.0, t.1, sx, sy, (wt0 + 1) as u32, (n - 1) as nat);
    }
}

/// Agent drowning, end to end, and exactly on time: starting from a boxed
/// agent with counter `wt0`, the cell converts on exactly the tick the
/// counter reaches the threshold - after `DROWN_TICKS - wt0` ticks - with
/// the sand falling into its place in that same tick.
pub proof fn lemma_boxed_agent_drowns_exactly(g: GridModel, r: u64, sx: int, sy: int, wt0: u32)
    requires
        boxed_agent(g, sx, sy, wt0),
        wt0 <= DROWN_TICKS - 1,
    ensures
        ({
            let gd = tick_n(g, r, (DROWN_TICKS - wt0) as nat).0;
            &&& gd.cell(sx, sy) == Element::Sand
            &&& gd.cell(sx, sy - 1) == Element::Empty
            &&& gd.state_at(sx, sy) is None
        }),
    decreases DROWN_TICKS - wt0,
{
    let t = tick_spec(g, r);
    let n = (DROWN_TICKS - wt0) as nat;
    assert(tick_n(g, r, n) == tick_n(t.0, t.1, (n - 1) as nat));
    if wt0 < DROWN_TICKS - 1 {
        lemma_boxed_tick_alive(g, r, sx, sy, wt0);
        lemma_boxed_agent_drowns_exactly(t.0, t.1, sx, sy, (wt0 + 1) as u32);
    } else {
        lemma_boxed_tick_death(g, r, sx, sy, wt0);
        assert(tick_n(t.0, t.1, 0nat) == (t.0, t.1));
    }
}

} // verus!
