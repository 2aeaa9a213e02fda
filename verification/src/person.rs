use vstd::prelude::*;
use crate::element::Element;
use crate::person_state::PersonState;
use crate::grid::{Grid, GridModel, spec_set, spec_swap, spec_set_state};
use crate::rng::{SimRng, rng_next, coin_of, jump_roll_of};

verus! {

/// How many consecutive submerged ticks kill an agent.
pub const DROWN_TICKS: u32 = 600;

/// What an agent can stand on: walkable ground or another agent.
pub open spec fn walkable_or_agent(e: Element) -> bool {
    e.spec_can_walk_on() || e == Element::Agent
}

/// The cell directly above the agent; the row above the grid counts as
/// Empty, not as the Stone boundary, so agents at the top are in open air.
pub open spec fn above_cell(g: GridModel, x: int, y: int) -> Element {
    if y > 0 {
        g.cell(x, y - 1)
    } else {
        Element::Empty
    }
}

/// Whether the cell above counts against the agent's breath.
pub open spec fn is_suffocating(g: GridModel, x: int, y: int) -> bool {
    above_cell(g, x, y) == Element::Water || above_cell(g, x, y) == Element::Sand
}

/// One attempt at a lateral move in direction `d` (-1 or 1), with state
/// `st` to carry along: step sideways onto walkable ground, step up onto a
/// walkable neighbour, or - against an occupied neighbour, three times in
/// ten - begin a jump in place.  Yields the new grid if a branch fired,
/// and the stream state after the roll the attempt consumed, if any.
pub open spec fn person_try_dir(
    g: GridModel,
    x: int,
    y: int,
    st: PersonState,
    d: int,
    r: u64,
) -> (Option<GridModel>, u64) {
    let target = g.cell(x + d, y);
    if target == Element::Empty && walkable_or_agent(g.cell(x + d, y + 1)) {
        (Some(spec_set_state(spec_swap(g, x, y, x + d, y), x + d, y, st)), r)
    } else if y > 0 && target.spec_can_walk_on() && g.cell(x + d, y - 1) == Element::Empty {
        (Some(spec_set_state(spec_swap(g, x, y, x + d, y - 1), x + d, y - 1, st)), r)
    } else if target != Element::Empty {
        let r1 = rng_next(r);
        if jump_roll_of(r) && (above_cell(g, x, y) == Element::Empty || above_cell(g, x, y)
            == Element::Water) {
            (
                Some(
                    spec_set_state(
                        g,
                        x,
                        y,
                        PersonState { jump_velocity: 2, water_ticks: st.water_ticks },
                    ),
                ),
                r1,
            )
        } else {
            (None, r1)
        }
    } else {
        (None, r)
    }
}

/// The walking phase: try the preferred direction, then the other; if
/// neither fires, rest in place with the carried state.
pub open spec fn person_walk(g: GridModel, x: int, y: int, st: PersonState, d1: int, r: u64) -> (
    GridModel,
    u64,
) {
    let first = person_try_dir(g, x, y, st, d1, r);
    match first.0 {
        Some(g1) => (g1, first.1),
        None => {
            let second = person_try_dir(g, x, y, st, -d1, first.1);
            match second.0 {
                Some(g2) => (g2, second.1),
                None => (spec_set_state(g, x, y, st), second.1),
            }
        },
    }
}

/// One application of the agent rule at (x, y): track submersion (dying at
/// the drown threshold), continue a jump arc, fall, or walk; whatever
/// happens, the agent's state is persisted at its final coordinate.  The
/// second component is the stream state after the draws the rule consumed.
pub open spec fn person_step(g: GridModel, x: int, y: int, r: u64) -> (GridModel, u64) {
    if y + 1 >= g.height {
        (g, r)
    } else {
        let st0 = g.state_or_default(x, y);
        let suff = is_suffocating(g, x, y);
        if suff && st0.water_ticks >= (DROWN_TICKS - 1) {
            (spec_set(g, x, y, Element::Empty), r)
        } else {
            let st1 = PersonState {
                water_ticks: if suff {
                    (st0.water_ticks + 1) as u32
                } else {
                    0u32
                },
                jump_velocity: st0.jump_velocity,
            };
            let jump_open = y > 0 && (g.cell(x, y - 1) == Element::Empty || g.cell(x, y - 1)
                == Element::Water);
            if st1.jump_velocity > 0 && jump_open {
                let st2 = PersonState {
                    jump_velocity: (st1.jump_velocity - 1) as i32,
                    water_ticks: st1.water_ticks,
                };
                (spec_set_state(spec_swap(g, x, y, x, y - 1), x, y - 1, st2), r)
            } else {
                let st2 = if st1.jump_velocity > 0 {
                    PersonState { jump_velocity: 0, water_ticks: st1.water_ticks }
                } else {
                    st1
                };
                let below = g.cell(x, y + 1);
                if below == Element::Empty || below == Element::Water {
                    (spec_set_state(spec_swap(g, x, y, x, y + 1), x, y + 1, st2), r)
                } else if walkable_or_agent(below) {
                    let d1: int = if coin_of(r) {
                        -1
                    } else {
                        1
                    };
                    person_walk(g, x, y, st2, d1, rng_next(r))
                } else {
                    (spec_set_state(g, x, y, st2), r)
                }
            }
        }
    }
}

/// One executable attempt at a lateral move, mirroring `person_try_dir`.
fn try_dir(
    grid: &mut Grid,
    x: usize,
    y: usize,
    st: PersonState,
    left: bool,
    rng: &mut SimRng,
) -> (fired: bool)
    requires
        old(grid).wf(),
        old(grid)@.cell(x as int, y as int) == Element::Agent,
        y + 1 < old(grid)@.height,
    ensures
        final(grid).wf(),
        ({
            let d: int = if left {
                -1
            } else {
                1
            };
            let outcome = person_try_dir(old(grid)@, x as int, y as int, st, d, old(rng)@);
            &&& final(rng)@ == outcome.1
            &&& (fired ==> outcome.0 == Some(final(grid)@))
            &&& (!fired ==> outcome.0 is None && final(grid)@ == old(grid)@)
        }),
{
    let w = grid.width();
    let h = grid.height();
    let target = if left {
        if x == 0 {
            Element::Stone
        } else {
            grid.get(x - 1, y)
        }
    } else {
        grid.get(x + 1, y)
    };
    if target == Element::Empty {
        let nx = if left {
            x - 1
        } else {
            x + 1
        };
        let tb = grid.get(nx, y + 1);
        if tb == Element::Stone || tb == Element::Sand || tb == Element::Agent {
            grid.swap_cells(x, y, nx, y);
            grid.set_person_state(nx, y, st);
            return true;
        }
        return false;
    }
    if y > 0 && target.can_walk_on() {
        let at = if left {
            if x == 0 {
                Element::Stone
            } else {
                grid.get(x - 1, y - 1)
            }
        } else {
            grid.get(x + 1, y - 1)
        };
        if at == Element::Empty {
            let nx = if left {
                x - 1
            } else {
                x + 1
            };
            grid.swap_cells(x, y, nx, y - 1);
            grid.set_person_state(nx, y - 1, st);
            return true;
        }
    }
    let rolled = rng.jump_roll();
    let above = if y > 0 {
        grid.get(x, y - 1)
    } else {
        Element::Empty
    };
    if rolled && (above == Element::Empty || above == Element::Water) {
        grid.set_person_state(
            x,
            y,
            PersonState { water_ticks: st.water_ticks, jump_velocity: 2 },
        );
        return true;
    }
    false
}

/// The agent update rule; called on a cell already known to hold Agent.
pub fn update(grid: &mut Grid, x: usize, y: usize, rng: &mut SimRng)
    requires
        old(grid).wf(),
        old(grid)@.cell(x as int, y as int) == Element::Agent,
    ensures
        final(grid).wf(),
        (final(grid)@, final(rng)@) == person_step(old(grid)@, x as int, y as int, old(rng)@),
{
    let h = grid.height();
    let w = grid.width();
    if h == 0 || y >= h - 1 {
        return;
    }
    let mut st = match grid.get_person_state(x, y) {
        Some(s) => s,
        None => PersonState::new(),
    };
    let above = if y > 0 {
        grid.get(x, y - 1)
    } else {
        Element::Empty
    };
    let suffocating = above == Element::Water || above == Element::Sand;
    if suffocating {
        if st.water_ticks >= DROWN_TICKS - 1 {
            grid.set(x, y, Element::Empty);
            return;
        }
        st.water_ticks = st.water_ticks + 1;
    } else {
        st.water_ticks = 0;
    }
    if st.jump_velocity > 0 {
        if y > 0 && (above == Element::Empty || above == Element::Water) {
            grid.swap_cells(x, y, x, y - 1);
            st.jump_velocity = st.jump_velocity - 1;
            grid.set_person_state(x, y - 1, st);
            return;
        }
        st.jump_velocity = 0;
    }
    let below = grid.get(x, y + 1);
    if below == Element::Empty || below == Element::Water {
        grid.swap_cells(x, y, x, y + 1);
        grid.set_person_state(x, y + 1, st);
        return;
    }
    if below.can_walk_on() || below == Element::Agent {
        let left_first = rng.coin();
        if try_dir(grid, x, y, st, left_first, rng) {
            return;
        }
        if try_dir(grid, x, y, st, !left_first, rng) {
            return;
        }
    }
    grid.set_person_state(x, y, st);
}

} // verus!
