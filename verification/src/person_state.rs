use vstd::prelude::*;

verus! {

/// Auxiliary per-cell state carried by Agent cells: how long water or sand
/// has sat directly above, and how much upward jump motion remains.
#[derive(Clone, Copy, PartialEq, Eq, Structural, Debug)]
pub struct PersonState {
    /// Consecutive ticks spent with Water or Sand directly above.
    pub water_ticks: u32,
    /// Remaining cells of upward motion in the current jump arc.
    pub jump_velocity: i32,
}

impl PersonState {
    /// The state a freshly placed agent starts with.
    pub open spec fn spec_default() -> PersonState {
        PersonState { water_ticks: 0, jump_velocity: 0 }
    }

    /// The default state a freshly placed agent starts with.
    pub fn new() -> (r: PersonState)
        ensures
            r == PersonState::spec_default(),
    {
        PersonState { water_ticks: 0, jump_velocity: 0 }
    }
}

} // verus!
