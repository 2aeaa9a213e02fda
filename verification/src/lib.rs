//! A verified falling-sand cellular automaton: a rectangular grid of cells
//! (empty, sand, water, stone, or a person-like agent), a per-tick update
//! rule for each movable kind, a bottom-to-top scan with per-row randomized
//! direction, and a sparse side table of per-agent state kept consistent by
//! every write.  Each executable operation carries a contract pinning its
//! result against the grid's mathematical model, and the laws the engine
//! obeys - the stone boundary sentinel, state-table consistency, sand
//! settling, sand sinking through water, exact drowning, and seeded
//! reproducibility - are proved in `laws`.

pub mod element;
pub mod person_state;
pub mod rng;
pub mod grid;
pub mod sand;
pub mod water;
pub mod person;
pub mod tick;
pub mod laws;
