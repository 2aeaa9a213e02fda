use vstd::prelude::*;

verus! {

/// One xorshift step of the simulation's pseudorandom stream.  The whole
/// evolution of the stream is this function iterated, so every draw is a
/// pure function of the seed.
pub open spec fn rng_next(s: u64) -> u64 {
    let a = s ^ (s << 13u64);
    let b = a ^ (a >> 7u64);
    b ^ (b << 17u64)
}

/// The boolean a fair-coin draw yields from stream state `s`.
pub open spec fn coin_of(s: u64) -> bool {
    rng_next(s) % 2 == 0
}

/// The boolean a three-in-ten draw yields from stream state `s`.
pub open spec fn jump_roll_of(s: u64) -> bool {
    rng_next(s) % 10 < 3
}

/// The deterministic pseudorandom stream the simulation consumes.  Its view
/// is the current stream state, so contracts can pin every draw.
pub struct SimRng {
    state: u64,
}

impl View for SimRng {
    type V = u64;

    closed spec fn view(&self) -> u64 {
        self.state
    }
}

impl SimRng {
    /// A stream starting from the given seed.
    pub fn new(seed: u64) -> (r: SimRng)
        ensures
            r@ == seed,
    {
        SimRng { state: seed }
    }

    /// A stream seeded from the process's entropy source.
    pub fn from_entropy() -> (r: SimRng) {
        SimRng { state: entropy_seed() }
    }

    fn step(&mut self) -> (r: u64)
        ensures
            final(self)@ == rng_next(old(self)@),
            r == rng_next(old(self)@),
    {
        let s = self.state;
        let a = s ^ (s << 13u64);
        let b = a ^ (a >> 7u64);
        let n = b ^ (b << 17u64);
        self.state = n;
        n
    }

    /// A fair coin flip, consuming one stream step.
    pub fn coin(&mut self) -> (b: bool)
        ensures
            final(self)@ == rng_next(old(self)@),
            b == coin_of(old(self)@),
    {
        self.step() % 2 == 0
    }

    /// True three times in ten, consuming one stream step.
    pub fn jump_roll(&mut self) -> (b: bool)
        ensures
            final(self)@ == rng_next(old(self)@),
            b == jump_roll_of(old(self)@),
    {
        self.step() % 10 < 3
    }
}

/// Relies on rand::random: one machine-entropy u64.  Nothing is promised of
/// its value; it only seeds the stream.
#[verifier::external_body]
fn entropy_seed() -> u64 {
    rand::random::<u64>()
}

} // verus!
