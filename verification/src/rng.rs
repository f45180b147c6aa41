//! A small seedable pseudo-random source, so that food placement is
//! deterministic for a given seed and can be driven from tests or from an
//! outer loop that seeds it from the clock.

use vstd::prelude::*;

verus! {

/// A linear congruential generator over 64 bits.
pub struct SeededRng {
    state: u64,
}

impl SeededRng {
    pub closed spec fn spec_state(self) -> u64 {
        self.state
    }

    pub fn new(seed: u64) -> (r: SeededRng)
        ensures
            r.spec_state() == seed,
    {
        SeededRng { state: seed }
    }

    /// One generator step: the state advances by the linear congruential
    /// rule, wrapping modulo 2^64, and the new state is returned.
    pub fn next_u64(&mut self) -> (r: u64)
        ensures
            r == final(self).spec_state(),
            r == (old(self).spec_state() * 6364136223846793005 + 1442695040888963407) % (
            u64::MAX + 1),
    {
        self.state = self.state.wrapping_mul(6364136223846793005).wrapping_add(
            1442695040888963407,
        );
        self.state
    }

    /// A pseudo-random value below `n`.
    pub fn next_below(&mut self, n: usize) -> (r: usize)
        requires
            n >= 1,
        ensures
            r < n,
    {
        let v = self.next_u64();
        (v % (n as u64)) as usize
    }
}

} // verus!
