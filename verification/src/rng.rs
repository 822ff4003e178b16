//! A small, explicitly seeded pseudo-random generator (an xorshift step
//! over `u64`). All randomness in the simulation — initial placement,
//! respawn, lifetimes — is drawn from a generator threaded through the
//! calls, so a run is a pure function of its seed.

use vstd::prelude::*;

verus! {

/// Added to the seed so the initial state is never zero.
pub const SEED_OFFSET: u64 = 0x9E37_79B9_7F4A_7C15;

/// One xorshift step.
pub open spec fn spec_mix(s: u64) -> u64 {
    let a = s ^ (s << 13u64);
    let b = a ^ (a >> 7u64);
    b ^ (b << 17u64)
}

/// The generator state a given seed starts from.
pub open spec fn spec_seed_state(seed: u32) -> u64 {
    ((seed as u64) + SEED_OFFSET) as u64
}

/// The draw `range_i64` makes from state `s` for the interval `[lo, hi]`.
pub open spec fn spec_range(s: u64, lo: int, hi: int) -> int {
    lo + (spec_mix(s) as int) % (hi - lo + 1)
}

/// The deterministic random source of the simulation.
#[derive(Clone, Copy, PartialEq, Eq, Structural, Debug)]
pub struct SimRng {
    pub state: u64,
}

impl SimRng {
    /// A generator whose whole state is the given seed.
    pub fn new(seed: u32) -> (r: SimRng)
        ensures
            r.state == spec_seed_state(seed),
    {
        SimRng { state: seed as u64 + SEED_OFFSET }
    }

    /// Advance the state and hand the new state out.
    pub fn next_u64(&mut self) -> (r: u64)
        ensures
            final(self).state == spec_mix(old(self).state),
            r == final(self).state,
    {
        let s = self.state;
        let a = s ^ (s << 13u64);
        let b = a ^ (a >> 7u64);
        let c = b ^ (b << 17u64);
        self.state = c;
        c
    }

    /// A draw from the closed interval `[lo, hi]`, a pure function of the
    /// state before the call.
    pub fn range_i64(&mut self, lo: i64, hi: i64) -> (r: i64)
        requires
            lo <= hi,
            -crate::fixed::COORD_LIMIT <= lo,
            hi <= crate::fixed::COORD_LIMIT,
        ensures
            r == spec_range(old(self).state, lo as int, hi as int),
            lo <= r <= hi,
            final(self).state == spec_mix(old(self).state),
    {
        let x = self.next_u64();
        let span: u64 = ((hi - lo) as u64) + 1;
        let off: u64 = x % span;
        lo + (off as i64)
    }
}

} // verus!
