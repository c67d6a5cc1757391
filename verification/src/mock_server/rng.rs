//! A simple deterministic pseudo-random generator.

use vstd::prelude::*;

verus! {

/// A pseudo-random generator (xorshift64*).
pub struct Rng {
    state: u64,
}

/// The constant that the seed is mixed with.
pub const SEED_MIX: u64 = 0x9e37_79b9_7f4a_7c15;

/// The state after the given one.
pub open spec fn stirred(s: u64) -> u64 {
    let a = s ^ (s >> 12);
    let b = a ^ (a << 25);
    b ^ (b >> 27)
}

/// The bits that a state gives: the top 53 of its product with the multiplier.
pub open spec fn drawn(s: u64) -> u64 {
    vstd::wrapping::u64_specs::wrapping_mul(s, 0x2545_f491_4f6c_dd1d) >> 11
}

impl Rng {
    pub closed spec fn at(&self) -> u64 {
        self.state
    }

    /// A generator that starts from the given seed.
    pub fn new(seed: u64) -> (r: Rng)
        ensures
            r.at() == vstd::wrapping::u64_specs::wrapping_add(seed, SEED_MIX),
    {
        Rng { state: seed.wrapping_add(SEED_MIX) }
    }

    /// The next number of 53 bits.
    pub fn next_bits(&mut self) -> (r: u64)
        ensures
            final(self).at() == stirred(old(self).at()),
            r == drawn(final(self).at()),
            r < 0x20_0000_0000_0000,
    {
        self.state = self.state ^ (self.state >> 12);
        self.state = self.state ^ (self.state << 25);
        self.state = self.state ^ (self.state >> 27);
        let x = self.state.wrapping_mul(0x2545_f491_4f6c_dd1d);
        assert(x >> 11 < 0x20_0000_0000_0000) by (bit_vector);
        x >> 11
    }
}

/// A state other than zero never leads to zero.
pub proof fn law_never_stuck(s: u64)
    requires
        s != 0,
    ensures
        stirred(s) != 0,
{
    let a = s ^ (s >> 12);
    assert(s != 0 ==> (s ^ (s >> 12)) != 0) by (bit_vector);
    let b = a ^ (a << 25);
    assert(a != 0 ==> (a ^ (a << 25)) != 0) by (bit_vector);
    assert(b != 0 ==> (b ^ (b >> 27)) != 0) by (bit_vector);
}

} // verus!
