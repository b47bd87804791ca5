//! A xorshift pseudo-random number generator over 64-bit state.

use vstd::prelude::*;

verus! {

/// One xorshift round: three shift-and-xor steps.
pub open spec fn spec_xorshift(x: u64) -> u64 {
    let a = x ^ (x << 13);
    let b = a ^ (a >> 7);
    b ^ (b << 17)
}

/// A xorshift generator; its state is never zero, the one fixed point of
/// the round function.
pub struct Rng {
    state: u64,
}

/// Relies on `std::time::SystemTime::now`: the clock reading seeds the
/// generator, and nothing is promised of its value.
#[verifier::external_body]
fn clock_nanos() -> u64 {
    match std::time::SystemTime::now().duration_since(std::time::UNIX_EPOCH) {
        Ok(d) => d.as_nanos() as u64,
        Err(_) => 1,
    }
}

impl Rng {
    /// The state the generator holds.
    pub closed spec fn state_spec(self) -> u64 {
        self.state
    }

    /// The state is nonzero, so the xorshift round never collapses.
    pub open spec fn wf(self) -> bool {
        self.state_spec() != 0
    }

    /// Creates a generator seeded from the current time.
    pub fn new() -> (r: Rng)
        ensures
            r.wf(),
    {
        let seed = clock_nanos();
        Rng::with_seed(seed)
    }

    /// Creates a generator with the given seed; a zero seed becomes one,
    /// which xorshift requires.
    pub fn with_seed(seed: u64) -> (r: Rng)
        ensures
            r.state_spec() == (if seed == 0 {
                1u64
            } else {
                seed
            }),
            r.wf(),
    {
        let state = if seed == 0 {
            1
        } else {
            seed
        };
        Rng { state }
    }

    /// Advances the state by one xorshift round and returns it.
    pub fn next_u64(&mut self) -> (x: u64)
        requires
            old(self).wf(),
        ensures
            x == spec_xorshift(old(self).state_spec()),
            final(self).state_spec() == x,
            final(self).wf(),
    {
        let mut x = self.state;
        x = x ^ (x << 13);
        x = x ^ (x >> 7);
        x = x ^ (x << 17);
        proof {
            let s = old(self).state_spec();
            assert(s != 0 ==> spec_xorshift(s) != 0) by (bit_vector);
        }
        self.state = x;
        x
    }

    /// Returns the low 32 bits of the next state.
    pub fn gen_u32(&mut self) -> (r: u32)
        requires
            old(self).wf(),
        ensures
            r == spec_xorshift(old(self).state_spec()) as u32,
            final(self).state_spec() == spec_xorshift(old(self).state_spec()),
            final(self).wf(),
    {
        #[verifier::truncate]
        let r = self.next_u64() as u32;
        r
    }

    /// Returns a value between `min` and `max`, both included; when the
    /// bounds are out of order the lower one comes back unchanged.
    pub fn gen_range_u32(&mut self, min: u32, max: u32) -> (r: u32)
        requires
            old(self).wf(),
            min > 0 || max < u32::MAX,
        ensures
            final(self).wf(),
            max <= min ==> r == min && *final(self) == *old(self),
            max > min ==> r == min + (spec_xorshift(old(self).state_spec()) as u32) as int % (max
                - min + 1),
            min <= r,
            max >= min ==> r <= max,
    {
        if max <= min {
            return min;
        }
        let range = max - min + 1;
        let v = self.gen_u32();
        min + (v % range)
    }
}

} // verus!
