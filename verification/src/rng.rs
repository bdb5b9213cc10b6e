use vstd::prelude::*;

verus! {

/// Fallback state used when a run is started with seed 0, which the xorshift
/// step would map to the all-zero (constant) stream.
pub const RNG_DEFAULT_STATE: u64 = 0x9E3779B97F4A7C15;

/// One xorshift64 step: the successor state of `x`.
pub open spec fn rng_step(x: u64) -> u64 {
    let a = x ^ (x << 13);
    let b = a ^ (a >> 7);
    b ^ (b << 17)
}

/// The state a generator starts in for a given seed.
pub open spec fn rng_init(seed: u64) -> u64 {
    if seed == 0 {
        RNG_DEFAULT_STATE
    } else {
        seed
    }
}

/// Deterministic pseudo-random stream (xorshift64). Every draw is a pure
/// function of the state, so a whole fuzzing run is reproducible from the
/// seed it was started with.
pub struct Rng64 {
    pub state: u64,
}

impl Rng64 {
    pub fn new(seed: u64) -> (r: Rng64)
        ensures
            r.state == rng_init(seed),
    {
        if seed == 0 {
            Rng64 { state: RNG_DEFAULT_STATE }
        } else {
            Rng64 { state: seed }
        }
    }

    /// Draw the next value of the stream; the new state is the value drawn.
    pub fn next_u64(&mut self) -> (r: u64)
        ensures
            final(self).state == rng_step(old(self).state),
            r == rng_step(old(self).state),
    {
        let mut x = self.state;
        x = x ^ (x << 13u64);
        x = x ^ (x >> 7u64);
        x = x ^ (x << 17u64);
        self.state = x;
        x
    }

    /// Draw a value below `n`.
    pub fn below(&mut self, n: u64) -> (r: u64)
        requires
            n > 0,
        ensures
            final(self).state == rng_step(old(self).state),
            r == rng_step(old(self).state) % n,
            r < n,
    {
        let v = self.next_u64();
        v % n
    }

    /// Draw an index below `n`.
    pub fn index_below(&mut self, n: usize) -> (r: usize)
        requires
            n > 0,
        ensures
            final(self).state == rng_step(old(self).state),
            r == rng_step(old(self).state) % (n as u64),
            r < n,
    {
        let v = self.next_u64();
        (v % (n as u64)) as usize
    }
}

} // verus!
