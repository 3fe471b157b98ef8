//! A seeded SplitMix64 generator: the only source of randomness of a run,
//! so that one seed always gives one run.
use vstd::prelude::*;

verus! {

/// Increment of the generator's state at each draw.
pub const GOLDEN_GAMMA: u64 = 0x9E37_79B9_7F4A_7C15;

/// The output function applied to each new state.
pub open spec fn mix64(z: u64) -> u64 {
    let a = (z ^ (z >> 30u64)).wrapping_mul(0xBF58_476D_1CE4_E5B9u64);
    let b = (a ^ (a >> 27u64)).wrapping_mul(0x94D0_49BB_1331_11EBu64);
    b ^ (b >> 31u64)
}

/// The state that follows `s`.
pub open spec fn advance(s: u64) -> u64 {
    s.wrapping_add(GOLDEN_GAMMA)
}

/// The state `n` draws after `s`.
pub open spec fn advance_by(s: u64, n: nat) -> u64
    decreases n,
{
    if n == 0 {
        s
    } else {
        advance(advance_by(s, (n - 1) as nat))
    }
}

/// The draw from `0..n` that follows state `s`.
pub open spec fn draw_below(s: u64, n: int) -> int {
    (mix64(advance(s)) as int) % n
}

#[derive(Clone, Copy, Debug)]
pub struct SplitMix64 {
    pub state: u64,
}

impl SplitMix64 {
    pub fn new(seed: u64) -> (r: SplitMix64)
        ensures
            r.state == seed,
    {
        SplitMix64 { state: seed }
    }

    /// The next 64 random bits.
    pub fn next_u64(&mut self) -> (r: u64)
        ensures
            final(self).state == advance(old(self).state),
            r == mix64(final(self).state),
    {
        self.state = self.state.wrapping_add(GOLDEN_GAMMA);
        let z = self.state;
        let a = (z ^ (z >> 30u64)).wrapping_mul(0xBF58_476D_1CE4_E5B9u64);
        let b = (a ^ (a >> 27u64)).wrapping_mul(0x94D0_49BB_1331_11EBu64);
        b ^ (b >> 31u64)
    }

    /// A draw from `0..n`.
    pub fn below(&mut self, n: u64) -> (r: u64)
        requires
            n > 0,
        ensures
            final(self).state == advance(old(self).state),
            r == mix64(final(self).state) % n,
            r < n,
    {
        let z = self.next_u64();
        z % n
    }

    /// A draw from `lo..=hi`.
    pub fn between(&mut self, lo: i64, hi: i64) -> (r: i64)
        requires
            lo <= hi,
            hi - lo < 0x4000_0000_0000_0000,
        ensures
            final(self).state == advance(old(self).state),
            r == lo + mix64(final(self).state) % ((hi - lo + 1) as u64),
            lo <= r <= hi,
    {
        let span: u64 = (hi - lo) as u64 + 1;
        let k = self.below(span);
        lo + k as i64
    }
}

} // verus!
