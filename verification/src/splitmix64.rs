//! The SplitMix64 random number generator.

use vstd::prelude::*;

use crate::stream::{advanced, truncate};
use crate::Rng;

verus! {

/// The increment that every draw adds to the state.
pub const GOLDEN_GAMMA: u64 = 0x9E3779B97F4A7C15;

/// Multiplier of the first mixing round.
pub const MIX_A: u64 = 0xBF58476D1CE4E5B9;

/// Multiplier of the second mixing round.
pub const MIX_B: u64 = 0x94D049BB133111EB;

/// The output mixer: three xor-shift rounds, the first two followed by a
/// multiplication with an odd constant.
pub open spec fn mix(z: u64) -> u64 {
    let a = (z ^ (z >> 30)).wrapping_mul(MIX_A);
    let b = (a ^ (a >> 27)).wrapping_mul(MIX_B);
    b ^ (b >> 31)
}

/// The state after `n` draws is `n` increments away, modulo 2^64.
pub proof fn lemma_state_after(state: u64, n: nat)
    ensures
        advanced::<SplitMix64>(state, n) == (state + n * GOLDEN_GAMMA) % 0x1_0000_0000_0000_0000,
    decreases n,
{
    if n > 0 {
        lemma_state_after(state, (n - 1) as nat);
    }
}

/// After 2^64 draws the generator is back where it started.
pub proof fn lemma_full_period(state: u64)
    ensures
        advanced::<SplitMix64>(state, 0x1_0000_0000_0000_0000) == state,
{
    lemma_state_after(state, 0x1_0000_0000_0000_0000);
}

/// A multiple of the increment is a multiple of 2^64 only where the factor
/// is one itself: the increment is odd, and so has an inverse modulo 2^64.
proof fn lemma_increment_is_a_unit(n: nat, k: nat)
    requires
        n * GOLDEN_GAMMA == k * 0x1_0000_0000_0000_0000,
    ensures
        n % 0x1_0000_0000_0000_0000 == 0,
{
    let m: int = 0x1_0000_0000_0000_0000;
    let g: int = GOLDEN_GAMMA as int;
    let inverse: int = 0xf1de83e19937733d;
    let carry: int = 0x957bbf35006ed677;
    assert(n == m * (k * inverse - n * carry)) by (nonlinear_arith)
        requires
            n * g == k * m,
            g * inverse == 1 + carry * m,
    ;
    let q = k * inverse - n * carry;
    assert((n as int) % m == 0) by (nonlinear_arith)
        requires
            n == m * q,
            m > 0,
    ;
}

/// The period is 2^64 and no less: before that many draws the generator
/// does not come back to the state it started from.
pub proof fn lemma_no_shorter_period(state: u64, n: nat)
    requires
        0 < n < 0x1_0000_0000_0000_0000,
    ensures
        advanced::<SplitMix64>(state, n) != state,
{
    let m: int = 0x1_0000_0000_0000_0000;
    lemma_state_after(state, n);
    if advanced::<SplitMix64>(state, n) == state {
        let total = state + n * GOLDEN_GAMMA;
        let k = total / m;
        assert(total == k * m + total % m) by (nonlinear_arith)
            requires
                k == total / m,
                m > 0,
        ;
        assert(k >= 0) by (nonlinear_arith)
            requires
                k == total / m,
                total >= 0,
                m > 0,
        ;
        lemma_increment_is_a_unit(n, k as nat);
    }
}

/// A generator with a single 64-bit word of state and period 2^64. Every
/// state, zero included, is a valid one. It is meant for expanding one seed
/// word into the longer seeds of the other generators.
#[derive(Clone, Copy, Debug, PartialEq, Eq)]
pub struct SplitMix64(u64);

impl View for SplitMix64 {
    type V = u64;

    closed spec fn view(&self) -> u64 {
        self.0
    }
}

impl Rng for SplitMix64 {
    open spec fn step(state: u64) -> u64 {
        state.wrapping_add(GOLDEN_GAMMA)
    }

    open spec fn output(state: u64) -> u64 {
        mix(state.wrapping_add(GOLDEN_GAMMA))
    }

    fn next_u64(&mut self) -> (r: u64) {
        let mut z = self.0.wrapping_add(GOLDEN_GAMMA);
        self.0 = z;
        z = (z ^ (z >> 30)).wrapping_mul(MIX_A);
        z = (z ^ (z >> 27)).wrapping_mul(MIX_B);
        z ^ (z >> 31)
    }

    fn next_u32(&mut self) -> (r: u32) {
        truncate(self.next_u64())
    }
}

impl SplitMix64 {
    /// Creates a generator whose state is `seed`.
    pub fn from_seed(seed: u64) -> (g: SplitMix64)
        ensures
            g@ == seed,
    {
        SplitMix64(seed)
    }

    /// Replaces the state by `seed`.
    pub fn reseed(&mut self, seed: u64)
        ensures
            final(self)@ == seed,
    {
        self.0 = seed;
    }

    /// Creates a generator seeded with the next word of `other`.
    pub fn rand<R: Rng>(other: &mut R) -> (g: SplitMix64)
        ensures
            g@ == R::output(old(other)@),
            final(other)@ == R::step(old(other)@),
    {
        let seed = other.next_u64();
        SplitMix64(seed)
    }
}

} // verus!
