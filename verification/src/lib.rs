//! Fast non-cryptographic pseudo-random number generators with verified
//! state transitions: SplitMix64, xorshift128+, xoroshiro128+ and
//! xorshift1024*.
//!
//! Every generator is a plain value. Its view (`@`) is the mathematical
//! state, and each trait below names the pure functions on that state which
//! the executable methods are proved to compute. None of the generators is
//! suitable where an adversary must not predict the output.

use vstd::prelude::*;

pub mod entropy;
pub mod factory;
pub mod splitmix64;
pub mod stream;
pub mod xoroshiro128;
pub mod xorshift1024;
pub mod xorshift128;

pub use entropy::{entropy_seed, seed_from};
pub use factory::{thread_rng, SharedStreamFactory, StreamFactory};
pub use splitmix64::SplitMix64;
pub use stream::{advanced, draw, jumped, low_32, outputs};
pub use xoroshiro128::{rotl, Xoroshiro128};
pub use xorshift1024::Xorshift1024;
pub use xorshift128::Xorshift128;

verus! {

/// Why a generator or a stream factory could not be set up.
#[derive(Clone, Copy, Debug, PartialEq, Eq)]
pub enum Error {
    /// The seed holds fewer words than the generator's state.
    InsufficientSeedLength,
    /// The operating system's entropy source could not be opened.
    EntropySourceUnavailable,
}

/// A deterministic generator of 64-bit words.
///
/// The two spec functions are the transition function of the generator,
/// split into its two results: the word a draw returns and the state the
/// draw leaves behind.
pub trait Rng: View + Sized {
    /// The state that one draw from `state` leaves behind.
    spec fn step(state: Self::V) -> Self::V;

    /// The word that one draw from `state` returns.
    spec fn output(state: Self::V) -> u64;

    /// Draws the next 64-bit word.
    fn next_u64(&mut self) -> (r: u64)
        ensures
            r == Self::output(old(self)@),
            final(self)@ == Self::step(old(self)@),
    ;

    /// Draws the next word and keeps its low 32 bits. The state moves
    /// exactly as it does in `next_u64`.
    fn next_u32(&mut self) -> (r: u32)
        ensures
            r == low_32(Self::output(old(self)@)),
            final(self)@ == Self::step(old(self)@),
    ;
}

/// A generator whose whole state is set from a sequence of 64-bit words.
pub trait SeedableRng: Rng {
    /// The number of seed words that make up the state.
    spec fn seed_words() -> nat;

    /// The state that the first `seed_words()` words of `seed` stand for.
    spec fn seeded(seed: Seq<u64>) -> Self::V;

    /// Builds a generator from the first `seed_words()` words of `seed`;
    /// further words are ignored. A shorter seed is rejected.
    fn from_seed(seed: &[u64]) -> (r: Result<Self, Error>)
        ensures
            seed@.len() >= Self::seed_words() ==> r is Ok && r->Ok_0@ == Self::seeded(
                seed@.take(Self::seed_words() as int),
            ),
            seed@.len() < Self::seed_words() ==> r is Err && r->Err_0
                == Error::InsufficientSeedLength,
    ;

    /// Overwrites the state as `from_seed` would set it. On a rejected seed
    /// the generator is left as it was.
    fn reseed(&mut self, seed: &[u64]) -> (r: Result<(), Error>)
        ensures
            seed@.len() >= Self::seed_words() ==> r is Ok && final(self)@ == Self::seeded(
                seed@.take(Self::seed_words() as int),
            ),
            seed@.len() < Self::seed_words() ==> r is Err && r->Err_0
                == Error::InsufficientSeedLength && final(self)@ == old(self)@,
    ;
}

/// The jump of a generator, as a function on its states.
pub trait JumpSpec: Rng {
    /// The state that a single jump from `state` reaches.
    spec fn jump_once(state: Self::V) -> Self::V;
}

/// A generator that can skip far ahead in its own stream, so that one seed
/// yields many streams that do not overlap.
pub trait RngJump: JumpSpec {
    /// Performs `count` jumps in a row. A count of zero changes nothing.
    fn jump(&mut self, count: usize)
        ensures
            final(self)@ == jumped::<Self>(old(self)@, count as nat),
    ;
}

} // verus!
