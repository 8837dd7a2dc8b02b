//! Issuing generators whose streams do not overlap: one seed, and for each
//! generator handed out one more jump from it.

use std::sync::atomic::{AtomicUsize, Ordering};
use vstd::prelude::*;

use crate::entropy::{entropy_seed, SEED_WORDS};
use crate::stream::jumped;
use crate::{Error, JumpSpec, RngJump, SeedableRng};

verus! {

/// What a factory is, mathematically: its seed and the number of
/// generators it has handed out.
pub struct FactoryState {
    pub seed: Seq<u64>,
    pub issued: nat,
}

/// The state of the generator of type `T` that a factory with seed `seed`
/// hands out at jump offset `offset`.
pub open spec fn stream_state<T: SeedableRng + JumpSpec>(seed: Seq<u64>, offset: nat) -> T::V {
    jumped::<T>(T::seeded(seed.take(T::seed_words() as int)), offset)
}

/// The counter after one more generator was handed out. It starts again at
/// zero once every offset has been used.
pub open spec fn next_offset(issued: nat) -> nat {
    if issued >= usize::MAX {
        0
    } else {
        issued + 1
    }
}

/// The counter after `calls` more generators were handed out.
pub open spec fn offset_after(issued: nat, calls: nat) -> nat
    decreases calls,
{
    if calls == 0 {
        issued
    } else {
        next_offset(offset_after(issued, (calls - 1) as nat))
    }
}

/// As long as the counter does not go round, each call gets the offset
/// that is one above the last: `calls` calls in a row get the offsets
/// `issued`, `issued + 1`, and so on, no two of them the same.
pub proof fn lemma_offsets_increase(issued: nat, calls: nat)
    requires
        issued + calls <= usize::MAX,
    ensures
        offset_after(issued, calls) == issued + calls,
    decreases calls,
{
    if calls > 0 {
        lemma_offsets_increase(issued, (calls - 1) as nat);
    }
}

/// A seed of sixteen words, fixed for the factory's lifetime, together with
/// a counter of the generators handed out so far. Every generator issued
/// starts from the same seed and is jumped ahead by the counter's value, so
/// that no two of them share a part of their streams.
#[derive(Debug, PartialEq, Eq)]
pub struct StreamFactory {
    seed: [u64; 16],
    issued: usize,
}

impl View for StreamFactory {
    type V = FactoryState;

    closed spec fn view(&self) -> FactoryState {
        FactoryState { seed: self.seed@, issued: self.issued as nat }
    }
}

impl StreamFactory {
    /// A factory over the first sixteen words of `seed` that has handed out
    /// nothing yet. A shorter seed is rejected.
    pub fn new(seed: &[u64]) -> (r: Result<StreamFactory, Error>)
        ensures
            seed@.len() >= SEED_WORDS ==> r is Ok && r->Ok_0@ == (FactoryState {
                seed: seed@.take(SEED_WORDS as int),
                issued: 0,
            }),
            seed@.len() < SEED_WORDS ==> r is Err && r->Err_0 == Error::InsufficientSeedLength,
    {
        if seed.len() < SEED_WORDS {
            return Err(Error::InsufficientSeedLength);
        }
        let mut words: [u64; 16] = [0; 16];
        let mut i: usize = 0;
        while i < SEED_WORDS
            invariant
                i <= SEED_WORDS <= seed@.len(),
                forall|k: int| 0 <= k < i ==> words[k] == seed[k],
            decreases SEED_WORDS - i,
        {
            words[i] = seed[i];
            i += 1;
        }
        let factory = StreamFactory { seed: words, issued: 0 };
        assert(factory@.seed =~= seed@.take(SEED_WORDS as int));
        Ok(factory)
    }

    /// A factory over a seed drawn from the system's entropy source. It
    /// fails only where that source cannot be had.
    pub fn from_entropy() -> (r: Result<StreamFactory, Error>)
        ensures
            r matches Ok(factory) ==> factory@.seed.len() == SEED_WORDS && factory@.issued == 0,
            r matches Err(e) ==> e == Error::EntropySourceUnavailable,
    {
        match entropy_seed() {
            Ok(seed) => StreamFactory::new(seed.as_slice()),
            Err(e) => Err(e),
        }
    }

    /// The number of generators handed out so far, which is the jump offset
    /// of the next one.
    pub fn issued(&self) -> (n: usize)
        ensures
            n == self@.issued,
    {
        self.issued
    }

    /// The seed that every generator of this factory starts from.
    pub fn seed(&self) -> (words: &[u64; 16])
        ensures
            words@ == self@.seed,
    {
        &self.seed
    }

    /// The generator of type `T` at jump offset `offset`: seeded with the
    /// factory's seed, then jumped `offset` times. The factory's counter
    /// plays no part. A type that wants more seed words than the factory
    /// holds is refused.
    pub fn stream<T: SeedableRng + RngJump>(&self, offset: usize) -> (r: Result<T, Error>)
        ensures
            T::seed_words() <= SEED_WORDS ==> r is Ok && r->Ok_0@ == stream_state::<T>(
                self@.seed,
                offset as nat,
            ),
            T::seed_words() > SEED_WORDS ==> r is Err && r->Err_0 == Error::InsufficientSeedLength,
    {
        stream_at(&self.seed, offset)
    }

    /// Turns the factory into one that many threads may ask at once. It
    /// keeps the seed and goes on counting where this one stopped.
    pub fn share(self) -> (shared: SharedStreamFactory)
        ensures
            shared@ == self@.seed,
    {
        SharedStreamFactory { seed: self.seed, instance: AtomicUsize::new(self.issued) }
    }
}

/// Seeds a generator of type `T` with `seed` and jumps it `offset` times.
fn stream_at<T: SeedableRng + RngJump>(seed: &[u64; 16], offset: usize) -> (r: Result<T, Error>)
    ensures
        T::seed_words() <= SEED_WORDS ==> r is Ok && r->Ok_0@ == stream_state::<T>(
            seed@,
            offset as nat,
        ),
        T::seed_words() > SEED_WORDS ==> r is Err && r->Err_0 == Error::InsufficientSeedLength,
{
    match T::from_seed(seed.as_slice()) {
        Ok(mut rng) => {
            rng.jump(offset);
            Ok(rng)
        },
        Err(e) => Err(e),
    }
}

/// A stream factory for many threads at once. The seed is fixed; the
/// counter is an atomic integer, and each call takes its value and adds one
/// to it in a single sequentially consistent step, so that no two calls,
/// on whatever threads, get the same offset until the counter has gone all
/// the way round.
///
/// What the counter holds at a given moment depends on the other threads
/// and is not part of the view.
#[derive(Debug)]
pub struct SharedStreamFactory {
    seed: [u64; 16],
    instance: AtomicUsize,
}

impl View for SharedStreamFactory {
    type V = Seq<u64>;

    closed spec fn view(&self) -> Seq<u64> {
        self.seed@
    }
}

impl SharedStreamFactory {
    /// The seed that every generator of this factory starts from.
    pub fn seed(&self) -> (words: &[u64; 16])
        ensures
            words@ == self@,
    {
        &self.seed
    }

    /// Takes the next offset off the counter.
    fn take_offset(&self) -> (offset: usize) {
        self.instance.fetch_add(1, Ordering::SeqCst)
    }

    /// Hands out the next generator: seeded with the factory's seed and
    /// jumped as many times as the counter showed when this call took its
    /// turn. A type that wants more seed words than the factory holds is
    /// refused.
    pub fn thread_rng<T: SeedableRng + RngJump>(&self) -> (r: Result<T, Error>)
        ensures
            T::seed_words() <= SEED_WORDS ==> r is Ok && exists|offset: nat|
                r->Ok_0@ == #[trigger] stream_state::<T>(self@, offset),
            T::seed_words() > SEED_WORDS ==> r is Err && r->Err_0 == Error::InsufficientSeedLength,
    {
        let offset = self.take_offset();
        let r = stream_at::<T>(&self.seed, offset);
        assert(T::seed_words() <= SEED_WORDS ==> r->Ok_0@ == stream_state::<T>(
            self@,
            offset as nat,
        ));
        r
    }
}

/// Hands out the next generator of `factory`: the one at the jump offset
/// that the counter shows, after which the counter moves on by one. No two
/// calls on one factory get the same offset until the counter has gone all
/// the way round. Where `T` is refused the factory is left as it was.
pub fn thread_rng<T: SeedableRng + RngJump>(factory: &mut StreamFactory) -> (r: Result<T, Error>)
    ensures
        final(factory)@.seed == old(factory)@.seed,
        T::seed_words() <= SEED_WORDS ==> r is Ok && r->Ok_0@ == stream_state::<T>(
            old(factory)@.seed,
            old(factory)@.issued,
        ) && final(factory)@.issued == next_offset(old(factory)@.issued),
        T::seed_words() > SEED_WORDS ==> r is Err && r->Err_0 == Error::InsufficientSeedLength
            && final(factory)@ == old(factory)@,
{
    match factory.stream::<T>(factory.issued) {
        Ok(rng) => {
            factory.issued = factory.issued.wrapping_add(1);
            Ok(rng)
        },
        Err(e) => Err(e),
    }
}

} // verus!
