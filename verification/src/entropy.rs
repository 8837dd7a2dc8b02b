//! Seed words from the operating system, by way of the `rand` crate.

use vstd::prelude::*;

use crate::Error;

verus! {

/// Number of words in a seed drawn from the system, enough for the widest
/// generator.
pub const SEED_WORDS: usize = 16;

/// `rand::StdRng`, the generator that `rand` seeds from the system. It is
/// carried from the call that makes it to the calls that draw from it, and
/// nothing is known of what it holds.
#[verifier::external_type_specification]
#[verifier::external_body]
pub struct ExStdRng(rand::StdRng);

/// `std::io::Error`, with which `rand::StdRng::new` fails. Nothing is
/// known of what it holds.
#[verifier::external_type_specification]
#[verifier::external_body]
pub struct ExIoError(std::io::Error);

/// Calls `rand::StdRng::new`, which seeds a generator from the entropy
/// source of the operating system, or from timing jitter where that source
/// cannot be opened, and fails with the system's error where neither is to
/// be had. Nothing is claimed of what comes back. Where the system's
/// source opens and then fails while it is read, `rand` ends the process.
#[verifier::external_body]
fn system_rng() -> (r: Result<rand::StdRng, std::io::Error>) {
    rand::StdRng::new()
}

/// Calls `rand::Rng::next_u64` on a `rand::StdRng`, which is the call that
/// `gen::<u64>` and each item of `gen_iter::<u64>` come down to. Nothing is
/// claimed of the word that comes back.
#[verifier::external_body]
fn system_word(source: &mut rand::StdRng) -> (r: u64) {
    rand::Rng::next_u64(source)
}

/// Turns the outcome of opening the system's generator into a seed: the
/// next `SEED_WORDS` words of the generator where there is one, and the
/// error of this library where there is none.
pub fn seed_from(source: Result<rand::StdRng, std::io::Error>) -> (r: Result<Vec<u64>, Error>)
    ensures
        source is Ok ==> r is Ok && r->Ok_0@.len() == SEED_WORDS,
        source is Err ==> r is Err && r->Err_0 == Error::EntropySourceUnavailable,
{
    match source {
        Ok(mut generator) => {
            let mut seed: Vec<u64> = Vec::new();
            while seed.len() < SEED_WORDS
                invariant
                    seed@.len() <= SEED_WORDS,
                decreases SEED_WORDS - seed@.len(),
            {
                let word = system_word(&mut generator);
                seed.push(word);
            }
            Ok(seed)
        },
        Err(_) => Err(Error::EntropySourceUnavailable),
    }
}

/// Draws a seed of `SEED_WORDS` words from the system. The words are
/// whatever the system hands out; only their number is known. It fails
/// only where the system has no entropy to give.
pub fn entropy_seed() -> (r: Result<Vec<u64>, Error>)
    ensures
        r matches Ok(seed) ==> seed@.len() == SEED_WORDS,
        r matches Err(e) ==> e == Error::EntropySourceUnavailable,
{
    seed_from(system_rng())
}

} // verus!
