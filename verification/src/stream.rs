//! The stream of a generator as a mathematical object: iterated states, the
//! sequence of outputs, repeated jumps, and the laws that relate them.

use vstd::prelude::*;

use crate::{JumpSpec, Rng, SeedableRng};

verus! {

/// The low 32 bits of a 64-bit word.
pub open spec fn low_32(x: u64) -> u32 {
    (x & 0xffff_ffff) as u32
}

/// Cuts `x` down to its low 32 bits.
pub(crate) fn truncate(x: u64) -> (r: u32)
    ensures
        r == low_32(x),
{
    assert(x & 0xffff_ffff <= 0xffff_ffff) by (bit_vector);
    (x & 0xffff_ffff) as u32
}

/// The state after `n` draws from `state`.
pub open spec fn advanced<G: Rng>(state: G::V, n: nat) -> G::V
    decreases n,
{
    if n == 0 {
        state
    } else {
        G::step(advanced::<G>(state, (n - 1) as nat))
    }
}

/// The first `n` words drawn from `state`, in the order they come out.
pub open spec fn outputs<G: Rng>(state: G::V, n: nat) -> Seq<u64> {
    Seq::new(n, |i: int| G::output(advanced::<G>(state, i as nat)))
}

/// The state after `count` jumps from `state`.
pub open spec fn jumped<G: JumpSpec>(state: G::V, count: nat) -> G::V
    decreases count,
{
    if count == 0 {
        state
    } else {
        G::jump_once(jumped::<G>(state, (count - 1) as nat))
    }
}

/// Draws `n` words from `rng` and returns them in order.
pub fn draw<G: Rng>(rng: &mut G, n: usize) -> (words: Vec<u64>)
    ensures
        words@ == outputs::<G>(old(rng)@, n as nat),
        final(rng)@ == advanced::<G>(old(rng)@, n as nat),
{
    let mut words: Vec<u64> = Vec::new();
    let mut i: usize = 0;
    while i < n
        invariant
            i <= n,
            words@ == outputs::<G>(old(rng)@, i as nat),
            rng@ == advanced::<G>(old(rng)@, i as nat),
        decreases n - i,
    {
        let w = rng.next_u64();
        words.push(w);
        i = i + 1;
    }
    words
}

/// Keeping the low 32 bits is taking the word modulo 2^32.
pub proof fn lemma_low_32_is_remainder(x: u64)
    ensures
        low_32(x) == x % 0x1_0000_0000,
{
    assert((x & 0xffff_ffff) as u32 == x % 0x1_0000_0000) by (bit_vector);
}

/// Drawing `a` words and then `b` more leaves the state that drawing
/// `a + b` words leaves.
pub proof fn lemma_advanced_add<G: Rng>(state: G::V, a: nat, b: nat)
    ensures
        advanced::<G>(advanced::<G>(state, a), b) == advanced::<G>(state, a + b),
    decreases b,
{
    if b > 0 {
        lemma_advanced_add::<G>(state, a, (b - 1) as nat);
    }
}

/// Drawing once and then `n` times is drawing `n` times and then once.
pub proof fn lemma_advanced_step<G: Rng>(state: G::V, n: nat)
    ensures
        advanced::<G>(G::step(state), n) == G::step(advanced::<G>(state, n)),
    decreases n,
{
    if n > 0 {
        lemma_advanced_step::<G>(state, (n - 1) as nat);
    }
}

/// The words drawn after the first `a` are the words that the state after
/// `a` draws gives.
pub proof fn lemma_outputs_add<G: Rng>(state: G::V, a: nat, b: nat)
    ensures
        outputs::<G>(state, a + b) == outputs::<G>(state, a) + outputs::<G>(
            advanced::<G>(state, a),
            b,
        ),
{
    let whole = outputs::<G>(state, a + b);
    let parts = outputs::<G>(state, a) + outputs::<G>(advanced::<G>(state, a), b);
    assert forall|i: int| 0 <= i < a + b implies whole[i] == parts[i] by {
        if i >= a {
            lemma_advanced_add::<G>(state, a, (i - a) as nat);
        }
    }
}

/// Determinism: two generators of one type that were seeded with the same
/// words give the same outputs, however many are drawn, and stay in step.
pub proof fn lemma_same_seed_same_stream<G: SeedableRng>(
    first: G,
    second: G,
    seed: Seq<u64>,
    n: nat,
)
    requires
        first@ == G::seeded(seed.take(G::seed_words() as int)),
        second@ == G::seeded(seed.take(G::seed_words() as int)),
    ensures
        outputs::<G>(first@, n) == outputs::<G>(second@, n),
        advanced::<G>(first@, n) == advanced::<G>(second@, n),
{
}

/// Only the first `seed_words()` words of a seed count: two seeds that
/// agree on them give the same state, and so the same stream.
pub proof fn lemma_seed_prefix_decides<G: SeedableRng>(a: Seq<u64>, b: Seq<u64>, n: nat)
    requires
        a.len() >= G::seed_words(),
        b.len() >= G::seed_words(),
        forall|i: int| 0 <= i < G::seed_words() ==> a[i] == b[i],
    ensures
        G::seeded(a.take(G::seed_words() as int)) == G::seeded(b.take(G::seed_words() as int)),
        outputs::<G>(G::seeded(a.take(G::seed_words() as int)), n) == outputs::<G>(
            G::seeded(b.take(G::seed_words() as int)),
            n,
        ),
{
    assert(a.take(G::seed_words() as int) =~= b.take(G::seed_words() as int));
}

/// Seeding from another generator is seeding with the words it gives: the
/// state built from the next `seed_words()` outputs of `source` is the one
/// that `from_seed` builds when it is handed those same words.
pub proof fn lemma_expansion_round_trip<A: Rng, B: SeedableRng>(source: A::V)
    ensures
        B::seeded(outputs::<A>(source, B::seed_words())) == B::seeded(
            outputs::<A>(source, B::seed_words()).take(B::seed_words() as int),
        ),
{
    let words = outputs::<A>(source, B::seed_words());
    assert(words.take(B::seed_words() as int) =~= words);
}

/// No jump at all leaves the state, and with it every later output, as it
/// was.
pub proof fn lemma_jump_zero<G: JumpSpec>(state: G::V, n: nat)
    ensures
        jumped::<G>(state, 0) == state,
        outputs::<G>(jumped::<G>(state, 0), n) == outputs::<G>(state, n),
{
}

/// Jumps add up: `a` jumps followed by `b` jumps are `a + b` jumps.
pub proof fn lemma_jump_add<G: JumpSpec>(state: G::V, a: nat, b: nat)
    ensures
        jumped::<G>(jumped::<G>(state, a), b) == jumped::<G>(state, a + b),
    decreases b,
{
    if b > 0 {
        lemma_jump_add::<G>(state, a, (b - 1) as nat);
    }
}

/// One jump applied twice is two jumps applied once.
pub proof fn lemma_jump_twice<G: JumpSpec>(state: G::V)
    ensures
        jumped::<G>(jumped::<G>(state, 1), 1) == jumped::<G>(state, 2),
{
    lemma_jump_add::<G>(state, 1, 1);
}

/// Where one jump may change places with one draw, any number of jumps may
/// change places with any number of draws: the stream of a jumped
/// generator is the stream of the generator, jumped word for word.
pub proof fn lemma_jumps_commute_with_draws<G: JumpSpec>(state: G::V, count: nat, n: nat)
    requires
        forall|s: G::V| #[trigger] G::jump_once(G::step(s)) == G::step(G::jump_once(s)),
    ensures
        advanced::<G>(jumped::<G>(state, count), n) == jumped::<G>(advanced::<G>(state, n), count),
    decreases n, count,
{
    if n > 0 && count > 0 {
        // The first `n - 1` draws change places with the jumps by
        // induction. The last draw then passes the outermost jump, and
        // after that, by induction again, the jumps below it.
        let before = advanced::<G>(state, (n - 1) as nat);
        let inner = jumped::<G>(before, (count - 1) as nat);
        lemma_jumps_commute_with_draws::<G>(state, count, (n - 1) as nat);
        lemma_jumps_commute_with_draws::<G>(before, (count - 1) as nat, 1);
        assert(advanced::<G>(inner, 1) == G::step(inner)) by {
            reveal_with_fuel(advanced, 2);
        }
        assert(advanced::<G>(before, 1) == G::step(before)) by {
            reveal_with_fuel(advanced, 2);
        }
    }
}

} // verus!
