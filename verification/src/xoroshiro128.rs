//! The xoroshiro128+ random number generator.

use vstd::prelude::*;

use crate::stream::{
    advanced, draw, jumped, lemma_advanced_step, lemma_jumps_commute_with_draws, outputs, truncate,
};
use crate::{Error, JumpSpec, Rng, RngJump, SeedableRng};

verus! {

/// Number of 64-bit words in the state.
pub const STATE_SIZE: usize = 2;

/// The jump polynomial, least significant word first. Bit `b` of word `w`
/// is the coefficient of the `64 * w + b`-th power of the transition.
pub const JUMP: [u64; 2] = [0xbeac0467eba5facb, 0xd86b048b86aa9922];

/// Bit `i` of `x`, counted from the least significant one.
pub open spec fn bit(x: u64, i: u64) -> bool {
    (x >> i) & 1 == 1
}

/// Circular left rotation of a 64-bit word by `k` bit positions.
pub open spec fn rotl_spec(x: u64, k: i32) -> u64 {
    (x << k) | (x >> (64 - k))
}

/// Rotates `x` left by `k` bits; bits shifted out at the top re-enter at
/// the bottom.
pub fn rotl(x: u64, k: i32) -> (r: u64)
    requires
        0 < k < 64,
    ensures
        r == rotl_spec(x, k),
        forall|i: u64| i < 64 ==> bit(r, ((i + k) % 64) as u64) == #[trigger] bit(x, i),
{
    proof {
        assert forall|i: u64| i < 64 implies bit(rotl_spec(x, k), ((i + k) % 64) as u64)
            == #[trigger] bit(x, i) by {
            lemma_rotl_moves_bits(x, k, i);
        }
    }
    (x << k) | (x >> (64 - k))
}

/// Every bit of `x` lands `k` positions higher, modulo the word size.
pub proof fn lemma_rotl_moves_bits(x: u64, k: i32, i: u64)
    requires
        0 < k < 64,
        i < 64,
    ensures
        bit(rotl_spec(x, k), ((i + k) % 64) as u64) == bit(x, i),
{
    let kk: u64 = k as u64;
    let back: u64 = (64 - kk) as u64;
    let j: u64 = ((i + kk) % 64) as u64;
    assert((((x << kk) | (x >> back)) >> j) & 1 == (x >> i) & 1) by (bit_vector)
        requires
            0 < kk < 64,
            back == 64 - kk,
            i < 64,
            j == (i + kk) % 64,
    ;
}

/// The state that follows `s`.
pub open spec fn next_state(s: (u64, u64)) -> (u64, u64) {
    let t = s.1 ^ s.0;
    (rotl_spec(s.0, 55) ^ t ^ (t << 14), rotl_spec(t, 36))
}

/// The state `(0, 0)` stays where it is and gives zero.
pub proof fn lemma_zero_is_fixed()
    ensures
        next_state((0, 0)) == (0u64, 0u64),
        Xoroshiro128::output((0, 0)) == 0,
{
    let z: u64 = 0;
    assert(((z << 55u64) | (z >> 9u64)) ^ (z ^ z) ^ ((z ^ z) << 14) == 0 && (((z ^ z) << 36u64) | ((z
        ^ z) >> 28u64)) == 0) by (bit_vector)
        requires
            z == 0,
    ;
}

/// No state but `(0, 0)` is followed by `(0, 0)`.
pub proof fn lemma_step_keeps_nonzero(s: (u64, u64))
    requires
        s != (0u64, 0u64),
    ensures
        next_state(s) != (0u64, 0u64),
{
    let s0 = s.0;
    let s1 = s.1;
    let t = s1 ^ s0;
    let a = ((s0 << 55u64) | (s0 >> 9u64)) ^ t ^ (t << 14);
    let b = (t << 36u64) | (t >> 28u64);
    assert(a == 0 && b == 0 ==> s0 == 0 && s1 == 0) by (bit_vector)
        requires
            t == s1 ^ s0,
            a == ((s0 << 55u64) | (s0 >> 9u64)) ^ t ^ (t << 14),
            b == (t << 36u64) | (t >> 28u64),
    ;
}

/// A generator that does not start in `(0, 0)` never gets there by
/// drawing.
pub proof fn lemma_never_zero(s: (u64, u64), n: nat)
    requires
        s != (0u64, 0u64),
    ensures
        advanced::<Xoroshiro128>(s, n) != (0u64, 0u64),
    decreases n,
{
    if n > 0 {
        lemma_never_zero(s, (n - 1) as nat);
        lemma_step_keeps_nonzero(advanced::<Xoroshiro128>(s, (n - 1) as nat));
    }
}

/// The XOR of two states, word by word.
pub open spec fn xor_state(a: (u64, u64), b: (u64, u64)) -> (u64, u64) {
    (a.0 ^ b.0, a.1 ^ b.1)
}

/// Whether the power `i` of the transition occurs in the jump polynomial.
pub open spec fn jump_bit(i: nat) -> bool {
    JUMP[(i / 64) as int] & (1u64 << (i % 64)) != 0
}

/// The XOR, word by word, of the states reached from `s` after `i` draws,
/// taken over those `i < n` whose power occurs in the jump polynomial.
pub open spec fn jump_sum(s: (u64, u64), n: nat) -> (u64, u64)
    decreases n,
{
    if n == 0 {
        (0, 0)
    } else {
        let acc = jump_sum(s, (n - 1) as nat);
        if jump_bit((n - 1) as nat) {
            xor_state(acc, advanced::<Xoroshiro128>(s, (n - 1) as nat))
        } else {
            acc
        }
    }
}

/// The transition is linear: the state that follows an XOR of two states
/// is the XOR of the states that follow them.
pub proof fn lemma_step_is_linear(a: (u64, u64), b: (u64, u64))
    ensures
        next_state(xor_state(a, b)) == xor_state(next_state(a), next_state(b)),
{
    let (a0, a1) = a;
    let (b0, b1) = b;
    let ta = a1 ^ a0;
    let tb = b1 ^ b0;
    let tx = (a1 ^ b1) ^ (a0 ^ b0);
    assert(tx == ta ^ tb && (((a0 ^ b0) << 55u64) | ((a0 ^ b0) >> 9u64)) ^ tx ^ (tx << 14) == (((a0
        << 55u64) | (a0 >> 9u64)) ^ ta ^ (ta << 14)) ^ (((b0 << 55u64) | (b0 >> 9u64)) ^ tb ^ (tb
        << 14)) && ((tx << 36u64) | (tx >> 28u64)) == ((ta << 36u64) | (ta >> 28u64)) ^ ((tb
        << 36u64) | (tb >> 28u64))) by (bit_vector)
        requires
            ta == a1 ^ a0,
            tb == b1 ^ b0,
            tx == (a1 ^ b1) ^ (a0 ^ b0),
    ;
}

/// The accumulated XOR of the stream that starts one draw later is the
/// accumulated XOR of the stream, moved on by one draw.
pub proof fn lemma_jump_sum_step(s: (u64, u64), n: nat)
    ensures
        jump_sum(next_state(s), n) == next_state(jump_sum(s, n)),
    decreases n,
{
    if n == 0 {
        lemma_zero_is_fixed();
    } else {
        let m = (n - 1) as nat;
        lemma_jump_sum_step(s, m);
        lemma_advanced_step::<Xoroshiro128>(s, m);
        lemma_step_is_linear(jump_sum(s, m), advanced::<Xoroshiro128>(s, m));
    }
}

/// Jumping and drawing may be done in either order: the `n`-th state
/// after `count` jumps is the `n`-th state, jumped `count` times.
pub proof fn lemma_jump_commutes_with_draws(s: (u64, u64), count: nat, n: nat)
    ensures
        advanced::<Xoroshiro128>(jumped::<Xoroshiro128>(s, count), n) == jumped::<Xoroshiro128>(
            advanced::<Xoroshiro128>(s, n),
            count,
        ),
{
    assert forall|t: (u64, u64)| #[trigger]
        Xoroshiro128::jump_once(Xoroshiro128::step(t)) == Xoroshiro128::step(Xoroshiro128::jump_once(t)) by {
        lemma_jump_sum_step(t, 128);
    }
    lemma_jumps_commute_with_draws::<Xoroshiro128>(s, count, n);
}

/// A generator with 128 bits of state, for work with little parallelism.
/// Its jump polynomial is the one published for a distance of 2^64 draws;
/// what is proved here is what a jump computes, not how far it leads.
///
/// The state `(0, 0)` is a fixed point that yields zero forever. Nothing
/// here rejects it: whoever seeds the generator has to avoid it, most
/// easily by taking the seed from a `SplitMix64`.
#[derive(Clone, Copy, Debug, PartialEq, Eq)]
pub struct Xoroshiro128([u64; 2]);

impl View for Xoroshiro128 {
    type V = (u64, u64);

    closed spec fn view(&self) -> (u64, u64) {
        (self.0[0], self.0[1])
    }
}

impl Rng for Xoroshiro128 {
    open spec fn step(state: (u64, u64)) -> (u64, u64) {
        next_state(state)
    }

    open spec fn output(state: (u64, u64)) -> u64 {
        state.0.wrapping_add(state.1)
    }

    fn next_u64(&mut self) -> (r: u64) {
        let s0 = self.0[0];
        let mut s1 = self.0[1];
        let result = s0.wrapping_add(s1);

        s1 ^= s0;
        self.0[0] = rotl(s0, 55) ^ s1 ^ (s1 << 14);
        self.0[1] = rotl(s1, 36);

        result
    }

    fn next_u32(&mut self) -> (r: u32) {
        truncate(self.next_u64())
    }
}

impl SeedableRng for Xoroshiro128 {
    open spec fn seed_words() -> nat {
        2
    }

    open spec fn seeded(seed: Seq<u64>) -> (u64, u64) {
        (seed[0], seed[1])
    }

    fn from_seed(seed: &[u64]) -> (r: Result<Self, Error>) {
        let mut rng = Xoroshiro128([0, 0]);
        match rng.reseed(seed) {
            Ok(()) => Ok(rng),
            Err(e) => Err(e),
        }
    }

    fn reseed(&mut self, seed: &[u64]) -> (r: Result<(), Error>) {
        if seed.len() < STATE_SIZE {
            return Err(Error::InsufficientSeedLength);
        }
        self.0[0] = seed[0];
        self.0[1] = seed[1];
        Ok(())
    }
}

impl JumpSpec for Xoroshiro128 {
    open spec fn jump_once(state: (u64, u64)) -> (u64, u64) {
        jump_sum(state, 128)
    }
}

impl RngJump for Xoroshiro128 {
    fn jump(&mut self, count: usize) {
        let mut done: usize = 0;
        while done < count
            invariant
                done <= count,
                self@ == jumped::<Self>(old(self)@, done as nat),
            decreases count - done,
        {
            let ghost start = self@;
            let mut s0: u64 = 0;
            let mut s1: u64 = 0;

            let mut i: usize = 0;
            while i < STATE_SIZE
                invariant
                    i <= STATE_SIZE,
                    self@ == advanced::<Self>(start, (64 * i) as nat),
                    (s0, s1) == jump_sum(start, (64 * i) as nat),
                decreases STATE_SIZE - i,
            {
                let mut b: u64 = 0;
                while b < 64
                    invariant
                        i < STATE_SIZE,
                        b <= 64,
                        self@ == advanced::<Self>(start, (64 * i + b) as nat),
                        (s0, s1) == jump_sum(start, (64 * i + b) as nat),
                    decreases 64 - b,
                {
                    if (JUMP[i] & (1u64 << b)) != 0 {
                        s0 ^= self.0[0];
                        s1 ^= self.0[1];
                    }
                    self.next_u64();
                    b += 1;
                }
                i += 1;
            }
            self.0[0] = s0;
            self.0[1] = s1;
            done += 1;
        }
    }
}

impl Xoroshiro128 {
    /// Creates a generator seeded with the next two words of `other`.
    pub fn rand<R: Rng>(other: &mut R) -> (g: Xoroshiro128)
        ensures
            g@ == Self::seeded(outputs::<R>(old(other)@, 2)),
            final(other)@ == advanced::<R>(old(other)@, 2),
    {
        let key = draw(other, STATE_SIZE);
        Self::from_seed(key.as_slice()).unwrap()
    }
}

} // verus!
