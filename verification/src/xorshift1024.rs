//! The xorshift1024* random number generator.

use vstd::prelude::*;

use crate::stream::{advanced, draw, jumped, outputs, truncate};
use crate::{Error, JumpSpec, Rng, RngJump, SeedableRng};

verus! {

/// Number of 64-bit words in the state.
pub const STATE_SIZE: usize = 16;

/// The odd constant that scrambles each new state word into an output.
pub const MULTIPLIER: u64 = 1181783497276652981;

/// The jump polynomial, least significant word first. Bit `b` of word `w`
/// is the coefficient of the `64 * w + b`-th power of the transition.
pub const JUMP: [u64; 16] = [
    0x84242f96eca9c41d,
    0xa3c65b8776f96855,
    0x5b34a39f070b5837,
    0x4489affce4f31a1e,
    0x2ffeeb0a48316f40,
    0xdc2d9891fe68c022,
    0x3659132bb12fea70,
    0xaac17d8efa43cab8,
    0xc4cb815590989b13,
    0x5ee975283d71c93b,
    0x691548c86c1bd540,
    0x7910c41d10a1e6a5,
    0x0b5fc64563b3e2a8,
    0x047f7684e9fc949d,
    0xb99181f2d8f685ca,
    0x284600e3f30e38c3,
];

/// The mathematical state: sixteen words and the index of the slot that
/// was written last.
#[verifier::ext_equal]
pub struct State1024 {
    pub words: Seq<u64>,
    pub p: nat,
}

impl State1024 {
    /// Sixteen words, and an index that points at one of them.
    pub open spec fn wf(self) -> bool {
        self.words.len() == 16 && self.p < 16
    }

    /// Whether every word is zero.
    pub open spec fn is_zero(self) -> bool {
        forall|k: int| 0 <= k < 16 ==> self.words[k] == 0
    }
}

/// The slot after slot `p`, going round after the last one.
pub open spec fn next_index(p: nat) -> nat {
    (p + 1) % 16
}

/// The slot that holds word `j` of a frame that starts at slot `p`.
pub open spec fn slot(j: int, p: int) -> int {
    (j + p) % 16
}

/// Masking with 15 takes an index modulo 16.
proof fn lemma_mask_is_mod(x: usize)
    by (bit_vector)
    ensures
        x & 15 == x % 16,
{
}

/// The word that the next draw from `s` writes into the state.
pub open spec fn next_word(s: State1024) -> u64 {
    let s0 = s.words[s.p as int];
    let s1 = s.words[next_index(s.p) as int];
    let t = s1 ^ (s1 << 31);
    t ^ s0 ^ (t >> 11) ^ (s0 >> 30)
}

/// The state that follows `s`: the index moves on by one slot, modulo 16,
/// and that slot takes the new word.
pub open spec fn next_state(s: State1024) -> State1024 {
    State1024 { words: s.words.update(next_index(s.p) as int, next_word(s)), p: next_index(s.p) }
}

/// Sixteen words, each the XOR of the words of `a` and `b` in that slot.
pub open spec fn xor_words(a: Seq<u64>, b: Seq<u64>) -> Seq<u64> {
    Seq::new(16, |k: int| a[k] ^ b[k])
}

/// Whether the power `i` of the transition occurs in the jump polynomial.
pub open spec fn jump_bit(i: nat) -> bool {
    JUMP[(i / 64) as int] & (1u64 << (i % 64)) != 0
}

/// The XOR, slot by slot, of the state words reached from `s` after `i`
/// draws, taken over those `i < n` whose power occurs in the jump
/// polynomial. The index of `s` plays no part: a jump reads the words and
/// writes them back through one and the same offset.
pub open spec fn jump_sum(s: State1024, n: nat) -> Seq<u64>
    decreases n,
{
    if n == 0 {
        Seq::new(16, |k: int| 0u64)
    } else {
        let acc = jump_sum(s, (n - 1) as nat);
        if jump_bit((n - 1) as nat) {
            xor_words(acc, advanced::<Xorshift1024>(s, (n - 1) as nat).words)
        } else {
            acc
        }
    }
}

/// Draws keep a state well formed and move its index by one slot each.
pub proof fn lemma_advanced_index(s: State1024, n: nat)
    requires
        s.wf(),
    ensures
        advanced::<Xorshift1024>(s, n).wf(),
        advanced::<Xorshift1024>(s, n).p == (s.p + n) % 16,
    decreases n,
{
    if n > 0 {
        lemma_advanced_index(s, (n - 1) as nat);
    }
}

/// A state of zeros stays one and gives zero.
pub proof fn lemma_zero_is_fixed(s: State1024)
    requires
        s.wf(),
        s.is_zero(),
    ensures
        next_state(s).is_zero(),
        Xorshift1024::output(s) == 0,
{
    let z: u64 = 0;
    assert((z ^ (z << 31)) ^ z ^ ((z ^ (z << 31)) >> 11) ^ (z >> 30) == 0) by (bit_vector)
        requires
            z == 0,
    ;
}

/// No state but one of zeros is followed by one of zeros.
pub proof fn lemma_step_keeps_nonzero(s: State1024)
    requires
        s.wf(),
        !s.is_zero(),
    ensures
        !next_state(s).is_zero(),
{
    let q = next_index(s.p) as int;
    let after = next_state(s);
    if after.is_zero() {
        assert forall|k: int| 0 <= k < 16 implies s.words[k] == 0 by {
            if k != q {
                assert(after.words[k] == s.words[k]);
            } else {
                let s0 = s.words[s.p as int];
                let s1 = s.words[q];
                let t = s1 ^ (s1 << 31);
                let w = t ^ s0 ^ (t >> 11) ^ (s0 >> 30);
                assert(after.words[s.p as int] == s0);
                assert(s0 == 0 && w == 0 ==> s1 == 0) by (bit_vector)
                    requires
                        t == s1 ^ (s1 << 31),
                        w == t ^ s0 ^ (t >> 11) ^ (s0 >> 30),
                ;
            }
        }
    }
}

/// A generator that does not start from zeros never gets there by
/// drawing.
pub proof fn lemma_never_zero(s: State1024, n: nat)
    requires
        s.wf(),
        !s.is_zero(),
    ensures
        !advanced::<Xorshift1024>(s, n).is_zero(),
    decreases n,
{
    if n > 0 {
        lemma_never_zero(s, (n - 1) as nat);
        lemma_advanced_index(s, (n - 1) as nat);
        lemma_step_keeps_nonzero(advanced::<Xorshift1024>(s, (n - 1) as nat));
    }
}

/// The accumulated words are always sixteen.
proof fn lemma_jump_sum_len(s: State1024, n: nat)
    ensures
        jump_sum(s, n).len() == 16,
    decreases n,
{
    if n > 0 {
        lemma_jump_sum_len(s, (n - 1) as nat);
    }
}

/// A generator with 1024 bits of state, for work with much parallelism.
/// A jump reads and writes the state through the index that the generator
/// has when the jump starts, and leaves that index as it is.
///
/// The all-zero state is a fixed point that yields zero forever. Nothing
/// here rejects it: whoever seeds the generator has to avoid it, most
/// easily by taking the seed from a `SplitMix64`.
#[derive(Clone, Copy, Debug, PartialEq, Eq)]
pub struct Xorshift1024 {
    state: [u64; 16],
    p: usize,
}

impl View for Xorshift1024 {
    type V = State1024;

    closed spec fn view(&self) -> State1024 {
        State1024 { words: self.state@, p: self.p as nat }
    }
}

impl Xorshift1024 {
    #[verifier::type_invariant]
    spec fn index_in_range(self) -> bool {
        self.p < 16
    }
}

impl Rng for Xorshift1024 {
    open spec fn step(state: State1024) -> State1024 {
        next_state(state)
    }

    open spec fn output(state: State1024) -> u64 {
        next_word(state).wrapping_mul(MULTIPLIER)
    }

    fn next_u64(&mut self) -> (r: u64) {
        proof {
            use_type_invariant(&*self);
        }
        let s0 = self.state[self.p];
        proof {
            lemma_mask_is_mod((self.p + 1) as usize);
        }
        self.p = (self.p + 1) & 15;
        let mut s1 = self.state[self.p];

        s1 ^= s1 << 31;
        self.state[self.p] = s1 ^ s0 ^ (s1 >> 11) ^ (s0 >> 30);

        self.state[self.p].wrapping_mul(MULTIPLIER)
    }

    fn next_u32(&mut self) -> (r: u32) {
        truncate(self.next_u64())
    }
}

impl SeedableRng for Xorshift1024 {
    open spec fn seed_words() -> nat {
        16
    }

    open spec fn seeded(seed: Seq<u64>) -> State1024 {
        State1024 { words: seed.take(16), p: 0 }
    }

    fn from_seed(seed: &[u64]) -> (r: Result<Self, Error>) {
        let mut rng = Xorshift1024 { state: [0; 16], p: 0 };
        match rng.reseed(seed) {
            Ok(()) => Ok(rng),
            Err(e) => Err(e),
        }
    }

    fn reseed(&mut self, seed: &[u64]) -> (r: Result<(), Error>) {
        if seed.len() < STATE_SIZE {
            return Err(Error::InsufficientSeedLength);
        }
        proof {
            use_type_invariant(&*self);
        }
        let mut index: usize = 0;
        while index < STATE_SIZE
            invariant
                index <= STATE_SIZE <= seed@.len(),
                self.p < 16,
                forall|k: int| 0 <= k < index ==> self.state[k] == seed[k],
            decreases STATE_SIZE - index,
        {
            self.state[index] = seed[index];
            index += 1;
        }
        self.p = 0;
        assert(self@ =~= Self::seeded(seed@.take(16)));
        Ok(())
    }
}

impl JumpSpec for Xorshift1024 {
    open spec fn jump_once(state: State1024) -> State1024 {
        State1024 { words: jump_sum(state, 1024), p: state.p }
    }
}

impl RngJump for Xorshift1024 {
    fn jump(&mut self, count: usize) {
        proof {
            use_type_invariant(&*self);
        }
        let p = self.p;

        let mut done: usize = 0;
        while done < count
            invariant
                done <= count,
                p < 16,
                self.p == p,
                self@ == jumped::<Self>(old(self)@, done as nat),
            decreases count - done,
        {
            let ghost start = self@;
            let mut t: [u64; 16] = [0; 16];

            let mut i: usize = 0;
            while i < STATE_SIZE
                invariant
                    i <= STATE_SIZE,
                    p < 16,
                    start.wf(),
                    start.p == p,
                    self@ == advanced::<Self>(start, (64 * i) as nat),
                    forall|j: int|
                        0 <= j < 16 ==> #[trigger] t[j] == jump_sum(start, (64 * i) as nat)[slot(
                            j,
                            p as int,
                        )],
                decreases STATE_SIZE - i,
            {
                let mut b: u64 = 0;
                while b < 64
                    invariant
                        i < STATE_SIZE,
                        b <= 64,
                        p < 16,
                        start.wf(),
                        start.p == p,
                        self@ == advanced::<Self>(start, (64 * i + b) as nat),
                        forall|j: int|
                            0 <= j < 16 ==> #[trigger] t[j] == jump_sum(
                                start,
                                (64 * i + b) as nat,
                            )[slot(j, p as int)],
                    decreases 64 - b,
                {
                    let ghost n = (64 * i + b) as nat;
                    let ghost acc = jump_sum(start, n);
                    if (JUMP[i] & (1u64 << b)) != 0 {
                        let mut j: usize = 0;
                        while j < STATE_SIZE
                            invariant
                                j <= STATE_SIZE,
                                p < 16,
                                self@ == advanced::<Self>(start, n),
                                forall|k: int|
                                    0 <= k < j ==> #[trigger] t[k] == acc[slot(k, p as int)]
                                        ^ self@.words[slot(k, p as int)],
                                forall|k: int|
                                    j <= k < 16 ==> #[trigger] t[k] == acc[slot(k, p as int)],
                            decreases STATE_SIZE - j,
                        {
                            proof {
                                lemma_mask_is_mod((j + p) as usize);
                            }
                            t[j] ^= self.state[(j + p) & 15];
                            j += 1;
                        }
                    }
                    self.next_u64();
                    b += 1;
                }
                i += 1;
            }

            proof {
                lemma_advanced_index(start, 1024);
                lemma_jump_sum_len(start, 1024);
            }
            let ghost sum = jump_sum(start, 1024);
            let mut j: usize = 0;
            while j < STATE_SIZE
                invariant
                    j <= STATE_SIZE,
                    p < 16,
                    self.p == p,
                    sum.len() == 16,
                    forall|k: int| 0 <= k < 16 ==> #[trigger] t[k] == sum[slot(k, p as int)],
                    forall|k: int|
                        0 <= k < j ==> self.state[#[trigger] slot(k, p as int)] == sum[slot(
                            k,
                            p as int,
                        )],
                decreases STATE_SIZE - j,
            {
                proof {
                    lemma_mask_is_mod((j + p) as usize);
                }
                self.state[(j + p) & 15] = t[j];
                j += 1;
            }
            proof {
                assert forall|k: int| 0 <= k < 16 implies self.state[k] == sum[k] by {
                    let from = (k + 16 - p) % 16;
                    assert(slot(from, p as int) == k);
                }
            }
            done += 1;
        }
    }
}

impl Xorshift1024 {
    /// Creates a generator seeded with the next sixteen words of `other`.
    pub fn rand<R: Rng>(other: &mut R) -> (g: Xorshift1024)
        ensures
            g@ == Self::seeded(outputs::<R>(old(other)@, 16)),
            final(other)@ == advanced::<R>(old(other)@, 16),
    {
        let key = draw(other, STATE_SIZE);
        Self::from_seed(key.as_slice()).unwrap()
    }
}

} // verus!
