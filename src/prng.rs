//! A deterministic linear congruential generator with a 32-bit state.

use vstd::prelude::*;

verus! {

/// The state a fresh generator starts from.
pub const SEED: u32 = 777;

/// The state that follows `s`: `s * 1664525 + 1013904223` modulo 2^32.
#[verifier::opaque]
pub open spec fn lcg_step(s: u32) -> u32 {
    ((s as int * 1664525 + 1013904223) % 0x1_0000_0000) as u32
}

/// What one draw from state `s` returns: the top eight bits of the next state.
pub open spec fn output_from(s: u32) -> u32 {
    lcg_step(s) / 0x100_0000
}

/// The state after `n` draws from `s`.
pub open spec fn state_after(s: u32, n: nat) -> u32
    decreases n,
{
    if n == 0 {
        s
    } else {
        lcg_step(state_after(s, (n - 1) as nat))
    }
}

/// The first `n` values drawn from state `s`.
pub open spec fn outputs(s: u32, n: nat) -> Seq<u32>
    decreases n,
{
    if n == 0 {
        Seq::empty()
    } else {
        outputs(s, (n - 1) as nat).push(output_from(state_after(s, (n - 1) as nat)))
    }
}

/// The byte that `Prng::random_u8` makes of a raw draw.
pub open spec fn byte_of(raw: u32) -> u8 {
    (raw % 255) as u8
}

/// The bytes drawn by `n` calls of `Prng::random_u8` from state `s`.
pub open spec fn bytes_from(s: u32, n: nat) -> Seq<u8> {
    outputs(s, n).map_values(|raw: u32| byte_of(raw))
}

/// A little-endian 32-bit word of four bytes.
pub open spec fn word_of(b: Seq<u8>) -> u32
    recommends
        b.len() == 4,
{
    (b[0] as int + 0x100 * b[1] + 0x1_0000 * b[2] + 0x100_0000 * b[3]) as u32
}

/// The word that `Prng::random_u32` draws from state `s`: four random
/// bytes, least significant first.
pub closed spec fn random_word(s: u32) -> u32 {
    word_of(bytes_from(s, 4))
}

/// A pseudo-random generator, handed explicitly to whatever needs chance.
pub struct Prng {
    pub state: u32,
}

impl Prng {
    /// A generator in its fixed starting state.
    pub fn new() -> (r: Prng)
        ensures
            r.state == SEED,
    {
        Prng { state: SEED }
    }

    /// A generator that starts from `seed`.
    pub fn with_seed(seed: u32) -> (r: Prng)
        ensures
            r.state == seed,
    {
        Prng { state: seed }
    }

    /// Advances the state one step and returns its top eight bits.
    pub fn next_u32(&mut self) -> (r: u32)
        ensures
            final(self).state == lcg_step(old(self).state),
            r == output_from(old(self).state),
            r < 256,
    {
        proof {
            reveal(lcg_step);
        }
        let next: u64 = (self.state as u64 * 1664525 + 1013904223) % 0x1_0000_0000;
        self.state = next as u32;
        let x = self.state;
        assert(x >> 24 == x / 0x100_0000 && x >> 24 < 256) by (bit_vector);
        x >> 24
    }

    /// A coin flip: true when the next draw is even.
    pub fn random_bool(&mut self) -> (r: bool)
        ensures
            final(self).state == lcg_step(old(self).state),
            r == (output_from(old(self).state) % 2 == 0),
    {
        self.next_u32() % 2 == 0
    }

    /// A byte: the next draw modulo 255.
    pub fn random_u8(&mut self) -> (r: u8)
        ensures
            final(self).state == lcg_step(old(self).state),
            r == byte_of(output_from(old(self).state)),
    {
        (self.next_u32() % 255) as u8
    }

    /// The next `n` draws, in order.
    pub fn draw_n(&mut self, n: usize) -> (r: Vec<u32>)
        ensures
            r@ == outputs(old(self).state, n as nat),
            final(self).state == state_after(old(self).state, n as nat),
    {
        let mut r: Vec<u32> = Vec::new();
        let mut i: usize = 0;
        while i < n
            invariant
                i <= n,
                r@ == outputs(old(self).state, i as nat),
                self.state == state_after(old(self).state, i as nat),
            decreases n - i,
        {
            let v = self.next_u32();
            r.push(v);
            i = i + 1;
        }
        r
    }

    /// `n` bytes, each from one call of `random_u8`.
    pub fn random_bytes(&mut self, n: usize) -> (r: Vec<u8>)
        ensures
            r@ == bytes_from(old(self).state, n as nat),
            final(self).state == state_after(old(self).state, n as nat),
    {
        let mut r: Vec<u8> = Vec::new();
        let mut i: usize = 0;
        while i < n
            invariant
                i <= n,
                r@ == bytes_from(old(self).state, i as nat),
                self.state == state_after(old(self).state, i as nat),
            decreases n - i,
        {
            let b = self.random_u8();
            r.push(b);
            i = i + 1;
            assert(r@ =~= bytes_from(old(self).state, i as nat));
        }
        r
    }

    /// A 32-bit word made of four random bytes, least significant first.
    pub fn random_u32(&mut self) -> (r: u32)
        ensures
            r == random_word(old(self).state),
            final(self).state == state_after(old(self).state, 4),
    {
        let b = self.random_bytes(4);
        proof {
            lemma_outputs_len(old(self).state, 4);
        }
        assert(b@.len() == 4);
        let (b0, b1, b2, b3) = (b[0] as u32, b[1] as u32, b[2] as u32, b[3] as u32);
        assert(0x100 * b1 <= 0xff00 && 0x1_0000 * b2 <= 0xff_0000 && 0x100_0000 * b3 <= 0xff00_0000)
            by (nonlinear_arith)
            requires
                b1 < 256,
                b2 < 256,
                b3 < 256,
        ;
        b0 + 0x100 * b1 + 0x1_0000 * b2 + 0x100_0000 * b3
    }
}

/// The first `n` values from a state are fixed by that state alone, and
/// drawing further only extends them: the first `n` of any longer run are
/// the same values.
pub proof fn lemma_outputs_prefix(s: u32, n: nat, m: nat)
    requires
        n <= m,
    ensures
        outputs(s, m).len() == m,
        outputs(s, m).subrange(0, n as int) == outputs(s, n),
    decreases m,
{
    lemma_outputs_len(s, m);
    if n < m {
        lemma_outputs_prefix(s, n, (m - 1) as nat);
        lemma_outputs_len(s, (m - 1) as nat);
        assert(outputs(s, m).subrange(0, n as int) =~= outputs(s, (m - 1) as nat).subrange(0, n as int));
    } else {
        assert(outputs(s, m).subrange(0, n as int) =~= outputs(s, n));
    }
}

/// Drawing `a` times and then `b` times is drawing `a + b` times.
pub proof fn lemma_state_after_add(s: u32, a: nat, b: nat)
    ensures
        state_after(state_after(s, a), b) == state_after(s, a + b),
    decreases b,
{
    if b > 0 {
        lemma_state_after_add(s, a, (b - 1) as nat);
    }
}

/// `outputs(s, n)` holds `n` values.
pub proof fn lemma_outputs_len(s: u32, n: nat)
    ensures
        outputs(s, n).len() == n,
    decreases n,
{
    if n > 0 {
        lemma_outputs_len(s, (n - 1) as nat);
    }
}

} // verus!
