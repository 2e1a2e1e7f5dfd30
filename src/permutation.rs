//! The full-state permutation: 24 rounds of mixing, byte substitution and
//! diffusion under a table derived afresh for each block.
use vstd::prelude::*;
use vstd::arithmetic::div_mod::lemma_add_mod_noop_right;
use crate::bits::{rotl, rotl_spec, rotr, rotr_spec};
use crate::mix::{apply_byte_substitution, bit_mix, bit_mix_spec, substitute_word};
use crate::sbox::{generate_sbox, sbox_spec};

verus! {

/// Number of rounds in one permutation.
pub const NUM_ROUNDS: usize = 24;

/// One constant per round, taken cyclically.
pub const ROUND_CONSTANTS: [u64; 24] = [
    0x243F6A8885A308D3, 0x13198A2E03707344, 0xA4093822299F31D0, 0x082EFA98EC4E6C89,
    0x452821E638D01377, 0xBE5466CF34E90C6C, 0xC0AC29B7C97C50DD, 0x3F84D5B5B5470917,
    0x9216D5D98979FB1B, 0xD1310BA698DFB5AC, 0x2FFD72DBD01ADFB7, 0xB8E1AFED6A267E96,
    0x9B05688C2B3E6C1F, 0x1F83D9ABFB41BD6B, 0x5BE0CD19137E2179, 0xCBBB9D5DC1059ED8,
    0x629A292A367CD507, 0x9159015A3070DD17, 0x152FECD8F70E5939, 0x67332667FFC00B31,
    0x8EB44A8768581511, 0xDB0C2E0D64F98FA7, 0x47B5481DBEFA4FA4, 0x0FC19DC68B8CD5B5,
];

/// Odd multiplier applied to the word three places ahead during diffusion.
pub const DIFFUSION_MUL: u64 = 0x9E3779B97F4A7C15;

/// The constant of round `round`.
pub open spec fn round_constant(round: nat) -> u64 {
    ROUND_CONSTANTS@[(round % 24) as int]
}

/// Every word of `s` put through the bit mixer.
pub open spec fn mix_words(s: Seq<u64>, rc: u64, bytes: Seq<u8>) -> Seq<u64> {
    Seq::new(8, |i: int| bit_mix_spec(s[i], rc, bytes))
}

/// Every word of `s` put through the byte substitution.
pub open spec fn substitute_words(s: Seq<u64>, sbox: Seq<u8>) -> Seq<u64> {
    Seq::new(8, |i: int| substitute_word(s[i], sbox))
}

/// Word `i` after diffusion in round `round`, read from the words `s` as they
/// stood before the step.
pub open spec fn diffuse_word(s: Seq<u64>, round: nat, i: int) -> u64 {
    s[i] ^ rotl_spec(s[(i + 7) % 8], ((round + 2 * i) % 64) as u32) ^ rotr_spec(
        s[(i + 1) % 8],
        ((round + 3 * i) % 64) as u32,
    ) ^ rotl_spec(s[(i + 4) % 8], 11) ^ rotl_spec(
        s[(i + 3) % 8].wrapping_mul(DIFFUSION_MUL),
        ((round + 5 * i) % 64) as u32,
    )
}

/// The diffusion step of round `round`: one simultaneous pass over all eight words.
pub open spec fn diffuse(s: Seq<u64>, round: nat) -> Seq<u64> {
    Seq::new(8, |i: int| diffuse_word(s, round, i))
}

/// Round `round` on state `s`: mixing, then substitution, then diffusion.
pub open spec fn round_spec(s: Seq<u64>, round: nat, sbox: Seq<u8>, bytes: Seq<u8>) -> Seq<u64> {
    diffuse(substitute_words(mix_words(s, round_constant(round), bytes), sbox), round)
}

/// Rounds `0 .. n` applied to `s` in order.
pub open spec fn rounds(s: Seq<u64>, n: nat, sbox: Seq<u8>, bytes: Seq<u8>) -> Seq<u64>
    decreases n,
{
    if n == 0 {
        s
    } else {
        round_spec(rounds(s, (n - 1) as nat, sbox, bytes), (n - 1) as nat, sbox, bytes)
    }
}

/// The exclusive-or of the first `n` words of `s`.
pub open spec fn xor_words(s: Seq<u64>, n: nat) -> u64
    decreases n,
{
    if n == 0 {
        0
    } else {
        xor_words(s, (n - 1) as nat) ^ s[n - 1]
    }
}

/// The permutation of state `s` for block `bytes`: the table is derived from the
/// exclusive-or of the eight words and from the block, then all rounds run.
pub open spec fn permute_spec(s: Seq<u64>, bytes: Seq<u8>) -> Seq<u64> {
    rounds(s, NUM_ROUNDS as nat, sbox_spec(xor_words(s, 8), bytes), bytes)
}

/// `(round + m * i) mod 64`, computed without overflow.
fn rotation(round: usize, i: usize, m: u32) -> (r: u32)
    requires
        i < 8,
        m <= 5,
    ensures
        r == (round + m * i) % 64,
{
    assert(m * i <= 40) by (nonlinear_arith)
        requires
            m <= 5,
            i < 8,
    ;
    let k: u32 = m * (i as u32);
    let r: u32 = ((round % 64) as u32 + k) % 64;
    proof {
        lemma_add_mod_noop_right(k as int, round as int, 64);
    }
    r
}

/// Applies round `round` to the state, under table `sbox` and for block `input_bytes`.
pub fn permute_round(state: &mut [u64; 8], round: usize, sbox: &[u8; 256], input_bytes: &[u8])
    ensures
        final(state)@ == round_spec(old(state)@, round as nat, sbox@, input_bytes@),
{
    let ghost start = state@;
    let rc = ROUND_CONSTANTS[round % 24];
    let mut i: usize = 0;
    while i < 8
        invariant
            i <= 8,
            rc == round_constant(round as nat),
            forall|k: int| 0 <= k < i ==> state@[k] == bit_mix_spec(start[k], rc, input_bytes@),
            forall|k: int| i <= k < 8 ==> state@[k] == start[k],
        decreases 8 - i,
    {
        state[i] = bit_mix(state[i], rc, input_bytes);
        i = i + 1;
    }
    let ghost mixed = state@;
    assert(mixed =~= mix_words(start, rc, input_bytes@));
    let mut i: usize = 0;
    while i < 8
        invariant
            i <= 8,
            forall|k: int| 0 <= k < i ==> state@[k] == substitute_word(mixed[k], sbox@),
            forall|k: int| i <= k < 8 ==> state@[k] == mixed[k],
        decreases 8 - i,
    {
        state[i] = apply_byte_substitution(state[i], sbox);
        i = i + 1;
    }
    let prev: [u64; 8] = *state;
    assert(prev@ =~= substitute_words(mixed, sbox@));
    let mut i: usize = 0;
    while i < 8
        invariant
            i <= 8,
            forall|k: int| 0 <= k < i ==> state@[k] == diffuse_word(prev@, round as nat, k),
        decreases 8 - i,
    {
        let left = prev[(i + 7) % 8];
        let right = prev[(i + 1) % 8];
        let center = prev[(i + 4) % 8];
        let extra = prev[(i + 3) % 8];
        state[i] = prev[i] ^ rotl(left, rotation(round, i, 2)) ^ rotr(right, rotation(round, i, 3))
            ^ rotl(center, 11) ^ rotl(extra.wrapping_mul(DIFFUSION_MUL), rotation(round, i, 5));
        i = i + 1;
    }
    assert(state@ =~= diffuse(prev@, round as nat));
}

/// Permutes the whole state for block `input_bytes`: derives the table from the
/// exclusive-or of the words and from the block, then runs every round.
pub fn permute(state: &mut [u64; 8], input_bytes: &[u8])
    ensures
        final(state)@ == permute_spec(old(state)@, input_bytes@),
{
    let ghost start = state@;
    let mut seed: u64 = 0;
    let mut i: usize = 0;
    while i < 8
        invariant
            i <= 8,
            state@ == start,
            seed == xor_words(start, i as nat),
        decreases 8 - i,
    {
        seed = seed ^ state[i];
        i = i + 1;
    }
    let sbox = generate_sbox(seed, input_bytes);
    let mut round: usize = 0;
    while round < NUM_ROUNDS
        invariant
            round <= NUM_ROUNDS,
            state@ == rounds(start, round as nat, sbox@, input_bytes@),
        decreases NUM_ROUNDS - round,
    {
        permute_round(state, round, &sbox, input_bytes);
        round = round + 1;
    }
}

} // verus!
