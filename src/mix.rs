//! The per-word non-linear steps of a round: the bit mixer and the byte
//! substitution through the table.
use vstd::prelude::*;
use crate::bits::{rotl, rotl_spec, rotr, rotr_spec};

verus! {

/// Odd multiplier of the mixer's first squaring step.
pub const MIX_MUL_A: u64 = 0x94D049BB133111EB;

/// Odd multiplier of the mixer's second squaring step.
pub const MIX_MUL_B: u64 = 0xA24BAED4963EE407;

/// Multiplier of the block byte at offset 3.
pub const BYTE3_MUL: u64 = 0xDEADBEEFDEADBEEF;

/// Multiplier of the block byte at offset 6.
pub const BYTE6_MUL: u64 = 0xBADF00D1BADF00D1;

/// The bit mixer applied to `x` under round constant `rc` and block `bytes`.
/// A block of more than six bytes further folds in its bytes at offsets 3 and 6.
pub open spec fn bit_mix_spec(x: u64, rc: u64, bytes: Seq<u8>) -> u64 {
    let x1 = x.wrapping_add(rc);
    let x2 = x1 ^ rotl_spec(x1, 7);
    let x3 = x2.wrapping_add(rotl_spec(x2, 17));
    let x4 = x3 ^ x3.wrapping_mul(MIX_MUL_A);
    let x5 = x4.wrapping_sub(rotr_spec(x4, 19));
    let x6 = x5 ^ rotl_spec(rc, 11);
    let x7 = x6 ^ rotl_spec(x6.wrapping_mul(MIX_MUL_B), 23);
    if bytes.len() > 6 {
        let b3 = bytes[3] as u64;
        let b6 = bytes[6] as u64;
        x7 ^ rotl_spec(b3.wrapping_mul(BYTE3_MUL) ^ b6.wrapping_mul(BYTE6_MUL), 13)
    } else {
        x7
    }
}

/// Byte `i` of `x`, counting from the least significant.
pub open spec fn byte_of(x: u64, i: nat) -> u8 {
    ((x >> ((8 * i) as u64)) & 0xff) as u8
}

/// The word whose bytes `0 .. n` are the table's images of the same bytes of
/// `x`, and whose other bytes are zero.
pub open spec fn substitute_low_bytes(x: u64, sbox: Seq<u8>, n: nat) -> u64
    decreases n,
{
    if n == 0 {
        0
    } else {
        let i = (n - 1) as nat;
        substitute_low_bytes(x, sbox, i) | ((sbox[byte_of(x, i) as int] as u64) << ((8 * i) as u64))
    }
}

/// `x` with each of its eight bytes replaced by its image under `sbox`.
pub open spec fn substitute_word(x: u64, sbox: Seq<u8>) -> u64 {
    substitute_low_bytes(x, sbox, 8)
}

proof fn lemma_or_high_byte(r: u64, v: u64, n: u64, i: u64)
    by (bit_vector)
    requires
        n < 8,
        i < n,
        v < 256,
        r >> (8 * n) == 0,
    ensures
        ((r | (v << (8 * n))) >> (8 * i)) & 0xff == (r >> (8 * i)) & 0xff,
        ((r | (v << (8 * n))) >> (8 * n)) & 0xff == v,
        n + 1 < 8 ==> (r | (v << (8 * n))) >> (8 * (n + 1)) == 0,
{
}

proof fn lemma_or_first_byte(v: u64)
    by (bit_vector)
    requires
        v < 256,
    ensures
        ((0u64 | (v << 0u64)) >> 0u64) & 0xff == v,
        (0u64 | (v << 0u64)) >> 8u64 == 0,
{
}

proof fn lemma_substitute_low_bytes(x: u64, sbox: Seq<u8>, n: nat)
    requires
        sbox.len() == 256,
        1 <= n <= 8,
    ensures
        forall|i: nat| i < n ==> #[trigger] byte_of(substitute_low_bytes(x, sbox, n), i)
            == sbox[byte_of(x, i) as int],
        n < 8 ==> substitute_low_bytes(x, sbox, n) >> ((8 * n) as u64) == 0,
    decreases n,
{
    let k = (n - 1) as nat;
    let r = substitute_low_bytes(x, sbox, k);
    let v = sbox[byte_of(x, k) as int] as u64;
    if k == 0 {
        assert(r == 0);
        lemma_or_first_byte(v);
    } else {
        lemma_substitute_low_bytes(x, sbox, k);
        assert forall|i: nat| i < n implies #[trigger] byte_of(substitute_low_bytes(x, sbox, n), i)
            == sbox[byte_of(x, i) as int] by {
            if i < k {
                lemma_or_high_byte(r, v, k as u64, i as u64);
                assert(byte_of(r, i) == sbox[byte_of(x, i) as int]);
            } else {
                lemma_or_high_byte(r, v, k as u64, 0);
            }
        }
        lemma_or_high_byte(r, v, k as u64, 0);
    }
}

/// Substitution acts on each byte alone: byte `i` of the result is the table's
/// image of byte `i` of `x`.
pub proof fn lemma_substitute_word_bytes(x: u64, sbox: Seq<u8>)
    requires
        sbox.len() == 256,
    ensures
        forall|i: nat| i < 8 ==> #[trigger] byte_of(substitute_word(x, sbox), i) == sbox[byte_of(
            x,
            i,
        ) as int],
{
    lemma_substitute_low_bytes(x, sbox, 8);
}

/// The image of byte `x` under the table.
pub fn byte_substitute(x: u8, sbox: &[u8; 256]) -> (r: u8)
    ensures
        r == sbox@[x as int],
{
    sbox[x as usize]
}

/// Replaces each of the eight bytes of `x` by its image under the table.
pub fn apply_byte_substitution(x: u64, sbox: &[u8; 256]) -> (r: u64)
    ensures
        r == substitute_word(x, sbox@),
        forall|i: nat| i < 8 ==> #[trigger] byte_of(r, i) == sbox@[byte_of(x, i) as int],
{
    let mut result: u64 = 0;
    let mut i: u64 = 0;
    while i < 8
        invariant
            i <= 8,
            result == substitute_low_bytes(x, sbox@, i as nat),
        decreases 8 - i,
    {
        let byte = ((x >> (i * 8)) & 0xFF) as u8;
        let substituted = byte_substitute(byte, sbox);
        result = result | ((substituted as u64) << (i * 8));
        i = i + 1;
    }
    proof {
        lemma_substitute_word_bytes(x, sbox@);
    }
    result
}

/// Mixes word `x` with round constant `rc` and, for a block of more than six
/// bytes, with the block's bytes at offsets 3 and 6.
pub fn bit_mix(x: u64, rc: u64, input_bytes: &[u8]) -> (r: u64)
    ensures
        r == bit_mix_spec(x, rc, input_bytes@),
{
    let mut x = x.wrapping_add(rc);
    x = x ^ rotl(x, 7);
    x = x.wrapping_add(rotl(x, 17));
    x = x ^ x.wrapping_mul(MIX_MUL_A);
    x = x.wrapping_sub(rotr(x, 19));
    x = x ^ rotl(rc, 11);
    x = x ^ rotl(x.wrapping_mul(MIX_MUL_B), 23);
    if input_bytes.len() > 6 {
        let b3 = input_bytes[3] as u64;
        let b6 = input_bytes[6] as u64;
        x = x ^ rotl(b3.wrapping_mul(BYTE3_MUL) ^ b6.wrapping_mul(BYTE6_MUL), 13);
    }
    x
}

} // verus!
