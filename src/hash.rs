//! Padding, absorption and the hash driver.
use vstd::prelude::*;
use crate::permutation::{permute, permute_spec};

verus! {

/// Number of zero bytes that follow the `0x80` terminator in a padded block of
/// `n` bytes: just enough to bring the length to a multiple of 8.
pub open spec fn zero_fill(n: nat) -> nat {
    ((8 - (n + 1) % 8) % 8) as nat
}

/// `b` followed by one `0x80` byte and then `zero_fill(b.len())` zero bytes.
pub open spec fn pad_spec(b: Seq<u8>) -> Seq<u8> {
    b.push(0x80u8) + Seq::new(zero_fill(b.len()), |i: int| 0u8)
}

/// The word whose bytes `0 .. n` are `p[base .. base + n]`, least significant first.
pub open spec fn le_word(p: Seq<u8>, base: int, n: nat) -> u64
    decreases n,
{
    if n == 0 {
        0
    } else {
        let j = (n - 1) as nat;
        le_word(p, base, j) | ((p[base + j] as u64) << ((8 * j) as u64))
    }
}

/// The little-endian word made of the 8 bytes of chunk `k` of `p`.
pub open spec fn chunk_word(p: Seq<u8>, k: nat) -> u64 {
    le_word(p, 8 * k as int, 8)
}

/// State `s` with chunks `0 .. n` of `p` xor-ed in, chunk `k` into word `k mod 8`.
pub open spec fn absorb(s: Seq<u64>, p: Seq<u8>, n: nat) -> Seq<u64>
    decreases n,
{
    if n == 0 {
        s
    } else {
        let k = (n - 1) as nat;
        let prev = absorb(s, p, k);
        prev.update((k % 8) as int, prev[(k % 8) as int] ^ chunk_word(p, k))
    }
}

/// State `s` after taking in `block`: pad it, absorb every chunk of the padded
/// block, then permute for the padded block.
pub open spec fn absorb_block(s: Seq<u64>, block: Seq<u8>) -> Seq<u64> {
    let p = pad_spec(block);
    permute_spec(absorb(s, p, p.len() / 8), p)
}

/// The all-zero state.
pub open spec fn zero_state() -> Seq<u64> {
    Seq::new(8, |i: int| 0u64)
}

/// The digest of `blocks`: the zero state with every block taken in, in order.
pub open spec fn hash_spec(blocks: Seq<Seq<u8>>) -> Seq<u64>
    decreases blocks.len(),
{
    if blocks.len() == 0 {
        zero_state()
    } else {
        absorb_block(hash_spec(blocks.drop_last()), blocks.last())
    }
}

/// The contents of each block of `inputs`.
pub open spec fn blocks_view(inputs: Seq<&[u8]>) -> Seq<Seq<u8>> {
    inputs.map_values(|b: &[u8]| b@)
}

/// Padding yields a positive multiple of 8 bytes, at most 8 more than the block,
/// made of the block, one `0x80` byte, and zero bytes after it.
pub proof fn lemma_pad_shape(b: Seq<u8>)
    ensures
        pad_spec(b).len() % 8 == 0,
        b.len() + 1 <= pad_spec(b).len() <= b.len() + 8,
        pad_spec(b).subrange(0, b.len() as int) == b,
        pad_spec(b)[b.len() as int] == 0x80u8,
        forall|k: int| b.len() < k < pad_spec(b).len() ==> #[trigger] pad_spec(b)[k] == 0u8,
{
    let p = pad_spec(b);
    assert(p.subrange(0, b.len() as int) =~= b);
    assert forall|k: int| b.len() < k < p.len() implies #[trigger] p[k] == 0u8 by {
        assert(p[k] == Seq::new(zero_fill(b.len()), |i: int| 0u8)[k - b.len() - 1]);
    }
}

/// Pads `data`: appends one `0x80` byte, then zero bytes until the length is a
/// multiple of 8.
pub fn pad_block(data: &[u8]) -> (r: Vec<u8>)
    ensures
        r@ == pad_spec(data@),
        r@.len() % 8 == 0,
        data@.len() + 1 <= r@.len() <= data@.len() + 8,
        r@.subrange(0, data@.len() as int) == data@,
        r@[data@.len() as int] == 0x80u8,
        forall|k: int| data@.len() < k < r@.len() ==> #[trigger] r@[k] == 0u8,
{
    let mut padded: Vec<u8> = Vec::new();
    let mut i: usize = 0;
    while i < data.len()
        invariant
            i <= data@.len(),
            padded@ == data@.subrange(0, i as int),
        decreases data@.len() - i,
    {
        padded.push(data[i]);
        i = i + 1;
        assert(padded@ =~= data@.subrange(0, i as int));
    }
    assert(data@.subrange(0, data@.len() as int) =~= data@);
    padded.push(0x80u8);
    let ghost base = padded@;
    while padded.len() % 8 != 0
        invariant
            base == data@.push(0x80u8),
            base.len() <= padded@.len() <= base.len() + 7,
            padded@.len() - base.len() <= zero_fill(data@.len()),
            padded@ == base + Seq::new((padded@.len() - base.len()) as nat, |k: int| 0u8),
        decreases base.len() + 7 - padded@.len(),
    {
        padded.push(0u8);
        assert(padded@ =~= base + Seq::new((padded@.len() - base.len()) as nat, |k: int| 0u8));
    }
    assert(padded@ =~= pad_spec(data@));
    proof {
        lemma_pad_shape(data@);
    }
    padded
}

/// The digest depends on the contents of the blocks alone: two block lists with
/// the same contents, in the same order, have the same digest.
pub proof fn lemma_hash_deterministic(x: Seq<&[u8]>, y: Seq<&[u8]>)
    requires
        blocks_view(x) == blocks_view(y),
    ensures
        hash_spec(blocks_view(x)) == hash_spec(blocks_view(y)),
{
}

/// Xors every 8-byte chunk of `padded` into the state, chunk `k` into word `k mod 8`.
fn absorb_padded(state: &mut [u64; 8], padded: &Vec<u8>)
    requires
        padded@.len() % 8 == 0,
    ensures
        final(state)@ == absorb(old(state)@, padded@, padded@.len() / 8),
{
    let ghost start = state@;
    let len: usize = padded.len();
    let chunks: usize = len / 8;
    let mut k: usize = 0;
    while k < chunks
        invariant
            len == padded@.len(),
            chunks == len / 8,
            len % 8 == 0,
            k <= chunks,
            state@ == absorb(start, padded@, k as nat),
        decreases chunks - k,
    {
        assert(8 * k + 8 <= padded@.len());
        let base: usize = 8 * k;
        let mut val: u64 = 0;
        let mut j: usize = 0;
        while j < 8
            invariant
                base == 8 * k,
                base + 8 <= padded@.len(),
                j <= 8,
                val == le_word(padded@, base as int, j as nat),
            decreases 8 - j,
        {
            val = val | ((padded[base + j] as u64) << ((8 * j) as u64));
            j = j + 1;
        }
        state[k % 8] = state[k % 8] ^ val;
        k = k + 1;
    }
}

/// The digest of `inputs`: starting from the zero state, each block in turn is
/// padded, absorbed and permuted. No blocks give the all-zero digest.
pub fn hash(inputs: &[&[u8]]) -> (r: [u64; 8])
    ensures
        r@ == hash_spec(blocks_view(inputs@)),
        inputs@.len() == 0 ==> r@ == zero_state(),
{
    let mut state: [u64; 8] = [0u64; 8];
    assert(state@ =~= zero_state());
    let ghost all = blocks_view(inputs@);
    assert(all.take(0) =~= Seq::<Seq<u8>>::empty());
    let mut b: usize = 0;
    while b < inputs.len()
        invariant
            b <= inputs@.len(),
            all == blocks_view(inputs@),
            state@ == hash_spec(all.take(b as int)),
        decreases inputs@.len() - b,
    {
        let block: &[u8] = inputs[b];
        let padded = pad_block(block);
        absorb_padded(&mut state, &padded);
        permute(&mut state, padded.as_slice());
        assert(all.take(b + 1).drop_last() =~= all.take(b as int));
        b = b + 1;
    }
    assert(all.take(inputs@.len() as int) =~= all);
    state
}

} // verus!
