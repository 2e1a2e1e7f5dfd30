//! The per-block substitution table: the identity on byte values, shuffled twice
//! by a linear-congruential generator seeded from the state and the block.
use vstd::prelude::*;

verus! {

/// Multiplier of the generator during the first shuffle pass.
pub const FIRST_MULTIPLIER: u64 = 6364136223846793005;

/// Multiplier of the generator during the second shuffle pass.
pub const SECOND_MULTIPLIER: u64 = 1442695040888963407;

/// One step of the generator: `st * mul + 1`, wrapping.
pub open spec fn lcg_next(st: u64, mul: u64) -> u64 {
    st.wrapping_mul(mul).wrapping_add(1)
}

/// The table mapping every byte value to itself.
pub open spec fn identity_table() -> Seq<u8> {
    Seq::new(256, |i: int| i as u8)
}

/// `seed` with the first `n` bytes of `bytes` xor-ed in, byte `i` at bit `8 * (i mod 8)`.
pub open spec fn fold_bytes(seed: u64, bytes: Seq<u8>, n: nat) -> u64
    decreases n,
{
    if n == 0 {
        seed
    } else {
        let i = (n - 1) as nat;
        fold_bytes(seed, bytes, i) ^ ((bytes[i as int] as u64) << ((8 * (i % 8)) as u64))
    }
}

/// The generator's starting state: for a block of more than seven bytes, the
/// bytes at offsets 2, 5 and 7 are xor-ed in at bits 16, 8 and 0; for a shorter
/// one, every byte is.
pub open spec fn mixed_seed(seed: u64, bytes: Seq<u8>) -> u64 {
    if bytes.len() > 7 {
        seed ^ ((bytes[2] as u64) << 16u64) ^ ((bytes[5] as u64) << 8u64) ^ (bytes[7] as u64)
    } else {
        fold_bytes(seed, bytes, bytes.len())
    }
}

/// `t` with the entries at `i` and `j` exchanged.
pub open spec fn swap_entries(t: Seq<u8>, i: int, j: int) -> Seq<u8> {
    t.update(i, t[j]).update(j, t[i])
}

/// The shuffle steps at indices `i`, `i - 1`, ..., `1`, from table `t` and generator
/// state `st`: each step advances the generator and exchanges entry `i` with entry
/// `state mod (i + 1)`. Gives the final table and generator state.
pub open spec fn shuffle(t: Seq<u8>, st: u64, mul: u64, i: nat) -> (Seq<u8>, u64)
    decreases i,
{
    if i == 0 {
        (t, st)
    } else {
        let next = lcg_next(st, mul);
        let j = (next % ((i + 1) as u64)) as int;
        shuffle(swap_entries(t, i as int, j), next, mul, (i - 1) as nat)
    }
}

/// The substitution table for `seed` and block `bytes`: two shuffle passes over
/// the identity, the second continuing the generator where the first left it.
pub open spec fn sbox_spec(seed: u64, bytes: Seq<u8>) -> Seq<u8> {
    let first = shuffle(identity_table(), mixed_seed(seed, bytes), FIRST_MULTIPLIER, 255);
    shuffle(first.0, first.1, SECOND_MULTIPLIER, 255).0
}

/// `t` has 256 entries and holds every byte value exactly once.
pub open spec fn is_byte_permutation(t: Seq<u8>) -> bool {
    &&& t.len() == 256
    &&& forall|i: int, j: int| 0 <= i < 256 && 0 <= j < 256 && i != j ==> t[i] != t[j]
    &&& forall|v: u8| #[trigger] t.contains(v)
}

proof fn lemma_identity_is_permutation()
    ensures
        is_byte_permutation(identity_table()),
{
    let t = identity_table();
    assert forall|v: u8| #[trigger] t.contains(v) by {
        assert(t[v as int] == v);
    }
}

proof fn lemma_swap_keeps_permutation(t: Seq<u8>, i: int, j: int)
    requires
        is_byte_permutation(t),
        0 <= i < 256,
        0 <= j < 256,
    ensures
        is_byte_permutation(swap_entries(t, i, j)),
{
    let s = swap_entries(t, i, j);
    assert forall|a: int, b: int| 0 <= a < 256 && 0 <= b < 256 && a != b implies s[a] != s[b] by {
        let pa = if a == i { j } else if a == j { i } else { a };
        let pb = if b == i { j } else if b == j { i } else { b };
        assert(s[a] == t[pa]);
        assert(s[b] == t[pb]);
    }
    assert forall|v: u8| #[trigger] s.contains(v) by {
        assert(t.contains(v));
        let k = choose|k: int| 0 <= k < 256 && t[k] == v;
        let m = if k == i { j } else if k == j { i } else { k };
        assert(s[m] == v);
    }
}

proof fn lemma_shuffle_keeps_permutation(t: Seq<u8>, st: u64, mul: u64, i: nat)
    requires
        is_byte_permutation(t),
        i < 256,
    ensures
        is_byte_permutation(shuffle(t, st, mul, i).0),
    decreases i,
{
    if i > 0 {
        let next = lcg_next(st, mul);
        let j = (next % ((i + 1) as u64)) as int;
        lemma_swap_keeps_permutation(t, i as int, j);
        lemma_shuffle_keeps_permutation(swap_entries(t, i as int, j), next, mul, (i - 1) as nat);
    }
}

/// Every table the generator derives, whatever the seed and block, is a
/// bijection on byte values.
pub proof fn lemma_sbox_is_permutation(seed: u64, bytes: Seq<u8>)
    ensures
        is_byte_permutation(sbox_spec(seed, bytes)),
{
    let first = shuffle(identity_table(), mixed_seed(seed, bytes), FIRST_MULTIPLIER, 255);
    lemma_identity_is_permutation();
    lemma_shuffle_keeps_permutation(identity_table(), mixed_seed(seed, bytes), FIRST_MULTIPLIER, 255);
    lemma_shuffle_keeps_permutation(first.0, first.1, SECOND_MULTIPLIER, 255);
}

/// Runs the shuffle steps at indices 255 down to 1 on `table`, driving the
/// generator held in `st` with multiplier `mul`.
fn shuffle_pass(table: &mut [u8; 256], st: &mut u64, mul: u64)
    ensures
        (final(table)@, *final(st)) == shuffle(old(table)@, *old(st), mul, 255),
{
    let ghost target = shuffle(table@, *st, mul, 255);
    let mut i: usize = 255;
    while i > 0
        invariant
            i <= 255,
            shuffle(table@, *st, mul, i as nat) == target,
        decreases i,
    {
        let ghost before = table@;
        let next = st.wrapping_mul(mul).wrapping_add(1);
        let j = (next % (i as u64 + 1)) as usize;
        let a = table[i];
        let b = table[j];
        table[i] = b;
        table[j] = a;
        assert(table@ =~= swap_entries(before, i as int, j as int));
        *st = next;
        i = i - 1;
    }
}

/// The generator's starting state for `seed` and block `input_bytes`.
fn mix_seed(seed: u64, input_bytes: &[u8]) -> (r: u64)
    ensures
        r == mixed_seed(seed, input_bytes@),
{
    if input_bytes.len() > 7 {
        let mut mixed: u64 = seed;
        mixed = mixed ^ ((input_bytes[2] as u64) << 16u64);
        mixed = mixed ^ ((input_bytes[5] as u64) << 8u64);
        mixed = mixed ^ (input_bytes[7] as u64);
        mixed
    } else {
        let mut mixed: u64 = seed;
        let mut i: usize = 0;
        while i < input_bytes.len()
            invariant
                i <= input_bytes@.len(),
                mixed == fold_bytes(seed, input_bytes@, i as nat),
            decreases input_bytes@.len() - i,
        {
            mixed = mixed ^ ((input_bytes[i] as u64) << ((8 * (i % 8)) as u64));
            i = i + 1;
        }
        mixed
    }
}

/// Derives the substitution table for one block from `seed` and the block's
/// bytes. The result is always a bijection on byte values.
pub fn generate_sbox(seed: u64, input_bytes: &[u8]) -> (r: [u8; 256])
    ensures
        r@ == sbox_spec(seed, input_bytes@),
        is_byte_permutation(r@),
{
    let mut sbox: [u8; 256] = [0u8; 256];
    let mut i: usize = 0;
    while i < 256
        invariant
            i <= 256,
            forall|k: int| 0 <= k < i ==> sbox@[k] == k as u8,
        decreases 256 - i,
    {
        sbox[i] = i as u8;
        i = i + 1;
    }
    assert(sbox@ =~= identity_table());
    let mut state: u64 = mix_seed(seed, input_bytes);
    shuffle_pass(&mut sbox, &mut state, FIRST_MULTIPLIER);
    shuffle_pass(&mut sbox, &mut state, SECOND_MULTIPLIER);
    proof {
        lemma_sbox_is_permutation(seed, input_bytes@);
    }
    sbox
}

} // verus!
