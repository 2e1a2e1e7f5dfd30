//! A keyless 512-bit hash built from an input-dependent substitution-permutation
//! network over eight 64-bit words.
use vstd::prelude::*;

pub mod bits;
pub mod hash;
pub mod mix;
pub mod permutation;
pub mod sbox;

pub use crate::hash::{hash, pad_block};
pub use crate::mix::{apply_byte_substitution, bit_mix, byte_substitute};
pub use crate::permutation::{permute, permute_round, NUM_ROUNDS, ROUND_CONSTANTS};
pub use crate::sbox::generate_sbox;

verus! {

} // verus!
