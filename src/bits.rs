//! Word rotations, stated over shifts.
use vstd::prelude::*;

verus! {

/// `x` rotated left by `n mod 64` bit positions.
pub open spec fn rotl_spec(x: u64, n: u32) -> u64 {
    let k = n % 64;
    if k == 0 {
        x
    } else {
        (x << k) | (x >> ((64 - k) as u32))
    }
}

/// `x` rotated right by `n mod 64` bit positions.
pub open spec fn rotr_spec(x: u64, n: u32) -> u64 {
    let k = n % 64;
    if k == 0 {
        x
    } else {
        (x >> k) | (x << ((64 - k) as u32))
    }
}

/// Rotates `x` left by `n mod 64` bit positions.
pub fn rotl(x: u64, n: u32) -> (r: u64)
    ensures
        r == rotl_spec(x, n),
{
    let k: u32 = n % 64;
    if k == 0 {
        x
    } else {
        (x << k) | (x >> (64 - k))
    }
}

/// Rotates `x` right by `n mod 64` bit positions.
pub fn rotr(x: u64, n: u32) -> (r: u64)
    ensures
        r == rotr_spec(x, n),
{
    let k: u32 = n % 64;
    if k == 0 {
        x
    } else {
        (x >> k) | (x << (64 - k))
    }
}

} // verus!
