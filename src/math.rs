//! Binary reflected Gray code on 128-bit integers.
use vstd::prelude::*;

verus! {

/// The binary reflected Gray code of `x`.
pub open spec fn gray_spec(x: u128) -> u128 {
    x ^ (x >> 1u128)
}

/// Encodes to binary reflected Gray code.
pub fn gray(x: u128) -> (r: u128)
    ensures
        r == gray_spec(x),
{
    x ^ (x >> 1u128)
}

/// Decodes from binary reflected Gray code.
pub fn degray(x: u128) -> (r: u128)
    ensures
        gray_spec(r) == x,
{
    let y = x ^ (x >> 64u128);
    let y = y ^ (y >> 32u128);
    let y = y ^ (y >> 16u128);
    let y = y ^ (y >> 8u128);
    let y = y ^ (y >> 4u128);
    let y = y ^ (y >> 2u128);
    let y = y ^ (y >> 1u128);
    proof {
        assert({
            let a = x ^ (x >> 64u128);
            let b = a ^ (a >> 32u128);
            let c = b ^ (b >> 16u128);
            let d = c ^ (c >> 8u128);
            let e = d ^ (d >> 4u128);
            let f = e ^ (e >> 2u128);
            let g = f ^ (f >> 1u128);
            g ^ (g >> 1u128) == x
        }) by (bit_vector);
    }
    y
}

} // verus!
