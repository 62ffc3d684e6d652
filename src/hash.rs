//! Hash functions on machine integers. All of the hashes here are permutations
//! of their domain, and several come with their inverse.
use vstd::prelude::*;

verus! {

/// Mixing step shared by the multiply-xorshift hashes: `x ^ (x >> s)`.
pub open spec fn xs32(x: u32, s: u32) -> u32 {
    x ^ (x >> s)
}

/// Mixing step shared by the multiply-xorshift hashes: `x ^ (x >> s)`.
pub open spec fn xs64(x: u64, s: u64) -> u64 {
    x ^ (x >> s)
}

/// The 32-bit hash by degski.
pub open spec fn hash32a_spec(x: u32) -> u32 {
    xs32(xs32(xs32(x, 16).wrapping_mul(0x45d9f3b), 16).wrapping_mul(0x45d9f3b), 16)
}

/// The inverse of the 32-bit hash by degski.
pub open spec fn hash32a_inverse_spec(x: u32) -> u32 {
    xs32(xs32(xs32(x, 16).wrapping_mul(0x119de1f3), 16).wrapping_mul(0x119de1f3), 16)
}

/// The 32-bit hash by Chris Wellons.
pub open spec fn hash32b_spec(x: u32) -> u32 {
    xs32(xs32(xs32(x, 16).wrapping_mul(0x7feb352d), 15).wrapping_mul(0x846ca68b), 16)
}

/// The inverse of the 32-bit hash by Chris Wellons.
pub open spec fn hash32b_inverse_spec(x: u32) -> u32 {
    let y = xs32(x, 16).wrapping_mul(0x43021123);
    xs32((y ^ (y >> 15) ^ (y >> 30)).wrapping_mul(0x1d69e2a5), 16)
}

/// The 32-bit hash from MurmurHash3.
pub open spec fn hash32c_spec(x: u32) -> u32 {
    xs32(xs32(xs32(x, 16).wrapping_mul(0x85ebca6b), 13).wrapping_mul(0xc2b2ae35), 16)
}

/// The 32-bit hash by Chris Wellons.
pub open spec fn hash32d_spec(x: u32) -> u32 {
    xs32(xs32(xs32(x, 15).wrapping_mul(0x2c1b3c6d), 12).wrapping_mul(0x297a2d39), 15)
}

/// The extra high quality 32-bit hash by Chris Wellons.
pub open spec fn hash32e_spec(x: u32) -> u32 {
    let y = xs32(xs32(xs32(x, 17).wrapping_mul(0xed5ad4bb), 11).wrapping_mul(0xac4c1b51), 15);
    xs32(y.wrapping_mul(0x31848bab), 14)
}

/// The 64-bit hash by degski.
pub open spec fn hash64a_spec(x: u64) -> u64 {
    xs64(
        xs64(xs64(x, 32).wrapping_mul(0xd6e8feb86659fd93), 32).wrapping_mul(0xd6e8feb86659fd93),
        32,
    )
}

/// The inverse of the 64-bit hash by degski.
pub open spec fn hash64a_inverse_spec(x: u64) -> u64 {
    xs64(
        xs64(xs64(x, 32).wrapping_mul(0xcfee444d8b59a89b), 32).wrapping_mul(0xcfee444d8b59a89b),
        32,
    )
}

/// The 64-bit hash from MurmurHash3.
pub open spec fn hash64b_spec(x: u64) -> u64 {
    xs64(
        xs64(xs64(x, 33).wrapping_mul(0xff51afd7ed558ccd), 33).wrapping_mul(0xc4ceb9fe1a85ec53),
        33,
    )
}

/// The 64-bit hash by Thomas Wang.
pub open spec fn hash64c_spec(x: u64) -> u64 {
    let a = !x.wrapping_add(x << 21);
    let b = a ^ (a >> 24);
    let c = b.wrapping_add(b << 3).wrapping_add(b << 8);
    let d = c ^ (c >> 14);
    let e = d.wrapping_add(d << 2).wrapping_add(d << 4);
    let f = e ^ (e >> 28);
    f.wrapping_add(f << 31)
}

/// The 64-bit hash from FarmHash.
pub open spec fn hash64d_spec(x: u64) -> u64 {
    let a = x.wrapping_mul(0x9ddfea08eb382d69);
    let b = xs64(a, 44).wrapping_mul(0x9ddfea08eb382d69);
    xs64(b, 41).wrapping_mul(0x9ddfea08eb382d69)
}

/// The SplitMix64 hash.
pub open spec fn hash64e_spec(x: u64) -> u64 {
    let a = x.wrapping_mul(0x9e3779b97f4a7c15);
    xs64(xs64(xs64(a, 30).wrapping_mul(0xbf58476d1ce4e5b9), 27).wrapping_mul(0x94d049bb133111eb), 31)
}

/// The FXHasher hash.
pub open spec fn hash64f_spec(x: u64) -> u64 {
    (((x << 5) | (x >> 59)) ^ x).wrapping_mul(0x517cc1b727220a95)
}

/// The Krull64 output stage.
pub open spec fn hash64g_spec(x: u64) -> u64 {
    let a = xs64(xs64(x, 30).wrapping_mul(0xbf58476d1ce4e5b9), 27).wrapping_mul(0x94d049bb133111eb);
    xs64(xs64(a, 31).wrapping_mul(0xd6e8feb86659fd93), 32)
}

/// The 128-to-64-bit hash from CityHash.
pub open spec fn hash128a_spec(x: u128) -> u64 {
    let y = (x >> 64u128) as u64;
    let lo = x as u64;
    let a = (y ^ lo).wrapping_mul(0x9ddfea08eb382d69);
    let b = (xs64(a, 47) ^ lo).wrapping_mul(0x9ddfea08eb382d69);
    xs64(b, 47).wrapping_mul(0x9ddfea08eb382d69)
}

/// The 128-to-64-bit hash from FarmHash.
pub open spec fn hash128b_spec(x: u128) -> u64 {
    let y = (x >> 64u128) as u64;
    let a = (x as u64 ^ y).wrapping_mul(0x9ddfea08eb382d69);
    let b = (y ^ a ^ (a >> 47)).wrapping_mul(0x9ddfea08eb382d69);
    let c = xs64(b, 44).wrapping_mul(0x9ddfea08eb382d69);
    xs64(c, 41).wrapping_mul(0x9ddfea08eb382d69)
}

/// 32-bit hash by degski. Inverse of `hash32a_inverse`.
pub fn hash32a(x: u32) -> (r: u32)
    ensures
        r == hash32a_spec(x),
{
    let x = (x ^ (x >> 16)).wrapping_mul(0x45d9f3b);
    let x = (x ^ (x >> 16)).wrapping_mul(0x45d9f3b);
    x ^ (x >> 16)
}

/// 32-bit hash by degski. Inverse of `hash32a`.
pub fn hash32a_inverse(x: u32) -> (r: u32)
    ensures
        r == hash32a_inverse_spec(x),
{
    let x = (x ^ (x >> 16)).wrapping_mul(0x119de1f3);
    let x = (x ^ (x >> 16)).wrapping_mul(0x119de1f3);
    x ^ (x >> 16)
}

/// 32-bit hash by Chris Wellons. Inverse of `hash32b_inverse`.
pub fn hash32b(x: u32) -> (r: u32)
    ensures
        r == hash32b_spec(x),
{
    let x = (x ^ (x >> 16)).wrapping_mul(0x7feb352d);
    let x = (x ^ (x >> 15)).wrapping_mul(0x846ca68b);
    x ^ (x >> 16)
}

/// 32-bit hash by Chris Wellons. Inverse of `hash32b`.
pub fn hash32b_inverse(x: u32) -> (r: u32)
    ensures
        r == hash32b_inverse_spec(x),
{
    let x = (x ^ (x >> 16)).wrapping_mul(0x43021123);
    let x = (x ^ (x >> 15) ^ (x >> 30)).wrapping_mul(0x1d69e2a5);
    x ^ (x >> 16)
}

/// 32-bit hash from MurmurHash3 by Austin Appleby.
pub fn hash32c(x: u32) -> (r: u32)
    ensures
        r == hash32c_spec(x),
{
    let x = (x ^ (x >> 16)).wrapping_mul(0x85ebca6b);
    let x = (x ^ (x >> 13)).wrapping_mul(0xc2b2ae35);
    x ^ (x >> 16)
}

/// 32-bit hash by Chris Wellons.
pub fn hash32d(x: u32) -> (r: u32)
    ensures
        r == hash32d_spec(x),
{
    let x = (x ^ (x >> 15)).wrapping_mul(0x2c1b3c6d);
    let x = (x ^ (x >> 12)).wrapping_mul(0x297a2d39);
    x ^ (x >> 15)
}

/// 32-bit hash by Chris Wellons. Extra high quality.
pub fn hash32e(x: u32) -> (r: u32)
    ensures
        r == hash32e_spec(x),
{
    let x = (x ^ (x >> 17)).wrapping_mul(0xed5ad4bb);
    let x = (x ^ (x >> 11)).wrapping_mul(0xac4c1b51);
    let x = (x ^ (x >> 15)).wrapping_mul(0x31848bab);
    x ^ (x >> 14)
}

/// 64-bit hash by degski. Inverse of `hash64a_inverse`.
pub fn hash64a(x: u64) -> (r: u64)
    ensures
        r == hash64a_spec(x),
{
    let x = (x ^ (x >> 32)).wrapping_mul(0xd6e8feb86659fd93);
    let x = (x ^ (x >> 32)).wrapping_mul(0xd6e8feb86659fd93);
    x ^ (x >> 32)
}

/// 64-bit hash by degski. Inverse of `hash64a`.
pub fn hash64a_inverse(x: u64) -> (r: u64)
    ensures
        r == hash64a_inverse_spec(x),
{
    let x = (x ^ (x >> 32)).wrapping_mul(0xcfee444d8b59a89b);
    let x = (x ^ (x >> 32)).wrapping_mul(0xcfee444d8b59a89b);
    x ^ (x >> 32)
}

/// 64-bit hash from MurmurHash3 by Austin Appleby.
pub fn hash64b(x: u64) -> (r: u64)
    ensures
        r == hash64b_spec(x),
{
    let x = (x ^ (x >> 33)).wrapping_mul(0xff51afd7ed558ccd);
    let x = (x ^ (x >> 33)).wrapping_mul(0xc4ceb9fe1a85ec53);
    x ^ (x >> 33)
}

/// 64-bit hash by Thomas Wang.
pub fn hash64c(x: u64) -> (r: u64)
    ensures
        r == hash64c_spec(x),
{
    let x = !x.wrapping_add(x << 21);
    let x = x ^ (x >> 24);
    let x = x.wrapping_add(x << 3).wrapping_add(x << 8);
    let x = x ^ (x >> 14);
    let x = x.wrapping_add(x << 2).wrapping_add(x << 4);
    let x = x ^ (x >> 28);
    x.wrapping_add(x << 31)
}

/// 64-bit hash from FarmHash by Geoff Pike and Jyrki Alakuijala.
pub fn hash64d(x: u64) -> (r: u64)
    ensures
        r == hash64d_spec(x),
{
    let x = x.wrapping_mul(0x9ddfea08eb382d69);
    let x = (x ^ (x >> 44)).wrapping_mul(0x9ddfea08eb382d69);
    (x ^ (x >> 41)).wrapping_mul(0x9ddfea08eb382d69)
}

/// 64-bit hash SplitMix64. Extra high quality.
/// Passes PractRand as an indexed RNG.
pub fn hash64e(x: u64) -> (r: u64)
    ensures
        r == hash64e_spec(x),
{
    let x = x.wrapping_mul(0x9e3779b97f4a7c15);
    let x = (x ^ (x >> 30)).wrapping_mul(0xbf58476d1ce4e5b9);
    let x = (x ^ (x >> 27)).wrapping_mul(0x94d049bb133111eb);
    x ^ (x >> 31)
}

/// Fast 64-bit hash from FXHasher: the input rotated left by 5 bits,
/// xored with itself, times a constant.
pub fn hash64f(x: u64) -> (r: u64)
    ensures
        r == hash64f_spec(x),
{
    (((x << 5u64) | (x >> 59u64)) ^ x).wrapping_mul(0x517cc1b727220a95)
}

/// 64-bit hash from the Krull64 output stage.
/// Extra high quality: it can be used as an indexed RNG.
pub fn hash64g(x: u64) -> (r: u64)
    ensures
        r == hash64g_spec(x),
{
    let x = (x ^ (x >> 30)).wrapping_mul(0xbf58476d1ce4e5b9);
    let x = (x ^ (x >> 27)).wrapping_mul(0x94d049bb133111eb);
    let x = (x ^ (x >> 31)).wrapping_mul(0xd6e8feb86659fd93);
    x ^ (x >> 32)
}

/// 128-to-64-bit hash from CityHash by Geoff Pike and Jyrki Alakuijala.
pub fn hash128a(x: u128) -> (r: u64)
    ensures
        r == hash128a_spec(x),
{
    let y = (x >> 64u128) as u64;
    let lo = x as u64;
    let a = (y ^ lo).wrapping_mul(0x9ddfea08eb382d69);
    let a = a ^ (a >> 47);
    let a = (a ^ lo).wrapping_mul(0x9ddfea08eb382d69);
    (a ^ (a >> 47)).wrapping_mul(0x9ddfea08eb382d69)
}

/// 128-to-64-bit hash from FarmHash by Geoff Pike and Jyrki Alakuijala.
pub fn hash128b(x: u128) -> (r: u64)
    ensures
        r == hash128b_spec(x),
{
    let y = (x >> 64u128) as u64;
    let a = (x as u64 ^ y).wrapping_mul(0x9ddfea08eb382d69);
    let a = (y ^ a ^ (a >> 47)).wrapping_mul(0x9ddfea08eb382d69);
    let a = (a ^ (a >> 44)).wrapping_mul(0x9ddfea08eb382d69);
    (a ^ (a >> 41)).wrapping_mul(0x9ddfea08eb382d69)
}

} // verus!

verus! {

/// Multiplying by `c` and then by its inverse modulo 2^32 gives back the value.
proof fn lemma_mul_undo32(y: u32, c: u32, ci: u32)
    requires
        (c as int * ci as int) % 0x1_0000_0000 == 1,
    ensures
        y.wrapping_mul(c).wrapping_mul(ci) == y,
{
    let n: int = 0x1_0000_0000;
    vstd::arithmetic::div_mod::lemma_mul_mod_noop_left(y as int * c as int, ci as int, n);
    vstd::arithmetic::div_mod::lemma_fundamental_div_mod(c as int * ci as int, n);
    let t = (c as int * ci as int) / n;
    assert((y as int * c as int) * ci as int == n * (y * t) + y) by (nonlinear_arith)
        requires
            c as int * ci as int == n * t + 1,
    ;
    vstd::arithmetic::div_mod::lemma_mod_multiples_vanish(y * t, y as int, n);
    vstd::arithmetic::div_mod::lemma_small_mod(y as nat, n as nat);
}

/// Multiplying by `c` and then by its inverse modulo 2^64 gives back the value.
proof fn lemma_mul_undo64(y: u64, c: u64, ci: u64)
    requires
        (c as int * ci as int) % 0x1_0000_0000_0000_0000 == 1,
    ensures
        y.wrapping_mul(c).wrapping_mul(ci) == y,
{
    let n: int = 0x1_0000_0000_0000_0000;
    vstd::arithmetic::div_mod::lemma_mul_mod_noop_left(y as int * c as int, ci as int, n);
    vstd::arithmetic::div_mod::lemma_fundamental_div_mod(c as int * ci as int, n);
    let t = (c as int * ci as int) / n;
    assert((y as int * c as int) * ci as int == n * (y * t) + y) by (nonlinear_arith)
        requires
            c as int * ci as int == n * t + 1,
    ;
    vstd::arithmetic::div_mod::lemma_mod_multiples_vanish(y * t, y as int, n);
    vstd::arithmetic::div_mod::lemma_small_mod(y as nat, n as nat);
}

/// `hash32a_inverse` undoes `hash32a`, and the other way round: both are permutations.
pub proof fn lemma_hash32a_inverse(x: u32)
    ensures
        hash32a_inverse_spec(hash32a_spec(x)) == x,
        hash32a_spec(hash32a_inverse_spec(x)) == x,
{
    assert forall|z: u32| #[trigger] xs32(xs32(z, 16), 16) == z by {
        assert((z ^ (z >> 16)) ^ ((z ^ (z >> 16)) >> 16) == z) by (bit_vector);
    }
    assert forall|y: u32| #[trigger] y.wrapping_mul(0x45d9f3b).wrapping_mul(0x119de1f3) == y by {
        lemma_mul_undo32(y, 0x45d9f3b, 0x119de1f3);
    }
    assert forall|y: u32| #[trigger] y.wrapping_mul(0x119de1f3).wrapping_mul(0x45d9f3b) == y by {
        lemma_mul_undo32(y, 0x119de1f3, 0x45d9f3b);
    }
}

/// `hash32b_inverse` undoes `hash32b`, and the other way round: both are permutations.
pub proof fn lemma_hash32b_inverse(x: u32)
    ensures
        hash32b_inverse_spec(hash32b_spec(x)) == x,
        hash32b_spec(hash32b_inverse_spec(x)) == x,
{
    assert forall|z: u32| #[trigger] xs32(xs32(z, 16), 16) == z by {
        assert((z ^ (z >> 16)) ^ ((z ^ (z >> 16)) >> 16) == z) by (bit_vector);
    }
    assert forall|z: u32| (#[trigger] xs32(z, 15) ^ (xs32(z, 15) >> 15) ^ (xs32(z, 15) >> 30)) == z by {
        assert(((z ^ (z >> 15)) ^ ((z ^ (z >> 15)) >> 15) ^ ((z ^ (z >> 15)) >> 30)) == z) by (bit_vector);
    }
    assert forall|z: u32| #[trigger] xs32(z ^ (z >> 15) ^ (z >> 30), 15) == z by {
        assert(((z ^ (z >> 15) ^ (z >> 30)) ^ ((z ^ (z >> 15) ^ (z >> 30)) >> 15)) == z) by (bit_vector);
    }
    assert forall|y: u32| #[trigger] y.wrapping_mul(0x7feb352d).wrapping_mul(0x1d69e2a5) == y by {
        lemma_mul_undo32(y, 0x7feb352d, 0x1d69e2a5);
    }
    assert forall|y: u32| #[trigger] y.wrapping_mul(0x1d69e2a5).wrapping_mul(0x7feb352d) == y by {
        lemma_mul_undo32(y, 0x1d69e2a5, 0x7feb352d);
    }
    assert forall|y: u32| #[trigger] y.wrapping_mul(0x846ca68b).wrapping_mul(0x43021123) == y by {
        lemma_mul_undo32(y, 0x846ca68b, 0x43021123);
    }
    assert forall|y: u32| #[trigger] y.wrapping_mul(0x43021123).wrapping_mul(0x846ca68b) == y by {
        lemma_mul_undo32(y, 0x43021123, 0x846ca68b);
    }
}

/// `hash64a_inverse` undoes `hash64a`, and the other way round: both are permutations.
pub proof fn lemma_hash64a_inverse(x: u64)
    ensures
        hash64a_inverse_spec(hash64a_spec(x)) == x,
        hash64a_spec(hash64a_inverse_spec(x)) == x,
{
    assert forall|z: u64| #[trigger] xs64(xs64(z, 32), 32) == z by {
        assert((z ^ (z >> 32u64)) ^ ((z ^ (z >> 32u64)) >> 32u64) == z) by (bit_vector);
    }
    assert forall|y: u64| #[trigger] y.wrapping_mul(0xd6e8feb86659fd93).wrapping_mul(0xcfee444d8b59a89b) == y by {
        lemma_mul_undo64(y, 0xd6e8feb86659fd93, 0xcfee444d8b59a89b);
    }
    assert forall|y: u64| #[trigger] y.wrapping_mul(0xcfee444d8b59a89b).wrapping_mul(0xd6e8feb86659fd93) == y by {
        lemma_mul_undo64(y, 0xcfee444d8b59a89b, 0xd6e8feb86659fd93);
    }
}

} // verus!
