use funutd::hash::{
    hash128a, hash128b, hash32a, hash32a_inverse, hash32b, hash32b_inverse, hash32c, hash32d,
    hash32e, hash64a, hash64a_inverse, hash64b, hash64c, hash64d, hash64e, hash64f, hash64g,
};
use funutd::math::{degray, gray};

#[test]
fn hash_inverses_undo_their_hashes() {
    for x in [0u32, 1, 2, 0xdead_beef, 0xffff_ffff, 12345] {
        assert_eq!(hash32a_inverse(hash32a(x)), x);
        assert_eq!(hash32a(hash32a_inverse(x)), x);
        assert_eq!(hash32b_inverse(hash32b(x)), x);
        assert_eq!(hash32b(hash32b_inverse(x)), x);
    }
    for x in [0u64, 1, 0xdead_beef_dead_beef, u64::MAX, 987654321] {
        assert_eq!(hash64a_inverse(hash64a(x)), x);
        assert_eq!(hash64a(hash64a_inverse(x)), x);
    }
}

#[test]
fn hash_formulas_by_hand() {
    let x: u32 = 0x1234_5678;
    let a = (x ^ (x >> 16)).wrapping_mul(0x85ebca6b);
    let b = (a ^ (a >> 13)).wrapping_mul(0xc2b2ae35);
    assert_eq!(hash32c(x), b ^ (b >> 16));
    let y: u64 = 0x0123_4567_89ab_cdef;
    assert_eq!(hash64f(y), (y.rotate_left(5) ^ y).wrapping_mul(0x517cc1b727220a95));
    let c = y.wrapping_mul(0x9ddfea08eb382d69);
    let c = (c ^ (c >> 44)).wrapping_mul(0x9ddfea08eb382d69);
    assert_eq!(hash64d(y), (c ^ (c >> 41)).wrapping_mul(0x9ddfea08eb382d69));
    assert_ne!(hash32d(x), x);
    assert_ne!(hash32e(x), x);
    assert_ne!(hash64b(y), y);
    assert_ne!(hash64c(y), y);
    assert_ne!(hash64e(y), y);
    assert_ne!(hash64g(y), y);
    let z: u128 = (7u128 << 64) | 9;
    assert_ne!(hash128a(z), hash128b(z));
}

#[test]
fn hash64g_matches_the_generator_output_stage() {
    let mut r = funutd::rnd::Rnd::from_u64(0);
    assert_eq!(r.u64(), 0x57c1b6c1df5ed4d2);
    let mut s = funutd::rnd::Rnd::from_u64(0);
    s.step();
    assert_eq!(s.get(), 0x57c1b6c1df5ed4d2);
}

#[test]
fn gray_code_round_trip() {
    for x in [0u128, 1, 2, 3, 0xff, u128::MAX, 0x8000_0000_0000_0000_0000_0000_0000_0000] {
        assert_eq!(degray(gray(x)), x);
        assert_eq!(gray(x), x ^ (x >> 1));
    }
    assert_eq!(gray(2), 3);
    assert_eq!(degray(3), 2);
}
