use funutd::rnd::{Rnd, LCG_M128_1};

#[test]
pub fn rnd_run_tests() {
    let krull64_expected: [u64; 16] = [
        0x57c1b6c1df5ed4d2,
        0x1efdba83398cf412,
        0xa02d8dfda06ac9ce,
        0xf6e3f32be5e81841,
        0xc2a690083e597e0d,
        0x3b1b2ed3fa6c15aa,
        0x241c691340a479b2,
        0x88c24c8d79bb67c1,
        0x09f213c4fc2b61dc,
        0xa4b6ad95c713c951,
        0xa43904ae3341edf7,
        0xee2dca4d5fd5f8fa,
        0x27bdddbeaa4aadb0,
        0x98c78e68dbf634b2,
        0xf0edc57017a0d5a5,
        0x8647ea5de51eca23,
    ];
    let mut krull64 = Rnd::from_u64(0);
    for x in krull64_expected {
        assert_eq!(x, krull64.u64());
    }

    let mut r: u128 = 0;
    let mut rnd = || -> u128 {
        r = r.wrapping_mul(LCG_M128_1).wrapping_add(0xffff);
        r
    };

    for _ in 0..1 << 12 {
        let seed = rnd() as u64;
        let mut krull1 = Rnd::new();
        assert_eq!(0, krull1.stream());
        assert_eq!(0, krull1.position());
        krull1.set_stream(seed);
        assert_eq!(seed, krull1.stream());
        assert_eq!(0, krull1.position());
        let mut krull2 = Rnd::from_u64(seed);
        assert_eq!(seed, krull2.stream());
        assert_eq!(0, krull2.position());

        let pos2 = rnd();
        let pos1 = pos2 & rnd();
        krull1.set_position(pos1);
        krull2.set_position(pos2);
        assert_eq!(pos1, krull1.position());
        assert_eq!(pos2, krull2.position());
        krull1.jump((pos2 - pos1) as i128);
        assert_eq!(pos2, krull1.position());
        assert_eq!(krull1.u64(), krull2.u64());
        krull1.jump(-1);
        assert_eq!(pos2, krull1.position());
        krull2.jump(-1);
        assert_eq!(pos2, krull2.position());
        krull1.jump(-((pos2 - pos1) as i128));
        assert_eq!(pos1, krull1.position());

        let n = 1 + (rnd() & 0x3ff);
        for _ in 0..n {
            krull1.u64();
        }
        assert_eq!(pos1 + n, krull1.position());

        assert_eq!(seed, krull1.stream());

        let bytes = 1 + (rnd() & 0x7f);
        let mut buffer1 = [0u8; 0x80];
        let mut buffer2 = [0u8; 0x80];
        krull1.reset();
        assert_eq!(0, krull1.position());
        krull1.fill_bytes(&mut buffer1[0..bytes as usize]);
        krull2.reset();
        for i in 0..0x10 {
            let x = krull2.u64();
            buffer2[(i << 3)..((i + 1) << 3)].copy_from_slice(&x.to_le_bytes());
        }
        assert!(buffer1[0..bytes as usize]
            .iter()
            .zip(buffer2[0..bytes as usize].iter())
            .all(|(x, y)| x == y));
    }
}

#[test]
fn rnd_ranges_stay_inside() {
    let mut rnd = Rnd::new();
    for _ in 0..10000 {
        let a = rnd.u64_in(14, 85);
        assert!((14..=85).contains(&a));
        let b = rnd.u32_in(5, 27);
        assert!((5..=27).contains(&b));
        let c = rnd.i64_in(-3, 13);
        assert!((-3..=13).contains(&c));
        let d = rnd.i32_in(-31, 3);
        assert!((-31..=3).contains(&d));
        assert!(rnd.u64_to(61) < 61);
        assert!(rnd.u32_to(36) < 36);
        let e = rnd.i64_to(56);
        assert!((0..56).contains(&e));
        let f = rnd.i32_to(19);
        assert!((0..19).contains(&f));
    }
    assert_eq!((0..10000).map(|_| rnd.u64_in(14, 85)).min().unwrap(), 14);
    assert_eq!((0..10000).map(|_| rnd.i32_in(-14, 9)).max().unwrap(), 9);
}

#[test]
fn rnd_u128_is_two_outputs_low_first() {
    let mut a = Rnd::from_u64(9);
    let mut b = Rnd::from_u64(9);
    let x = a.u128();
    let lo = b.u64() as u128;
    let hi = b.u64() as u128;
    assert_eq!(x, lo | (hi << 64));
    assert_eq!(a.position(), 2);
}

#[test]
fn rnd_narrow_outputs_truncate() {
    let mut a = Rnd::from_u32(77);
    let mut b = Rnd::from_u64(77);
    let x = b.u64();
    assert_eq!(a.u32(), x as u32);
    let mut c = Rnd::from_u64(77);
    assert_eq!(c.i64(), x as i64);
    let mut d = Rnd::from_u64(77);
    assert_eq!(d.i32(), x as i32);
}

#[test]
fn rnd_from_u128_sets_stream_and_position() {
    let seed: u128 = (5u128 << 64) | 3;
    let r = Rnd::from_u128(seed);
    assert_eq!(r.stream(), 5 ^ 3);
    assert_eq!(r.position(), 3u128 << 64);
}

#[test]
fn rnd_full_range_draw_is_the_raw_output() {
    let mut a = Rnd::from_u64(123);
    let mut b = Rnd::from_u64(123);
    assert_eq!(a.u64_in(0, u64::MAX), b.u64());
    let mut c = Rnd::from_u64(123);
    let mut d = Rnd::from_u64(123);
    assert_eq!(c.i64_in(i64::MIN, i64::MAX), d.u64() as i64);
    let mut e = Rnd::from_u64(123);
    let mut f = Rnd::from_u64(123);
    assert_eq!(e.i64_in(-10, 10), -10 + (f.u64() % 21) as i64);
}

#[test]
fn rnd_get_is_the_last_output() {
    let mut a = Rnd::from_u64(31);
    let x = a.step();
    assert_eq!(a.get(), x);
    let t = Rnd::from_time();
    assert_eq!(t.position(), 0);
}
