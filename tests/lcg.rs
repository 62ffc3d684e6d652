use funutd::lcg::{get_iterations, get_jump, get_state};
use funutd::rnd;

#[test]
pub fn lcg_run_tests() {
    let mut rnd_state: u128 = 0;
    let mut rnd = || -> u128 {
        rnd_state = rnd_state.wrapping_mul(rnd::LCG_M128_1).wrapping_add(0xffff);
        rnd_state
    };

    for _ in 0..1 << 12 {
        let m = match rnd() % 3 {
            0 => rnd::LCG_M128_1,
            1 => rnd::LCG_M128_2,
            _ => rnd::LCG_M128_3,
        };
        let p = rnd() | 1;
        let origin = rnd();

        assert_eq!(
            origin.wrapping_mul(m).wrapping_add(p),
            get_state(m, p, origin, 1)
        );
        assert_eq!(
            1,
            get_iterations(m, p, origin, origin.wrapping_mul(m).wrapping_add(p))
        );

        // Run some consistency tests.
        let state = rnd();
        let n = get_iterations(m, p, origin, state);
        assert_eq!(state, get_state(m, p, origin, n));

        let (m_total, p_total) = get_jump(m, p, n);
        assert_eq!(origin.wrapping_mul(m_total).wrapping_add(p_total), state);

        let n = rnd();
        let state = get_state(m, p, origin, n);
        assert_eq!(n, get_iterations(m, p, origin, state));

        // Get h <= n.
        let h = n & rnd();
        let state_h = get_state(m, p, origin, h);
        assert_eq!(n - h, get_iterations(m, p, state_h, state));
    }
}

#[test]
fn lcg_jump_of_zero_is_identity() {
    let (m, p) = get_jump(rnd::LCG_M128_2, 12345, 0);
    assert_eq!(m, 1);
    assert_eq!(p, 0);
    assert_eq!(get_state(rnd::LCG_M128_2, 12345, 777, 0), 777);
    assert_eq!(get_iterations(rnd::LCG_M128_2, 12345, 777, 777), 0);
}

#[test]
fn lcg_two_steps_by_hand() {
    let m = rnd::LCG_M128_4;
    let p: u128 = 0x1234_5679;
    let x: u128 = 42;
    let two = x.wrapping_mul(m).wrapping_add(p).wrapping_mul(m).wrapping_add(p);
    assert_eq!(get_state(m, p, x, 2), two);
    assert_eq!(get_iterations(m, p, x, two), 2);
    let (jm, jp) = get_jump(m, p, 2);
    assert_eq!(x.wrapping_mul(jm).wrapping_add(jp), two);
}
