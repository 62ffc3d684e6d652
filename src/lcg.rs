//! Linear congruential generators on 128-bit state.
//!
//! One LCG iteration is `state <- state * m + p`, with arithmetic modulo 2^128.
//! The functions here jump over many iterations at once, or count them.
use vstd::arithmetic::div_mod::{lemma_fundamental_div_mod, lemma_mod_multiples_vanish};
use vstd::arithmetic::power2::{lemma_pow2_pos, pow2};
use vstd::prelude::*;

verus! {

/// The modulus of the state space, 2^128.
pub open spec fn state_count() -> int {
    u128::MAX as int + 1
}

/// One LCG iteration, `x * m + p` modulo 2^128.
pub open spec fn lcg_next(m: u128, p: u128, x: u128) -> u128 {
    x.wrapping_mul(m).wrapping_add(p)
}

/// The state after `n` iterations from `x`.
pub open spec fn lcg_iterate(m: u128, p: u128, x: u128, n: nat) -> u128
    decreases n,
{
    if n == 0 {
        x
    } else {
        lcg_next(m, p, lcg_iterate(m, p, x, (n - 1) as nat))
    }
}

/// The multiplier and increment of the LCG that takes `2^k` iterations at once.
pub open spec fn lcg_doubled(m: u128, p: u128, k: nat) -> (u128, u128)
    decreases k,
{
    if k == 0 {
        (m, p)
    } else {
        let (dm, dp) = lcg_doubled(m, p, (k - 1) as nat);
        (dm.wrapping_mul(dm), dm.wrapping_add(1).wrapping_mul(dp))
    }
}

/// `lcg_next` as integer arithmetic.
pub proof fn lemma_next_int(m: u128, p: u128, x: u128)
    ensures
        lcg_next(m, p, x) as int == (x * m + p) % state_count(),
{
    let n = state_count();
    let a = (x as int * m as int) % n;
    assert(x.wrapping_mul(m) as int == a);
    assert(0 <= a < n);
    let s = a + p;
    assert(lcg_next(m, p, x) as int == s % n) by {
        if s >= n {
            lemma_mod_multiples_vanish(1, s - n, n);
            assert(s % n == (s - n) % n);
            assert((s - n) % n == s - n);
        } else {
            assert(s % n == s);
        }
    }
    let q = (x as int * m as int) / n;
    lemma_fundamental_div_mod(x as int * m as int, n);
    assert(s == n * (-q) + (x * m + p));
    lemma_mod_multiples_vanish(-q, x * m + p, n);
}

/// Two LCG iterations with different constants make one LCG iteration.
pub proof fn lemma_next_compose(m1: u128, p1: u128, m2: u128, p2: u128, x: u128)
    ensures
        lcg_next(m2, p2, lcg_next(m1, p1, x)) == lcg_next(
            m1.wrapping_mul(m2),
            p1.wrapping_mul(m2).wrapping_add(p2),
            x,
        ),
{
    let n = state_count();
    let cm = m1.wrapping_mul(m2);
    let cp = p1.wrapping_mul(m2).wrapping_add(p2);
    let y = lcg_next(m1, p1, x);
    lemma_next_int(m1, p1, x);
    lemma_next_int(m2, p2, y);
    lemma_next_int(cm, cp, x);
    let a = x * m1 + p1;
    let t = a * m2 + p2;
    lemma_fundamental_div_mod(a, n);
    let q0 = a / n;
    assert(y == a - n * q0);
    assert(y * m2 + p2 == n * (-q0 * m2) + t) by (nonlinear_arith)
        requires
            y == a - n * q0,
            t == a * m2 + p2,
    ;
    lemma_mod_multiples_vanish(-q0 * m2, t, n);
    // the combined constants
    lemma_fundamental_div_mod(m1 * m2, n);
    let q1 = (m1 * m2) / n;
    assert(cm == m1 * m2 - n * q1);
    lemma_fundamental_div_mod(p1 * m2, n);
    let q2 = (p1 * m2) / n;
    let c = p1.wrapping_mul(m2);
    assert(c == p1 * m2 - n * q2);
    lemma_next_int(1, p2, c);
    assert(c.wrapping_mul(1) == c);
    assert(lcg_next(1, p2, c) == cp);
    let s = c + p2;
    lemma_fundamental_div_mod(s, n);
    let q3 = s / n;
    assert(cp == s - n * q3);
    assert(x * cm + cp == n * (-(x * q1) - q2 - q3) + t) by (nonlinear_arith)
        requires
            cm == m1 * m2 - n * q1,
            c == p1 * m2 - n * q2,
            cp == c + p2 - n * q3,
            t == (x * m1 + p1) * m2 + p2,
    ;
    lemma_mod_multiples_vanish(-(x * q1) - q2 - q3, t, n);
}

/// Iterating `a` times and then `b` times is iterating `a + b` times.
pub proof fn lemma_iterate_add(m: u128, p: u128, x: u128, a: nat, b: nat)
    ensures
        lcg_iterate(m, p, lcg_iterate(m, p, x, a), b) == lcg_iterate(m, p, x, a + b),
    decreases b,
{
    if b > 0 {
        lemma_iterate_add(m, p, x, a, (b - 1) as nat);
        assert((a + b - 1) as nat == a + (b - 1) as nat);
    }
}

/// The doubled constants take `2^k` iterations in one step.
pub proof fn lemma_doubled(m: u128, p: u128, k: nat, x: u128)
    ensures
        lcg_iterate(m, p, x, pow2(k)) == lcg_next(lcg_doubled(m, p, k).0, lcg_doubled(m, p, k).1, x),
    decreases k,
{
    if k == 0 {
        vstd::arithmetic::power2::lemma2_to64();
        assert(lcg_iterate(m, p, x, 1) == lcg_next(m, p, lcg_iterate(m, p, x, 0)));
    } else {
        let j = (k - 1) as nat;
        let (dm, dp) = lcg_doubled(m, p, j);
        vstd::arithmetic::power2::lemma_pow2_unfold(k);
        assert(pow2(k) == pow2(j) + pow2(j));
        lemma_iterate_add(m, p, x, pow2(j), pow2(j));
        let y = lcg_iterate(m, p, x, pow2(j));
        lemma_doubled(m, p, j, x);
        lemma_doubled(m, p, j, y);
        lemma_next_compose(dm, dp, dm, dp, x);
        lemma_double_increment(dm, dp);
    }
}

/// `p * m + p == (m + 1) * p` modulo 2^128.
proof fn lemma_double_increment(m: u128, p: u128)
    ensures
        p.wrapping_mul(m).wrapping_add(p) == m.wrapping_add(1).wrapping_mul(p),
{
    let n = state_count();
    let c = p.wrapping_mul(m);
    lemma_next_int(1, p, c);
    assert(c.wrapping_mul(1) == c);
    lemma_next_int(m, 1, 1);
    assert(1u128.wrapping_mul(m) == m);
    let d = m.wrapping_add(1);
    assert(d == lcg_next(m, 1, 1));
    lemma_next_int(p, 0, d);
    assert(d.wrapping_mul(p).wrapping_add(0) == d.wrapping_mul(p));
    lemma_fundamental_div_mod(p * m, n);
    let q1 = (p * m) / n;
    lemma_fundamental_div_mod(m + 1, n);
    let q2 = (m + 1) / n;
    let t = (m + 1) * p;
    assert(c + p == n * (-q1) + t) by (nonlinear_arith)
        requires
            c == p * m - n * q1,
            t == (m + 1) * p,
    ;
    lemma_mod_multiples_vanish(-q1, t, n);
    assert(d * p + 0 == n * (-q2 * p) + t) by (nonlinear_arith)
        requires
            d == m + 1 - n * q2,
            t == (m + 1) * p,
    ;
    lemma_mod_multiples_vanish(-q2 * p, t, n);
}

/// Returns the multiplier and increment of the LCG that takes `n` iterations at once.
pub fn get_jump(m: u128, p: u128, n: u128) -> (r: (u128, u128))
    ensures
        forall|x: u128| #[trigger] lcg_iterate(m, p, x, n as nat) == lcg_next(r.0, r.1, x),
{
    let mut unit_m = m;
    let mut unit_p = p;
    let mut jump_m: u128 = 1;
    let mut jump_p: u128 = 0;
    let mut delta = n;
    let ghost mut k: nat = 0;
    proof {
        vstd::arithmetic::power2::lemma2_to64();
        assert(n as nat % 1 == 0);
        assert forall|x: u128| #[trigger] lcg_iterate(m, p, x, n as nat % pow2(k)) == lcg_next(1, 0, x) by {
            assert(x.wrapping_mul(1) == x);
            assert(x.wrapping_add(0) == x);
        }
    }
    while delta > 0
        invariant
            delta as nat == n as nat / pow2(k),
            forall|x: u128| #[trigger] lcg_iterate(m, p, x, n as nat % pow2(k)) == lcg_next(jump_m, jump_p, x),
            (unit_m, unit_p) == lcg_doubled(m, p, k),
        decreases delta,
    {
        proof {
            lemma_pow2_pos(k);
            lemma_split_bit(n as nat, k);
            assert(delta & 1 == delta % 2) by (bit_vector);
            assert(delta >> 1 == delta / 2) by (bit_vector);
        }
        let ghost (old_m, old_p) = (jump_m, jump_p);
        if delta & 1 == 1 {
            jump_m = jump_m.wrapping_mul(unit_m);
            jump_p = jump_p.wrapping_mul(unit_m).wrapping_add(unit_p);
        }
        proof {
            let low = n as nat % pow2(k);
            assert forall|x: u128| #[trigger] lcg_iterate(m, p, x, n as nat % pow2(k + 1)) == lcg_next(jump_m, jump_p, x) by {
                if delta % 2 == 1 {
                    lemma_iterate_add(m, p, x, low, pow2(k));
                    lemma_doubled(m, p, k, lcg_iterate(m, p, x, low));
                    lemma_next_compose(old_m, old_p, unit_m, unit_p, x);
                }
            }
        }
        unit_p = unit_m.wrapping_add(1).wrapping_mul(unit_p);
        unit_m = unit_m.wrapping_mul(unit_m);
        delta = delta >> 1;
        proof {
            k = k + 1;
        }
    }
    proof {
        lemma_pow2_pos(k);
        if n as nat >= pow2(k) {
            vstd::arithmetic::div_mod::lemma_div_is_ordered(pow2(k) as int, n as int, pow2(k) as int);
            vstd::arithmetic::div_mod::lemma_div_by_self(pow2(k) as int);
        }
        vstd::arithmetic::div_mod::lemma_small_mod(n as nat, pow2(k));
    }
    (jump_m, jump_p)
}

/// Returns the state after `iterations` iterations from `origin`.
pub fn get_state(m: u128, p: u128, origin: u128, iterations: u128) -> (r: u128)
    ensures
        r == lcg_iterate(m, p, origin, iterations as nat),
{
    let mut jump_m = m;
    let mut jump_p = p;
    let mut state = origin;
    let mut ordinal = iterations;
    let ghost mut k: nat = 0;
    proof {
        vstd::arithmetic::power2::lemma2_to64();
        assert(iterations as nat % 1 == 0);
    }
    while ordinal > 0
        invariant
            ordinal as nat == iterations as nat / pow2(k),
            state == lcg_iterate(m, p, origin, iterations as nat % pow2(k)),
            (jump_m, jump_p) == lcg_doubled(m, p, k),
        decreases ordinal,
    {
        proof {
            lemma_pow2_pos(k);
            lemma_split_bit(iterations as nat, k);
            let low = iterations as nat % pow2(k);
            if ordinal % 2 == 1 {
                lemma_doubled(m, p, k, state);
                lemma_iterate_add(m, p, origin, low, pow2(k));
            }
        }
        if ordinal & 1 == 1 {
            state = state.wrapping_mul(jump_m).wrapping_add(jump_p);
        }
        proof {
            assert(ordinal & 1 == ordinal % 2) by (bit_vector);
        }
        jump_p = jump_m.wrapping_add(1).wrapping_mul(jump_p);
        jump_m = jump_m.wrapping_mul(jump_m);
        proof {
            assert(ordinal >> 1 == ordinal / 2) by (bit_vector);
        }
        ordinal = ordinal >> 1;
        proof {
            k = k + 1;
        }
    }
    proof {
        lemma_pow2_pos(k);
        assert(iterations as nat % pow2(k) == iterations as nat) by {
            if iterations as nat >= pow2(k) {
                vstd::arithmetic::div_mod::lemma_div_is_ordered(
                    pow2(k) as int,
                    iterations as int,
                    pow2(k) as int,
                );
                vstd::arithmetic::div_mod::lemma_div_by_self(pow2(k) as int);
            }
            vstd::arithmetic::div_mod::lemma_small_mod(iterations as nat, pow2(k));
        }
    }
    state
}

/// How the quotient and remainder by `2^k` move on to `2^(k+1)`.
proof fn lemma_split_bit(n: nat, k: nat)
    ensures
        pow2(k + 1) == 2 * pow2(k),
        n / pow2(k + 1) == (n / pow2(k)) / 2,
        n % pow2(k + 1) == n % pow2(k) + (if (n / pow2(k)) % 2 == 1 { pow2(k) } else { 0 }),
{
    let b = pow2(k);
    lemma_pow2_pos(k);
    vstd::arithmetic::power2::lemma_pow2_unfold(k + 1);
    assert(pow2(k + 1) == 2 * b);
    vstd::arithmetic::div_mod::lemma_div_denominator(n as int, b as int, 2);
    lemma_fundamental_div_mod(n as int, b as int);
    lemma_fundamental_div_mod(n as int, 2 * b as int);
    lemma_fundamental_div_mod((n / b) as int, 2);
    let q = n / b;
    let r = n % b;
    assert(n == b * q + r);
    assert(q == 2 * (q / 2) + q % 2);
    assert(n == (2 * b) * (q / 2) + (b * (q % 2) + r)) by (nonlinear_arith)
        requires
            n == b * q + r,
            q == 2 * (q / 2) + q % 2,
    ;
    assert(0 <= b * (q % 2) + r < 2 * b) by (nonlinear_arith)
        requires
            0 <= r < b,
            0 <= q % 2 < 2,
    ;
    vstd::arithmetic::div_mod::lemma_fundamental_div_mod_converse(
        n as int,
        2 * b as int,
        (q / 2) as int,
        (b * (q % 2) + r) as int,
    );
    if q % 2 == 1 {
        vstd::arithmetic::mul::lemma_mul_basics(b as int);
        assert(b * (q % 2) == b * 1);
    } else {
        assert(q % 2 == 0);
        vstd::arithmetic::mul::lemma_mul_basics(b as int);
        assert(b * (q % 2) == b * 0);
    }
}

} // verus!

verus! {

/// `2^128` as a power of two.
proof fn lemma_state_count_pow2()
    ensures
        pow2(128) == state_count(),
{
    vstd::arithmetic::power2::lemma2_to64();
    vstd::arithmetic::power2::lemma_pow2_adds(64, 64);
}

/// Reducing modulo 2^128 keeps the residue modulo any smaller power of two.
proof fn lemma_wrap_residue(v: int, j: nat)
    requires
        j <= 128,
    ensures
        (v % state_count()) % (pow2(j) as int) == v % (pow2(j) as int),
{
    lemma_state_count_pow2();
    vstd::arithmetic::power2::lemma_pow2_adds(j, (128 - j) as nat);
    lemma_pow2_pos(j);
    lemma_pow2_pos((128 - j) as nat);
    assert(pow2(j) * pow2((128 - j) as nat) == state_count());
    vstd::arithmetic::div_mod::lemma_mod_mod(v, pow2(j) as int, pow2((128 - j) as nat) as int);
}

/// Width of the low bits that the multiplier for `2^k` iterations keeps at one.
pub open spec fn unit_width(k: nat) -> nat {
    if k + 2 <= 128 {
        k + 2
    } else {
        128
    }
}

/// For a full-period LCG the constants for `2^k` iterations have a fixed low-bit
/// pattern: the multiplier is one modulo `2^(k+2)` and the increment is `2^k`
/// modulo `2^(k+1)`.
pub proof fn lemma_doubled_low_bits(m: u128, p: u128, k: nat)
    requires
        m % 4 == 1,
        p % 2 == 1,
        k <= 127,
    ensures
        lcg_doubled(m, p, k).0 as int % pow2(unit_width(k)) as int == 1,
        lcg_doubled(m, p, k).1 as int % pow2(k + 1) as int == pow2(k) as int,
    decreases k,
{
    vstd::arithmetic::power2::lemma2_to64();
    if k > 0 {
        let j = (k - 1) as nat;
        lemma_doubled_low_bits(m, p, j);
        let (dm, dp) = lcg_doubled(m, p, j);
        let n = state_count();
        let kk = pow2(j) as int;
        let h = pow2(k) as int;
        let b = pow2(k + 1) as int;
        vstd::arithmetic::power2::lemma_pow2_unfold(k);
        vstd::arithmetic::power2::lemma_pow2_unfold(k + 1);
        vstd::arithmetic::power2::lemma_pow2_unfold(k + 2);
        lemma_pow2_pos(j);
        assert(unit_width(j) == k + 1);
        // the multiplier
        lemma_fundamental_div_mod(dm as int, b);
        let a = dm as int / b;
        assert(dm == b * a + 1);
        let d = pow2(k + 2) as int;
        assert(dm * dm == d * (a + a * a * h) + 1) by (nonlinear_arith)
            requires
                dm == b * a + 1,
                b == 2 * h,
                d == 2 * b,
        ;
        let w = unit_width(k);
        vstd::arithmetic::power2::lemma_pow2_adds(w, (k + 2 - w) as nat);
        let e = pow2((k + 2 - w) as nat) as int;
        assert(d == pow2(w) * e);
        assert(dm * dm == pow2(w) * (e * (a + a * a * h)) + 1) by (nonlinear_arith)
            requires
                dm * dm == d * (a + a * a * h) + 1,
                d == pow2(w) * e,
        ;
        lemma_wrap_residue(dm * dm, w);
        lemma_pow2_pos(w);
        lemma_mod_multiples_vanish(e * (a + a * a * h), 1, pow2(w) as int);
        vstd::arithmetic::power2::lemma_pow2_strictly_increases(0, w);
        vstd::arithmetic::div_mod::lemma_small_mod(1, pow2(w));
        // the increment
        assert(dm % 4 == 1) by {
            vstd::arithmetic::power2::lemma_pow2_adds(2, (k - 1) as nat);
            vstd::arithmetic::div_mod::lemma_mod_mod(dm as int, 4, pow2((k - 1) as nat) as int);
        }
        assert(dm.wrapping_add(1) == dm + 1);
        lemma_fundamental_div_mod(dp as int, h);
        let c = dp as int / h;
        assert(dp == h * c + kk);
        let t = (dm + 1) * dp;
        assert(t == b * (c + a * kk + 2 * a * kk * c) + h) by (nonlinear_arith)
            requires
                dp == h * c + kk,
                dm == b * a + 1,
                h == 2 * kk,
                b == 2 * h,
                t == (dm + 1) * dp,
        ;
        lemma_wrap_residue(t, k + 1);
        lemma_mod_multiples_vanish(c + a * kk + 2 * a * kk * c, h, b);
        vstd::arithmetic::div_mod::lemma_small_mod(h as nat, b as nat);
    }
}

/// Under the low-bit pattern, one jump of `2^k` iterations flips bit `k` of the
/// state and keeps the bits below it.
pub proof fn lemma_jump_flips_bit(dm: u128, dp: u128, x: u128, k: nat)
    requires
        k <= 127,
        dm as int % pow2(k + 1) as int == 1,
        dp as int % pow2(k + 1) as int == pow2(k) as int,
    ensures
        lcg_next(dm, dp, x) as int % pow2(k + 1) as int == (x + pow2(k)) % (pow2(k + 1) as int),
{
    let b = pow2(k + 1) as int;
    let h = pow2(k) as int;
    lemma_pow2_pos(k + 1);
    lemma_next_int(dm, dp, x);
    lemma_wrap_residue(x * dm + dp, k + 1);
    lemma_fundamental_div_mod(dm as int, b);
    lemma_fundamental_div_mod(dp as int, b);
    let a = dm as int / b;
    let c = dp as int / b;
    assert(x * dm + dp == b * (x * a + c) + (x + h)) by (nonlinear_arith)
        requires
            dm == b * a + 1,
            dp == b * c + h,
    ;
    lemma_mod_multiples_vanish(x * a + c, x + h, b);
}

/// The multiplier's residue carries over to fewer low bits.
proof fn lemma_unit_residue(dm: u128, k: nat)
    requires
        k <= 127,
        dm as int % pow2(unit_width(k)) as int == 1,
    ensures
        dm as int % pow2(k + 1) as int == 1,
{
    let w = unit_width(k);
    vstd::arithmetic::power2::lemma_pow2_adds(k + 1, (w - (k + 1)) as nat);
    lemma_pow2_pos(k + 1);
    lemma_pow2_pos((w - (k + 1)) as nat);
    vstd::arithmetic::div_mod::lemma_mod_mod(dm as int, pow2(k + 1) as int, pow2((w - (k + 1)) as nat) as int);
    vstd::arithmetic::power2::lemma2_to64();
    vstd::arithmetic::power2::lemma_pow2_strictly_increases(0, k + 1);
    vstd::arithmetic::div_mod::lemma_small_mod(1, pow2(k + 1));
}

} // verus!

verus! {

/// Returns the number of iterations between the `origin` state and `state`.
/// The LCG must have full period: `m` is one modulo four and `p` is odd.
pub fn get_iterations(m: u128, p: u128, origin: u128, state: u128) -> (r: u128)
    requires
        m % 4 == 1,
        p % 2 == 1,
    ensures
        lcg_iterate(m, p, origin, r as nat) == state,
{
    let mut jump_m = m;
    let mut jump_p = p;
    let mut ordinal: u128 = 0;
    let mut bit: u128 = 1;
    let mut address = origin;
    let ghost mut k: nat = 0;
    proof {
        vstd::arithmetic::power2::lemma2_to64();
        assert(address as int % 1 == 0);
        assert(state as int % 1 == 0);
    }
    while address != state
        invariant
            m % 4 == 1,
            p % 2 == 1,
            k <= 128,
            k < 128 ==> bit as nat == pow2(k),
            address == lcg_iterate(m, p, origin, ordinal as nat),
            ordinal < pow2(k),
            address as int % pow2(k) as int == state as int % pow2(k) as int,
            k <= 127 ==> (jump_m, jump_p) == lcg_doubled(m, p, k),
        decreases 128 - k,
    {
        proof {
            lemma_pow2_pos(k);
            if k == 128 {
                lemma_state_count_pow2();
                vstd::arithmetic::div_mod::lemma_small_mod(address as nat, pow2(k));
                vstd::arithmetic::div_mod::lemma_small_mod(state as nat, pow2(k));
            }
            assert(k < 128);
            lemma_split_bit(address as nat, k);
            lemma_split_bit(state as nat, k);
            lemma_pow2_pos(k + 1);
            lemma_doubled_low_bits(m, p, k);
            lemma_unit_residue(jump_m, k);
            if k + 1 < 128 {
                vstd::arithmetic::power2::lemma_pow2_strictly_increases(k + 1, 128);
            }
            lemma_state_count_pow2();
        }
        let ghost old_address = address;
        let ghost old_ordinal = ordinal;
        if (address / bit) % 2 != (state / bit) % 2 {
            address = address.wrapping_mul(jump_m).wrapping_add(jump_p);
            ordinal = ordinal + bit;
            proof {
                let kk = pow2(k) as int;
                let b = pow2(k + 1) as int;
                lemma_jump_flips_bit(jump_m, jump_p, old_address, k);
                vstd::arithmetic::div_mod::lemma_add_mod_noop(old_address as int, kk, b);
                vstd::arithmetic::div_mod::lemma_small_mod(kk as nat, b as nat);
                let low = old_address as int % kk;
                if (old_address as nat / pow2(k)) % 2 == 1 {
                    assert(old_address as int % b == low + kk);
                    lemma_mod_multiples_vanish(1, low, b);
                    vstd::arithmetic::div_mod::lemma_mod_bound(old_address as int, kk);
                    vstd::arithmetic::div_mod::lemma_small_mod(low as nat, b as nat);
                } else {
                    vstd::arithmetic::div_mod::lemma_mod_bound(old_address as int, kk);
                    vstd::arithmetic::div_mod::lemma_small_mod((low + kk) as nat, b as nat);
                }
                lemma_doubled(m, p, k, old_address);
                lemma_iterate_add(m, p, origin, old_ordinal as nat, pow2(k));
            }
        }
        jump_p = jump_m.wrapping_add(1).wrapping_mul(jump_p);
        jump_m = jump_m.wrapping_mul(jump_m);
        bit = bit.wrapping_add(bit);
        proof {
            k = k + 1;
        }
    }
    ordinal
}

} // verus!

verus! {

/// Jumping `j` times by `2^k` iterations adds `j * 2^k` modulo `2^(k+1)`.
proof fn lemma_jumps_add(m: u128, p: u128, y: u128, k: nat, j: nat)
    requires
        m % 4 == 1,
        p % 2 == 1,
        k <= 127,
    ensures
        lcg_iterate(m, p, y, pow2(k) * j) as int % pow2(k + 1) as int == (y + j * pow2(k)) % (pow2(k + 1) as int),
    decreases j,
{
    let b = pow2(k + 1) as int;
    let h = pow2(k) as int;
    lemma_pow2_pos(k + 1);
    lemma_pow2_pos(k);
    if j == 0 {
        assert(pow2(k) * 0 == 0);
        assert(y + 0 * pow2(k) == y);
    } else {
        lemma_jumps_add(m, p, y, k, (j - 1) as nat);
        let z = lcg_iterate(m, p, y, pow2(k) * (j - 1) as nat);
        assert(pow2(k) * j == pow2(k) * (j - 1) as nat + pow2(k)) by (nonlinear_arith)
            requires
                j >= 1,
        ;
        lemma_iterate_add(m, p, y, pow2(k) * (j - 1) as nat, pow2(k));
        lemma_doubled(m, p, k, z);
        lemma_doubled_low_bits(m, p, k);
        let (dm, dp) = lcg_doubled(m, p, k);
        lemma_unit_residue(dm, k);
        lemma_jump_flips_bit(dm, dp, z, k);
        // (z + h) % b == ((z % b) + h) % b == ((y + (j-1) h) % b + h) % b == (y + j h) % b
        vstd::arithmetic::div_mod::lemma_add_mod_noop(z as int, h, b);
        vstd::arithmetic::div_mod::lemma_add_mod_noop(y + (j - 1) * h, h, b);
        vstd::arithmetic::div_mod::lemma_mod_twice(h, b);
        assert(y + (j - 1) * h + h == y + j * h) by (nonlinear_arith);
    }
}

/// Two residues that differ by an odd multiple of `2^k` differ modulo `2^(k+1)`.
proof fn lemma_odd_gap(u: int, w: int, d: int, k: nat)
    requires
        u - w == d * pow2(k),
        d % 2 != 0,
    ensures
        u % (pow2(k + 1) as int) != w % (pow2(k + 1) as int),
{
    let h = pow2(k) as int;
    let b = pow2(k + 1) as int;
    lemma_pow2_pos(k);
    vstd::arithmetic::power2::lemma_pow2_unfold(k + 1);
    if u % b == w % b {
        lemma_fundamental_div_mod(u, b);
        lemma_fundamental_div_mod(w, b);
        let q = u / b - w / b;
        assert(u - w == b * q) by (nonlinear_arith)
            requires
                u == b * (u / b) + u % b,
                w == b * (w / b) + w % b,
                u % b == w % b,
                q == u / b - w / b,
        ;
        assert(d * h == (2 * q) * h) by (nonlinear_arith)
            requires
                u - w == d * h,
                u - w == b * q,
                b == 2 * h,
        ;
        vstd::arithmetic::mul::lemma_mul_equality_converse(h, d, 2 * q);
        assert(d == 2 * q) by (nonlinear_arith)
            requires
                d * h == (2 * q) * h,
                h > 0,
        ;
        lemma_mod_multiples_vanish(q, 0, 2);
    }
}

/// Iterations from a state agree on their low `k` bits and then on all of them.
proof fn lemma_injective_from(m: u128, p: u128, x: u128, a: nat, b: nat, k: nat)
    requires
        m % 4 == 1,
        p % 2 == 1,
        a < state_count(),
        b < state_count(),
        k <= 128,
        a % pow2(k) == b % pow2(k),
        lcg_iterate(m, p, x, a) == lcg_iterate(m, p, x, b),
    ensures
        a == b,
    decreases 128 - k,
{
    lemma_pow2_pos(k);
    if k == 128 {
        lemma_state_count_pow2();
        vstd::arithmetic::div_mod::lemma_small_mod(a, pow2(k));
        vstd::arithmetic::div_mod::lemma_small_mod(b, pow2(k));
    } else {
        lemma_split_bit(a, k);
        lemma_split_bit(b, k);
        let ha = (a / pow2(k)) % 2;
        let hb = (b / pow2(k)) % 2;
        if ha == hb {
            lemma_injective_from(m, p, x, a, b, k + 1);
        } else {
            let low = a % pow2(k);
            let qa = a / pow2(k);
            let qb = b / pow2(k);
            lemma_fundamental_div_mod(a as int, pow2(k) as int);
            lemma_fundamental_div_mod(b as int, pow2(k) as int);
            assert(a == low + pow2(k) * qa);
            assert(b == low + pow2(k) * qb);
            lemma_iterate_add(m, p, x, low, pow2(k) * qa);
            lemma_iterate_add(m, p, x, low, pow2(k) * qb);
            let y = lcg_iterate(m, p, x, low);
            lemma_jumps_add(m, p, y, k, qa);
            lemma_jumps_add(m, p, y, k, qb);
            assert((y + qa * pow2(k)) - (y + qb * pow2(k)) == (qa - qb) * pow2(k)) by (nonlinear_arith);
            assert((qa - qb) % 2 != 0) by {
                lemma_fundamental_div_mod(qa as int, 2);
                lemma_fundamental_div_mod(qb as int, 2);
                if (qa - qb) % 2 == 0 {
                    lemma_fundamental_div_mod(qa - qb, 2);
                }
            }
            lemma_odd_gap(y + qa * pow2(k), y + qb * pow2(k), qa - qb, k);
        }
    }
}

/// For a full-period LCG the states of the first 2^128 iterations are all
/// different: a state determines its number of iterations from the origin.
pub proof fn lemma_iterate_injective(m: u128, p: u128, x: u128, a: u128, b: u128)
    requires
        m % 4 == 1,
        p % 2 == 1,
        lcg_iterate(m, p, x, a as nat) == lcg_iterate(m, p, x, b as nat),
    ensures
        a == b,
{
    vstd::arithmetic::power2::lemma2_to64();
    lemma_injective_from(m, p, x, a as nat, b as nat, 0);
}

} // verus!
