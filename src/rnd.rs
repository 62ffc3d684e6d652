//! Krull64 random number generator: 64-bit output, 192-bit state.
//!
//! The state is a 128-bit LCG whose increment is chosen by a 64-bit stream
//! number. The high half of the LCG state goes through an output hash.
use crate::hash::{hash64g, hash64g_spec};
use crate::lcg::{
    get_iterations, get_state, lcg_iterate, lcg_next, lemma_iterate_injective, lemma_next_int,
    state_count,
};
use vstd::arithmetic::div_mod::{lemma_fundamental_div_mod, lemma_mod_multiples_vanish};
use vstd::prelude::*;

verus! {

// LCG multipliers from Steele, G. and Vigna, S.,
// Computationally Easy, Spectrally Good Multipliers for
// Congruential Pseudorandom Number Generators (2020).
/// 128-bit LCG multiplier.
pub const LCG_M128_1: u128 = 0xde92a69f6e2f9f25fd0d90f576075fbd;

/// 128-bit LCG multiplier.
pub const LCG_M128_2: u128 = 0x576bc0a2178fcf7c619f3ebc7363f7f5;

/// 128-bit LCG multiplier.
pub const LCG_M128_3: u128 = 0x87ea3de194dd2e97074f3d0c2ea63d35;

/// 128-bit LCG multiplier.
pub const LCG_M128_4: u128 = 0xf48c0745581cf801619cd45257f0ab65;

/// 65-bit LCG multiplier for 128-bit LCGs.
pub const LCG_M65_1: u128 = 0x1df77a66a374e300d;

/// 65-bit LCG multiplier for 128-bit LCGs.
pub const LCG_M65_2: u128 = 0x1d605bbb58c8abbfd;

/// 65-bit LCG multiplier for 128-bit LCGs.
pub const LCG_M65_3: u128 = 0x1d7d8dd3a6a72b43d;

/// 65-bit LCG multiplier for 128-bit LCGs.
pub const LCG_M65_4: u128 = 0x1f20529e418340d05;

/// Krull64 non-cryptographic RNG. 64-bit output, 192-bit state.
#[derive(Clone, PartialEq, Eq, Debug)]
pub struct Rnd {
    /// LCG state low bits.
    lcg0: u64,
    /// LCG state high bits.
    lcg1: u64,
    /// Stream number.
    stream: u64,
}

/// The LCG increment of a stream. It is odd, as full period requires.
pub open spec fn increment_of(stream: u64) -> u128 {
    (2 * stream + 1) as u128
}

/// Stream position is measured from an origin LCG state at position 0: the
/// stream number with all bits inverted, which desynchronizes the streams.
pub open spec fn origin_of(stream: u64) -> u128 {
    (!stream) as u128
}

/// The LCG state `position` iterations into `stream`.
pub open spec fn state_at(stream: u64, position: nat) -> u128 {
    lcg_iterate(LCG_M65_1, increment_of(stream), origin_of(stream), position)
}

/// The output hash applied to an LCG state: the high 64 bits through `hash64g`.
pub open spec fn output_of(state: u128) -> u64 {
    hash64g_spec((state >> 64u128) as u64)
}

/// Origin is LCG state at position 0 in the stream.
fn origin_0(stream: u64) -> (r: u64)
    ensures
        r as u128 == origin_of(stream),
{
    !stream
}

/// Origin is LCG state at position 0 in the stream, as 128 bits.
fn origin_128(stream: u64) -> (r: u128)
    ensures
        r == origin_of(stream),
{
    origin_0(stream) as u128
}

impl Rnd {
    /// The 128-bit LCG state.
    pub closed spec fn state(&self) -> u128 {
        (self.lcg0 as int + self.lcg1 as int * 0x1_0000_0000_0000_0000) as u128
    }

    /// The stream number.
    pub closed spec fn stream_spec(&self) -> u64 {
        self.stream
    }

    /// The generator that `from_u64` makes of a seed.
    pub closed spec fn seeded(seed: u64) -> Rnd {
        Rnd { lcg0: !seed, lcg1: 0, stream: seed }
    }

    /// The generator after one step.
    pub closed spec fn stepped(&self) -> Rnd {
        let s = lcg_next(LCG_M65_1, increment_of(self.stream), self.state());
        Rnd { lcg0: s as u64, lcg1: (s >> 64u128) as u64, stream: self.stream }
    }

    /// The current 64-bit output.
    pub open spec fn output(&self) -> u64 {
        output_of(self.state())
    }

    /// The generator that follows this one after one step.
    pub open spec fn next_spec(&self) -> (u128, u64) {
        (lcg_next(LCG_M65_1, increment_of(self.stream_spec()), self.state()), self.stream_spec())
    }

    fn lcg_128(&self) -> (r: u128)
        ensures
            r == self.state(),
    {
        let r = self.lcg0 as u128 | ((self.lcg1 as u128) << 64u128);
        proof {
            let a = self.lcg0 as u128;
            let b = self.lcg1 as u128;
            assert(a < 0x1_0000_0000_0000_0000 && b < 0x1_0000_0000_0000_0000 ==> (a | (b << 64u128)) == a + b * 0x1_0000_0000_0000_0000) by (bit_vector);
        }
        r
    }

    fn multiplier(&self) -> (r: u64)
        ensures
            r as int == LCG_M65_1 - 0x1_0000_0000_0000_0000,
    {
        proof {
            assert(0x1df77a66a374e300du128 as u64 == 0xdf77a66a374e300du64) by (bit_vector);
        }
        LCG_M65_1 as u64
    }

    fn multiplier_128(&self) -> (r: u128)
        ensures
            r == LCG_M65_1,
    {
        LCG_M65_1
    }

    // LCG increment is odd in full period sequences.
    // Unlike with LCG multipliers, any odd increment works fine.
    // Flip of increment bit B causes changes with a period of 2**(128 - B):
    // LCG sequences that differ only in high bits of the increment are correlated.
    // So it's important to rely on the low increment bits only.
    fn increment_128(&self) -> (r: u128)
        ensures
            r == increment_of(self.stream_spec()),
    {
        let s = self.stream as u128;
        proof {
            assert(s < 0x1_0000_0000_0000_0000 ==> ((s << 1u128) | 1) == 2 * s + 1) by (bit_vector);
        }
        ((self.stream as u128) << 1u128) | 1
    }

    fn set_lcg(&mut self, lcg: u128)
        ensures
            final(self).state() == lcg,
            final(self).stream_spec() == old(self).stream_spec(),
    {
        self.lcg0 = lcg as u64;
        self.lcg1 = (lcg >> 64u128) as u64;
        proof {
            lemma_halves(lcg);
        }
    }

    /// Generates the next 64-bit random number.
    pub fn step(&mut self) -> (r: u64)
        ensures
            *final(self) == old(self).stepped(),
            (final(self).state(), final(self).stream_spec()) == old(self).next_spec(),
            r == output_of(final(self).state()),
    {
        // A widening 64-to-128-bit multiply, with the increment added in 128 bits
        // to get the carry for free.
        let lcg = (self.lcg0 as u128).wrapping_mul(self.multiplier() as u128).wrapping_add(
            self.increment_128(),
        );
        let high = ((lcg >> 64u128) as u64).wrapping_add(self.lcg1.wrapping_mul(self.multiplier())).wrapping_add(
            self.lcg0,
        );
        let ghost old_self = *self;
        self.lcg1 = high;
        self.lcg0 = lcg as u64;
        proof {
            lemma_step_arithmetic(old_self.lcg0, old_self.lcg1, old_self.stream, lcg, high);
            let s = lcg_next(LCG_M65_1, increment_of(old_self.stream), old_self.state());
            lemma_halves(s);
            lemma_halves(lcg);
            assert(s as int == (lcg as u64) as int + high as int * 0x1_0000_0000_0000_0000);
            vstd::arithmetic::div_mod::lemma_fundamental_div_mod_converse(
                s as int,
                0x1_0000_0000_0000_0000,
                high as int,
                (lcg as u64) as int,
            );
        }
        self.get()
    }

    /// Returns the current 64-bit output.
    pub fn get(&self) -> (r: u64)
        ensures
            r == output_of(self.state()),
    {
        proof {
            let a = self.lcg0 as u128;
            let b = self.lcg1 as u128;
            assert(a < 0x1_0000_0000_0000_0000 && b < 0x1_0000_0000_0000_0000 ==> (a | (b << 64u128)) == a + b * 0x1_0000_0000_0000_0000) by (bit_vector);
            assert(a < 0x1_0000_0000_0000_0000 && b < 0x1_0000_0000_0000_0000 ==> ((a | (b << 64u128)) >> 64u128) == b) by (bit_vector);
        }
        // Take high 64 bits from the LCG, they are the most random.
        hash64g(self.lcg1)
    }
}

/// A 128-bit value as its low and high 64-bit halves.
proof fn lemma_halves(x: u128)
    ensures
        (x as u64) as int == x as int % 0x1_0000_0000_0000_0000,
        ((x >> 64u128) as u64) as int == x as int / 0x1_0000_0000_0000_0000,
        x as int == (x as u64) as int + ((x >> 64u128) as u64) as int * 0x1_0000_0000_0000_0000,
{
    assert((x as u64) as u128 == x % 0x1_0000_0000_0000_0000) by (bit_vector);
    assert(x >> 64u128 == x / 0x1_0000_0000_0000_0000) by (bit_vector);
    assert(((x >> 64u128) as u64) as u128 == x >> 64u128) by (bit_vector);
    lemma_fundamental_div_mod(x as int, 0x1_0000_0000_0000_0000);
}

/// The split 64-bit arithmetic of `step` computes one iteration of the 128-bit LCG.
proof fn lemma_step_arithmetic(lcg0: u64, lcg1: u64, stream: u64, lcg: u128, high: u64)
    requires
        lcg == (lcg0 as u128).wrapping_mul(((LCG_M65_1 - 0x1_0000_0000_0000_0000) as u64) as u128).wrapping_add(
            increment_of(stream),
        ),
        high == ((lcg >> 64u128) as u64).wrapping_add(
            lcg1.wrapping_mul((LCG_M65_1 - 0x1_0000_0000_0000_0000) as u64),
        ).wrapping_add(lcg0),
    ensures
        ((lcg as u64) as int + high as int * 0x1_0000_0000_0000_0000) as u128 == lcg_next(
            LCG_M65_1,
            increment_of(stream),
            (lcg0 as int + lcg1 as int * 0x1_0000_0000_0000_0000) as u128,
        ),
{
    let w: int = 0x1_0000_0000_0000_0000;
    let n = state_count();
    let m64: int = LCG_M65_1 - w;
    let inc = increment_of(stream) as int;
    let s = lcg0 as int + lcg1 as int * w;
    assert(0 <= s < n) by (nonlinear_arith)
        requires
            0 <= lcg0 < w,
            0 <= lcg1 < w,
            s == lcg0 + lcg1 * w,
            n == w * w,
    ;
    assert(((s as u128) as int) == s);
    lemma_next_int(LCG_M65_1, increment_of(stream), s as u128);
    // target: (s * (w + m64) + inc) % n
    let t = s * (w + m64) + inc;
    // the low product
    assert(0 <= lcg0 * m64 < n) by (nonlinear_arith)
        requires
            0 <= lcg0 < w,
            0 <= m64 < w,
            n == w * w,
    ;
    lemma_next_int(((LCG_M65_1 - w) as u64) as u128, increment_of(stream), lcg0 as u128);
    assert((lcg0 as u128).wrapping_mul(((LCG_M65_1 - w) as u64) as u128) == lcg_next(
        ((LCG_M65_1 - w) as u64) as u128,
        0,
        lcg0 as u128,
    )) by {
        vstd::arithmetic::div_mod::lemma_small_mod((lcg0 * m64) as nat, n as nat);
    }
    assert(lcg as int == (lcg0 * m64 + inc) % n) by {
        vstd::arithmetic::div_mod::lemma_small_mod((lcg0 * m64) as nat, n as nat);
        assert((lcg0 as u128).wrapping_mul(m64 as u64 as u128) as int == lcg0 * m64);
    }
    lemma_fundamental_div_mod(lcg0 * m64 + inc, n);
    let q = (lcg0 * m64 + inc) / n;
    assert(lcg as int == lcg0 * m64 + inc - n * q);
    // split lcg into halves
    let lo = (lcg as u64) as int;
    let hi = ((lcg >> 64u128) as u64) as int;
    lemma_halves(lcg);
    // the high word, with its wrap-arounds
    let u = (lcg1 * m64) % w;
    assert(lcg1.wrapping_mul(m64 as u64) as int == u);
    lemma_fundamental_div_mod(lcg1 * m64, w);
    let q1 = (lcg1 * m64) / w;
    let v = hi + u + lcg0;
    let hh = high as int;
    assert(hh == v % w) by {
        let a = hi + u;
        let wa = ((lcg >> 64u128) as u64).wrapping_add(lcg1.wrapping_mul(m64 as u64)) as int;
        assert(wa == if a >= w { a - w } else { a });
        assert(hh == if wa + lcg0 >= w { wa + lcg0 - w } else { wa + lcg0 });
        assert(0 <= v < 3 * w);
        if v >= 2 * w {
            lemma_mod_multiples_vanish(2, v - 2 * w, w);
            vstd::arithmetic::div_mod::lemma_small_mod((v - 2 * w) as nat, w as nat);
        } else if v >= w {
            lemma_mod_multiples_vanish(1, v - w, w);
            vstd::arithmetic::div_mod::lemma_small_mod((v - w) as nat, w as nat);
        } else {
            vstd::arithmetic::div_mod::lemma_small_mod(v as nat, w as nat);
        }
    }
    lemma_fundamental_div_mod(v, w);
    let q2 = v / w;
    let result = lo + hh * w;
    assert(hh * w == v * w - n * q2) by (nonlinear_arith)
        requires
            hh == v - w * q2,
            n == w * w,
    ;
    assert(v * w == hi * w + u * w + lcg0 * w) by (nonlinear_arith)
        requires
            v == hi + u + lcg0,
    ;
    assert(u * w == lcg1 * m64 * w - n * q1) by (nonlinear_arith)
        requires
            u == lcg1 * m64 - w * q1,
            n == w * w,
    ;
    assert(t == lcg0 * w + lcg0 * m64 + n * lcg1 + lcg1 * m64 * w + inc) by (nonlinear_arith)
        requires
            t == (lcg0 + lcg1 * w) * (w + m64) + inc,
            n == w * w,
    ;
    assert(n * (-q - q1 - q2 - lcg1) == -(n * q) - n * q1 - n * q2 - n * lcg1) by (nonlinear_arith);
    assert(result == n * (-q - q1 - q2 - lcg1) + t);
    lemma_mod_multiples_vanish(-q - q1 - q2 - lcg1, t, n);
    assert(0 <= result < n) by (nonlinear_arith)
        requires
            0 <= lo < w,
            0 <= hh < w,
            result == lo + hh * w,
            n == w * w,
    ;
    vstd::arithmetic::div_mod::lemma_small_mod(result as nat, n as nat);
    assert(s * LCG_M65_1 + inc == t);
}

/// The `j`-th output, counted from zero, that a generator in `stream` at LCG
/// state `state` produces.
pub open spec fn output_after(stream: u64, state: u128, j: nat) -> u64 {
    output_of(lcg_iterate(LCG_M65_1, increment_of(stream), state, j + 1))
}

/// Relies on std::time::SystemTime::now: nanoseconds since the Unix epoch,
/// truncated to 64 bits, or zero for a clock set before the epoch.
#[verifier::external_body]
fn nanos_since_epoch() -> u64 {
    match std::time::SystemTime::now().duration_since(std::time::UNIX_EPOCH) {
        Ok(d) => d.as_nanos() as u64,
        Err(_) => 0,
    }
}

/// The full-period condition of the Krull64 LCG.
proof fn lemma_full_period(stream: u64)
    ensures
        LCG_M65_1 % 4 == 1,
        increment_of(stream) % 2 == 1,
{
}

impl Rnd {
    /// Creates a new Krull64 RNG. Stream and position are set to 0.
    pub fn new() -> (r: Rnd)
        ensures
            r.stream_spec() == 0,
            r.state() == origin_of(0),
    {
        Rnd { lcg0: origin_0(0), lcg1: 0, stream: 0 }
    }

    /// Creates a new Krull64 RNG from a 32-bit seed.
    /// Stream is set to the given seed and position is set to 0.
    pub fn from_u32(seed: u32) -> (r: Rnd)
        ensures
            r.stream_spec() == seed as u64,
            r.state() == origin_of(seed as u64),
    {
        Rnd::from_u64(seed as u64)
    }

    /// Creates a new Krull64 RNG from a 64-bit seed.
    /// Stream is set to the given seed and position is set to 0.
    /// All seeds work equally well.
    pub fn from_u64(seed: u64) -> (r: Rnd)
        ensures
            r == Rnd::seeded(seed),
            r.stream_spec() == seed,
            r.state() == origin_of(seed),
    {
        Rnd { lcg0: origin_0(seed), lcg1: 0, stream: seed }
    }

    /// Creates a new Krull64 RNG from a 128-bit seed.
    /// Sets the stream to the XOR of the high and low halves of the seed,
    /// and the high bits of the position from the low bits of the seed.
    pub fn from_u128(seed: u128) -> (r: Rnd)
        ensures
            r.stream_spec() == ((seed >> 64u128) ^ seed) as u64,
            r.state() == state_at(r.stream_spec(), (seed << 64u128) as nat),
    {
        let mut krull = Rnd::from_u64(((seed >> 64u128) ^ seed) as u64);
        krull.set_position(seed << 64u128);
        krull
    }

    /// Creates a new Krull64, with the stream number taken from the system time.
    /// Stream position is set to 0.
    pub fn from_time() -> (r: Rnd)
        ensures
            r.state() == origin_of(r.stream_spec()),
    {
        Self::from_u64(nanos_since_epoch())
    }

    /// Jumps forward (if steps > 0) or backward (if steps < 0) or does nothing (if steps = 0).
    /// The stream wraps around, so signed steps can be interpreted as unsigned.
    pub fn jump(&mut self, steps: i128)
        ensures
            final(self).stream_spec() == old(self).stream_spec(),
            final(self).state() == lcg_iterate(
                LCG_M65_1,
                increment_of(old(self).stream_spec()),
                old(self).state(),
                (steps as u128) as nat,
            ),
    {
        let lcg = get_state(self.multiplier_128(), self.increment_128(), self.lcg_128(), steps as u128);
        self.set_lcg(lcg);
    }

    /// Returns current position in stream. The full state of the generator is (stream, position).
    pub fn position(&self) -> (r: u128)
        ensures
            state_at(self.stream_spec(), r as nat) == self.state(),
            forall|q: u128| state_at(self.stream_spec(), q as nat) == self.state() ==> r == q,
    {
        proof {
            lemma_full_period(self.stream);
        }
        let r = get_iterations(
            self.multiplier_128(),
            self.increment_128(),
            origin_128(self.stream),
            self.lcg_128(),
        );
        proof {
            assert forall|q: u128| state_at(self.stream_spec(), q as nat) == self.state() implies r == q by {
                lemma_iterate_injective(LCG_M65_1, increment_of(self.stream), origin_of(self.stream), r, q);
            }
        }
        r
    }

    /// Sets position in stream.
    pub fn set_position(&mut self, position: u128)
        ensures
            final(self).stream_spec() == old(self).stream_spec(),
            final(self).state() == state_at(old(self).stream_spec(), position as nat),
    {
        let lcg = get_state(
            self.multiplier_128(),
            self.increment_128(),
            origin_128(self.stream),
            position,
        );
        self.set_lcg(lcg);
    }

    /// Resets stream position to 0. Equivalent to set_position(0).
    pub fn reset(&mut self)
        ensures
            final(self).stream_spec() == old(self).stream_spec(),
            final(self).state() == origin_of(old(self).stream_spec()),
    {
        self.set_lcg(origin_128(self.stream));
    }

    /// Returns current stream. The full state of the generator is (stream, position).
    pub fn stream(&self) -> (r: u64)
        ensures
            r == self.stream_spec(),
    {
        self.stream
    }

    /// Sets stream and initializes position to 0.
    pub fn set_stream(&mut self, stream: u64)
        ensures
            final(self).stream_spec() == stream,
            final(self).state() == origin_of(stream),
    {
        self.stream = stream;
        self.reset();
    }

    /// Generates the next 32-bit random number: the low half of the next output.
    pub fn u32(&mut self) -> (r: u32)
        ensures
            *final(self) == old(self).stepped(),
            (final(self).state(), final(self).stream_spec()) == old(self).next_spec(),
            r == output_of(final(self).state()) as u32,
    {
        self.step() as u32
    }

    /// Generates the next 64-bit random number.
    pub fn u64(&mut self) -> (r: u64)
        ensures
            *final(self) == old(self).stepped(),
            (final(self).state(), final(self).stream_spec()) == old(self).next_spec(),
            r == output_of(final(self).state()),
    {
        self.step()
    }

    /// Generates the next 32-bit random number, as a signed integer.
    pub fn i32(&mut self) -> (r: i32)
        ensures
            *final(self) == old(self).stepped(),
            (final(self).state(), final(self).stream_spec()) == old(self).next_spec(),
            r == output_of(final(self).state()) as i32,
    {
        self.step() as i32
    }

    /// Generates the next 64-bit random number, as a signed integer.
    pub fn i64(&mut self) -> (r: i64)
        ensures
            *final(self) == old(self).stepped(),
            (final(self).state(), final(self).stream_spec()) == old(self).next_spec(),
            r == output_of(final(self).state()) as i64,
    {
        self.step() as i64
    }

    /// Generates the next 128-bit random number from two outputs, low half first.
    pub fn u128(&mut self) -> (r: u128)
        ensures
            final(self).stream_spec() == old(self).stream_spec(),
            final(self).state() == lcg_iterate(
                LCG_M65_1,
                increment_of(old(self).stream_spec()),
                old(self).state(),
                2,
            ),
            r as int == output_after(old(self).stream_spec(), old(self).state(), 0) as int
                + output_after(old(self).stream_spec(), old(self).state(), 1) as int
                * 0x1_0000_0000_0000_0000,
    {
        let a = self.step();
        let b = self.step();
        proof {
            let x = a as u128;
            let y = b as u128;
            assert(x < 0x1_0000_0000_0000_0000 && y < 0x1_0000_0000_0000_0000 ==> (x | (y << 64u128)) == x + y * 0x1_0000_0000_0000_0000) by (bit_vector);
            reveal_with_fuel(lcg_iterate, 3);
        }
        a as u128 | ((b as u128) << 64u128)
    }

    /// Returns the next u64 in the inclusive range (min, max).
    pub fn u64_in(&mut self, min: u64, max: u64) -> (r: u64)
        requires
            max >= min,
        ensures
            *final(self) == old(self).stepped(),
            (final(self).state(), final(self).stream_spec()) == old(self).next_spec(),
            r == min + output_of(final(self).state()) as int % (max - min + 1),
    {
        let diff = max - min;
        if diff < u64::MAX {
            let x = self.u64();
            proof {
                vstd::arithmetic::div_mod::lemma_mod_bound(x as int, diff + 1);
            }
            (x % (diff + 1)).wrapping_add(min)
        } else {
            let x = self.u64();
            proof {
                vstd::arithmetic::div_mod::lemma_small_mod(x as nat, (diff + 1) as nat);
            }
            x
        }
    }

    /// Returns the next u32 in the inclusive range (min, max).
    pub fn u32_in(&mut self, min: u32, max: u32) -> (r: u32)
        requires
            max >= min,
        ensures
            *final(self) == old(self).stepped(),
            (final(self).state(), final(self).stream_spec()) == old(self).next_spec(),
            r == min + output_of(final(self).state()) as int % (max - min + 1),
    {
        self.u64_in(min as u64, max as u64) as u32
    }

    /// Returns the next i64 in the inclusive range (min, max). Over the full
    /// range of `i64` it is the next output, reinterpreted as signed.
    pub fn i64_in(&mut self, min: i64, max: i64) -> (r: i64)
        requires
            max >= min,
        ensures
            (final(self).state(), final(self).stream_spec()) == old(self).next_spec(),
            max - min == u64::MAX ==> r == output_of(final(self).state()) as i64,
            max - min < u64::MAX ==> r == min + output_of(final(self).state()) as int % (max - min + 1),
    {
        // The width of the range always fits in 64 bits.
        let range = (max as i128 - min as i128) as u64;
        if range == u64::MAX {
            self.u64() as i64
        } else {
            let x = self.u64_in(0, range);
            (min as i128 + x as i128) as i64
        }
    }

    /// Returns the next i32 in the inclusive range (min, max).
    pub fn i32_in(&mut self, min: i32, max: i32) -> (r: i32)
        requires
            max >= min,
        ensures
            (final(self).state(), final(self).stream_spec()) == old(self).next_spec(),
            r == min + output_of(final(self).state()) as int % (max - min + 1),
    {
        self.i64_in(min as i64, max as i64) as i32
    }

    /// Returns the next u64 in the left inclusive range [0, limit[.
    pub fn u64_to(&mut self, limit: u64) -> (r: u64)
        requires
            limit > 0,
        ensures
            *final(self) == old(self).stepped(),
            (final(self).state(), final(self).stream_spec()) == old(self).next_spec(),
            r == output_of(final(self).state()) as int % (limit as int),
    {
        self.u64_in(0, limit - 1)
    }

    /// Returns the next u32 in the left inclusive range [0, limit[.
    pub fn u32_to(&mut self, limit: u32) -> (r: u32)
        requires
            limit > 0,
        ensures
            *final(self) == old(self).stepped(),
            (final(self).state(), final(self).stream_spec()) == old(self).next_spec(),
            r == output_of(final(self).state()) as int % (limit as int),
    {
        self.u64_to(limit as u64) as u32
    }

    /// Returns the next i64 in the left inclusive range [0, limit[.
    pub fn i64_to(&mut self, limit: i64) -> (r: i64)
        requires
            limit > 0,
        ensures
            (final(self).state(), final(self).stream_spec()) == old(self).next_spec(),
            r == output_of(final(self).state()) as int % (limit as int),
    {
        self.i64_in(0, limit - 1)
    }

    /// Returns the next i32 in the left inclusive range [0, limit[.
    pub fn i32_to(&mut self, limit: i32) -> (r: i32)
        requires
            limit > 0,
        ensures
            (final(self).state(), final(self).stream_spec()) == old(self).next_spec(),
            r == output_of(final(self).state()) as int % (limit as int),
    {
        self.i64_to(limit as i64) as i32
    }
}

/// Byte `k` of `x` in little-endian order.
pub open spec fn le_byte(x: u64, k: nat) -> u8 {
    ((x >> (8 * k) as u64) & 0xff) as u8
}

impl Rnd {
    /// Fills a destination slice with random bytes, eight bytes from each
    /// output, in little-endian order.
    pub fn fill_bytes(&mut self, dest: &mut [u8])
        ensures
            final(dest)@.len() == old(dest)@.len(),
            final(self).stream_spec() == old(self).stream_spec(),
            final(self).state() == lcg_iterate(
                LCG_M65_1,
                increment_of(old(self).stream_spec()),
                old(self).state(),
                ((old(dest)@.len() + 7) / 8) as nat,
            ),
            forall|i: int|
                0 <= i < old(dest)@.len() ==> #[trigger] final(dest)@[i] == le_byte(
                    output_after(old(self).stream_spec(), old(self).state(), (i / 8) as nat),
                    (i % 8) as nat,
                ),
    {
        let bytes = dest.len();
        let mut i: usize = 0;
        let ghost stream = self.stream;
        let ghost start = self.state();
        let ghost mut c: nat = 0;
        while i < bytes
            invariant
                dest@.len() == bytes,
                bytes == old(dest)@.len(),
                i <= bytes,
                i == 8 * c || (i == bytes && c == (bytes + 7) / 8),
                self.stream == stream,
                stream == old(self).stream_spec(),
                start == old(self).state(),
                self.state() == lcg_iterate(LCG_M65_1, increment_of(stream), start, c),
                forall|t: int|
                    0 <= t < i ==> #[trigger] dest@[t] == le_byte(
                        output_after(stream, start, (t / 8) as nat),
                        (t % 8) as nat,
                    ),
            decreases bytes - i,
        {
            let x = self.step();
            proof {
                lemma_next_iterate(stream, start, c);
            }
            let j = if bytes - i < 8 { bytes } else { i + 8 };
            let mut k = i;
            while k < j
                invariant
                    dest@.len() == bytes,
                    i <= k <= j,
                    j <= bytes,
                    j <= i + 8,
                    i == 8 * c,
                    x == output_after(stream, start, c),
                    forall|t: int|
                        0 <= t < k ==> #[trigger] dest@[t] == le_byte(
                            output_after(stream, start, (t / 8) as nat),
                            (t % 8) as nat,
                        ),
                decreases j - k,
            {
                let shift = (8 * (k - i)) as u64;
                dest[k] = ((x >> shift) & 0xff) as u8;
                proof {
                    lemma_chunk_index(c, k as int);
                }
                k = k + 1;
            }
            proof {
                if j == bytes {
                    lemma_last_chunk(c, bytes as int);
                }
                c = c + 1;
            }
            i = j;
        }
    }
}

/// Where byte `k` of the chunk starting at `8 * c` stands.
proof fn lemma_chunk_index(c: nat, k: int)
    requires
        8 * c <= k < 8 * c + 8,
    ensures
        k / 8 == c,
        k % 8 == k - 8 * c,
{
    vstd::arithmetic::div_mod::lemma_fundamental_div_mod_converse(k, 8, c as int, k - 8 * c);
}

/// A last, possibly short, chunk ends the count of chunks.
proof fn lemma_last_chunk(c: nat, bytes: int)
    requires
        8 * c < bytes <= 8 * c + 8,
    ensures
        (bytes + 7) / 8 == c + 1,
{
    vstd::arithmetic::div_mod::lemma_fundamental_div_mod_converse(
        bytes + 7,
        8,
        (c + 1) as int,
        bytes + 7 - 8 * (c + 1),
    );
}

/// One more step iterates the LCG once more.
proof fn lemma_next_iterate(stream: u64, start: u128, n: nat)
    ensures
        lcg_iterate(LCG_M65_1, increment_of(stream), start, n + 1) == lcg_next(
            LCG_M65_1,
            increment_of(stream),
            lcg_iterate(LCG_M65_1, increment_of(stream), start, n),
        ),
{
}


/// A position in a stream is determined by the generator state, so reading
/// the position back after setting it gives the position that was set.
pub proof fn lemma_position_round_trip(stream: u64, p: u128, r: u128)
    requires
        state_at(stream, r as nat) == state_at(stream, p as nat),
    ensures
        r == p,
{
    lemma_full_period(stream);
    lemma_iterate_injective(LCG_M65_1, increment_of(stream), origin_of(stream), r, p);
}

} // verus!
