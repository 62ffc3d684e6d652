//! Deriving a child genome from a parent's logged parameters.
//!
//! Probabilities are given in millionths: `PROBABILITY_ONE` is certainty.
use crate::dna::{Dna, DnaView, ParameterKind, ParameterView};
use crate::rnd::Rnd;
use vstd::prelude::*;

verus! {

/// Certainty, as a probability in millionths.
pub const PROBABILITY_ONE: u32 = 1_000_000;

/// Whether a 64-bit draw falls under probability `p` (in millionths).
pub open spec fn chance(x: u64, p: u32) -> bool {
    (x as int) * (PROBABILITY_ONE as int) < (p as int) * 0x1_0000_0000_0000_0000
}

/// Number of binary digits of `d`.
pub open spec fn bit_length(d: u32) -> nat
    decreases d,
{
    if d == 0 {
        0
    } else {
        1 + bit_length(d / 2)
    }
}

/// `d` halved `k` times.
pub open spec fn halved(d: u32, k: nat) -> u32
    decreases k,
{
    if k == 0 {
        d
    } else {
        halved(d, (k - 1) as nat) / 2
    }
}

/// The random walk of an ordered raw value within `[0, maximum]`: a direction
/// chosen uniformly, an octave of the distance to the bound in that direction
/// chosen uniformly, a magnitude uniform within the octave, and the result
/// clipped to the range. Returns the new value and the random source after
/// its three draws.
pub open spec fn walk(raw: u32, maximum: u32, r: Rnd) -> (u32, Rnd) {
    let r1 = r.stepped();
    let up = r1.output() < 0x8000_0000_0000_0000;
    let d = if up {
        if maximum > raw {
            (maximum - raw) as u32
        } else {
            0
        }
    } else {
        raw
    };
    let d1 = if d == 0 {
        1
    } else {
        d
    };
    let r2 = r1.stepped();
    let k = (r2.output() as nat % bit_length(d1)) as nat;
    let top = halved(d1, k);
    let r3 = r2.stepped();
    let magnitude = (top / 2 + 1 + r3.output() as nat % ((top - top / 2) as nat)) as u32;
    let moved = if up {
        if raw as nat + magnitude as nat > maximum as nat {
            maximum
        } else {
            (raw + magnitude) as u32
        }
    } else {
        if magnitude > raw {
            0
        } else {
            (raw - magnitude) as u32
        }
    };
    (if moved > maximum { maximum } else { moved }, r3)
}

/// One parameter of a mutation: with probability `p` an ordered parameter
/// walks, and otherwise, or for a categorical one, the raw value is copied.
pub open spec fn mutate_step(e: ParameterView, genes: Map<u64, u32>, r: Rnd, p: u32) -> (Map<u64, u32>, Rnd) {
    let r1 = r.stepped();
    if chance(r1.output(), p) && e.kind == ParameterKind::Ordered {
        let (value, r2) = walk(e.raw, e.maximum, r1);
        (genes.insert(e.hash, value), r2)
    } else {
        (genes.insert(e.hash, e.raw), r1)
    }
}

/// The genes and random source after mutating the first `n` logged parameters.
pub open spec fn mutation_of(log: Seq<ParameterView>, n: nat, p: u32, r: Rnd) -> (Map<u64, u32>, Rnd)
    decreases n,
{
    if n == 0 || n > log.len() {
        (Map::empty(), r)
    } else {
        let (genes, r1) = mutation_of(log, (n - 1) as nat, p, r);
        mutate_step(log[n - 1], genes, r1, p)
    }
}

/// One parameter of a finetune: a categorical raw value is always copied; an
/// ordered one is left out with probability `p`, to be drawn afresh, and
/// copied otherwise.
pub open spec fn finetune_step(e: ParameterView, genes: Map<u64, u32>, r: Rnd, p: u32) -> (Map<u64, u32>, Rnd) {
    if e.kind == ParameterKind::Categorical {
        (genes.insert(e.hash, e.raw), r)
    } else {
        let r1 = r.stepped();
        if chance(r1.output(), p) {
            (genes, r1)
        } else {
            (genes.insert(e.hash, e.raw), r1)
        }
    }
}

/// The genes and random source after finetuning the first `n` logged parameters.
pub open spec fn finetune_of(log: Seq<ParameterView>, n: nat, p: u32, r: Rnd) -> (Map<u64, u32>, Rnd)
    decreases n,
{
    if n == 0 || n > log.len() {
        (Map::empty(), r)
    } else {
        let (genes, r1) = finetune_of(log, (n - 1) as nat, p, r);
        finetune_step(log[n - 1], genes, r1, p)
    }
}

/// The child genome of a mutation or finetune: fresh, seeded from the first
/// output of `r0`, holding `genes`.
pub open spec fn child_of(v: DnaView, genes: Map<u64, u32>, seed: u64) -> bool {
    &&& v.address == seq![0u32]
    &&& v.genes == genes
    &&& v.rnd == Rnd::seeded(seed)
    &&& v.interactive
    &&& v.log == Seq::<ParameterView>::empty()
}

/// Whether a 64-bit draw falls under probability `p`.
fn chance_of(x: u64, p: u32) -> (r: bool)
    ensures
        r == chance(x, p),
{
    proof {
        assert((x as u128) * 1_000_000 <= u128::MAX) by (nonlinear_arith)
            requires
                x <= u64::MAX,
        ;
        assert((p as u128) * 0x1_0000_0000_0000_0000 <= u128::MAX) by (nonlinear_arith)
            requires
                p <= u32::MAX,
        ;
    }
    (x as u128) * (PROBABILITY_ONE as u128) < (p as u128) * 0x1_0000_0000_0000_0000
}

/// Number of binary digits of `d`.
fn bit_length_of(d: u32) -> (r: u32)
    ensures
        r == bit_length(d),
        r <= 32,
{
    proof {
        vstd::arithmetic::power2::lemma2_to64();
        lemma_bit_length_le(d, 32);
    }
    let mut n: u32 = 0;
    let mut x = d;
    while x > 0
        invariant
            n + bit_length(x) == bit_length(d),
            bit_length(x) <= 32 - n,
        decreases x,
    {
        x = x / 2;
        n = n + 1;
    }
    n
}

proof fn lemma_bit_length_le(d: u32, b: nat)
    requires
        (d as nat) < vstd::arithmetic::power2::pow2(b),
    ensures
        bit_length(d) <= b,
    decreases b,
{
    if d > 0 {
        if b == 0 {
            vstd::arithmetic::power2::lemma2_to64();
        } else {
            vstd::arithmetic::power2::lemma_pow2_unfold(b);
            lemma_bit_length_le(d / 2, (b - 1) as nat);
        }
    }
}

/// Halving fewer times than `d` has binary digits leaves at least one.
proof fn lemma_halved_positive(d: u32, k: nat)
    requires
        k < bit_length(d),
    ensures
        halved(d, k) >= 1,
        halved(d, k) <= d,
        bit_length(halved(d, k)) == bit_length(d) - k,
    decreases k,
{
    if k > 0 {
        lemma_halved_positive(d, (k - 1) as nat);
        let x = halved(d, (k - 1) as nat);
        assert(bit_length(x) == 1 + bit_length(x / 2));
        assert(x / 2 > 0);
    }
}

/// The random walk of an ordered raw value within `[0, maximum]`.
fn walk_value(raw: u32, maximum: u32, rnd: &mut Rnd) -> (r: u32)
    ensures
        (r, *final(rnd)) == walk(raw, maximum, *old(rnd)),
{
    let ghost r0 = *rnd;
    let up = rnd.u64() < 0x8000_0000_0000_0000;
    let ghost r1 = *rnd;
    assert(r1 == r0.stepped());
    let d = if up {
        if maximum > raw {
            maximum - raw
        } else {
            0
        }
    } else {
        raw
    };
    let d1 = if d == 0 {
        1
    } else {
        d
    };
    proof {
        vstd::arithmetic::power2::lemma2_to64();
        lemma_bit_length_le(d1, 32);
        assert(bit_length(d1) == 1 + bit_length(d1 / 2));
    }
    let bits = bit_length_of(d1);
    let k = rnd.u32_to(bits);
    let ghost r2 = *rnd;
    assert(r2 == r1.stepped());
    assert(k as nat == (r2.output() as nat % bit_length(d1)) as nat);
    let mut top = d1;
    let mut i: u32 = 0;
    while i < k
        invariant
            i <= k,
            k < bit_length(d1),
            top == halved(d1, i as nat),
        decreases k - i,
    {
        top = top / 2;
        i = i + 1;
    }
    proof {
        lemma_halved_positive(d1, k as nat);
    }
    let magnitude = rnd.u32_in(top / 2 + 1, top);
    let ghost r3 = *rnd;
    assert(r3 == r2.stepped());
    assert(magnitude == (top / 2 + 1 + r3.output() as nat % ((top - top / 2) as nat)) as u32);
    let moved = if up {
        if raw as u64 + magnitude as u64 > maximum as u64 {
            maximum
        } else {
            raw + magnitude
        }
    } else {
        if magnitude > raw {
            0
        } else {
            raw - magnitude
        }
    };
    if moved > maximum {
        maximum
    } else {
        moved
    }
}

impl Dna {
    /// Mutate the source Dna, which must have been generated in interactive
    /// mode. Return the mutated Dna. Each parameter is drawn for with
    /// probability `mutation_p` (in millionths): an ordered parameter then
    /// takes a random walk around its raw value; otherwise, and always for a
    /// categorical parameter, the raw value is copied.
    pub fn mutate(source: &Dna, seed: u64, mutation_p: u32) -> (r: Dna)
        requires
            source@.interactive,
        ensures
            ({
                let r0 = Rnd::seeded(seed).stepped();
                child_of(
                    r@,
                    mutation_of(source@.log, source@.log.len(), mutation_p, r0).0,
                    r0.output(),
                )
            }),
    {
        let mut rnd = Rnd::from_u64(seed);
        let mut dna = Dna::new(rnd.u64());
        let ghost r0 = rnd;
        let parameters = source.parameter_vector();
        let ghost log = source@.log;
        let mut i: usize = 0;
        while i < parameters.len()
            invariant
                parameters@.map_values(|p: crate::dna::Parameter| p@) == log,
                log == source@.log,
                i <= log.len(),
                (dna@.genes, rnd) == mutation_of(log, i as nat, mutation_p, r0),
                dna@.address == seq![0u32],
                dna@.rnd == Rnd::seeded(r0.output()),
                dna@.interactive,
                dna@.log == Seq::<ParameterView>::empty(),
            decreases log.len() - i,
        {
            let parameter = &parameters[i];
            proof {
                assert(parameter@ == log[i as int]);
            }
            let x = rnd.u64();
            if chance_of(x, mutation_p) && parameter.kind() == ParameterKind::Ordered {
                let value = walk_value(parameter.raw(), parameter.maximum(), &mut rnd);
                dna.set_value(parameter.hash(), value);
            } else {
                dna.set_value(parameter.hash(), parameter.raw());
            }
            i = i + 1;
        }
        dna
    }

    /// Finetune the source Dna by only modifying non-structural parameters.
    /// The source must have been generated in interactive mode. Categorical
    /// raw values are always copied, so the shape of the tree stays; each
    /// ordered one is left out, to be drawn afresh, with probability
    /// `mutation_p` (in millionths), and copied otherwise.
    pub fn finetune(source: &Dna, seed: u64, mutation_p: u32) -> (r: Dna)
        requires
            source@.interactive,
        ensures
            ({
                let r0 = Rnd::seeded(seed).stepped();
                child_of(
                    r@,
                    finetune_of(source@.log, source@.log.len(), mutation_p, r0).0,
                    r0.output(),
                )
            }),
    {
        let mut rnd = Rnd::from_u64(seed);
        let mut dna = Dna::new(rnd.u64());
        let ghost r0 = rnd;
        let parameters = source.parameter_vector();
        let ghost log = source@.log;
        let mut i: usize = 0;
        while i < parameters.len()
            invariant
                parameters@.map_values(|p: crate::dna::Parameter| p@) == log,
                log == source@.log,
                i <= log.len(),
                (dna@.genes, rnd) == finetune_of(log, i as nat, mutation_p, r0),
                dna@.address == seq![0u32],
                dna@.rnd == Rnd::seeded(r0.output()),
                dna@.interactive,
                dna@.log == Seq::<ParameterView>::empty(),
            decreases log.len() - i,
        {
            let parameter = &parameters[i];
            proof {
                assert(parameter@ == log[i as int]);
            }
            if parameter.kind() == ParameterKind::Categorical || !chance_of(rnd.u64(), mutation_p) {
                dna.set_value(parameter.hash(), parameter.raw());
            }
            i = i + 1;
        }
        dna
    }
}


/// Log records whose hashes are pairwise distinct and whose raw values lie
/// within their maximum.
pub open spec fn distinct_records(log: Seq<ParameterView>) -> bool {
    &&& forall|i: int, j: int| 0 <= i < j < log.len() ==> log[i].hash != log[j].hash
    &&& forall|i: int| 0 <= i < log.len() ==> log[i].raw <= log[i].maximum
}

/// A walk stays within the range, and from a value strictly inside it always moves.
pub proof fn lemma_walk_moves(raw: u32, maximum: u32, r: Rnd)
    requires
        raw <= maximum,
    ensures
        walk(raw, maximum, r).0 <= maximum,
        0 < raw < maximum ==> walk(raw, maximum, r).0 != raw,
{
    let r1 = r.stepped();
    let up = r1.output() < 0x8000_0000_0000_0000;
    let d = if up {
        if maximum > raw {
            (maximum - raw) as u32
        } else {
            0
        }
    } else {
        raw
    };
    let d1: u32 = if d == 0 {
        1
    } else {
        d
    };
    assert(bit_length(d1) == 1 + bit_length(d1 / 2));
    let r2 = r1.stepped();
    let k = (r2.output() as nat % bit_length(d1)) as nat;
    lemma_halved_positive(d1, k);
    let top = halved(d1, k);
    let r3 = r2.stepped();
    let m = r3.output() as nat % ((top - top / 2) as nat);
    assert(m < top - top / 2);
}

/// The genes after mutating with certainty, over each prefix of the log.
proof fn lemma_mutation_prefix(log: Seq<ParameterView>, n: nat, r: Rnd)
    requires
        distinct_records(log),
        n <= log.len(),
    ensures
        forall|i: int|
            0 <= i < n ==> {
                let g = mutation_of(log, n, PROBABILITY_ONE, r).0;
                let e = #[trigger] log[i];
                &&& g.contains_key(e.hash)
                &&& e.kind == ParameterKind::Categorical ==> g[e.hash] == e.raw
                &&& e.kind == ParameterKind::Ordered ==> g[e.hash] <= e.maximum
                &&& e.kind == ParameterKind::Ordered && 0 < e.raw < e.maximum ==> g[e.hash] != e.raw
            },
    decreases n,
{
    if n > 0 {
        lemma_mutation_prefix(log, (n - 1) as nat, r);
        let (g0, r1) = mutation_of(log, (n - 1) as nat, PROBABILITY_ONE, r);
        let e = log[n - 1];
        let x = r1.stepped().output();
        assert(chance(x, PROBABILITY_ONE));
        lemma_walk_moves(e.raw, e.maximum, r1.stepped());
        assert forall|i: int|
            0 <= i < n implies {
                let g = mutation_of(log, n, PROBABILITY_ONE, r).0;
                let e = #[trigger] log[i];
                &&& g.contains_key(e.hash)
                &&& e.kind == ParameterKind::Categorical ==> g[e.hash] == e.raw
                &&& e.kind == ParameterKind::Ordered ==> g[e.hash] <= e.maximum
                &&& e.kind == ParameterKind::Ordered && 0 < e.raw < e.maximum ==> g[e.hash] != e.raw
            } by {
            if i < n - 1 {
                assert(log[i].hash != log[n - 1].hash);
                assert(mutation_of(log, (n - 1) as nat, PROBABILITY_ONE, r).0 == g0);
            }
        }
    }
}

/// A mutation with certainty walks every ordered parameter, so each one
/// strictly inside its range changes value and each stays within its range,
/// while every categorical parameter keeps its raw value.
pub proof fn lemma_mutation_coverage(log: Seq<ParameterView>, r: Rnd)
    requires
        distinct_records(log),
    ensures
        forall|i: int|
            0 <= i < log.len() ==> {
                let g = mutation_of(log, log.len(), PROBABILITY_ONE, r).0;
                let e = #[trigger] log[i];
                &&& g.contains_key(e.hash)
                &&& e.kind == ParameterKind::Categorical ==> g[e.hash] == e.raw
                &&& e.kind == ParameterKind::Ordered ==> g[e.hash] <= e.maximum
                &&& e.kind == ParameterKind::Ordered && 0 < e.raw < e.maximum ==> g[e.hash] != e.raw
            },
{
    lemma_mutation_prefix(log, log.len(), r);
}

/// The genes after finetuning with certainty, over each prefix of the log.
proof fn lemma_finetune_prefix(log: Seq<ParameterView>, n: nat, r: Rnd)
    requires
        distinct_records(log),
        n <= log.len(),
    ensures
        forall|i: int|
            0 <= i < n ==> {
                let g = finetune_of(log, n, PROBABILITY_ONE, r).0;
                let e = #[trigger] log[i];
                &&& e.kind == ParameterKind::Categorical ==> g.contains_key(e.hash) && g[e.hash] == e.raw
                &&& e.kind == ParameterKind::Ordered ==> !g.contains_key(e.hash)
            },
        forall|h: u64|
            finetune_of(log, n, PROBABILITY_ONE, r).0.contains_key(h) ==> exists|i: int|
                0 <= i < n && #[trigger] log[i].hash == h && log[i].kind == ParameterKind::Categorical,
    decreases n,
{
    if n > 0 {
        lemma_finetune_prefix(log, (n - 1) as nat, r);
        let (g0, r1) = finetune_of(log, (n - 1) as nat, PROBABILITY_ONE, r);
        let e = log[n - 1];
        assert(chance(r1.stepped().output(), PROBABILITY_ONE));
        let g = finetune_of(log, n, PROBABILITY_ONE, r).0;
        assert forall|i: int|
            0 <= i < n implies {
                let g = finetune_of(log, n, PROBABILITY_ONE, r).0;
                let e = #[trigger] log[i];
                &&& e.kind == ParameterKind::Categorical ==> g.contains_key(e.hash) && g[e.hash] == e.raw
                &&& e.kind == ParameterKind::Ordered ==> !g.contains_key(e.hash)
            } by {
            if i < n - 1 {
                assert(log[i].hash != log[n - 1].hash);
                if log[i].kind == ParameterKind::Ordered && g0.contains_key(log[i].hash) {
                    let j = choose|j: int|
                        0 <= j < n - 1 && #[trigger] log[j].hash == log[i].hash && log[j].kind
                            == ParameterKind::Categorical;
                    assert(j != i);
                }
            }
        }
        assert forall|h: u64| g.contains_key(h) implies exists|i: int|
            0 <= i < n && #[trigger] log[i].hash == h && log[i].kind == ParameterKind::Categorical by {
            if h != e.hash || e.kind == ParameterKind::Ordered {
                assert(g0.contains_key(h));
            } else {
                assert(log[n - 1].hash == h);
            }
        }
    }
}

/// A finetune with certainty keeps the raw value of every categorical
/// parameter, so the choices that shape the tree stay, and leaves every
/// ordered parameter out of the child, to be drawn afresh.
pub proof fn lemma_finetune_containment(log: Seq<ParameterView>, r: Rnd)
    requires
        distinct_records(log),
    ensures
        forall|i: int|
            0 <= i < log.len() ==> {
                let g = finetune_of(log, log.len(), PROBABILITY_ONE, r).0;
                let e = #[trigger] log[i];
                &&& e.kind == ParameterKind::Categorical ==> g.contains_key(e.hash) && g[e.hash] == e.raw
                &&& e.kind == ParameterKind::Ordered ==> !g.contains_key(e.hash)
            },
{
    lemma_finetune_prefix(log, log.len(), r);
}

} // verus!
