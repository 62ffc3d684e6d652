//! Replaying a generation pass over a chromosome that already holds its genes.
//!
//! A pass from genome `v` ends in `w`. Another genome `t` at the same address
//! and in the same mode, whose chromosome already holds every gene of `w`,
//! replays the pass: it makes the same choices, logs the same parameters,
//! and neither draws nor stores anything.
use crate::dna::{
    after_draw, after_read, grouped, index_draw, lemma_after_read_keeps, ordered_record,
    parameter_hash, raw_draw, read_value, u32_draw, u32_in_draw, ungrouped, DnaView,
    ParameterKind, ParameterView,
};
use crate::map3gen::{
    basis_spec, basis_types, binary_spec, binary_types, branch_spec, descended, ease_smooth_spec,
    ease_smooth_types, ease_spec, ease_types, ease_voronoi_spec, ease_voronoi_types,
    fractal_spec, gen_spec, metric_spec, metric_types, node_types, on_off, option_spec,
    palette_spec, pick_draw, unary_spec, unary_types, child_complexity,
    fractal_child_complexity, MAX_DEPTH,
};
use vstd::prelude::*;

verus! {

broadcast use vstd::map_lib::lemma_submap_of_trans;

/// A pass from `v` to `w` only adds genes, keeps the mode, and extends the log.
pub open spec fn grows(v: DnaView, w: DnaView) -> bool {
    &&& v.genes.submap_of(w.genes)
    &&& w.interactive == v.interactive
    &&& v.log.len() <= w.log.len()
    &&& w.log.subrange(0, v.log.len() as int) == v.log
}

/// What the pass from `v` to `w` leaves of `t` when `t` replays it.
pub open spec fn replayed(v: DnaView, w: DnaView, t: DnaView) -> DnaView {
    DnaView {
        address: w.address,
        genes: t.genes,
        rnd: t.rnd,
        interactive: t.interactive,
        log: t.log + w.log.subrange(v.log.len() as int, w.log.len() as int),
    }
}

/// `t` stands where `v` stands.
pub open spec fn aligned(v: DnaView, t: DnaView) -> bool {
    t.address == v.address && t.interactive == v.interactive
}

/// The pass `r` from `v` grows it, and `t` replays it to `rt` when its
/// chromosome holds the genes that the pass ends with.
pub open spec fn replays<X>(v: DnaView, r: (X, DnaView), t: DnaView, rt: (X, DnaView)) -> bool {
    &&& grows(v, r.1)
    &&& r.1.genes.submap_of(t.genes) ==> rt == (r.0, replayed(v, r.1, t))
}

/// A pass that does nothing grows its genome and replays to itself.
pub proof fn lemma_grows_refl(v: DnaView)
    ensures
        grows(v, v),
        forall|t: DnaView| #[trigger] replayed(v, v, t) == (DnaView { address: v.address, ..t }),
{
    assert(v.log.subrange(0, v.log.len() as int) =~= v.log);
    assert forall|t: DnaView| #[trigger] replayed(v, v, t) == (DnaView { address: v.address, ..t }) by {
        assert(t.log + v.log.subrange(v.log.len() as int, v.log.len() as int) =~= t.log);
    }
}

/// Growth is transitive.
pub proof fn lemma_grows_chain(a: DnaView, b: DnaView, c: DnaView)
    requires
        grows(a, b),
        grows(b, c),
    ensures
        grows(a, c),
{
    lemma_chain(a, b, c, a);
}

/// Two passes in a row.
pub proof fn lemma_chain(v: DnaView, v1: DnaView, w: DnaView, t: DnaView)
    requires
        grows(v, v1),
        grows(v1, w),
    ensures
        grows(v, w),
        replayed(v1, w, replayed(v, v1, t)) == replayed(v, w, t),
        w.genes.submap_of(t.genes) ==> v1.genes.submap_of(t.genes),
        aligned(v1, replayed(v, v1, t)) <== aligned(v, t),
{
    vstd::map_lib::lemma_submap_of_trans(v.genes, v1.genes, w.genes);
    if w.genes.submap_of(t.genes) {
        vstd::map_lib::lemma_submap_of_trans(v1.genes, w.genes, t.genes);
    }
    assert(w.log.subrange(0, v.log.len() as int) =~= v.log) by {
        assert(w.log.subrange(0, v1.log.len() as int).subrange(0, v.log.len() as int) =~= w.log.subrange(0, v.log.len() as int));
    }
    let t1 = replayed(v, v1, t);
    assert(t1.log + w.log.subrange(v1.log.len() as int, w.log.len() as int) =~= t.log + w.log.subrange(v.log.len() as int, w.log.len() as int)) by {
        assert(v1.log.subrange(v.log.len() as int, v1.log.len() as int) =~= w.log.subrange(v.log.len() as int, v1.log.len() as int));
    }
}

/// A single draw replays.
pub proof fn lemma_replay_after_draw(v: DnaView, t: DnaView, h: u64, p: ParameterView)
    requires
        aligned(v, t),
    ensures
        grows(v, after_draw(v, h, p)),
        after_draw(v, h, p).genes.submap_of(t.genes) ==> read_value(t, h) == read_value(v, h)
            && after_draw(t, h, p) == replayed(v, after_draw(v, h, p), t),
{
    let w = after_draw(v, h, p);
    lemma_after_read_keeps(v, h);
    lemma_after_read_keeps(t, h);
    if v.interactive {
        assert(w.log.subrange(0, v.log.len() as int) =~= v.log);
        assert(w.log.subrange(v.log.len() as int, w.log.len() as int) =~= seq![p]);
    } else {
        assert(w.log.subrange(0, v.log.len() as int) =~= v.log);
        assert(w.log.subrange(v.log.len() as int, w.log.len() as int) =~= Seq::<ParameterView>::empty());
    }
    if w.genes.submap_of(t.genes) {
        assert(t.genes.contains_key(h));
        let r = after_draw(t, h, p);
        let q = replayed(v, w, t);
        if v.interactive {
            assert(r.log =~= q.log);
        } else {
            assert(r.log =~= q.log);
        }
    }
}

/// A full-range draw replays.
pub proof fn lemma_replay_u32(v: DnaView, t: DnaView, name: Seq<char>)
    requires
        aligned(v, t),
    ensures
        replays(v, u32_draw(v, name), t, u32_draw(t, name)),
{
    reveal(u32_draw);
    let h = parameter_hash(v.address, name);
    let x = read_value(v, h);
    lemma_replay_after_draw(v, t, h, ordered_record(v, name, x as nat, u32::MAX, x));
}

/// A ranged draw replays.
pub proof fn lemma_replay_u32_in(v: DnaView, t: DnaView, name: Seq<char>, min: u32, max: u32)
    requires
        aligned(v, t),
    ensures
        replays(v, u32_in_draw(v, name, min, max), t, u32_in_draw(t, name, min, max)),
{
    reveal(u32_in_draw);
    let h = parameter_hash(v.address, name);
    let x = (read_value(v, h) % (max - min + 1) as u32) as u32;
    lemma_replay_after_draw(v, t, h, ordered_record(v, name, (x + min) as nat, (max - min) as u32, x));
}

/// A raw draw replays.
pub proof fn lemma_replay_raw(v: DnaView, t: DnaView, name: Seq<char>)
    requires
        aligned(v, t),
    ensures
        replays(v, raw_draw(v, name), t, raw_draw(t, name)),
{
    reveal(raw_draw);
    let h = parameter_hash(v.address, name);
    let x = read_value(v, h);
    lemma_replay_after_draw(v, t, h, ordered_record(v, name, x as nat, u32::MAX, x));
}

/// A categorical draw replays.
pub proof fn lemma_replay_pick(v: DnaView, t: DnaView, name: Seq<char>, cs: Seq<(u32, &'static str)>)
    requires
        aligned(v, t),
    ensures
        replays(v, pick_draw(v, name, cs), t, pick_draw(t, name, cs)),
{
    reveal(index_draw);
    let w = crate::dna::weights_of(cs);
    let labels = crate::dna::labels_of(cs);
    let h = parameter_hash(v.address, name);
    let i = crate::dna::pick(w, read_value(v, h));
    let p = ParameterView {
        kind: ParameterKind::Categorical,
        name,
        value: labels[i as int],
        address: v.address,
        maximum: (w.len() - 1) as u32,
        raw: i as u32,
        hash: h,
        choices: crate::dna::positive_labels(w, labels),
    };
    lemma_replay_after_draw(v, t, h, p);
}

/// Moving down, up, or into a fresh branch replays.
pub proof fn lemma_replay_moves(v: DnaView, t: DnaView)
    requires
        aligned(v, t),
    ensures
        grows(v, grouped(v)),
        grouped(t) == replayed(v, grouped(v), t),
        grows(v, ungrouped(v)),
        ungrouped(t) == replayed(v, ungrouped(v), t),
        grows(v, descended(v)),
        descended(t) == replayed(v, descended(v), t),
{
    lemma_grows_refl(v);
    assert(grouped(v).log == v.log);
    assert(t.log + v.log.subrange(v.log.len() as int, v.log.len() as int) =~= t.log);
}


/// A metric draw replays.
pub proof fn lemma_replay_metric(v: DnaView, t: DnaView, name: Seq<char>)
    requires
        aligned(v, t),
    ensures
        replays(v, metric_spec(v, name), t, metric_spec(t, name)),
{
    lemma_replay_pick(v, t, name, metric_types());
}

/// Ease draws replay.
pub proof fn lemma_replay_eases(v: DnaView, t: DnaView, name: Seq<char>)
    requires
        aligned(v, t),
    ensures
        replays(v, ease_spec(v, name), t, ease_spec(t, name)),
        replays(v, ease_smooth_spec(v, name), t, ease_smooth_spec(t, name)),
        replays(v, ease_voronoi_spec(v, name), t, ease_voronoi_spec(t, name)),
{
    lemma_replay_pick(v, t, name, ease_types());
    lemma_replay_pick(v, t, name, ease_smooth_types());
    lemma_replay_pick(v, t, name, ease_voronoi_types());
}

/// An optional magnitude replays.
pub proof fn lemma_replay_option(v: DnaView, t: DnaView, name: Seq<char>, magnitude: Seq<char>)
    requires
        aligned(v, t),
    ensures
        replays(v, option_spec(v, name, magnitude), t, option_spec(t, name, magnitude)),
{
    lemma_replay_moves(v, t);
    let d = descended(v);
    let (o, x1) = pick_draw(d, name, on_off(333, 666));
    lemma_replay_pick(d, replayed(v, d, t), name, on_off(333, 666));
    lemma_chain(v, d, x1, t);
    let x2 = if o == 0 {
        let (x, y) = raw_draw(x1, magnitude);
        lemma_replay_raw(x1, replayed(v, x1, t), magnitude);
        lemma_chain(v, x1, y, t);
        y
    } else {
        lemma_grows_refl(x1);
        x1
    };
    lemma_replay_moves(x2, replayed(v, x2, t));
    lemma_chain(v, x2, ungrouped(x2), t);
}

/// A node replays.
pub proof fn lemma_replay_gen(c: i64, is_fractal: bool, depth: nat, v: DnaView, t: DnaView)
    requires
        aligned(v, t),
    ensures
        replays(v, gen_spec(c, is_fractal, depth, v), t, gen_spec(c, is_fractal, depth, t)),
    decreases depth, 1nat,
{
    let cs = node_types(c, is_fractal, depth);
    let (k, v1) = pick_draw(v, "node type"@, cs);
    lemma_replay_pick(v, t, "node type"@, cs);
    let v2 = grouped(v1);
    lemma_replay_moves(v1, replayed(v, v1, t));
    lemma_chain(v, v1, v2, t);
    let t2 = replayed(v, v2, t);
    let (n, v3) = if k == 0 || depth == 0 {
        lemma_replay_basis(is_fractal, v2, t2);
        basis_spec(is_fractal, v2)
    } else if k == 1 {
        lemma_replay_unary(child_complexity(c), is_fractal, (depth - 1) as nat, v2, t2);
        unary_spec(child_complexity(c), is_fractal, (depth - 1) as nat, v2)
    } else if k == 2 {
        lemma_replay_binary(child_complexity(c), is_fractal, (depth - 1) as nat, v2, t2);
        binary_spec(child_complexity(c), is_fractal, (depth - 1) as nat, v2)
    } else {
        lemma_replay_fractal(fractal_child_complexity(c), (depth - 1) as nat, v2, t2);
        fractal_spec(fractal_child_complexity(c), (depth - 1) as nat, v2)
    };
    lemma_chain(v, v2, v3, t);
    lemma_replay_moves(v3, replayed(v, v3, t));
    lemma_chain(v, v3, ungrouped(v3), t);
}

/// A child in a fresh branch replays.
pub proof fn lemma_replay_branch(c: i64, is_fractal: bool, depth: nat, v: DnaView, t: DnaView)
    requires
        aligned(v, t),
    ensures
        replays(v, branch_spec(c, is_fractal, depth, v), t, branch_spec(c, is_fractal, depth, t)),
    decreases depth, 2nat,
{
    lemma_replay_moves(v, t);
    let d = descended(v);
    lemma_replay_gen(c, is_fractal, depth, d, replayed(v, d, t));
    let (n, w) = gen_spec(c, is_fractal, depth, d);
    lemma_chain(v, d, w, t);
    lemma_replay_moves(w, replayed(v, w, t));
    lemma_chain(v, w, ungrouped(w), t);
}

/// A leaf replays.
pub proof fn lemma_replay_basis(is_fractal: bool, v: DnaView, t: DnaView)
    requires
        aligned(v, t),
    ensures
        replays(v, basis_spec(is_fractal, v), t, basis_spec(is_fractal, t)),
{
    let (seed, v1) = u32_draw(v, "seed"@);
    lemma_replay_u32(v, t, "seed"@);
    let v2 = if is_fractal {
        lemma_grows_refl(v1);
        v1
    } else {
        let (x, w) = raw_draw(v1, "frequency"@);
        lemma_replay_raw(v1, replayed(v, v1, t), "frequency"@);
        lemma_chain(v, v1, w, t);
        w
    };
    lemma_chain(v, v1, v2, t);
    let (b, v3) = pick_draw(v2, "basis"@, basis_types());
    lemma_replay_pick(v2, replayed(v, v2, t), "basis"@, basis_types());
    lemma_chain(v, v2, v3, t);
    let g = grouped(v3);
    lemma_replay_moves(v3, replayed(v, v3, t));
    lemma_chain(v, v3, g, t);
    if b == 0 {
    } else if b == 1 {
        let (e, w) = ease_smooth_spec(g, "noise ease"@);
        lemma_replay_eases(g, replayed(v, g, t), "noise ease"@);
        lemma_chain(v, g, w, t);
        lemma_replay_moves(w, replayed(v, w, t));
        lemma_chain(v, w, ungrouped(w), t);
    } else if b == 2 {
        let (px, w1) = u32_in_draw(g, "Voronoi X pattern"@, 0, 25);
        lemma_replay_u32_in(g, replayed(v, g, t), "Voronoi X pattern"@, 0, 25);
        lemma_chain(v, g, w1, t);
        let (py, w2) = u32_in_draw(w1, "Voronoi Y pattern"@, 0, 25);
        lemma_replay_u32_in(w1, replayed(v, w1, t), "Voronoi Y pattern"@, 0, 25);
        lemma_chain(v, w1, w2, t);
        let (pz, w3) = u32_in_draw(w2, "Voronoi Z pattern"@, 0, 25);
        lemma_replay_u32_in(w2, replayed(v, w2, t), "Voronoi Z pattern"@, 0, 25);
        lemma_chain(v, w2, w3, t);
        let (e, w4) = ease_voronoi_spec(w3, "Voronoi ease"@);
        lemma_replay_eases(w3, replayed(v, w3, t), "Voronoi ease"@);
        lemma_chain(v, w3, w4, t);
        let (m, w5) = metric_spec(w4, "distance metric"@);
        lemma_replay_metric(w4, replayed(v, w4, t), "distance metric"@);
        lemma_chain(v, w4, w5, t);
        lemma_replay_moves(w5, replayed(v, w5, t));
        lemma_chain(v, w5, ungrouped(w5), t);
    } else {
        let d = descended(g);
        lemma_replay_moves(g, replayed(v, g, t));
        lemma_chain(v, g, d, t);
        let (o, x1) = pick_draw(d, "border"@, on_off(500, 500));
        lemma_replay_pick(d, replayed(v, d, t), "border"@, on_off(500, 500));
        lemma_chain(v, d, x1, t);
        let x2 = if o == 0 {
            let (bw, y) = raw_draw(x1, "border width"@);
            lemma_replay_raw(x1, replayed(v, x1, t), "border width"@);
            lemma_chain(v, x1, y, t);
            y
        } else {
            lemma_grows_refl(x1);
            x1
        };
        let u = ungrouped(x2);
        lemma_replay_moves(x2, replayed(v, x2, t));
        lemma_chain(v, x2, u, t);
        let (sh, w1) = raw_draw(u, "camo sharpness"@);
        lemma_replay_raw(u, replayed(v, u, t), "camo sharpness"@);
        lemma_chain(v, u, w1, t);
        let (gr, w2) = raw_draw(w1, "camo gradient"@);
        lemma_replay_raw(w1, replayed(v, w1, t), "camo gradient"@);
        lemma_chain(v, w1, w2, t);
        let (e, w3) = ease_smooth_spec(w2, "camo ease"@);
        lemma_replay_eases(w2, replayed(v, w2, t), "camo ease"@);
        lemma_chain(v, w2, w3, t);
        let (m, w4) = metric_spec(w3, "distance metric"@);
        lemma_replay_metric(w3, replayed(v, w3, t), "distance metric"@);
        lemma_chain(v, w3, w4, t);
        lemma_replay_moves(w4, replayed(v, w4, t));
        lemma_chain(v, w4, ungrouped(w4), t);
    }
}

/// A unary operator replays.
pub proof fn lemma_replay_unary(c: i64, is_fractal: bool, depth: nat, v: DnaView, t: DnaView)
    requires
        aligned(v, t),
    ensures
        replays(v, unary_spec(c, is_fractal, depth, v), t, unary_spec(c, is_fractal, depth, t)),
    decreases depth, 3nat,
{
    let (k, v1) = pick_draw(v, "unary node"@, unary_types());
    lemma_replay_pick(v, t, "unary node"@, unary_types());
    let w = grouped(v1);
    lemma_replay_moves(v1, replayed(v, v1, t));
    lemma_chain(v, v1, w, t);
    if k == 0 {
        let (_, w1) = raw_draw(w, "amount"@);
        lemma_replay_raw(w, replayed(v, w, t), "amount"@);
        lemma_chain(v, w, w1, t);
        let (_, w2) = branch_spec(c, is_fractal, depth, w1);
        lemma_replay_branch(c, is_fractal, depth, w1, replayed(v, w1, t));
        lemma_chain(v, w1, w2, t);
        lemma_replay_moves(w2, replayed(v, w2, t));
        lemma_chain(v, w2, ungrouped(w2), t);
    } else if k == 1 {
        let (_, w1) = raw_draw(w, "levels"@);
        lemma_replay_raw(w, replayed(v, w, t), "levels"@);
        lemma_chain(v, w, w1, t);
        let (_, w2) = raw_draw(w1, "sharpness"@);
        lemma_replay_raw(w1, replayed(v, w1, t), "sharpness"@);
        lemma_chain(v, w1, w2, t);
        let (_, w3) = branch_spec(c, is_fractal, depth, w2);
        lemma_replay_branch(c, is_fractal, depth, w2, replayed(v, w2, t));
        lemma_chain(v, w2, w3, t);
        lemma_replay_moves(w3, replayed(v, w3, t));
        lemma_chain(v, w3, ungrouped(w3), t);
    } else if k == 2 {
        let (_, w1) = raw_draw(w, "amount"@);
        lemma_replay_raw(w, replayed(v, w, t), "amount"@);
        lemma_chain(v, w, w1, t);
        let (_, w2) = branch_spec(c, is_fractal, depth, w1);
        lemma_replay_branch(c, is_fractal, depth, w1, replayed(v, w1, t));
        lemma_chain(v, w1, w2, t);
        lemma_replay_moves(w2, replayed(v, w2, t));
        lemma_chain(v, w2, ungrouped(w2), t);
    } else if k == 3 {
        let (_, w1) = raw_draw(w, "amount"@);
        lemma_replay_raw(w, replayed(v, w, t), "amount"@);
        lemma_chain(v, w, w1, t);
        let (_, w2) = branch_spec(c, is_fractal, depth, w1);
        lemma_replay_branch(c, is_fractal, depth, w1, replayed(v, w1, t));
        lemma_chain(v, w1, w2, t);
        lemma_replay_moves(w2, replayed(v, w2, t));
        lemma_chain(v, w2, ungrouped(w2), t);
    } else if k == 4 {
        let (_, w1) = raw_draw(w, "amount"@);
        lemma_replay_raw(w, replayed(v, w, t), "amount"@);
        lemma_chain(v, w, w1, t);
        let (_, w2) = raw_draw(w1, "X offset"@);
        lemma_replay_raw(w1, replayed(v, w1, t), "X offset"@);
        lemma_chain(v, w1, w2, t);
        let (_, w3) = raw_draw(w2, "Y offset"@);
        lemma_replay_raw(w2, replayed(v, w2, t), "Y offset"@);
        lemma_chain(v, w2, w3, t);
        let (_, w4) = raw_draw(w3, "Z offset"@);
        lemma_replay_raw(w3, replayed(v, w3, t), "Z offset"@);
        lemma_chain(v, w3, w4, t);
        let (_, w5) = branch_spec(c, is_fractal, depth, w4);
        lemma_replay_branch(c, is_fractal, depth, w4, replayed(v, w4, t));
        lemma_chain(v, w4, w5, t);
        lemma_replay_moves(w5, replayed(v, w5, t));
        lemma_chain(v, w5, ungrouped(w5), t);
    } else {
        let (_, w1) = u32_draw(w, "seed"@);
        lemma_replay_u32(w, replayed(v, w, t), "seed"@);
        lemma_chain(v, w, w1, t);
        let (_, w2) = branch_spec(c, is_fractal, depth, w1);
        lemma_replay_branch(c, is_fractal, depth, w1, replayed(v, w1, t));
        lemma_chain(v, w1, w2, t);
        lemma_replay_moves(w2, replayed(v, w2, t));
        lemma_chain(v, w2, ungrouped(w2), t);
    }
}

/// A binary operator replays.
pub proof fn lemma_replay_binary(c: i64, is_fractal: bool, depth: nat, v: DnaView, t: DnaView)
    requires
        aligned(v, t),
    ensures
        replays(v, binary_spec(c, is_fractal, depth, v), t, binary_spec(c, is_fractal, depth, t)),
    decreases depth, 3nat,
{
    let (k, v1) = pick_draw(v, "binary node"@, binary_types());
    lemma_replay_pick(v, t, "binary node"@, binary_types());
    let w = grouped(v1);
    lemma_replay_moves(v1, replayed(v, v1, t));
    lemma_chain(v, v1, w, t);
    if k == 0 {
        let (_, w1) = raw_draw(w, "amount"@);
        lemma_replay_raw(w, replayed(v, w, t), "amount"@);
        lemma_chain(v, w, w1, t);
        let (_, w2) = branch_spec(c, is_fractal, depth, w1);
        lemma_replay_branch(c, is_fractal, depth, w1, replayed(v, w1, t));
        lemma_chain(v, w1, w2, t);
        let (_, w3) = branch_spec(c, is_fractal, depth, w2);
        lemma_replay_branch(c, is_fractal, depth, w2, replayed(v, w2, t));
        lemma_chain(v, w2, w3, t);
        lemma_replay_moves(w3, replayed(v, w3, t));
        lemma_chain(v, w3, ungrouped(w3), t);
    } else if k == 1 {
        let (_, w1) = raw_draw(w, "amount"@);
        lemma_replay_raw(w, replayed(v, w, t), "amount"@);
        lemma_chain(v, w, w1, t);
        let (_, w2) = raw_draw(w1, "displacement"@);
        lemma_replay_raw(w1, replayed(v, w1, t), "displacement"@);
        lemma_chain(v, w1, w2, t);
        let (_, w3) = branch_spec(c, is_fractal, depth, w2);
        lemma_replay_branch(c, is_fractal, depth, w2, replayed(v, w2, t));
        lemma_chain(v, w2, w3, t);
        let (_, w4) = branch_spec(c, is_fractal, depth, w3);
        lemma_replay_branch(c, is_fractal, depth, w3, replayed(v, w3, t));
        lemma_chain(v, w3, w4, t);
        lemma_replay_moves(w4, replayed(v, w4, t));
        lemma_chain(v, w4, ungrouped(w4), t);
    } else if k == 2 {
        let (_, w1) = raw_draw(w, "width"@);
        lemma_replay_raw(w, replayed(v, w, t), "width"@);
        lemma_chain(v, w, w1, t);
        let (_, w2) = ease_spec(w1, "layer ease"@);
        lemma_replay_eases(w1, replayed(v, w1, t), "layer ease"@);
        lemma_chain(v, w1, w2, t);
        let (_, w3) = branch_spec(c, is_fractal, depth, w2);
        lemma_replay_branch(c, is_fractal, depth, w2, replayed(v, w2, t));
        lemma_chain(v, w2, w3, t);
        let (_, w4) = branch_spec(c, is_fractal, depth, w3);
        lemma_replay_branch(c, is_fractal, depth, w3, replayed(v, w3, t));
        lemma_chain(v, w3, w4, t);
        lemma_replay_moves(w4, replayed(v, w4, t));
        lemma_chain(v, w4, ungrouped(w4), t);
    } else {
        let (_, w1) = raw_draw(w, "amount"@);
        lemma_replay_raw(w, replayed(v, w, t), "amount"@);
        lemma_chain(v, w, w1, t);
        let (_, w2) = branch_spec(c, is_fractal, depth, w1);
        lemma_replay_branch(c, is_fractal, depth, w1, replayed(v, w1, t));
        lemma_chain(v, w1, w2, t);
        let (_, w3) = branch_spec(c, is_fractal, depth, w2);
        lemma_replay_branch(c, is_fractal, depth, w2, replayed(v, w2, t));
        lemma_chain(v, w2, w3, t);
        lemma_replay_moves(w3, replayed(v, w3, t));
        lemma_chain(v, w3, ungrouped(w3), t);
    }
}

/// A fractal replays.
pub proof fn lemma_replay_fractal(c: i64, depth: nat, v: DnaView, t: DnaView)
    requires
        aligned(v, t),
    ensures
        replays(v, fractal_spec(c, depth, v), t, fractal_spec(c, depth, t)),
    decreases depth, 3nat,
{
    lemma_grows_refl(v);
    let w = v;
        let (_, w1) = raw_draw(w, "base frequency"@);
        lemma_replay_raw(w, replayed(v, w, t), "base frequency"@);
        lemma_chain(v, w, w1, t);
        let (_, w2) = raw_draw(w1, "roughness"@);
        lemma_replay_raw(w1, replayed(v, w1, t), "roughness"@);
        lemma_chain(v, w1, w2, t);
        let (octaves, w3) = u32_in_draw(w2, "octaves"@, 2, 10);
        lemma_replay_u32_in(w2, replayed(v, w2, t), "octaves"@, 2, 10);
        lemma_chain(v, w2, w3, t);
        let (_, w4) = u32_in_draw(w3, "first octave"@, 0, (octaves - 1) as u32);
        lemma_replay_u32_in(w3, replayed(v, w3, t), "first octave"@, 0, (octaves - 1) as u32);
        lemma_chain(v, w3, w4, t);
        let (_, w5) = raw_draw(w4, "lacunarity"@);
        lemma_replay_raw(w4, replayed(v, w4, t), "lacunarity"@);
        lemma_chain(v, w4, w5, t);
        let (_, w6) = option_spec(w5, "displace"@, "amount"@);
        lemma_replay_option(w5, replayed(v, w5, t), "displace"@, "amount"@);
        lemma_chain(v, w5, w6, t);
        let (_, w7) = option_spec(w6, "layer"@, "width"@);
        lemma_replay_option(w6, replayed(v, w6, t), "layer"@, "width"@);
        lemma_chain(v, w6, w7, t);
        let (_, w8) = branch_spec(c, true, depth, w7);
        lemma_replay_branch(c, true, depth, w7, replayed(v, w7, t));
        lemma_chain(v, w7, w8, t);
}

/// A palette replays.
pub proof fn lemma_replay_palette(c: i64, v: DnaView, t: DnaView)
    requires
        aligned(v, t),
    ensures
        replays(v, palette_spec(c, v), t, palette_spec(c, t)),
{
    lemma_grows_refl(v);
    let w = v;
        let (_, w1) = raw_draw(w, "hue 1"@);
        lemma_replay_raw(w, replayed(v, w, t), "hue 1"@);
        lemma_chain(v, w, w1, t);
        let (_, w2) = raw_draw(w1, "saturation 1"@);
        lemma_replay_raw(w1, replayed(v, w1, t), "saturation 1"@);
        lemma_chain(v, w1, w2, t);
        let (_, w3) = raw_draw(w2, "lightness 1"@);
        lemma_replay_raw(w2, replayed(v, w2, t), "lightness 1"@);
        lemma_chain(v, w2, w3, t);
        let (_, w4) = raw_draw(w3, "hue 2"@);
        lemma_replay_raw(w3, replayed(v, w3, t), "hue 2"@);
        lemma_chain(v, w3, w4, t);
        let (_, w5) = raw_draw(w4, "saturation 2"@);
        lemma_replay_raw(w4, replayed(v, w4, t), "saturation 2"@);
        lemma_chain(v, w4, w5, t);
        let (_, w6) = raw_draw(w5, "lightness 2"@);
        lemma_replay_raw(w5, replayed(v, w5, t), "lightness 2"@);
        lemma_chain(v, w5, w6, t);
        let (_, w7) = raw_draw(w6, "hue 3"@);
        lemma_replay_raw(w6, replayed(v, w6, t), "hue 3"@);
        lemma_chain(v, w6, w7, t);
        let (_, w8) = raw_draw(w7, "saturation 3"@);
        lemma_replay_raw(w7, replayed(v, w7, t), "saturation 3"@);
        lemma_chain(v, w7, w8, t);
        let (_, w9) = raw_draw(w8, "lightness 3"@);
        lemma_replay_raw(w8, replayed(v, w8, t), "lightness 3"@);
        lemma_chain(v, w8, w9, t);
        let (_, w10) = gen_spec(c, false, MAX_DEPTH as nat, w9);
        lemma_replay_gen(c, false, MAX_DEPTH as nat, w9, replayed(v, w9, t));
        lemma_chain(v, w9, w10, t);
}


/// Regenerating after a reset gives the same tree and the same parameter log,
/// in the same order, and leaves the chromosome and the random source as the
/// first pass left them: the second pass reads every gene it needs and draws
/// nothing.
pub proof fn lemma_reset_stability(c: i64, v: DnaView)
    requires
        v.address == seq![0u32],
        v.log == Seq::<ParameterView>::empty(),
    ensures
        ({
            let (n1, v1) = gen_spec(c, false, MAX_DEPTH as nat, v);
            let reset = DnaView { address: seq![0u32], log: Seq::empty(), ..v1 };
            gen_spec(c, false, MAX_DEPTH as nat, reset) == (n1, v1)
        }),
{
    let (n1, v1) = gen_spec(c, false, MAX_DEPTH as nat, v);
    let reset = DnaView { address: seq![0u32], log: Seq::empty(), ..v1 };
    lemma_replay_gen(c, false, MAX_DEPTH as nat, v, v);
    lemma_replay_gen(c, false, MAX_DEPTH as nat, v, reset);
    assert(reset.log + v1.log.subrange(0, v1.log.len() as int) =~= v1.log);
}

} // verus!
