//! Following a pass's choices: a genome that holds the raw value of every
//! categorical parameter of an earlier pass, and any values at all for its
//! ordered parameters, makes the same choices at the same addresses.
use crate::dna::{
    after_draw, fresh_genome, grouped, index_draw, labels_of as labels_of_choices, lemma_after_read_keeps,
    ordered_record, parameter_hash, pick, positive_labels, raw_draw, read_value, roulette,
    u32_draw, u32_in_draw, ungrouped, weight_sum, weights_of, DnaView, ParameterKind,
    ParameterView,
};
use crate::map3gen::{
    basis_spec, basis_types, binary_spec, binary_types, branch_spec, child_complexity, descended,
    ease_smooth_spec, ease_smooth_types, ease_spec, ease_types, ease_voronoi_spec,
    ease_voronoi_types, fractal_child_complexity, fractal_spec, gen_spec, metric_spec,
    metric_types, node_types, on_off, option_spec, palette_spec, pick_draw, unary_spec,
    unary_types, Node, MAX_DEPTH,
};
use crate::replay::{
    aligned, grows, lemma_replay_basis, lemma_replay_binary, lemma_replay_branch,
    lemma_replay_fractal, lemma_replay_gen, lemma_replay_option, lemma_replay_pick,
    lemma_replay_raw, lemma_replay_u32, lemma_replay_u32_in, lemma_replay_unary,
};
use crate::mutation::{distinct_records, finetune_of, lemma_finetune_containment, PROBABILITY_ONE};
use crate::rnd::Rnd;
use vstd::prelude::*;

verus! {

broadcast use vstd::map_lib::lemma_submap_of_trans;

/// The categorical records of a log, in order.
pub open spec fn choices_of(log: Seq<ParameterView>) -> Seq<ParameterView>
    decreases log.len(),
{
    if log.len() == 0 {
        Seq::empty()
    } else {
        let r = choices_of(log.drop_last());
        if log.last().kind == ParameterKind::Categorical {
            r.push(log.last())
        } else {
            r
        }
    }
}

/// The records that a pass from `v` to `w` adds to the log.
pub open spec fn added(v: DnaView, w: DnaView) -> Seq<ParameterView> {
    w.log.subrange(v.log.len() as int, w.log.len() as int)
}

/// `t` holds the raw value of every categorical record that the pass from
/// `v` to `w` adds.
#[verifier::opaque]
pub open spec fn knows(v: DnaView, w: DnaView, t: DnaView) -> bool {
    forall|i: int|
        v.log.len() <= i < w.log.len() && w.log[i].kind == ParameterKind::Categorical ==> t.genes.contains_key(
            #[trigger] w.log[i].hash,
        ) && t.genes[w.log[i].hash] == w.log[i].raw
}

/// The pass from `t` to `tw` follows the pass from `v` to `w`: it ends at the
/// same address, grows `t`, and adds the same categorical records.
#[verifier::opaque]
pub open spec fn follows(v: DnaView, w: DnaView, t: DnaView, tw: DnaView) -> bool {
    &&& tw.address == w.address
    &&& grows(t, tw)
    &&& choices_of(added(t, tw)) == choices_of(added(v, w))
}

/// The categorical records of two logs in a row.
pub proof fn lemma_choices_concat(a: Seq<ParameterView>, b: Seq<ParameterView>)
    ensures
        choices_of(a + b) == choices_of(a) + choices_of(b),
    decreases b.len(),
{
    if b.len() == 0 {
        assert(a + b =~= a);
        assert(choices_of(a) + choices_of(b) =~= choices_of(a));
    } else {
        lemma_choices_concat(a, b.drop_last());
        assert((a + b).drop_last() =~= a + b.drop_last());
        if b.last().kind == ParameterKind::Categorical {
            assert(choices_of(a) + choices_of(b.drop_last()).push(b.last()) =~= (choices_of(a) + choices_of(b.drop_last())).push(b.last()));
        }
    }
}

/// Splitting a pass in two splits what it adds.
pub proof fn lemma_added_split(v: DnaView, v1: DnaView, w: DnaView)
    requires
        grows(v, v1),
        grows(v1, w),
    ensures
        added(v, w) == added(v, v1) + added(v1, w),
        choices_of(added(v, w)) == choices_of(added(v, v1)) + choices_of(added(v1, w)),
{
    assert(added(v, v1) =~= w.log.subrange(v.log.len() as int, v1.log.len() as int)) by {
        assert(w.log.subrange(0, v1.log.len() as int) == v1.log);
        assert forall|i: int| 0 <= i < v1.log.len() - v.log.len() implies added(v, v1)[i] == w.log[v.log.len() + i] by {
            assert(w.log.subrange(0, v1.log.len() as int)[v.log.len() + i] == w.log[v.log.len() + i]);
        }
    }
    assert(added(v, w) =~= added(v, v1) + added(v1, w));
    lemma_choices_concat(added(v, v1), added(v1, w));
}

/// Two passes in a row that each follow their counterpart.
pub proof fn lemma_follow_chain(v: DnaView, v1: DnaView, w: DnaView, t: DnaView, t1: DnaView, tw: DnaView)
    requires
        grows(v, v1),
        grows(v1, w),
        follows(v, v1, t, t1),
        follows(v1, w, t1, tw),
    ensures
        follows(v, w, t, tw),
        grows(v, w),
        tw.address == w.address,
        grows(t, tw),
{
    reveal(follows);
    crate::replay::lemma_grows_chain(v, v1, w);
    crate::replay::lemma_grows_chain(t, t1, tw);
    lemma_added_split(v, v1, w);
    lemma_added_split(t, t1, tw);
}

/// What a pass knows, each of its parts knows.
pub proof fn lemma_knows_part(v: DnaView, vi: DnaView, vj: DnaView, w: DnaView, t: DnaView, ti: DnaView)
    requires
        grows(v, vi),
        grows(vi, vj),
        grows(vj, w),
        grows(t, ti),
        knows(v, w, t),
    ensures
        knows(vi, vj, ti),
{
    reveal(knows);
    crate::replay::lemma_grows_chain(vi, vj, w);
    crate::replay::lemma_grows_chain(v, vi, vj);
    assert forall|i: int|
        vi.log.len() <= i < vj.log.len() && vj.log[i].kind == ParameterKind::Categorical implies ti.genes.contains_key(
            #[trigger] vj.log[i].hash,
        ) && ti.genes[vj.log[i].hash] == vj.log[i].raw by {
        assert(w.log.subrange(0, vj.log.len() as int)[i] == w.log[i]);
        assert(vj.log[i] == w.log[i]);
    }
}

/// A raw value that the roulette or a direct index selected selects itself
/// again, when the first slot has weight.
pub proof fn lemma_pick_stable(w: Seq<u32>, value: u32)
    requires
        w.len() >= 1,
        w[0] > 0,
        w.len() < u32::MAX,
    ensures
        pick(w, pick(w, value) as u32) == pick(w, value),
        pick(w, value) < w.len(),
{
    let i = pick(w, value);
    if value < w.len() && w[value as int] > 0 {
    } else {
        lemma_roulette_positive(w, value, 0);
    }
}

/// The roulette stops on a slot of positive weight, or on slot zero.
proof fn lemma_roulette_positive(w: Seq<u32>, value: u32, i: nat)
    requires
        w.len() >= 1,
        w[0] > 0,
        i <= w.len(),
        i == 0 || value * weight_sum(w) > weight_sum(w.subrange(0, i as int)) * 0x1_0000_0000,
    ensures
        roulette(w, value, i) < w.len(),
        roulette(w, value, i) == 0 || w[roulette(w, value, i) as int] > 0,
    decreases w.len() - i,
{
    if i < w.len() {
        if value * weight_sum(w) <= weight_sum(w.subrange(0, i + 1 as int)) * 0x1_0000_0000 {
            assert(w.subrange(0, i + 1 as int).drop_last() =~= w.subrange(0, i as int));
            if i > 0 {
                assert(weight_sum(w.subrange(0, i + 1 as int)) == weight_sum(w.subrange(0, i as int)) + w[i as int]);
            }
        } else {
            lemma_roulette_positive(w, value, i + 1);
        }
    }
}

/// An ordered draw follows any ordered draw at the same address.
pub proof fn lemma_follow_ordered(v: DnaView, t: DnaView, h: u64, ht: u64, p: ParameterView, pt: ParameterView)
    requires
        aligned(v, t),
        p.kind == ParameterKind::Ordered,
        pt.kind == ParameterKind::Ordered,
    ensures
        follows(v, after_draw(v, h, p), t, after_draw(t, ht, pt)),
        grows(v, after_draw(v, h, p)),
{
    reveal(follows);
    crate::replay::lemma_replay_after_draw(v, v, h, p);
    crate::replay::lemma_replay_after_draw(t, t, ht, pt);
    let w = after_draw(v, h, p);
    let tw = after_draw(t, ht, pt);
    lemma_after_read_keeps(v, h);
    lemma_after_read_keeps(t, ht);
    if v.interactive {
        assert(added(v, w) =~= seq![p]);
        assert(added(t, tw) =~= seq![pt]);
        assert(choices_of(seq![p]) == choices_of(seq![p].drop_last()));
        assert(seq![p].drop_last() =~= Seq::<ParameterView>::empty());
        assert(choices_of(seq![pt]) == choices_of(seq![pt].drop_last()));
        assert(seq![pt].drop_last() =~= Seq::<ParameterView>::empty());
    } else {
        assert(added(v, w) =~= Seq::<ParameterView>::empty());
        assert(added(t, tw) =~= Seq::<ParameterView>::empty());
    }
}

/// A full-range draw follows.
pub proof fn lemma_follow_u32(v: DnaView, t: DnaView, name: Seq<char>)
    requires
        aligned(v, t),
    ensures
        follows(v, u32_draw(v, name).1, t, u32_draw(t, name).1),
        grows(v, u32_draw(v, name).1),
{
    reveal(u32_draw);
    let h = parameter_hash(v.address, name);
    let x = read_value(v, h);
    let xt = read_value(t, h);
    lemma_follow_ordered(v, t, h, h, ordered_record(v, name, x as nat, u32::MAX, x), ordered_record(t, name, xt as nat, u32::MAX, xt));
}

/// A raw draw follows.
pub proof fn lemma_follow_raw(v: DnaView, t: DnaView, name: Seq<char>)
    requires
        aligned(v, t),
    ensures
        follows(v, raw_draw(v, name).1, t, raw_draw(t, name).1),
        grows(v, raw_draw(v, name).1),
{
    reveal(raw_draw);
    let h = parameter_hash(v.address, name);
    let x = read_value(v, h);
    let xt = read_value(t, h);
    lemma_follow_ordered(v, t, h, h, ordered_record(v, name, x as nat, u32::MAX, x), ordered_record(t, name, xt as nat, u32::MAX, xt));
}

/// A ranged draw follows, whatever its range.
pub proof fn lemma_follow_u32_in(v: DnaView, t: DnaView, name: Seq<char>, min: u32, max: u32, tmin: u32, tmax: u32)
    requires
        aligned(v, t),
    ensures
        follows(v, u32_in_draw(v, name, min, max).1, t, u32_in_draw(t, name, tmin, tmax).1),
        grows(v, u32_in_draw(v, name, min, max).1),
{
    reveal(u32_in_draw);
    let h = parameter_hash(v.address, name);
    let x = (read_value(v, h) % (max - min + 1) as u32) as u32;
    let xt = (read_value(t, h) % (tmax - tmin + 1) as u32) as u32;
    lemma_follow_ordered(
        v,
        t,
        h,
        h,
        ordered_record(v, name, (x + min) as nat, (max - min) as u32, x),
        ordered_record(t, name, (xt + tmin) as nat, (tmax - tmin) as u32, xt),
    );
}

/// The record of a categorical draw.
pub open spec fn pick_record(v: DnaView, name: Seq<char>, cs: Seq<(u32, &'static str)>, i: nat) -> ParameterView {
    ParameterView {
        kind: ParameterKind::Categorical,
        name,
        value: labels_of_choices(cs)[i as int],
        address: v.address,
        maximum: (weights_of(cs).len() - 1) as u32,
        raw: i as u32,
        hash: parameter_hash(v.address, name),
        choices: positive_labels(weights_of(cs), labels_of_choices(cs)),
    }
}

/// A categorical draw as an update of the genome.
proof fn lemma_pick_unfold(v: DnaView, name: Seq<char>, cs: Seq<(u32, &'static str)>)
    ensures
        ({
            let h = parameter_hash(v.address, name);
            let i = pick(weights_of(cs), read_value(v, h));
            pick_draw(v, name, cs) == (i as u32, after_draw(v, h, pick_record(v, name, cs, i)))
        }),
{
    reveal(index_draw);
}

/// A categorical draw follows when `t` holds its raw value: it makes the
/// same choice and adds the same record.
pub proof fn lemma_follow_pick(v: DnaView, t: DnaView, name: Seq<char>, cs: Seq<(u32, &'static str)>)
    requires
        aligned(v, t),
        v.interactive,
        1 <= cs.len() < u32::MAX,
        cs[0].0 > 0,
    ensures
        grows(v, pick_draw(v, name, cs).1),
        knows(v, pick_draw(v, name, cs).1, t) ==> pick_draw(t, name, cs).0 == pick_draw(v, name, cs).0
            && follows(v, pick_draw(v, name, cs).1, t, pick_draw(t, name, cs).1),
{
    reveal(knows);
    reveal(follows);
    let w = weights_of(cs);
    let h = parameter_hash(v.address, name);
    let x = read_value(v, h);
    let i = pick(w, x);
    assert(w[0] == cs[0].0);
    lemma_pick_stable(w, x);
    let p = pick_record(v, name, cs, i);
    lemma_pick_unfold(v, name, cs);
    crate::replay::lemma_replay_after_draw(v, v, h, p);
    let vw = after_draw(v, h, p);
    lemma_after_read_keeps(v, h);
    assert(added(v, vw) =~= seq![p]);
    assert(vw.log[v.log.len() as int] == p);
    if knows(v, vw, t) {
        assert(vw.log.len() == v.log.len() + 1);
        assert(vw.log[v.log.len() as int].hash == h);
        assert(vw.log[v.log.len() as int].kind == ParameterKind::Categorical);
        lemma_follow_pick_known(v, t, name, cs, i);
    }
}

proof fn lemma_follow_pick_known(v: DnaView, t: DnaView, name: Seq<char>, cs: Seq<(u32, &'static str)>, i: nat)
    requires
        aligned(v, t),
        v.interactive,
        i < cs.len(),
        pick(weights_of(cs), i as u32) == i,
        i == pick(weights_of(cs), read_value(v, parameter_hash(v.address, name))),
        t.genes.contains_key(parameter_hash(v.address, name)),
        t.genes[parameter_hash(v.address, name)] == i as u32,
    ensures
        pick_draw(t, name, cs).0 == i as u32,
        follows(
            v,
            after_draw(v, parameter_hash(v.address, name), pick_record(v, name, cs, i)),
            t,
            pick_draw(t, name, cs).1,
        ),
{
    reveal(follows);
    let h = parameter_hash(v.address, name);
    let p = pick_record(v, name, cs, i);
    lemma_pick_unfold(t, name, cs);
    assert(read_value(t, h) == i as u32);
    assert(pick_record(t, name, cs, i) == p);
    crate::replay::lemma_replay_after_draw(t, t, h, p);
    crate::replay::lemma_replay_after_draw(v, v, h, p);
    lemma_after_read_keeps(t, h);
    lemma_after_read_keeps(v, h);
    let tw = after_draw(t, h, p);
    let vw = after_draw(v, h, p);
    assert(added(t, tw) =~= seq![p]);
    assert(added(v, vw) =~= seq![p]);
}


/// An optional raw value with the value itself left out.
pub open spec fn blank(o: Option<u32>) -> Option<u32> {
    match o {
        Some(_) => Some(0),
        None => None,
    }
}

/// The shape of a tree: its operators, eases, metrics and switches, with
/// every ordered raw value left out.
pub open spec fn shape(n: Node) -> Node
    decreases n,
{
    match n {
        Node::Noise { frequency, .. } => Node::Noise { seed: 0, frequency: blank(frequency) },
        Node::VNoise { frequency, ease, .. } => Node::VNoise { seed: 0, frequency: blank(frequency), ease },
        Node::Voronoi { frequency, ease, metric, .. } => Node::Voronoi {
            seed: 0,
            frequency: blank(frequency),
            pattern_x: 0,
            pattern_y: 0,
            pattern_z: 0,
            ease,
            metric,
        },
        Node::Camo { frequency, border, ease, metric, .. } => Node::Camo {
            seed: 0,
            frequency: blank(frequency),
            border: blank(border),
            sharpness: 0,
            gradient: 0,
            ease,
            metric,
        },
        Node::Saturate { child, .. } => Node::Saturate { amount: 0, child: Box::new(shape(*child)) },
        Node::Posterize { child, .. } => Node::Posterize { levels: 0, sharpness: 0, child: Box::new(shape(*child)) },
        Node::Overdrive { child, .. } => Node::Overdrive { amount: 0, child: Box::new(shape(*child)) },
        Node::VReflect { child, .. } => Node::VReflect { amount: 0, child: Box::new(shape(*child)) },
        Node::Reflect { child, .. } => Node::Reflect {
            amount: 0,
            x_offset: 0,
            y_offset: 0,
            z_offset: 0,
            child: Box::new(shape(*child)),
        },
        Node::Shift { child, .. } => Node::Shift { seed: 0, child: Box::new(shape(*child)) },
        Node::Rotate { a, b, .. } => Node::Rotate { amount: 0, a: Box::new(shape(*a)), b: Box::new(shape(*b)) },
        Node::Softmix { a, b, .. } => Node::Softmix {
            amount: 0,
            displacement: 0,
            a: Box::new(shape(*a)),
            b: Box::new(shape(*b)),
        },
        Node::Layer { ease, a, b, .. } => Node::Layer { width: 0, ease, a: Box::new(shape(*a)), b: Box::new(shape(*b)) },
        Node::Displace { a, b, .. } => Node::Displace { amount: 0, a: Box::new(shape(*a)), b: Box::new(shape(*b)) },
        Node::Fractal { displace, layer, child, .. } => Node::Fractal {
            base: 0,
            roughness: 0,
            octaves: 0,
            first_octave: 0,
            lacunarity: 0,
            displace: blank(displace),
            layer: blank(layer),
            child: Box::new(shape(*child)),
        },
        Node::Palette { child, .. } => Node::Palette { colors: [0, 0, 0, 0, 0, 0, 0, 0, 0], child: Box::new(shape(*child)) },
    }
}

/// Standing still follows standing still.
pub proof fn lemma_follow_refl(v: DnaView, t: DnaView)
    requires
        aligned(v, t),
    ensures
        follows(v, v, t, t),
        grows(v, v),
{
    reveal(follows);
    crate::replay::lemma_grows_refl(v);
    crate::replay::lemma_grows_refl(t);
    assert(added(v, v) =~= Seq::<ParameterView>::empty());
    assert(added(t, t) =~= Seq::<ParameterView>::empty());
}

/// Moves of the address follow each other.
pub proof fn lemma_follow_moves(v: DnaView, t: DnaView)
    requires
        aligned(v, t),
    ensures
        follows(v, grouped(v), t, grouped(t)),
        follows(v, ungrouped(v), t, ungrouped(t)),
        follows(v, descended(v), t, descended(t)),
{
    reveal(follows);
    crate::replay::lemma_replay_moves(v, v);
    crate::replay::lemma_replay_moves(t, t);
    assert(added(v, grouped(v)) =~= Seq::<ParameterView>::empty());
    assert(added(t, grouped(t)) =~= Seq::<ParameterView>::empty());
    assert(added(v, ungrouped(v)) =~= Seq::<ParameterView>::empty());
    assert(added(t, ungrouped(t)) =~= Seq::<ParameterView>::empty());
    assert(added(v, descended(v)) =~= Seq::<ParameterView>::empty());
    assert(added(t, descended(t)) =~= Seq::<ParameterView>::empty());
}

/// An optional magnitude follows: the same switch, and a magnitude if on.
pub proof fn lemma_follow_option(name: Seq<char>, magnitude: Seq<char>, v: DnaView, t: DnaView)
    requires
        aligned(v, t),
        v.interactive,
    ensures
        grows(v, option_spec(v, name, magnitude).1),
        knows(v, option_spec(v, name, magnitude).1, t) ==> blank(option_spec(t, name, magnitude).0) == blank(option_spec(v, name, magnitude).0) && follows(v, option_spec(v, name, magnitude).1, t, option_spec(t, name, magnitude).1),
{
    let v0 = v;
    let t0 = t;
    crate::replay::lemma_grows_refl(v0);
    crate::replay::lemma_grows_refl(t0);
    let v1 = descended(v0);
    crate::replay::lemma_replay_moves(v0, v0);
    let (x1, v2) = pick_draw(v1, name, on_off(333, 666));
    lemma_replay_pick(v1, v1, name, on_off(333, 666));
    if x1 == 0 {
        let (x2, v3) = raw_draw(v2, magnitude);
        lemma_replay_raw(v2, v2, magnitude);
        let v4 = ungrouped(v3);
        crate::replay::lemma_replay_moves(v3, v3);
        crate::replay::lemma_grows_chain(v0, v1, v2);
        crate::replay::lemma_grows_chain(v0, v2, v3);
        crate::replay::lemma_grows_chain(v0, v3, v4);
        crate::replay::lemma_grows_chain(v2, v3, v4);
        crate::replay::lemma_grows_chain(v1, v2, v4);
        crate::replay::lemma_grows_chain(v0, v1, v4);
        crate::replay::lemma_grows_refl(v4);
        if knows(v0, v4, t0) {
            lemma_follow_refl(v0, t0);
            let t1 = descended(t0);
            lemma_knows_part(v0, v0, v1, v4, t0, t0);
            lemma_follow_moves(v0, t0);
            lemma_follow_chain(v0, v0, v1, t0, t0, t1);
            let (y1, t2) = pick_draw(t1, name, on_off(333, 666));
            lemma_knows_part(v0, v1, v2, v4, t0, t1);
            lemma_follow_pick(v1, t1, name, on_off(333, 666));
            lemma_follow_chain(v0, v1, v2, t0, t1, t2);
            let (y2, t3) = raw_draw(t2, magnitude);
            lemma_knows_part(v0, v2, v3, v4, t0, t2);
            lemma_follow_raw(v2, t2, magnitude);
            lemma_follow_chain(v0, v2, v3, t0, t2, t3);
            let t4 = ungrouped(t3);
            lemma_knows_part(v0, v3, v4, v4, t0, t3);
            lemma_follow_moves(v3, t3);
            lemma_follow_chain(v0, v3, v4, t0, t3, t4);
        }
    } else {
        let v3 = ungrouped(v2);
        crate::replay::lemma_replay_moves(v2, v2);
        crate::replay::lemma_grows_chain(v0, v1, v2);
        crate::replay::lemma_grows_chain(v0, v2, v3);
        crate::replay::lemma_grows_chain(v1, v2, v3);
        crate::replay::lemma_grows_chain(v0, v1, v3);
        crate::replay::lemma_grows_refl(v3);
        if knows(v0, v3, t0) {
            lemma_follow_refl(v0, t0);
            let t1 = descended(t0);
            lemma_knows_part(v0, v0, v1, v3, t0, t0);
            lemma_follow_moves(v0, t0);
            lemma_follow_chain(v0, v0, v1, t0, t0, t1);
            let (y1, t2) = pick_draw(t1, name, on_off(333, 666));
            lemma_knows_part(v0, v1, v2, v3, t0, t1);
            lemma_follow_pick(v1, t1, name, on_off(333, 666));
            lemma_follow_chain(v0, v1, v2, t0, t1, t2);
            let t3 = ungrouped(t2);
            lemma_knows_part(v0, v2, v3, v3, t0, t2);
            lemma_follow_moves(v2, t2);
            lemma_follow_chain(v0, v2, v3, t0, t2, t3);
        }
    }
}

/// A child in a fresh branch follows.
pub proof fn lemma_follow_branch(c: i64, is_fractal: bool, depth: nat, v: DnaView, t: DnaView)
    requires
        aligned(v, t),
        v.interactive,
    ensures
        grows(v, branch_spec(c, is_fractal, depth, v).1),
        knows(v, branch_spec(c, is_fractal, depth, v).1, t) ==> shape(branch_spec(c, is_fractal, depth, t).0) == shape(branch_spec(c, is_fractal, depth, v).0) && follows(v, branch_spec(c, is_fractal, depth, v).1, t, branch_spec(c, is_fractal, depth, t).1),
    decreases depth, 2nat,
{
    let v0 = v;
    let t0 = t;
    crate::replay::lemma_grows_refl(v0);
    crate::replay::lemma_grows_refl(t0);
    let v1 = descended(v0);
    crate::replay::lemma_replay_moves(v0, v0);
    let (x1, v2) = gen_spec(c, is_fractal, depth, v1);
    lemma_replay_gen(c, is_fractal, depth, v1, v1);
    let v3 = ungrouped(v2);
    crate::replay::lemma_replay_moves(v2, v2);
    crate::replay::lemma_grows_chain(v0, v1, v2);
    crate::replay::lemma_grows_chain(v0, v2, v3);
    crate::replay::lemma_grows_chain(v1, v2, v3);
    crate::replay::lemma_grows_chain(v0, v1, v3);
    crate::replay::lemma_grows_refl(v3);
    if knows(v0, v3, t0) {
        lemma_follow_refl(v0, t0);
        let t1 = descended(t0);
        lemma_knows_part(v0, v0, v1, v3, t0, t0);
        lemma_follow_moves(v0, t0);
        lemma_follow_chain(v0, v0, v1, t0, t0, t1);
        let (y1, t2) = gen_spec(c, is_fractal, depth, t1);
        lemma_knows_part(v0, v1, v2, v3, t0, t1);
        lemma_follow_gen(c, is_fractal, depth, v1, t1);
        lemma_follow_chain(v0, v1, v2, t0, t1, t2);
        let t3 = ungrouped(t2);
        lemma_knows_part(v0, v2, v3, v3, t0, t2);
        lemma_follow_moves(v2, t2);
        lemma_follow_chain(v0, v2, v3, t0, t2, t3);
    }
}

/// A node follows: the same node type, and a family that follows.
pub proof fn lemma_follow_gen(c: i64, is_fractal: bool, depth: nat, v: DnaView, t: DnaView)
    requires
        aligned(v, t),
        v.interactive,
    ensures
        grows(v, gen_spec(c, is_fractal, depth, v).1),
        knows(v, gen_spec(c, is_fractal, depth, v).1, t) ==> shape(gen_spec(c, is_fractal, depth, t).0) == shape(gen_spec(c, is_fractal, depth, v).0) && follows(v, gen_spec(c, is_fractal, depth, v).1, t, gen_spec(c, is_fractal, depth, t).1),
    decreases depth, 1nat,
{
    let v0 = v;
    let t0 = t;
    crate::replay::lemma_grows_refl(v0);
    crate::replay::lemma_grows_refl(t0);
    let (x0, v1) = pick_draw(v0, "node type"@, node_types(c, is_fractal, depth));
    lemma_replay_pick(v0, v0, "node type"@, node_types(c, is_fractal, depth));
    let v2 = grouped(v1);
    crate::replay::lemma_replay_moves(v1, v1);
    if x0 == 0 || depth == 0 {
        let (x2, v3) = basis_spec(is_fractal, v2);
        lemma_replay_basis(is_fractal, v2, v2);
        let v4 = ungrouped(v3);
        crate::replay::lemma_replay_moves(v3, v3);
        crate::replay::lemma_grows_chain(v0, v1, v2);
        crate::replay::lemma_grows_chain(v0, v2, v3);
        crate::replay::lemma_grows_chain(v0, v3, v4);
        crate::replay::lemma_grows_chain(v2, v3, v4);
        crate::replay::lemma_grows_chain(v1, v2, v4);
        crate::replay::lemma_grows_chain(v0, v1, v4);
        crate::replay::lemma_grows_refl(v4);
        if knows(v0, v4, t0) {
            lemma_follow_refl(v0, t0);
            let (y0, t1) = pick_draw(t0, "node type"@, node_types(c, is_fractal, depth));
            lemma_knows_part(v0, v0, v1, v4, t0, t0);
            lemma_follow_pick(v0, t0, "node type"@, node_types(c, is_fractal, depth));
            lemma_follow_chain(v0, v0, v1, t0, t0, t1);
            let t2 = grouped(t1);
            lemma_knows_part(v0, v1, v2, v4, t0, t1);
            lemma_follow_moves(v1, t1);
            lemma_follow_chain(v0, v1, v2, t0, t1, t2);
            let (y2, t3) = basis_spec(is_fractal, t2);
            lemma_knows_part(v0, v2, v3, v4, t0, t2);
            lemma_follow_basis(is_fractal, v2, t2);
            lemma_follow_chain(v0, v2, v3, t0, t2, t3);
            let t4 = ungrouped(t3);
            lemma_knows_part(v0, v3, v4, v4, t0, t3);
            lemma_follow_moves(v3, t3);
            lemma_follow_chain(v0, v3, v4, t0, t3, t4);
        }
    } else if x0 == 1 {
        let (x2, v3) = unary_spec(child_complexity(c), is_fractal, (depth - 1) as nat, v2);
        lemma_replay_unary(child_complexity(c), is_fractal, (depth - 1) as nat, v2, v2);
        let v4 = ungrouped(v3);
        crate::replay::lemma_replay_moves(v3, v3);
        crate::replay::lemma_grows_chain(v0, v1, v2);
        crate::replay::lemma_grows_chain(v0, v2, v3);
        crate::replay::lemma_grows_chain(v0, v3, v4);
        crate::replay::lemma_grows_chain(v2, v3, v4);
        crate::replay::lemma_grows_chain(v1, v2, v4);
        crate::replay::lemma_grows_chain(v0, v1, v4);
        crate::replay::lemma_grows_refl(v4);
        if knows(v0, v4, t0) {
            lemma_follow_refl(v0, t0);
            let (y0, t1) = pick_draw(t0, "node type"@, node_types(c, is_fractal, depth));
            lemma_knows_part(v0, v0, v1, v4, t0, t0);
            lemma_follow_pick(v0, t0, "node type"@, node_types(c, is_fractal, depth));
            lemma_follow_chain(v0, v0, v1, t0, t0, t1);
            let t2 = grouped(t1);
            lemma_knows_part(v0, v1, v2, v4, t0, t1);
            lemma_follow_moves(v1, t1);
            lemma_follow_chain(v0, v1, v2, t0, t1, t2);
            let (y2, t3) = unary_spec(child_complexity(c), is_fractal, (depth - 1) as nat, t2);
            lemma_knows_part(v0, v2, v3, v4, t0, t2);
            lemma_follow_unary(child_complexity(c), is_fractal, (depth - 1) as nat, v2, t2);
            lemma_follow_chain(v0, v2, v3, t0, t2, t3);
            let t4 = ungrouped(t3);
            lemma_knows_part(v0, v3, v4, v4, t0, t3);
            lemma_follow_moves(v3, t3);
            lemma_follow_chain(v0, v3, v4, t0, t3, t4);
        }
    } else if x0 == 2 {
        let (x2, v3) = binary_spec(child_complexity(c), is_fractal, (depth - 1) as nat, v2);
        lemma_replay_binary(child_complexity(c), is_fractal, (depth - 1) as nat, v2, v2);
        let v4 = ungrouped(v3);
        crate::replay::lemma_replay_moves(v3, v3);
        crate::replay::lemma_grows_chain(v0, v1, v2);
        crate::replay::lemma_grows_chain(v0, v2, v3);
        crate::replay::lemma_grows_chain(v0, v3, v4);
        crate::replay::lemma_grows_chain(v2, v3, v4);
        crate::replay::lemma_grows_chain(v1, v2, v4);
        crate::replay::lemma_grows_chain(v0, v1, v4);
        crate::replay::lemma_grows_refl(v4);
        if knows(v0, v4, t0) {
            lemma_follow_refl(v0, t0);
            let (y0, t1) = pick_draw(t0, "node type"@, node_types(c, is_fractal, depth));
            lemma_knows_part(v0, v0, v1, v4, t0, t0);
            lemma_follow_pick(v0, t0, "node type"@, node_types(c, is_fractal, depth));
            lemma_follow_chain(v0, v0, v1, t0, t0, t1);
            let t2 = grouped(t1);
            lemma_knows_part(v0, v1, v2, v4, t0, t1);
            lemma_follow_moves(v1, t1);
            lemma_follow_chain(v0, v1, v2, t0, t1, t2);
            let (y2, t3) = binary_spec(child_complexity(c), is_fractal, (depth - 1) as nat, t2);
            lemma_knows_part(v0, v2, v3, v4, t0, t2);
            lemma_follow_binary(child_complexity(c), is_fractal, (depth - 1) as nat, v2, t2);
            lemma_follow_chain(v0, v2, v3, t0, t2, t3);
            let t4 = ungrouped(t3);
            lemma_knows_part(v0, v3, v4, v4, t0, t3);
            lemma_follow_moves(v3, t3);
            lemma_follow_chain(v0, v3, v4, t0, t3, t4);
        }
    } else {
        let (x2, v3) = fractal_spec(fractal_child_complexity(c), (depth - 1) as nat, v2);
        lemma_replay_fractal(fractal_child_complexity(c), (depth - 1) as nat, v2, v2);
        let v4 = ungrouped(v3);
        crate::replay::lemma_replay_moves(v3, v3);
        crate::replay::lemma_grows_chain(v0, v1, v2);
        crate::replay::lemma_grows_chain(v0, v2, v3);
        crate::replay::lemma_grows_chain(v0, v3, v4);
        crate::replay::lemma_grows_chain(v2, v3, v4);
        crate::replay::lemma_grows_chain(v1, v2, v4);
        crate::replay::lemma_grows_chain(v0, v1, v4);
        crate::replay::lemma_grows_refl(v4);
        if knows(v0, v4, t0) {
            lemma_follow_refl(v0, t0);
            let (y0, t1) = pick_draw(t0, "node type"@, node_types(c, is_fractal, depth));
            lemma_knows_part(v0, v0, v1, v4, t0, t0);
            lemma_follow_pick(v0, t0, "node type"@, node_types(c, is_fractal, depth));
            lemma_follow_chain(v0, v0, v1, t0, t0, t1);
            let t2 = grouped(t1);
            lemma_knows_part(v0, v1, v2, v4, t0, t1);
            lemma_follow_moves(v1, t1);
            lemma_follow_chain(v0, v1, v2, t0, t1, t2);
            let (y2, t3) = fractal_spec(fractal_child_complexity(c), (depth - 1) as nat, t2);
            lemma_knows_part(v0, v2, v3, v4, t0, t2);
            lemma_follow_fractal(fractal_child_complexity(c), (depth - 1) as nat, v2, t2);
            lemma_follow_chain(v0, v2, v3, t0, t2, t3);
            let t4 = ungrouped(t3);
            lemma_knows_part(v0, v3, v4, v4, t0, t3);
            lemma_follow_moves(v3, t3);
            lemma_follow_chain(v0, v3, v4, t0, t3, t4);
        }
    }
}

/// A leaf follows: the same basis, ease, metric and border switch.
pub proof fn lemma_follow_basis(is_fractal: bool, v: DnaView, t: DnaView)
    requires
        aligned(v, t),
        v.interactive,
    ensures
        grows(v, basis_spec(is_fractal, v).1),
        knows(v, basis_spec(is_fractal, v).1, t) ==> shape(basis_spec(is_fractal, t).0) == shape(basis_spec(is_fractal, v).0) && follows(v, basis_spec(is_fractal, v).1, t, basis_spec(is_fractal, t).1),
{
    let v0 = v;
    let t0 = t;
    crate::replay::lemma_grows_refl(v0);
    crate::replay::lemma_grows_refl(t0);
    let (x0, v1) = u32_draw(v0, "seed"@);
    lemma_replay_u32(v0, v0, "seed"@);
    if is_fractal {
        let (x1, v2) = pick_draw(v1, "basis"@, basis_types());
        lemma_replay_pick(v1, v1, "basis"@, basis_types());
        if x1 == 0 {
            crate::replay::lemma_grows_chain(v0, v1, v2);
            crate::replay::lemma_grows_chain(v0, v1, v2);
            crate::replay::lemma_grows_refl(v2);
            if knows(v0, v2, t0) {
                lemma_follow_refl(v0, t0);
                let (y0, t1) = u32_draw(t0, "seed"@);
                lemma_knows_part(v0, v0, v1, v2, t0, t0);
                lemma_follow_u32(v0, t0, "seed"@);
                lemma_follow_chain(v0, v0, v1, t0, t0, t1);
                let (y1, t2) = pick_draw(t1, "basis"@, basis_types());
                lemma_knows_part(v0, v1, v2, v2, t0, t1);
                lemma_follow_pick(v1, t1, "basis"@, basis_types());
                lemma_follow_chain(v0, v1, v2, t0, t1, t2);
            }
        } else if x1 == 1 {
            let v3 = grouped(v2);
            crate::replay::lemma_replay_moves(v2, v2);
            let (x3, v4) = ease_smooth_spec(v3, "noise ease"@);
            lemma_replay_pick(v3, v3, "noise ease"@, ease_smooth_types());
            let v5 = ungrouped(v4);
            crate::replay::lemma_replay_moves(v4, v4);
            crate::replay::lemma_grows_chain(v0, v1, v2);
            crate::replay::lemma_grows_chain(v0, v2, v3);
            crate::replay::lemma_grows_chain(v0, v3, v4);
            crate::replay::lemma_grows_chain(v0, v4, v5);
            crate::replay::lemma_grows_chain(v3, v4, v5);
            crate::replay::lemma_grows_chain(v2, v3, v5);
            crate::replay::lemma_grows_chain(v1, v2, v5);
            crate::replay::lemma_grows_chain(v0, v1, v5);
            crate::replay::lemma_grows_refl(v5);
            if knows(v0, v5, t0) {
                lemma_follow_refl(v0, t0);
                let (y0, t1) = u32_draw(t0, "seed"@);
                lemma_knows_part(v0, v0, v1, v5, t0, t0);
                lemma_follow_u32(v0, t0, "seed"@);
                lemma_follow_chain(v0, v0, v1, t0, t0, t1);
                let (y1, t2) = pick_draw(t1, "basis"@, basis_types());
                lemma_knows_part(v0, v1, v2, v5, t0, t1);
                lemma_follow_pick(v1, t1, "basis"@, basis_types());
                lemma_follow_chain(v0, v1, v2, t0, t1, t2);
                let t3 = grouped(t2);
                lemma_knows_part(v0, v2, v3, v5, t0, t2);
                lemma_follow_moves(v2, t2);
                lemma_follow_chain(v0, v2, v3, t0, t2, t3);
                let (y3, t4) = ease_smooth_spec(t3, "noise ease"@);
                lemma_knows_part(v0, v3, v4, v5, t0, t3);
                lemma_follow_pick(v3, t3, "noise ease"@, ease_smooth_types());
                lemma_follow_chain(v0, v3, v4, t0, t3, t4);
                let t5 = ungrouped(t4);
                lemma_knows_part(v0, v4, v5, v5, t0, t4);
                lemma_follow_moves(v4, t4);
                lemma_follow_chain(v0, v4, v5, t0, t4, t5);
            }
        } else if x1 == 2 {
            let v3 = grouped(v2);
            crate::replay::lemma_replay_moves(v2, v2);
            let (x3, v4) = u32_in_draw(v3, "Voronoi X pattern"@, 0, 25);
            lemma_replay_u32_in(v3, v3, "Voronoi X pattern"@, 0, 25);
            let (x4, v5) = u32_in_draw(v4, "Voronoi Y pattern"@, 0, 25);
            lemma_replay_u32_in(v4, v4, "Voronoi Y pattern"@, 0, 25);
            let (x5, v6) = u32_in_draw(v5, "Voronoi Z pattern"@, 0, 25);
            lemma_replay_u32_in(v5, v5, "Voronoi Z pattern"@, 0, 25);
            let (x6, v7) = ease_voronoi_spec(v6, "Voronoi ease"@);
            lemma_replay_pick(v6, v6, "Voronoi ease"@, ease_voronoi_types());
            let (x7, v8) = metric_spec(v7, "distance metric"@);
            lemma_replay_pick(v7, v7, "distance metric"@, metric_types());
            let v9 = ungrouped(v8);
            crate::replay::lemma_replay_moves(v8, v8);
            crate::replay::lemma_grows_chain(v0, v1, v2);
            crate::replay::lemma_grows_chain(v0, v2, v3);
            crate::replay::lemma_grows_chain(v0, v3, v4);
            crate::replay::lemma_grows_chain(v0, v4, v5);
            crate::replay::lemma_grows_chain(v0, v5, v6);
            crate::replay::lemma_grows_chain(v0, v6, v7);
            crate::replay::lemma_grows_chain(v0, v7, v8);
            crate::replay::lemma_grows_chain(v0, v8, v9);
            crate::replay::lemma_grows_chain(v7, v8, v9);
            crate::replay::lemma_grows_chain(v6, v7, v9);
            crate::replay::lemma_grows_chain(v5, v6, v9);
            crate::replay::lemma_grows_chain(v4, v5, v9);
            crate::replay::lemma_grows_chain(v3, v4, v9);
            crate::replay::lemma_grows_chain(v2, v3, v9);
            crate::replay::lemma_grows_chain(v1, v2, v9);
            crate::replay::lemma_grows_chain(v0, v1, v9);
            crate::replay::lemma_grows_refl(v9);
            if knows(v0, v9, t0) {
                lemma_follow_refl(v0, t0);
                let (y0, t1) = u32_draw(t0, "seed"@);
                lemma_knows_part(v0, v0, v1, v9, t0, t0);
                lemma_follow_u32(v0, t0, "seed"@);
                lemma_follow_chain(v0, v0, v1, t0, t0, t1);
                let (y1, t2) = pick_draw(t1, "basis"@, basis_types());
                lemma_knows_part(v0, v1, v2, v9, t0, t1);
                lemma_follow_pick(v1, t1, "basis"@, basis_types());
                lemma_follow_chain(v0, v1, v2, t0, t1, t2);
                let t3 = grouped(t2);
                lemma_knows_part(v0, v2, v3, v9, t0, t2);
                lemma_follow_moves(v2, t2);
                lemma_follow_chain(v0, v2, v3, t0, t2, t3);
                let (y3, t4) = u32_in_draw(t3, "Voronoi X pattern"@, 0, 25);
                lemma_knows_part(v0, v3, v4, v9, t0, t3);
                lemma_follow_u32_in(v3, t3, "Voronoi X pattern"@, 0, 25, 0, 25);
                lemma_follow_chain(v0, v3, v4, t0, t3, t4);
                let (y4, t5) = u32_in_draw(t4, "Voronoi Y pattern"@, 0, 25);
                lemma_knows_part(v0, v4, v5, v9, t0, t4);
                lemma_follow_u32_in(v4, t4, "Voronoi Y pattern"@, 0, 25, 0, 25);
                lemma_follow_chain(v0, v4, v5, t0, t4, t5);
                let (y5, t6) = u32_in_draw(t5, "Voronoi Z pattern"@, 0, 25);
                lemma_knows_part(v0, v5, v6, v9, t0, t5);
                lemma_follow_u32_in(v5, t5, "Voronoi Z pattern"@, 0, 25, 0, 25);
                lemma_follow_chain(v0, v5, v6, t0, t5, t6);
                let (y6, t7) = ease_voronoi_spec(t6, "Voronoi ease"@);
                lemma_knows_part(v0, v6, v7, v9, t0, t6);
                lemma_follow_pick(v6, t6, "Voronoi ease"@, ease_voronoi_types());
                lemma_follow_chain(v0, v6, v7, t0, t6, t7);
                let (y7, t8) = metric_spec(t7, "distance metric"@);
                lemma_knows_part(v0, v7, v8, v9, t0, t7);
                lemma_follow_pick(v7, t7, "distance metric"@, metric_types());
                lemma_follow_chain(v0, v7, v8, t0, t7, t8);
                let t9 = ungrouped(t8);
                lemma_knows_part(v0, v8, v9, v9, t0, t8);
                lemma_follow_moves(v8, t8);
                lemma_follow_chain(v0, v8, v9, t0, t8, t9);
            }
        } else {
            let v3 = grouped(v2);
            crate::replay::lemma_replay_moves(v2, v2);
            let v4 = descended(v3);
            crate::replay::lemma_replay_moves(v3, v3);
            let (x4, v5) = pick_draw(v4, "border"@, on_off(500, 500));
            lemma_replay_pick(v4, v4, "border"@, on_off(500, 500));
            if x4 == 0 {
                let (x5, v6) = raw_draw(v5, "border width"@);
                lemma_replay_raw(v5, v5, "border width"@);
                let v7 = ungrouped(v6);
                crate::replay::lemma_replay_moves(v6, v6);
                let (x7, v8) = raw_draw(v7, "camo sharpness"@);
                lemma_replay_raw(v7, v7, "camo sharpness"@);
                let (x8, v9) = raw_draw(v8, "camo gradient"@);
                lemma_replay_raw(v8, v8, "camo gradient"@);
                let (x9, v10) = ease_smooth_spec(v9, "camo ease"@);
                lemma_replay_pick(v9, v9, "camo ease"@, ease_smooth_types());
                let (x10, v11) = metric_spec(v10, "distance metric"@);
                lemma_replay_pick(v10, v10, "distance metric"@, metric_types());
                let v12 = ungrouped(v11);
                crate::replay::lemma_replay_moves(v11, v11);
                crate::replay::lemma_grows_chain(v0, v1, v2);
                crate::replay::lemma_grows_chain(v0, v2, v3);
                crate::replay::lemma_grows_chain(v0, v3, v4);
                crate::replay::lemma_grows_chain(v0, v4, v5);
                crate::replay::lemma_grows_chain(v0, v5, v6);
                crate::replay::lemma_grows_chain(v0, v6, v7);
                crate::replay::lemma_grows_chain(v0, v7, v8);
                crate::replay::lemma_grows_chain(v0, v8, v9);
                crate::replay::lemma_grows_chain(v0, v9, v10);
                crate::replay::lemma_grows_chain(v0, v10, v11);
                crate::replay::lemma_grows_chain(v0, v11, v12);
                crate::replay::lemma_grows_chain(v10, v11, v12);
                crate::replay::lemma_grows_chain(v9, v10, v12);
                crate::replay::lemma_grows_chain(v8, v9, v12);
                crate::replay::lemma_grows_chain(v7, v8, v12);
                crate::replay::lemma_grows_chain(v6, v7, v12);
                crate::replay::lemma_grows_chain(v5, v6, v12);
                crate::replay::lemma_grows_chain(v4, v5, v12);
                crate::replay::lemma_grows_chain(v3, v4, v12);
                crate::replay::lemma_grows_chain(v2, v3, v12);
                crate::replay::lemma_grows_chain(v1, v2, v12);
                crate::replay::lemma_grows_chain(v0, v1, v12);
                crate::replay::lemma_grows_refl(v12);
                if knows(v0, v12, t0) {
                    lemma_follow_refl(v0, t0);
                    let (y0, t1) = u32_draw(t0, "seed"@);
                    lemma_knows_part(v0, v0, v1, v12, t0, t0);
                    lemma_follow_u32(v0, t0, "seed"@);
                    lemma_follow_chain(v0, v0, v1, t0, t0, t1);
                    let (y1, t2) = pick_draw(t1, "basis"@, basis_types());
                    lemma_knows_part(v0, v1, v2, v12, t0, t1);
                    lemma_follow_pick(v1, t1, "basis"@, basis_types());
                    lemma_follow_chain(v0, v1, v2, t0, t1, t2);
                    let t3 = grouped(t2);
                    lemma_knows_part(v0, v2, v3, v12, t0, t2);
                    lemma_follow_moves(v2, t2);
                    lemma_follow_chain(v0, v2, v3, t0, t2, t3);
                    let t4 = descended(t3);
                    lemma_knows_part(v0, v3, v4, v12, t0, t3);
                    lemma_follow_moves(v3, t3);
                    lemma_follow_chain(v0, v3, v4, t0, t3, t4);
                    let (y4, t5) = pick_draw(t4, "border"@, on_off(500, 500));
                    lemma_knows_part(v0, v4, v5, v12, t0, t4);
                    lemma_follow_pick(v4, t4, "border"@, on_off(500, 500));
                    lemma_follow_chain(v0, v4, v5, t0, t4, t5);
                    let (y5, t6) = raw_draw(t5, "border width"@);
                    lemma_knows_part(v0, v5, v6, v12, t0, t5);
                    lemma_follow_raw(v5, t5, "border width"@);
                    lemma_follow_chain(v0, v5, v6, t0, t5, t6);
                    let t7 = ungrouped(t6);
                    lemma_knows_part(v0, v6, v7, v12, t0, t6);
                    lemma_follow_moves(v6, t6);
                    lemma_follow_chain(v0, v6, v7, t0, t6, t7);
                    let (y7, t8) = raw_draw(t7, "camo sharpness"@);
                    lemma_knows_part(v0, v7, v8, v12, t0, t7);
                    lemma_follow_raw(v7, t7, "camo sharpness"@);
                    lemma_follow_chain(v0, v7, v8, t0, t7, t8);
                    let (y8, t9) = raw_draw(t8, "camo gradient"@);
                    lemma_knows_part(v0, v8, v9, v12, t0, t8);
                    lemma_follow_raw(v8, t8, "camo gradient"@);
                    lemma_follow_chain(v0, v8, v9, t0, t8, t9);
                    let (y9, t10) = ease_smooth_spec(t9, "camo ease"@);
                    lemma_knows_part(v0, v9, v10, v12, t0, t9);
                    lemma_follow_pick(v9, t9, "camo ease"@, ease_smooth_types());
                    lemma_follow_chain(v0, v9, v10, t0, t9, t10);
                    let (y10, t11) = metric_spec(t10, "distance metric"@);
                    lemma_knows_part(v0, v10, v11, v12, t0, t10);
                    lemma_follow_pick(v10, t10, "distance metric"@, metric_types());
                    lemma_follow_chain(v0, v10, v11, t0, t10, t11);
                    let t12 = ungrouped(t11);
                    lemma_knows_part(v0, v11, v12, v12, t0, t11);
                    lemma_follow_moves(v11, t11);
                    lemma_follow_chain(v0, v11, v12, t0, t11, t12);
                }
            } else {
                let v6 = ungrouped(v5);
                crate::replay::lemma_replay_moves(v5, v5);
                let (x6, v7) = raw_draw(v6, "camo sharpness"@);
                lemma_replay_raw(v6, v6, "camo sharpness"@);
                let (x7, v8) = raw_draw(v7, "camo gradient"@);
                lemma_replay_raw(v7, v7, "camo gradient"@);
                let (x8, v9) = ease_smooth_spec(v8, "camo ease"@);
                lemma_replay_pick(v8, v8, "camo ease"@, ease_smooth_types());
                let (x9, v10) = metric_spec(v9, "distance metric"@);
                lemma_replay_pick(v9, v9, "distance metric"@, metric_types());
                let v11 = ungrouped(v10);
                crate::replay::lemma_replay_moves(v10, v10);
                crate::replay::lemma_grows_chain(v0, v1, v2);
                crate::replay::lemma_grows_chain(v0, v2, v3);
                crate::replay::lemma_grows_chain(v0, v3, v4);
                crate::replay::lemma_grows_chain(v0, v4, v5);
                crate::replay::lemma_grows_chain(v0, v5, v6);
                crate::replay::lemma_grows_chain(v0, v6, v7);
                crate::replay::lemma_grows_chain(v0, v7, v8);
                crate::replay::lemma_grows_chain(v0, v8, v9);
                crate::replay::lemma_grows_chain(v0, v9, v10);
                crate::replay::lemma_grows_chain(v0, v10, v11);
                crate::replay::lemma_grows_chain(v9, v10, v11);
                crate::replay::lemma_grows_chain(v8, v9, v11);
                crate::replay::lemma_grows_chain(v7, v8, v11);
                crate::replay::lemma_grows_chain(v6, v7, v11);
                crate::replay::lemma_grows_chain(v5, v6, v11);
                crate::replay::lemma_grows_chain(v4, v5, v11);
                crate::replay::lemma_grows_chain(v3, v4, v11);
                crate::replay::lemma_grows_chain(v2, v3, v11);
                crate::replay::lemma_grows_chain(v1, v2, v11);
                crate::replay::lemma_grows_chain(v0, v1, v11);
                crate::replay::lemma_grows_refl(v11);
                if knows(v0, v11, t0) {
                    lemma_follow_refl(v0, t0);
                    let (y0, t1) = u32_draw(t0, "seed"@);
                    lemma_knows_part(v0, v0, v1, v11, t0, t0);
                    lemma_follow_u32(v0, t0, "seed"@);
                    lemma_follow_chain(v0, v0, v1, t0, t0, t1);
                    let (y1, t2) = pick_draw(t1, "basis"@, basis_types());
                    lemma_knows_part(v0, v1, v2, v11, t0, t1);
                    lemma_follow_pick(v1, t1, "basis"@, basis_types());
                    lemma_follow_chain(v0, v1, v2, t0, t1, t2);
                    let t3 = grouped(t2);
                    lemma_knows_part(v0, v2, v3, v11, t0, t2);
                    lemma_follow_moves(v2, t2);
                    lemma_follow_chain(v0, v2, v3, t0, t2, t3);
                    let t4 = descended(t3);
                    lemma_knows_part(v0, v3, v4, v11, t0, t3);
                    lemma_follow_moves(v3, t3);
                    lemma_follow_chain(v0, v3, v4, t0, t3, t4);
                    let (y4, t5) = pick_draw(t4, "border"@, on_off(500, 500));
                    lemma_knows_part(v0, v4, v5, v11, t0, t4);
                    lemma_follow_pick(v4, t4, "border"@, on_off(500, 500));
                    lemma_follow_chain(v0, v4, v5, t0, t4, t5);
                    let t6 = ungrouped(t5);
                    lemma_knows_part(v0, v5, v6, v11, t0, t5);
                    lemma_follow_moves(v5, t5);
                    lemma_follow_chain(v0, v5, v6, t0, t5, t6);
                    let (y6, t7) = raw_draw(t6, "camo sharpness"@);
                    lemma_knows_part(v0, v6, v7, v11, t0, t6);
                    lemma_follow_raw(v6, t6, "camo sharpness"@);
                    lemma_follow_chain(v0, v6, v7, t0, t6, t7);
                    let (y7, t8) = raw_draw(t7, "camo gradient"@);
                    lemma_knows_part(v0, v7, v8, v11, t0, t7);
                    lemma_follow_raw(v7, t7, "camo gradient"@);
                    lemma_follow_chain(v0, v7, v8, t0, t7, t8);
                    let (y8, t9) = ease_smooth_spec(t8, "camo ease"@);
                    lemma_knows_part(v0, v8, v9, v11, t0, t8);
                    lemma_follow_pick(v8, t8, "camo ease"@, ease_smooth_types());
                    lemma_follow_chain(v0, v8, v9, t0, t8, t9);
                    let (y9, t10) = metric_spec(t9, "distance metric"@);
                    lemma_knows_part(v0, v9, v10, v11, t0, t9);
                    lemma_follow_pick(v9, t9, "distance metric"@, metric_types());
                    lemma_follow_chain(v0, v9, v10, t0, t9, t10);
                    let t11 = ungrouped(t10);
                    lemma_knows_part(v0, v10, v11, v11, t0, t10);
                    lemma_follow_moves(v10, t10);
                    lemma_follow_chain(v0, v10, v11, t0, t10, t11);
                }
            }
        }
    } else {
        let (x1, v2) = raw_draw(v1, "frequency"@);
        lemma_replay_raw(v1, v1, "frequency"@);
        let (x2, v3) = pick_draw(v2, "basis"@, basis_types());
        lemma_replay_pick(v2, v2, "basis"@, basis_types());
        if x2 == 0 {
            crate::replay::lemma_grows_chain(v0, v1, v2);
            crate::replay::lemma_grows_chain(v0, v2, v3);
            crate::replay::lemma_grows_chain(v1, v2, v3);
            crate::replay::lemma_grows_chain(v0, v1, v3);
            crate::replay::lemma_grows_refl(v3);
            if knows(v0, v3, t0) {
                lemma_follow_refl(v0, t0);
                let (y0, t1) = u32_draw(t0, "seed"@);
                lemma_knows_part(v0, v0, v1, v3, t0, t0);
                lemma_follow_u32(v0, t0, "seed"@);
                lemma_follow_chain(v0, v0, v1, t0, t0, t1);
                let (y1, t2) = raw_draw(t1, "frequency"@);
                lemma_knows_part(v0, v1, v2, v3, t0, t1);
                lemma_follow_raw(v1, t1, "frequency"@);
                lemma_follow_chain(v0, v1, v2, t0, t1, t2);
                let (y2, t3) = pick_draw(t2, "basis"@, basis_types());
                lemma_knows_part(v0, v2, v3, v3, t0, t2);
                lemma_follow_pick(v2, t2, "basis"@, basis_types());
                lemma_follow_chain(v0, v2, v3, t0, t2, t3);
            }
        } else if x2 == 1 {
            let v4 = grouped(v3);
            crate::replay::lemma_replay_moves(v3, v3);
            let (x4, v5) = ease_smooth_spec(v4, "noise ease"@);
            lemma_replay_pick(v4, v4, "noise ease"@, ease_smooth_types());
            let v6 = ungrouped(v5);
            crate::replay::lemma_replay_moves(v5, v5);
            crate::replay::lemma_grows_chain(v0, v1, v2);
            crate::replay::lemma_grows_chain(v0, v2, v3);
            crate::replay::lemma_grows_chain(v0, v3, v4);
            crate::replay::lemma_grows_chain(v0, v4, v5);
            crate::replay::lemma_grows_chain(v0, v5, v6);
            crate::replay::lemma_grows_chain(v4, v5, v6);
            crate::replay::lemma_grows_chain(v3, v4, v6);
            crate::replay::lemma_grows_chain(v2, v3, v6);
            crate::replay::lemma_grows_chain(v1, v2, v6);
            crate::replay::lemma_grows_chain(v0, v1, v6);
            crate::replay::lemma_grows_refl(v6);
            if knows(v0, v6, t0) {
                lemma_follow_refl(v0, t0);
                let (y0, t1) = u32_draw(t0, "seed"@);
                lemma_knows_part(v0, v0, v1, v6, t0, t0);
                lemma_follow_u32(v0, t0, "seed"@);
                lemma_follow_chain(v0, v0, v1, t0, t0, t1);
                let (y1, t2) = raw_draw(t1, "frequency"@);
                lemma_knows_part(v0, v1, v2, v6, t0, t1);
                lemma_follow_raw(v1, t1, "frequency"@);
                lemma_follow_chain(v0, v1, v2, t0, t1, t2);
                let (y2, t3) = pick_draw(t2, "basis"@, basis_types());
                lemma_knows_part(v0, v2, v3, v6, t0, t2);
                lemma_follow_pick(v2, t2, "basis"@, basis_types());
                lemma_follow_chain(v0, v2, v3, t0, t2, t3);
                let t4 = grouped(t3);
                lemma_knows_part(v0, v3, v4, v6, t0, t3);
                lemma_follow_moves(v3, t3);
                lemma_follow_chain(v0, v3, v4, t0, t3, t4);
                let (y4, t5) = ease_smooth_spec(t4, "noise ease"@);
                lemma_knows_part(v0, v4, v5, v6, t0, t4);
                lemma_follow_pick(v4, t4, "noise ease"@, ease_smooth_types());
                lemma_follow_chain(v0, v4, v5, t0, t4, t5);
                let t6 = ungrouped(t5);
                lemma_knows_part(v0, v5, v6, v6, t0, t5);
                lemma_follow_moves(v5, t5);
                lemma_follow_chain(v0, v5, v6, t0, t5, t6);
            }
        } else if x2 == 2 {
            let v4 = grouped(v3);
            crate::replay::lemma_replay_moves(v3, v3);
            let (x4, v5) = u32_in_draw(v4, "Voronoi X pattern"@, 0, 25);
            lemma_replay_u32_in(v4, v4, "Voronoi X pattern"@, 0, 25);
            let (x5, v6) = u32_in_draw(v5, "Voronoi Y pattern"@, 0, 25);
            lemma_replay_u32_in(v5, v5, "Voronoi Y pattern"@, 0, 25);
            let (x6, v7) = u32_in_draw(v6, "Voronoi Z pattern"@, 0, 25);
            lemma_replay_u32_in(v6, v6, "Voronoi Z pattern"@, 0, 25);
            let (x7, v8) = ease_voronoi_spec(v7, "Voronoi ease"@);
            lemma_replay_pick(v7, v7, "Voronoi ease"@, ease_voronoi_types());
            let (x8, v9) = metric_spec(v8, "distance metric"@);
            lemma_replay_pick(v8, v8, "distance metric"@, metric_types());
            let v10 = ungrouped(v9);
            crate::replay::lemma_replay_moves(v9, v9);
            crate::replay::lemma_grows_chain(v0, v1, v2);
            crate::replay::lemma_grows_chain(v0, v2, v3);
            crate::replay::lemma_grows_chain(v0, v3, v4);
            crate::replay::lemma_grows_chain(v0, v4, v5);
            crate::replay::lemma_grows_chain(v0, v5, v6);
            crate::replay::lemma_grows_chain(v0, v6, v7);
            crate::replay::lemma_grows_chain(v0, v7, v8);
            crate::replay::lemma_grows_chain(v0, v8, v9);
            crate::replay::lemma_grows_chain(v0, v9, v10);
            crate::replay::lemma_grows_chain(v8, v9, v10);
            crate::replay::lemma_grows_chain(v7, v8, v10);
            crate::replay::lemma_grows_chain(v6, v7, v10);
            crate::replay::lemma_grows_chain(v5, v6, v10);
            crate::replay::lemma_grows_chain(v4, v5, v10);
            crate::replay::lemma_grows_chain(v3, v4, v10);
            crate::replay::lemma_grows_chain(v2, v3, v10);
            crate::replay::lemma_grows_chain(v1, v2, v10);
            crate::replay::lemma_grows_chain(v0, v1, v10);
            crate::replay::lemma_grows_refl(v10);
            if knows(v0, v10, t0) {
                lemma_follow_refl(v0, t0);
                let (y0, t1) = u32_draw(t0, "seed"@);
                lemma_knows_part(v0, v0, v1, v10, t0, t0);
                lemma_follow_u32(v0, t0, "seed"@);
                lemma_follow_chain(v0, v0, v1, t0, t0, t1);
                let (y1, t2) = raw_draw(t1, "frequency"@);
                lemma_knows_part(v0, v1, v2, v10, t0, t1);
                lemma_follow_raw(v1, t1, "frequency"@);
                lemma_follow_chain(v0, v1, v2, t0, t1, t2);
                let (y2, t3) = pick_draw(t2, "basis"@, basis_types());
                lemma_knows_part(v0, v2, v3, v10, t0, t2);
                lemma_follow_pick(v2, t2, "basis"@, basis_types());
                lemma_follow_chain(v0, v2, v3, t0, t2, t3);
                let t4 = grouped(t3);
                lemma_knows_part(v0, v3, v4, v10, t0, t3);
                lemma_follow_moves(v3, t3);
                lemma_follow_chain(v0, v3, v4, t0, t3, t4);
                let (y4, t5) = u32_in_draw(t4, "Voronoi X pattern"@, 0, 25);
                lemma_knows_part(v0, v4, v5, v10, t0, t4);
                lemma_follow_u32_in(v4, t4, "Voronoi X pattern"@, 0, 25, 0, 25);
                lemma_follow_chain(v0, v4, v5, t0, t4, t5);
                let (y5, t6) = u32_in_draw(t5, "Voronoi Y pattern"@, 0, 25);
                lemma_knows_part(v0, v5, v6, v10, t0, t5);
                lemma_follow_u32_in(v5, t5, "Voronoi Y pattern"@, 0, 25, 0, 25);
                lemma_follow_chain(v0, v5, v6, t0, t5, t6);
                let (y6, t7) = u32_in_draw(t6, "Voronoi Z pattern"@, 0, 25);
                lemma_knows_part(v0, v6, v7, v10, t0, t6);
                lemma_follow_u32_in(v6, t6, "Voronoi Z pattern"@, 0, 25, 0, 25);
                lemma_follow_chain(v0, v6, v7, t0, t6, t7);
                let (y7, t8) = ease_voronoi_spec(t7, "Voronoi ease"@);
                lemma_knows_part(v0, v7, v8, v10, t0, t7);
                lemma_follow_pick(v7, t7, "Voronoi ease"@, ease_voronoi_types());
                lemma_follow_chain(v0, v7, v8, t0, t7, t8);
                let (y8, t9) = metric_spec(t8, "distance metric"@);
                lemma_knows_part(v0, v8, v9, v10, t0, t8);
                lemma_follow_pick(v8, t8, "distance metric"@, metric_types());
                lemma_follow_chain(v0, v8, v9, t0, t8, t9);
                let t10 = ungrouped(t9);
                lemma_knows_part(v0, v9, v10, v10, t0, t9);
                lemma_follow_moves(v9, t9);
                lemma_follow_chain(v0, v9, v10, t0, t9, t10);
            }
        } else {
            let v4 = grouped(v3);
            crate::replay::lemma_replay_moves(v3, v3);
            let v5 = descended(v4);
            crate::replay::lemma_replay_moves(v4, v4);
            let (x5, v6) = pick_draw(v5, "border"@, on_off(500, 500));
            lemma_replay_pick(v5, v5, "border"@, on_off(500, 500));
            if x5 == 0 {
                let (x6, v7) = raw_draw(v6, "border width"@);
                lemma_replay_raw(v6, v6, "border width"@);
                let v8 = ungrouped(v7);
                crate::replay::lemma_replay_moves(v7, v7);
                let (x8, v9) = raw_draw(v8, "camo sharpness"@);
                lemma_replay_raw(v8, v8, "camo sharpness"@);
                let (x9, v10) = raw_draw(v9, "camo gradient"@);
                lemma_replay_raw(v9, v9, "camo gradient"@);
                let (x10, v11) = ease_smooth_spec(v10, "camo ease"@);
                lemma_replay_pick(v10, v10, "camo ease"@, ease_smooth_types());
                let (x11, v12) = metric_spec(v11, "distance metric"@);
                lemma_replay_pick(v11, v11, "distance metric"@, metric_types());
                let v13 = ungrouped(v12);
                crate::replay::lemma_replay_moves(v12, v12);
                crate::replay::lemma_grows_chain(v0, v1, v2);
                crate::replay::lemma_grows_chain(v0, v2, v3);
                crate::replay::lemma_grows_chain(v0, v3, v4);
                crate::replay::lemma_grows_chain(v0, v4, v5);
                crate::replay::lemma_grows_chain(v0, v5, v6);
                crate::replay::lemma_grows_chain(v0, v6, v7);
                crate::replay::lemma_grows_chain(v0, v7, v8);
                crate::replay::lemma_grows_chain(v0, v8, v9);
                crate::replay::lemma_grows_chain(v0, v9, v10);
                crate::replay::lemma_grows_chain(v0, v10, v11);
                crate::replay::lemma_grows_chain(v0, v11, v12);
                crate::replay::lemma_grows_chain(v0, v12, v13);
                crate::replay::lemma_grows_chain(v11, v12, v13);
                crate::replay::lemma_grows_chain(v10, v11, v13);
                crate::replay::lemma_grows_chain(v9, v10, v13);
                crate::replay::lemma_grows_chain(v8, v9, v13);
                crate::replay::lemma_grows_chain(v7, v8, v13);
                crate::replay::lemma_grows_chain(v6, v7, v13);
                crate::replay::lemma_grows_chain(v5, v6, v13);
                crate::replay::lemma_grows_chain(v4, v5, v13);
                crate::replay::lemma_grows_chain(v3, v4, v13);
                crate::replay::lemma_grows_chain(v2, v3, v13);
                crate::replay::lemma_grows_chain(v1, v2, v13);
                crate::replay::lemma_grows_chain(v0, v1, v13);
                crate::replay::lemma_grows_refl(v13);
                if knows(v0, v13, t0) {
                    lemma_follow_refl(v0, t0);
                    let (y0, t1) = u32_draw(t0, "seed"@);
                    lemma_knows_part(v0, v0, v1, v13, t0, t0);
                    lemma_follow_u32(v0, t0, "seed"@);
                    lemma_follow_chain(v0, v0, v1, t0, t0, t1);
                    let (y1, t2) = raw_draw(t1, "frequency"@);
                    lemma_knows_part(v0, v1, v2, v13, t0, t1);
                    lemma_follow_raw(v1, t1, "frequency"@);
                    lemma_follow_chain(v0, v1, v2, t0, t1, t2);
                    let (y2, t3) = pick_draw(t2, "basis"@, basis_types());
                    lemma_knows_part(v0, v2, v3, v13, t0, t2);
                    lemma_follow_pick(v2, t2, "basis"@, basis_types());
                    lemma_follow_chain(v0, v2, v3, t0, t2, t3);
                    let t4 = grouped(t3);
                    lemma_knows_part(v0, v3, v4, v13, t0, t3);
                    lemma_follow_moves(v3, t3);
                    lemma_follow_chain(v0, v3, v4, t0, t3, t4);
                    let t5 = descended(t4);
                    lemma_knows_part(v0, v4, v5, v13, t0, t4);
                    lemma_follow_moves(v4, t4);
                    lemma_follow_chain(v0, v4, v5, t0, t4, t5);
                    let (y5, t6) = pick_draw(t5, "border"@, on_off(500, 500));
                    lemma_knows_part(v0, v5, v6, v13, t0, t5);
                    lemma_follow_pick(v5, t5, "border"@, on_off(500, 500));
                    lemma_follow_chain(v0, v5, v6, t0, t5, t6);
                    let (y6, t7) = raw_draw(t6, "border width"@);
                    lemma_knows_part(v0, v6, v7, v13, t0, t6);
                    lemma_follow_raw(v6, t6, "border width"@);
                    lemma_follow_chain(v0, v6, v7, t0, t6, t7);
                    let t8 = ungrouped(t7);
                    lemma_knows_part(v0, v7, v8, v13, t0, t7);
                    lemma_follow_moves(v7, t7);
                    lemma_follow_chain(v0, v7, v8, t0, t7, t8);
                    let (y8, t9) = raw_draw(t8, "camo sharpness"@);
                    lemma_knows_part(v0, v8, v9, v13, t0, t8);
                    lemma_follow_raw(v8, t8, "camo sharpness"@);
                    lemma_follow_chain(v0, v8, v9, t0, t8, t9);
                    let (y9, t10) = raw_draw(t9, "camo gradient"@);
                    lemma_knows_part(v0, v9, v10, v13, t0, t9);
                    lemma_follow_raw(v9, t9, "camo gradient"@);
                    lemma_follow_chain(v0, v9, v10, t0, t9, t10);
                    let (y10, t11) = ease_smooth_spec(t10, "camo ease"@);
                    lemma_knows_part(v0, v10, v11, v13, t0, t10);
                    lemma_follow_pick(v10, t10, "camo ease"@, ease_smooth_types());
                    lemma_follow_chain(v0, v10, v11, t0, t10, t11);
                    let (y11, t12) = metric_spec(t11, "distance metric"@);
                    lemma_knows_part(v0, v11, v12, v13, t0, t11);
                    lemma_follow_pick(v11, t11, "distance metric"@, metric_types());
                    lemma_follow_chain(v0, v11, v12, t0, t11, t12);
                    let t13 = ungrouped(t12);
                    lemma_knows_part(v0, v12, v13, v13, t0, t12);
                    lemma_follow_moves(v12, t12);
                    lemma_follow_chain(v0, v12, v13, t0, t12, t13);
                }
            } else {
                let v7 = ungrouped(v6);
                crate::replay::lemma_replay_moves(v6, v6);
                let (x7, v8) = raw_draw(v7, "camo sharpness"@);
                lemma_replay_raw(v7, v7, "camo sharpness"@);
                let (x8, v9) = raw_draw(v8, "camo gradient"@);
                lemma_replay_raw(v8, v8, "camo gradient"@);
                let (x9, v10) = ease_smooth_spec(v9, "camo ease"@);
                lemma_replay_pick(v9, v9, "camo ease"@, ease_smooth_types());
                let (x10, v11) = metric_spec(v10, "distance metric"@);
                lemma_replay_pick(v10, v10, "distance metric"@, metric_types());
                let v12 = ungrouped(v11);
                crate::replay::lemma_replay_moves(v11, v11);
                crate::replay::lemma_grows_chain(v0, v1, v2);
                crate::replay::lemma_grows_chain(v0, v2, v3);
                crate::replay::lemma_grows_chain(v0, v3, v4);
                crate::replay::lemma_grows_chain(v0, v4, v5);
                crate::replay::lemma_grows_chain(v0, v5, v6);
                crate::replay::lemma_grows_chain(v0, v6, v7);
                crate::replay::lemma_grows_chain(v0, v7, v8);
                crate::replay::lemma_grows_chain(v0, v8, v9);
                crate::replay::lemma_grows_chain(v0, v9, v10);
                crate::replay::lemma_grows_chain(v0, v10, v11);
                crate::replay::lemma_grows_chain(v0, v11, v12);
                crate::replay::lemma_grows_chain(v10, v11, v12);
                crate::replay::lemma_grows_chain(v9, v10, v12);
                crate::replay::lemma_grows_chain(v8, v9, v12);
                crate::replay::lemma_grows_chain(v7, v8, v12);
                crate::replay::lemma_grows_chain(v6, v7, v12);
                crate::replay::lemma_grows_chain(v5, v6, v12);
                crate::replay::lemma_grows_chain(v4, v5, v12);
                crate::replay::lemma_grows_chain(v3, v4, v12);
                crate::replay::lemma_grows_chain(v2, v3, v12);
                crate::replay::lemma_grows_chain(v1, v2, v12);
                crate::replay::lemma_grows_chain(v0, v1, v12);
                crate::replay::lemma_grows_refl(v12);
                if knows(v0, v12, t0) {
                    lemma_follow_refl(v0, t0);
                    let (y0, t1) = u32_draw(t0, "seed"@);
                    lemma_knows_part(v0, v0, v1, v12, t0, t0);
                    lemma_follow_u32(v0, t0, "seed"@);
                    lemma_follow_chain(v0, v0, v1, t0, t0, t1);
                    let (y1, t2) = raw_draw(t1, "frequency"@);
                    lemma_knows_part(v0, v1, v2, v12, t0, t1);
                    lemma_follow_raw(v1, t1, "frequency"@);
                    lemma_follow_chain(v0, v1, v2, t0, t1, t2);
                    let (y2, t3) = pick_draw(t2, "basis"@, basis_types());
                    lemma_knows_part(v0, v2, v3, v12, t0, t2);
                    lemma_follow_pick(v2, t2, "basis"@, basis_types());
                    lemma_follow_chain(v0, v2, v3, t0, t2, t3);
                    let t4 = grouped(t3);
                    lemma_knows_part(v0, v3, v4, v12, t0, t3);
                    lemma_follow_moves(v3, t3);
                    lemma_follow_chain(v0, v3, v4, t0, t3, t4);
                    let t5 = descended(t4);
                    lemma_knows_part(v0, v4, v5, v12, t0, t4);
                    lemma_follow_moves(v4, t4);
                    lemma_follow_chain(v0, v4, v5, t0, t4, t5);
                    let (y5, t6) = pick_draw(t5, "border"@, on_off(500, 500));
                    lemma_knows_part(v0, v5, v6, v12, t0, t5);
                    lemma_follow_pick(v5, t5, "border"@, on_off(500, 500));
                    lemma_follow_chain(v0, v5, v6, t0, t5, t6);
                    let t7 = ungrouped(t6);
                    lemma_knows_part(v0, v6, v7, v12, t0, t6);
                    lemma_follow_moves(v6, t6);
                    lemma_follow_chain(v0, v6, v7, t0, t6, t7);
                    let (y7, t8) = raw_draw(t7, "camo sharpness"@);
                    lemma_knows_part(v0, v7, v8, v12, t0, t7);
                    lemma_follow_raw(v7, t7, "camo sharpness"@);
                    lemma_follow_chain(v0, v7, v8, t0, t7, t8);
                    let (y8, t9) = raw_draw(t8, "camo gradient"@);
                    lemma_knows_part(v0, v8, v9, v12, t0, t8);
                    lemma_follow_raw(v8, t8, "camo gradient"@);
                    lemma_follow_chain(v0, v8, v9, t0, t8, t9);
                    let (y9, t10) = ease_smooth_spec(t9, "camo ease"@);
                    lemma_knows_part(v0, v9, v10, v12, t0, t9);
                    lemma_follow_pick(v9, t9, "camo ease"@, ease_smooth_types());
                    lemma_follow_chain(v0, v9, v10, t0, t9, t10);
                    let (y10, t11) = metric_spec(t10, "distance metric"@);
                    lemma_knows_part(v0, v10, v11, v12, t0, t10);
                    lemma_follow_pick(v10, t10, "distance metric"@, metric_types());
                    lemma_follow_chain(v0, v10, v11, t0, t10, t11);
                    let t12 = ungrouped(t11);
                    lemma_knows_part(v0, v11, v12, v12, t0, t11);
                    lemma_follow_moves(v11, t11);
                    lemma_follow_chain(v0, v11, v12, t0, t11, t12);
                }
            }
        }
    }
}

/// A unary operator follows: the same operator over a child that follows.
pub proof fn lemma_follow_unary(c: i64, is_fractal: bool, depth: nat, v: DnaView, t: DnaView)
    requires
        aligned(v, t),
        v.interactive,
    ensures
        grows(v, unary_spec(c, is_fractal, depth, v).1),
        knows(v, unary_spec(c, is_fractal, depth, v).1, t) ==> shape(unary_spec(c, is_fractal, depth, t).0) == shape(unary_spec(c, is_fractal, depth, v).0) && follows(v, unary_spec(c, is_fractal, depth, v).1, t, unary_spec(c, is_fractal, depth, t).1),
    decreases depth, 3nat,
{
    let v0 = v;
    let t0 = t;
    crate::replay::lemma_grows_refl(v0);
    crate::replay::lemma_grows_refl(t0);
    let (x0, v1) = pick_draw(v0, "unary node"@, unary_types());
    lemma_replay_pick(v0, v0, "unary node"@, unary_types());
    let v2 = grouped(v1);
    crate::replay::lemma_replay_moves(v1, v1);
    if x0 == 0 {
        let (x2, v3) = raw_draw(v2, "amount"@);
        lemma_replay_raw(v2, v2, "amount"@);
        let (x3, v4) = branch_spec(c, is_fractal, depth, v3);
        lemma_replay_branch(c, is_fractal, depth, v3, v3);
        let v5 = ungrouped(v4);
        crate::replay::lemma_replay_moves(v4, v4);
        crate::replay::lemma_grows_chain(v0, v1, v2);
        crate::replay::lemma_grows_chain(v0, v2, v3);
        crate::replay::lemma_grows_chain(v0, v3, v4);
        crate::replay::lemma_grows_chain(v0, v4, v5);
        crate::replay::lemma_grows_chain(v3, v4, v5);
        crate::replay::lemma_grows_chain(v2, v3, v5);
        crate::replay::lemma_grows_chain(v1, v2, v5);
        crate::replay::lemma_grows_chain(v0, v1, v5);
        crate::replay::lemma_grows_refl(v5);
        if knows(v0, v5, t0) {
            lemma_follow_refl(v0, t0);
            let (y0, t1) = pick_draw(t0, "unary node"@, unary_types());
            lemma_knows_part(v0, v0, v1, v5, t0, t0);
            lemma_follow_pick(v0, t0, "unary node"@, unary_types());
            lemma_follow_chain(v0, v0, v1, t0, t0, t1);
            let t2 = grouped(t1);
            lemma_knows_part(v0, v1, v2, v5, t0, t1);
            lemma_follow_moves(v1, t1);
            lemma_follow_chain(v0, v1, v2, t0, t1, t2);
            let (y2, t3) = raw_draw(t2, "amount"@);
            lemma_knows_part(v0, v2, v3, v5, t0, t2);
            lemma_follow_raw(v2, t2, "amount"@);
            lemma_follow_chain(v0, v2, v3, t0, t2, t3);
            let (y3, t4) = branch_spec(c, is_fractal, depth, t3);
            lemma_knows_part(v0, v3, v4, v5, t0, t3);
            lemma_follow_branch(c, is_fractal, depth, v3, t3);
            lemma_follow_chain(v0, v3, v4, t0, t3, t4);
            let t5 = ungrouped(t4);
            lemma_knows_part(v0, v4, v5, v5, t0, t4);
            lemma_follow_moves(v4, t4);
            lemma_follow_chain(v0, v4, v5, t0, t4, t5);
        }
    } else if x0 == 1 {
        let (x2, v3) = raw_draw(v2, "levels"@);
        lemma_replay_raw(v2, v2, "levels"@);
        let (x3, v4) = raw_draw(v3, "sharpness"@);
        lemma_replay_raw(v3, v3, "sharpness"@);
        let (x4, v5) = branch_spec(c, is_fractal, depth, v4);
        lemma_replay_branch(c, is_fractal, depth, v4, v4);
        let v6 = ungrouped(v5);
        crate::replay::lemma_replay_moves(v5, v5);
        crate::replay::lemma_grows_chain(v0, v1, v2);
        crate::replay::lemma_grows_chain(v0, v2, v3);
        crate::replay::lemma_grows_chain(v0, v3, v4);
        crate::replay::lemma_grows_chain(v0, v4, v5);
        crate::replay::lemma_grows_chain(v0, v5, v6);
        crate::replay::lemma_grows_chain(v4, v5, v6);
        crate::replay::lemma_grows_chain(v3, v4, v6);
        crate::replay::lemma_grows_chain(v2, v3, v6);
        crate::replay::lemma_grows_chain(v1, v2, v6);
        crate::replay::lemma_grows_chain(v0, v1, v6);
        crate::replay::lemma_grows_refl(v6);
        if knows(v0, v6, t0) {
            lemma_follow_refl(v0, t0);
            let (y0, t1) = pick_draw(t0, "unary node"@, unary_types());
            lemma_knows_part(v0, v0, v1, v6, t0, t0);
            lemma_follow_pick(v0, t0, "unary node"@, unary_types());
            lemma_follow_chain(v0, v0, v1, t0, t0, t1);
            let t2 = grouped(t1);
            lemma_knows_part(v0, v1, v2, v6, t0, t1);
            lemma_follow_moves(v1, t1);
            lemma_follow_chain(v0, v1, v2, t0, t1, t2);
            let (y2, t3) = raw_draw(t2, "levels"@);
            lemma_knows_part(v0, v2, v3, v6, t0, t2);
            lemma_follow_raw(v2, t2, "levels"@);
            lemma_follow_chain(v0, v2, v3, t0, t2, t3);
            let (y3, t4) = raw_draw(t3, "sharpness"@);
            lemma_knows_part(v0, v3, v4, v6, t0, t3);
            lemma_follow_raw(v3, t3, "sharpness"@);
            lemma_follow_chain(v0, v3, v4, t0, t3, t4);
            let (y4, t5) = branch_spec(c, is_fractal, depth, t4);
            lemma_knows_part(v0, v4, v5, v6, t0, t4);
            lemma_follow_branch(c, is_fractal, depth, v4, t4);
            lemma_follow_chain(v0, v4, v5, t0, t4, t5);
            let t6 = ungrouped(t5);
            lemma_knows_part(v0, v5, v6, v6, t0, t5);
            lemma_follow_moves(v5, t5);
            lemma_follow_chain(v0, v5, v6, t0, t5, t6);
        }
    } else if x0 == 2 {
        let (x2, v3) = raw_draw(v2, "amount"@);
        lemma_replay_raw(v2, v2, "amount"@);
        let (x3, v4) = branch_spec(c, is_fractal, depth, v3);
        lemma_replay_branch(c, is_fractal, depth, v3, v3);
        let v5 = ungrouped(v4);
        crate::replay::lemma_replay_moves(v4, v4);
        crate::replay::lemma_grows_chain(v0, v1, v2);
        crate::replay::lemma_grows_chain(v0, v2, v3);
        crate::replay::lemma_grows_chain(v0, v3, v4);
        crate::replay::lemma_grows_chain(v0, v4, v5);
        crate::replay::lemma_grows_chain(v3, v4, v5);
        crate::replay::lemma_grows_chain(v2, v3, v5);
        crate::replay::lemma_grows_chain(v1, v2, v5);
        crate::replay::lemma_grows_chain(v0, v1, v5);
        crate::replay::lemma_grows_refl(v5);
        if knows(v0, v5, t0) {
            lemma_follow_refl(v0, t0);
            let (y0, t1) = pick_draw(t0, "unary node"@, unary_types());
            lemma_knows_part(v0, v0, v1, v5, t0, t0);
            lemma_follow_pick(v0, t0, "unary node"@, unary_types());
            lemma_follow_chain(v0, v0, v1, t0, t0, t1);
            let t2 = grouped(t1);
            lemma_knows_part(v0, v1, v2, v5, t0, t1);
            lemma_follow_moves(v1, t1);
            lemma_follow_chain(v0, v1, v2, t0, t1, t2);
            let (y2, t3) = raw_draw(t2, "amount"@);
            lemma_knows_part(v0, v2, v3, v5, t0, t2);
            lemma_follow_raw(v2, t2, "amount"@);
            lemma_follow_chain(v0, v2, v3, t0, t2, t3);
            let (y3, t4) = branch_spec(c, is_fractal, depth, t3);
            lemma_knows_part(v0, v3, v4, v5, t0, t3);
            lemma_follow_branch(c, is_fractal, depth, v3, t3);
            lemma_follow_chain(v0, v3, v4, t0, t3, t4);
            let t5 = ungrouped(t4);
            lemma_knows_part(v0, v4, v5, v5, t0, t4);
            lemma_follow_moves(v4, t4);
            lemma_follow_chain(v0, v4, v5, t0, t4, t5);
        }
    } else if x0 == 3 {
        let (x2, v3) = raw_draw(v2, "amount"@);
        lemma_replay_raw(v2, v2, "amount"@);
        let (x3, v4) = branch_spec(c, is_fractal, depth, v3);
        lemma_replay_branch(c, is_fractal, depth, v3, v3);
        let v5 = ungrouped(v4);
        crate::replay::lemma_replay_moves(v4, v4);
        crate::replay::lemma_grows_chain(v0, v1, v2);
        crate::replay::lemma_grows_chain(v0, v2, v3);
        crate::replay::lemma_grows_chain(v0, v3, v4);
        crate::replay::lemma_grows_chain(v0, v4, v5);
        crate::replay::lemma_grows_chain(v3, v4, v5);
        crate::replay::lemma_grows_chain(v2, v3, v5);
        crate::replay::lemma_grows_chain(v1, v2, v5);
        crate::replay::lemma_grows_chain(v0, v1, v5);
        crate::replay::lemma_grows_refl(v5);
        if knows(v0, v5, t0) {
            lemma_follow_refl(v0, t0);
            let (y0, t1) = pick_draw(t0, "unary node"@, unary_types());
            lemma_knows_part(v0, v0, v1, v5, t0, t0);
            lemma_follow_pick(v0, t0, "unary node"@, unary_types());
            lemma_follow_chain(v0, v0, v1, t0, t0, t1);
            let t2 = grouped(t1);
            lemma_knows_part(v0, v1, v2, v5, t0, t1);
            lemma_follow_moves(v1, t1);
            lemma_follow_chain(v0, v1, v2, t0, t1, t2);
            let (y2, t3) = raw_draw(t2, "amount"@);
            lemma_knows_part(v0, v2, v3, v5, t0, t2);
            lemma_follow_raw(v2, t2, "amount"@);
            lemma_follow_chain(v0, v2, v3, t0, t2, t3);
            let (y3, t4) = branch_spec(c, is_fractal, depth, t3);
            lemma_knows_part(v0, v3, v4, v5, t0, t3);
            lemma_follow_branch(c, is_fractal, depth, v3, t3);
            lemma_follow_chain(v0, v3, v4, t0, t3, t4);
            let t5 = ungrouped(t4);
            lemma_knows_part(v0, v4, v5, v5, t0, t4);
            lemma_follow_moves(v4, t4);
            lemma_follow_chain(v0, v4, v5, t0, t4, t5);
        }
    } else if x0 == 4 {
        let (x2, v3) = raw_draw(v2, "amount"@);
        lemma_replay_raw(v2, v2, "amount"@);
        let (x3, v4) = raw_draw(v3, "X offset"@);
        lemma_replay_raw(v3, v3, "X offset"@);
        let (x4, v5) = raw_draw(v4, "Y offset"@);
        lemma_replay_raw(v4, v4, "Y offset"@);
        let (x5, v6) = raw_draw(v5, "Z offset"@);
        lemma_replay_raw(v5, v5, "Z offset"@);
        let (x6, v7) = branch_spec(c, is_fractal, depth, v6);
        lemma_replay_branch(c, is_fractal, depth, v6, v6);
        let v8 = ungrouped(v7);
        crate::replay::lemma_replay_moves(v7, v7);
        crate::replay::lemma_grows_chain(v0, v1, v2);
        crate::replay::lemma_grows_chain(v0, v2, v3);
        crate::replay::lemma_grows_chain(v0, v3, v4);
        crate::replay::lemma_grows_chain(v0, v4, v5);
        crate::replay::lemma_grows_chain(v0, v5, v6);
        crate::replay::lemma_grows_chain(v0, v6, v7);
        crate::replay::lemma_grows_chain(v0, v7, v8);
        crate::replay::lemma_grows_chain(v6, v7, v8);
        crate::replay::lemma_grows_chain(v5, v6, v8);
        crate::replay::lemma_grows_chain(v4, v5, v8);
        crate::replay::lemma_grows_chain(v3, v4, v8);
        crate::replay::lemma_grows_chain(v2, v3, v8);
        crate::replay::lemma_grows_chain(v1, v2, v8);
        crate::replay::lemma_grows_chain(v0, v1, v8);
        crate::replay::lemma_grows_refl(v8);
        if knows(v0, v8, t0) {
            lemma_follow_refl(v0, t0);
            let (y0, t1) = pick_draw(t0, "unary node"@, unary_types());
            lemma_knows_part(v0, v0, v1, v8, t0, t0);
            lemma_follow_pick(v0, t0, "unary node"@, unary_types());
            lemma_follow_chain(v0, v0, v1, t0, t0, t1);
            let t2 = grouped(t1);
            lemma_knows_part(v0, v1, v2, v8, t0, t1);
            lemma_follow_moves(v1, t1);
            lemma_follow_chain(v0, v1, v2, t0, t1, t2);
            let (y2, t3) = raw_draw(t2, "amount"@);
            lemma_knows_part(v0, v2, v3, v8, t0, t2);
            lemma_follow_raw(v2, t2, "amount"@);
            lemma_follow_chain(v0, v2, v3, t0, t2, t3);
            let (y3, t4) = raw_draw(t3, "X offset"@);
            lemma_knows_part(v0, v3, v4, v8, t0, t3);
            lemma_follow_raw(v3, t3, "X offset"@);
            lemma_follow_chain(v0, v3, v4, t0, t3, t4);
            let (y4, t5) = raw_draw(t4, "Y offset"@);
            lemma_knows_part(v0, v4, v5, v8, t0, t4);
            lemma_follow_raw(v4, t4, "Y offset"@);
            lemma_follow_chain(v0, v4, v5, t0, t4, t5);
            let (y5, t6) = raw_draw(t5, "Z offset"@);
            lemma_knows_part(v0, v5, v6, v8, t0, t5);
            lemma_follow_raw(v5, t5, "Z offset"@);
            lemma_follow_chain(v0, v5, v6, t0, t5, t6);
            let (y6, t7) = branch_spec(c, is_fractal, depth, t6);
            lemma_knows_part(v0, v6, v7, v8, t0, t6);
            lemma_follow_branch(c, is_fractal, depth, v6, t6);
            lemma_follow_chain(v0, v6, v7, t0, t6, t7);
            let t8 = ungrouped(t7);
            lemma_knows_part(v0, v7, v8, v8, t0, t7);
            lemma_follow_moves(v7, t7);
            lemma_follow_chain(v0, v7, v8, t0, t7, t8);
        }
    } else {
        let (x2, v3) = u32_draw(v2, "seed"@);
        lemma_replay_u32(v2, v2, "seed"@);
        let (x3, v4) = branch_spec(c, is_fractal, depth, v3);
        lemma_replay_branch(c, is_fractal, depth, v3, v3);
        let v5 = ungrouped(v4);
        crate::replay::lemma_replay_moves(v4, v4);
        crate::replay::lemma_grows_chain(v0, v1, v2);
        crate::replay::lemma_grows_chain(v0, v2, v3);
        crate::replay::lemma_grows_chain(v0, v3, v4);
        crate::replay::lemma_grows_chain(v0, v4, v5);
        crate::replay::lemma_grows_chain(v3, v4, v5);
        crate::replay::lemma_grows_chain(v2, v3, v5);
        crate::replay::lemma_grows_chain(v1, v2, v5);
        crate::replay::lemma_grows_chain(v0, v1, v5);
        crate::replay::lemma_grows_refl(v5);
        if knows(v0, v5, t0) {
            lemma_follow_refl(v0, t0);
            let (y0, t1) = pick_draw(t0, "unary node"@, unary_types());
            lemma_knows_part(v0, v0, v1, v5, t0, t0);
            lemma_follow_pick(v0, t0, "unary node"@, unary_types());
            lemma_follow_chain(v0, v0, v1, t0, t0, t1);
            let t2 = grouped(t1);
            lemma_knows_part(v0, v1, v2, v5, t0, t1);
            lemma_follow_moves(v1, t1);
            lemma_follow_chain(v0, v1, v2, t0, t1, t2);
            let (y2, t3) = u32_draw(t2, "seed"@);
            lemma_knows_part(v0, v2, v3, v5, t0, t2);
            lemma_follow_u32(v2, t2, "seed"@);
            lemma_follow_chain(v0, v2, v3, t0, t2, t3);
            let (y3, t4) = branch_spec(c, is_fractal, depth, t3);
            lemma_knows_part(v0, v3, v4, v5, t0, t3);
            lemma_follow_branch(c, is_fractal, depth, v3, t3);
            lemma_follow_chain(v0, v3, v4, t0, t3, t4);
            let t5 = ungrouped(t4);
            lemma_knows_part(v0, v4, v5, v5, t0, t4);
            lemma_follow_moves(v4, t4);
            lemma_follow_chain(v0, v4, v5, t0, t4, t5);
        }
    }
}

/// A binary operator follows: the same operator over two children that follow.
#[verifier::spinoff_prover]
#[verifier::rlimit(100)]
pub proof fn lemma_follow_binary(c: i64, is_fractal: bool, depth: nat, v: DnaView, t: DnaView)
    requires
        aligned(v, t),
        v.interactive,
    ensures
        grows(v, binary_spec(c, is_fractal, depth, v).1),
        knows(v, binary_spec(c, is_fractal, depth, v).1, t) ==> shape(binary_spec(c, is_fractal, depth, t).0) == shape(binary_spec(c, is_fractal, depth, v).0) && follows(v, binary_spec(c, is_fractal, depth, v).1, t, binary_spec(c, is_fractal, depth, t).1),
    decreases depth, 3nat,
{
    let v0 = v;
    let t0 = t;
    crate::replay::lemma_grows_refl(v0);
    crate::replay::lemma_grows_refl(t0);
    let (x0, v1) = pick_draw(v0, "binary node"@, binary_types());
    lemma_replay_pick(v0, v0, "binary node"@, binary_types());
    let v2 = grouped(v1);
    crate::replay::lemma_replay_moves(v1, v1);
    if x0 == 0 {
        let (x2, v3) = raw_draw(v2, "amount"@);
        lemma_replay_raw(v2, v2, "amount"@);
        let (x3, v4) = branch_spec(c, is_fractal, depth, v3);
        lemma_replay_branch(c, is_fractal, depth, v3, v3);
        let (x4, v5) = branch_spec(c, is_fractal, depth, v4);
        lemma_replay_branch(c, is_fractal, depth, v4, v4);
        let v6 = ungrouped(v5);
        crate::replay::lemma_replay_moves(v5, v5);
        crate::replay::lemma_grows_chain(v0, v1, v2);
        crate::replay::lemma_grows_chain(v0, v2, v3);
        crate::replay::lemma_grows_chain(v0, v3, v4);
        crate::replay::lemma_grows_chain(v0, v4, v5);
        crate::replay::lemma_grows_chain(v0, v5, v6);
        crate::replay::lemma_grows_chain(v4, v5, v6);
        crate::replay::lemma_grows_chain(v3, v4, v6);
        crate::replay::lemma_grows_chain(v2, v3, v6);
        crate::replay::lemma_grows_chain(v1, v2, v6);
        crate::replay::lemma_grows_chain(v0, v1, v6);
        crate::replay::lemma_grows_refl(v6);
        if knows(v0, v6, t0) {
            lemma_follow_refl(v0, t0);
            let (y0, t1) = pick_draw(t0, "binary node"@, binary_types());
            lemma_knows_part(v0, v0, v1, v6, t0, t0);
            lemma_follow_pick(v0, t0, "binary node"@, binary_types());
            lemma_follow_chain(v0, v0, v1, t0, t0, t1);
            let t2 = grouped(t1);
            lemma_knows_part(v0, v1, v2, v6, t0, t1);
            lemma_follow_moves(v1, t1);
            lemma_follow_chain(v0, v1, v2, t0, t1, t2);
            let (y2, t3) = raw_draw(t2, "amount"@);
            lemma_knows_part(v0, v2, v3, v6, t0, t2);
            lemma_follow_raw(v2, t2, "amount"@);
            lemma_follow_chain(v0, v2, v3, t0, t2, t3);
            let (y3, t4) = branch_spec(c, is_fractal, depth, t3);
            lemma_knows_part(v0, v3, v4, v6, t0, t3);
            lemma_follow_branch(c, is_fractal, depth, v3, t3);
            lemma_follow_chain(v0, v3, v4, t0, t3, t4);
            let (y4, t5) = branch_spec(c, is_fractal, depth, t4);
            lemma_knows_part(v0, v4, v5, v6, t0, t4);
            lemma_follow_branch(c, is_fractal, depth, v4, t4);
            lemma_follow_chain(v0, v4, v5, t0, t4, t5);
            let t6 = ungrouped(t5);
            lemma_knows_part(v0, v5, v6, v6, t0, t5);
            lemma_follow_moves(v5, t5);
            lemma_follow_chain(v0, v5, v6, t0, t5, t6);
        }
    } else if x0 == 1 {
        let (x2, v3) = raw_draw(v2, "amount"@);
        lemma_replay_raw(v2, v2, "amount"@);
        let (x3, v4) = raw_draw(v3, "displacement"@);
        lemma_replay_raw(v3, v3, "displacement"@);
        let (x4, v5) = branch_spec(c, is_fractal, depth, v4);
        lemma_replay_branch(c, is_fractal, depth, v4, v4);
        let (x5, v6) = branch_spec(c, is_fractal, depth, v5);
        lemma_replay_branch(c, is_fractal, depth, v5, v5);
        let v7 = ungrouped(v6);
        crate::replay::lemma_replay_moves(v6, v6);
        crate::replay::lemma_grows_chain(v0, v1, v2);
        crate::replay::lemma_grows_chain(v0, v2, v3);
        crate::replay::lemma_grows_chain(v0, v3, v4);
        crate::replay::lemma_grows_chain(v0, v4, v5);
        crate::replay::lemma_grows_chain(v0, v5, v6);
        crate::replay::lemma_grows_chain(v0, v6, v7);
        crate::replay::lemma_grows_chain(v5, v6, v7);
        crate::replay::lemma_grows_chain(v4, v5, v7);
        crate::replay::lemma_grows_chain(v3, v4, v7);
        crate::replay::lemma_grows_chain(v2, v3, v7);
        crate::replay::lemma_grows_chain(v1, v2, v7);
        crate::replay::lemma_grows_chain(v0, v1, v7);
        crate::replay::lemma_grows_refl(v7);
        if knows(v0, v7, t0) {
            lemma_follow_refl(v0, t0);
            let (y0, t1) = pick_draw(t0, "binary node"@, binary_types());
            lemma_knows_part(v0, v0, v1, v7, t0, t0);
            lemma_follow_pick(v0, t0, "binary node"@, binary_types());
            lemma_follow_chain(v0, v0, v1, t0, t0, t1);
            let t2 = grouped(t1);
            lemma_knows_part(v0, v1, v2, v7, t0, t1);
            lemma_follow_moves(v1, t1);
            lemma_follow_chain(v0, v1, v2, t0, t1, t2);
            let (y2, t3) = raw_draw(t2, "amount"@);
            lemma_knows_part(v0, v2, v3, v7, t0, t2);
            lemma_follow_raw(v2, t2, "amount"@);
            lemma_follow_chain(v0, v2, v3, t0, t2, t3);
            let (y3, t4) = raw_draw(t3, "displacement"@);
            lemma_knows_part(v0, v3, v4, v7, t0, t3);
            lemma_follow_raw(v3, t3, "displacement"@);
            lemma_follow_chain(v0, v3, v4, t0, t3, t4);
            let (y4, t5) = branch_spec(c, is_fractal, depth, t4);
            lemma_knows_part(v0, v4, v5, v7, t0, t4);
            lemma_follow_branch(c, is_fractal, depth, v4, t4);
            lemma_follow_chain(v0, v4, v5, t0, t4, t5);
            let (y5, t6) = branch_spec(c, is_fractal, depth, t5);
            lemma_knows_part(v0, v5, v6, v7, t0, t5);
            lemma_follow_branch(c, is_fractal, depth, v5, t5);
            lemma_follow_chain(v0, v5, v6, t0, t5, t6);
            let t7 = ungrouped(t6);
            lemma_knows_part(v0, v6, v7, v7, t0, t6);
            lemma_follow_moves(v6, t6);
            lemma_follow_chain(v0, v6, v7, t0, t6, t7);
        }
    } else if x0 == 2 {
        let (x2, v3) = raw_draw(v2, "width"@);
        lemma_replay_raw(v2, v2, "width"@);
        let (x3, v4) = ease_spec(v3, "layer ease"@);
        lemma_replay_pick(v3, v3, "layer ease"@, ease_types());
        let (x4, v5) = branch_spec(c, is_fractal, depth, v4);
        lemma_replay_branch(c, is_fractal, depth, v4, v4);
        let (x5, v6) = branch_spec(c, is_fractal, depth, v5);
        lemma_replay_branch(c, is_fractal, depth, v5, v5);
        let v7 = ungrouped(v6);
        crate::replay::lemma_replay_moves(v6, v6);
        crate::replay::lemma_grows_chain(v0, v1, v2);
        crate::replay::lemma_grows_chain(v0, v2, v3);
        crate::replay::lemma_grows_chain(v0, v3, v4);
        crate::replay::lemma_grows_chain(v0, v4, v5);
        crate::replay::lemma_grows_chain(v0, v5, v6);
        crate::replay::lemma_grows_chain(v0, v6, v7);
        crate::replay::lemma_grows_chain(v5, v6, v7);
        crate::replay::lemma_grows_chain(v4, v5, v7);
        crate::replay::lemma_grows_chain(v3, v4, v7);
        crate::replay::lemma_grows_chain(v2, v3, v7);
        crate::replay::lemma_grows_chain(v1, v2, v7);
        crate::replay::lemma_grows_chain(v0, v1, v7);
        crate::replay::lemma_grows_refl(v7);
        if knows(v0, v7, t0) {
            lemma_follow_refl(v0, t0);
            let (y0, t1) = pick_draw(t0, "binary node"@, binary_types());
            lemma_knows_part(v0, v0, v1, v7, t0, t0);
            lemma_follow_pick(v0, t0, "binary node"@, binary_types());
            lemma_follow_chain(v0, v0, v1, t0, t0, t1);
            let t2 = grouped(t1);
            lemma_knows_part(v0, v1, v2, v7, t0, t1);
            lemma_follow_moves(v1, t1);
            lemma_follow_chain(v0, v1, v2, t0, t1, t2);
            let (y2, t3) = raw_draw(t2, "width"@);
            lemma_knows_part(v0, v2, v3, v7, t0, t2);
            lemma_follow_raw(v2, t2, "width"@);
            lemma_follow_chain(v0, v2, v3, t0, t2, t3);
            let (y3, t4) = ease_spec(t3, "layer ease"@);
            lemma_knows_part(v0, v3, v4, v7, t0, t3);
            lemma_follow_pick(v3, t3, "layer ease"@, ease_types());
            lemma_follow_chain(v0, v3, v4, t0, t3, t4);
            let (y4, t5) = branch_spec(c, is_fractal, depth, t4);
            lemma_knows_part(v0, v4, v5, v7, t0, t4);
            lemma_follow_branch(c, is_fractal, depth, v4, t4);
            lemma_follow_chain(v0, v4, v5, t0, t4, t5);
            let (y5, t6) = branch_spec(c, is_fractal, depth, t5);
            lemma_knows_part(v0, v5, v6, v7, t0, t5);
            lemma_follow_branch(c, is_fractal, depth, v5, t5);
            lemma_follow_chain(v0, v5, v6, t0, t5, t6);
            let t7 = ungrouped(t6);
            lemma_knows_part(v0, v6, v7, v7, t0, t6);
            lemma_follow_moves(v6, t6);
            lemma_follow_chain(v0, v6, v7, t0, t6, t7);
        }
    } else {
        let (x2, v3) = raw_draw(v2, "amount"@);
        lemma_replay_raw(v2, v2, "amount"@);
        let (x3, v4) = branch_spec(c, is_fractal, depth, v3);
        lemma_replay_branch(c, is_fractal, depth, v3, v3);
        let (x4, v5) = branch_spec(c, is_fractal, depth, v4);
        lemma_replay_branch(c, is_fractal, depth, v4, v4);
        let v6 = ungrouped(v5);
        crate::replay::lemma_replay_moves(v5, v5);
        crate::replay::lemma_grows_chain(v0, v1, v2);
        crate::replay::lemma_grows_chain(v0, v2, v3);
        crate::replay::lemma_grows_chain(v0, v3, v4);
        crate::replay::lemma_grows_chain(v0, v4, v5);
        crate::replay::lemma_grows_chain(v0, v5, v6);
        crate::replay::lemma_grows_chain(v4, v5, v6);
        crate::replay::lemma_grows_chain(v3, v4, v6);
        crate::replay::lemma_grows_chain(v2, v3, v6);
        crate::replay::lemma_grows_chain(v1, v2, v6);
        crate::replay::lemma_grows_chain(v0, v1, v6);
        crate::replay::lemma_grows_refl(v6);
        if knows(v0, v6, t0) {
            lemma_follow_refl(v0, t0);
            let (y0, t1) = pick_draw(t0, "binary node"@, binary_types());
            lemma_knows_part(v0, v0, v1, v6, t0, t0);
            lemma_follow_pick(v0, t0, "binary node"@, binary_types());
            lemma_follow_chain(v0, v0, v1, t0, t0, t1);
            let t2 = grouped(t1);
            lemma_knows_part(v0, v1, v2, v6, t0, t1);
            lemma_follow_moves(v1, t1);
            lemma_follow_chain(v0, v1, v2, t0, t1, t2);
            let (y2, t3) = raw_draw(t2, "amount"@);
            lemma_knows_part(v0, v2, v3, v6, t0, t2);
            lemma_follow_raw(v2, t2, "amount"@);
            lemma_follow_chain(v0, v2, v3, t0, t2, t3);
            let (y3, t4) = branch_spec(c, is_fractal, depth, t3);
            lemma_knows_part(v0, v3, v4, v6, t0, t3);
            lemma_follow_branch(c, is_fractal, depth, v3, t3);
            lemma_follow_chain(v0, v3, v4, t0, t3, t4);
            let (y4, t5) = branch_spec(c, is_fractal, depth, t4);
            lemma_knows_part(v0, v4, v5, v6, t0, t4);
            lemma_follow_branch(c, is_fractal, depth, v4, t4);
            lemma_follow_chain(v0, v4, v5, t0, t4, t5);
            let t6 = ungrouped(t5);
            lemma_knows_part(v0, v5, v6, v6, t0, t5);
            lemma_follow_moves(v5, t5);
            lemma_follow_chain(v0, v5, v6, t0, t5, t6);
        }
    }
}

/// A fractal follows: the same switches over a child that follows.
pub proof fn lemma_follow_fractal(c: i64, depth: nat, v: DnaView, t: DnaView)
    requires
        aligned(v, t),
        v.interactive,
    ensures
        grows(v, fractal_spec(c, depth, v).1),
        knows(v, fractal_spec(c, depth, v).1, t) ==> shape(fractal_spec(c, depth, t).0) == shape(fractal_spec(c, depth, v).0) && follows(v, fractal_spec(c, depth, v).1, t, fractal_spec(c, depth, t).1),
    decreases depth, 3nat,
{
    let v0 = v;
    let t0 = t;
    crate::replay::lemma_grows_refl(v0);
    crate::replay::lemma_grows_refl(t0);
    let (x0, v1) = raw_draw(v0, "base frequency"@);
    lemma_replay_raw(v0, v0, "base frequency"@);
    let (x1, v2) = raw_draw(v1, "roughness"@);
    lemma_replay_raw(v1, v1, "roughness"@);
    let (x2, v3) = u32_in_draw(v2, "octaves"@, 2, 10);
    lemma_replay_u32_in(v2, v2, "octaves"@, 2, 10);
    let (x3, v4) = u32_in_draw(v3, "first octave"@, 0, (x2 - 1) as u32);
    lemma_replay_u32_in(v3, v3, "first octave"@, 0, (x2 - 1) as u32);
    let (x4, v5) = raw_draw(v4, "lacunarity"@);
    lemma_replay_raw(v4, v4, "lacunarity"@);
    let (x5, v6) = option_spec(v5, "displace"@, "amount"@);
    lemma_replay_option(v5, v5, "displace"@, "amount"@);
    let (x6, v7) = option_spec(v6, "layer"@, "width"@);
    lemma_replay_option(v6, v6, "layer"@, "width"@);
    let (x7, v8) = branch_spec(c, true, depth, v7);
    lemma_replay_branch(c, true, depth, v7, v7);
    crate::replay::lemma_grows_chain(v0, v1, v2);
    crate::replay::lemma_grows_chain(v0, v2, v3);
    crate::replay::lemma_grows_chain(v0, v3, v4);
    crate::replay::lemma_grows_chain(v0, v4, v5);
    crate::replay::lemma_grows_chain(v0, v5, v6);
    crate::replay::lemma_grows_chain(v0, v6, v7);
    crate::replay::lemma_grows_chain(v0, v7, v8);
    crate::replay::lemma_grows_chain(v6, v7, v8);
    crate::replay::lemma_grows_chain(v5, v6, v8);
    crate::replay::lemma_grows_chain(v4, v5, v8);
    crate::replay::lemma_grows_chain(v3, v4, v8);
    crate::replay::lemma_grows_chain(v2, v3, v8);
    crate::replay::lemma_grows_chain(v1, v2, v8);
    crate::replay::lemma_grows_chain(v0, v1, v8);
    crate::replay::lemma_grows_refl(v8);
    if knows(v0, v8, t0) {
        lemma_follow_refl(v0, t0);
        let (y0, t1) = raw_draw(t0, "base frequency"@);
        lemma_knows_part(v0, v0, v1, v8, t0, t0);
        lemma_follow_raw(v0, t0, "base frequency"@);
        lemma_follow_chain(v0, v0, v1, t0, t0, t1);
        let (y1, t2) = raw_draw(t1, "roughness"@);
        lemma_knows_part(v0, v1, v2, v8, t0, t1);
        lemma_follow_raw(v1, t1, "roughness"@);
        lemma_follow_chain(v0, v1, v2, t0, t1, t2);
        let (y2, t3) = u32_in_draw(t2, "octaves"@, 2, 10);
        lemma_knows_part(v0, v2, v3, v8, t0, t2);
        lemma_follow_u32_in(v2, t2, "octaves"@, 2, 10, 2, 10);
        lemma_follow_chain(v0, v2, v3, t0, t2, t3);
        let (y3, t4) = u32_in_draw(t3, "first octave"@, 0, (y2 - 1) as u32);
        lemma_knows_part(v0, v3, v4, v8, t0, t3);
        lemma_follow_u32_in(v3, t3, "first octave"@, 0, (x2 - 1) as u32, 0, (y2 - 1) as u32);
        lemma_follow_chain(v0, v3, v4, t0, t3, t4);
        let (y4, t5) = raw_draw(t4, "lacunarity"@);
        lemma_knows_part(v0, v4, v5, v8, t0, t4);
        lemma_follow_raw(v4, t4, "lacunarity"@);
        lemma_follow_chain(v0, v4, v5, t0, t4, t5);
        let (y5, t6) = option_spec(t5, "displace"@, "amount"@);
        lemma_knows_part(v0, v5, v6, v8, t0, t5);
        lemma_follow_option("displace"@, "amount"@, v5, t5);
        lemma_follow_chain(v0, v5, v6, t0, t5, t6);
        let (y6, t7) = option_spec(t6, "layer"@, "width"@);
        lemma_knows_part(v0, v6, v7, v8, t0, t6);
        lemma_follow_option("layer"@, "width"@, v6, t6);
        lemma_follow_chain(v0, v6, v7, t0, t6, t7);
        let (y7, t8) = branch_spec(c, true, depth, t7);
        lemma_knows_part(v0, v7, v8, v8, t0, t7);
        lemma_follow_branch(c, true, depth, v7, t7);
        lemma_follow_chain(v0, v7, v8, t0, t7, t8);
    }
}

/// A palette follows: a map that follows.
pub proof fn lemma_follow_palette(c: i64, v: DnaView, t: DnaView)
    requires
        aligned(v, t),
        v.interactive,
    ensures
        grows(v, palette_spec(c, v).1),
        knows(v, palette_spec(c, v).1, t) ==> shape(palette_spec(c, t).0) == shape(palette_spec(c, v).0) && follows(v, palette_spec(c, v).1, t, palette_spec(c, t).1),
{
    let v0 = v;
    let t0 = t;
    crate::replay::lemma_grows_refl(v0);
    crate::replay::lemma_grows_refl(t0);
    let (x0, v1) = raw_draw(v0, "hue 1"@);
    lemma_replay_raw(v0, v0, "hue 1"@);
    let (x1, v2) = raw_draw(v1, "saturation 1"@);
    lemma_replay_raw(v1, v1, "saturation 1"@);
    let (x2, v3) = raw_draw(v2, "lightness 1"@);
    lemma_replay_raw(v2, v2, "lightness 1"@);
    let (x3, v4) = raw_draw(v3, "hue 2"@);
    lemma_replay_raw(v3, v3, "hue 2"@);
    let (x4, v5) = raw_draw(v4, "saturation 2"@);
    lemma_replay_raw(v4, v4, "saturation 2"@);
    let (x5, v6) = raw_draw(v5, "lightness 2"@);
    lemma_replay_raw(v5, v5, "lightness 2"@);
    let (x6, v7) = raw_draw(v6, "hue 3"@);
    lemma_replay_raw(v6, v6, "hue 3"@);
    let (x7, v8) = raw_draw(v7, "saturation 3"@);
    lemma_replay_raw(v7, v7, "saturation 3"@);
    let (x8, v9) = raw_draw(v8, "lightness 3"@);
    lemma_replay_raw(v8, v8, "lightness 3"@);
    let (x9, v10) = gen_spec(c, false, MAX_DEPTH as nat, v9);
    lemma_replay_gen(c, false, MAX_DEPTH as nat, v9, v9);
    crate::replay::lemma_grows_chain(v0, v1, v2);
    crate::replay::lemma_grows_chain(v0, v2, v3);
    crate::replay::lemma_grows_chain(v0, v3, v4);
    crate::replay::lemma_grows_chain(v0, v4, v5);
    crate::replay::lemma_grows_chain(v0, v5, v6);
    crate::replay::lemma_grows_chain(v0, v6, v7);
    crate::replay::lemma_grows_chain(v0, v7, v8);
    crate::replay::lemma_grows_chain(v0, v8, v9);
    crate::replay::lemma_grows_chain(v0, v9, v10);
    crate::replay::lemma_grows_chain(v8, v9, v10);
    crate::replay::lemma_grows_chain(v7, v8, v10);
    crate::replay::lemma_grows_chain(v6, v7, v10);
    crate::replay::lemma_grows_chain(v5, v6, v10);
    crate::replay::lemma_grows_chain(v4, v5, v10);
    crate::replay::lemma_grows_chain(v3, v4, v10);
    crate::replay::lemma_grows_chain(v2, v3, v10);
    crate::replay::lemma_grows_chain(v1, v2, v10);
    crate::replay::lemma_grows_chain(v0, v1, v10);
    crate::replay::lemma_grows_refl(v10);
    if knows(v0, v10, t0) {
        lemma_follow_refl(v0, t0);
        let (y0, t1) = raw_draw(t0, "hue 1"@);
        lemma_knows_part(v0, v0, v1, v10, t0, t0);
        lemma_follow_raw(v0, t0, "hue 1"@);
        lemma_follow_chain(v0, v0, v1, t0, t0, t1);
        let (y1, t2) = raw_draw(t1, "saturation 1"@);
        lemma_knows_part(v0, v1, v2, v10, t0, t1);
        lemma_follow_raw(v1, t1, "saturation 1"@);
        lemma_follow_chain(v0, v1, v2, t0, t1, t2);
        let (y2, t3) = raw_draw(t2, "lightness 1"@);
        lemma_knows_part(v0, v2, v3, v10, t0, t2);
        lemma_follow_raw(v2, t2, "lightness 1"@);
        lemma_follow_chain(v0, v2, v3, t0, t2, t3);
        let (y3, t4) = raw_draw(t3, "hue 2"@);
        lemma_knows_part(v0, v3, v4, v10, t0, t3);
        lemma_follow_raw(v3, t3, "hue 2"@);
        lemma_follow_chain(v0, v3, v4, t0, t3, t4);
        let (y4, t5) = raw_draw(t4, "saturation 2"@);
        lemma_knows_part(v0, v4, v5, v10, t0, t4);
        lemma_follow_raw(v4, t4, "saturation 2"@);
        lemma_follow_chain(v0, v4, v5, t0, t4, t5);
        let (y5, t6) = raw_draw(t5, "lightness 2"@);
        lemma_knows_part(v0, v5, v6, v10, t0, t5);
        lemma_follow_raw(v5, t5, "lightness 2"@);
        lemma_follow_chain(v0, v5, v6, t0, t5, t6);
        let (y6, t7) = raw_draw(t6, "hue 3"@);
        lemma_knows_part(v0, v6, v7, v10, t0, t6);
        lemma_follow_raw(v6, t6, "hue 3"@);
        lemma_follow_chain(v0, v6, v7, t0, t6, t7);
        let (y7, t8) = raw_draw(t7, "saturation 3"@);
        lemma_knows_part(v0, v7, v8, v10, t0, t7);
        lemma_follow_raw(v7, t7, "saturation 3"@);
        lemma_follow_chain(v0, v7, v8, t0, t7, t8);
        let (y8, t9) = raw_draw(t8, "lightness 3"@);
        lemma_knows_part(v0, v8, v9, v10, t0, t8);
        lemma_follow_raw(v8, t8, "lightness 3"@);
        lemma_follow_chain(v0, v8, v9, t0, t8, t9);
        let (y9, t10) = gen_spec(c, false, MAX_DEPTH as nat, t9);
        lemma_knows_part(v0, v9, v10, v10, t0, t9);
        lemma_follow_gen(c, false, MAX_DEPTH as nat, v9, t9);
        lemma_follow_chain(v0, v9, v10, t0, t9, t10);
    }
}


/// A finetune with certainty keeps the shape: regenerating the child gives
/// a tree of the same shape as the parent's, and the child's pass logs the
/// same categorical parameters, in the same order, at the same addresses,
/// with the same choices. The parent is a fresh genome whose pass logged
/// parameters with pairwise distinct hashes; the child is the genome that
/// `finetune` makes of that log.
pub proof fn lemma_finetune_keeps_shape(c: i64, seed: u64, r: Rnd, child: DnaView)
    requires
        distinct_records(gen_spec(c, false, MAX_DEPTH as nat, fresh_genome(seed)).1.log),
        child.address == seq![0u32],
        child.interactive,
        child.log == Seq::<ParameterView>::empty(),
        child.genes == finetune_of(
            gen_spec(c, false, MAX_DEPTH as nat, fresh_genome(seed)).1.log,
            gen_spec(c, false, MAX_DEPTH as nat, fresh_genome(seed)).1.log.len(),
            PROBABILITY_ONE,
            r,
        ).0,
    ensures
        shape(gen_spec(c, false, MAX_DEPTH as nat, child).0) == shape(
            gen_spec(c, false, MAX_DEPTH as nat, fresh_genome(seed)).0,
        ),
        choices_of(gen_spec(c, false, MAX_DEPTH as nat, child).1.log) == choices_of(
            gen_spec(c, false, MAX_DEPTH as nat, fresh_genome(seed)).1.log,
        ),
{
    let v0 = fresh_genome(seed);
    let (n, v1) = gen_spec(c, false, MAX_DEPTH as nat, v0);
    let (m, t1) = gen_spec(c, false, MAX_DEPTH as nat, child);
    lemma_finetune_containment(v1.log, r);
    lemma_follow_gen(c, false, MAX_DEPTH as nat, v0, child);
    reveal(knows);
    assert(knows(v0, v1, child)) by {
        assert forall|i: int|
            v0.log.len() <= i < v1.log.len() && v1.log[i].kind == ParameterKind::Categorical implies child.genes.contains_key(
                #[trigger] v1.log[i].hash,
            ) && child.genes[v1.log[i].hash] == v1.log[i].raw by {
            let e = v1.log[i];
        }
    }
    reveal(follows);
    assert(added(v0, v1) =~= v1.log);
    assert(added(child, t1) =~= t1.log);
}

} // verus!
