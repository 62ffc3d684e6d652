use funutd::distance::Distance;
use funutd::dna::{Dna, ParameterKind};
use funutd::ease::Ease;
use funutd::map3gen::{genmap3, NodeFamily};
use funutd::mutation::PROBABILITY_ONE;
use funutd::tiling::{tile_all, tile_all_in, tile_none, tile_xy, tile_xy_in};

fn log_of(dna: &Dna) -> Vec<(String, String, u64, u32)> {
    dna.parameter_vector()
        .iter()
        .map(|p| (p.name().clone(), p.value().clone(), p.hash(), p.raw()))
        .collect()
}

fn genes_of(dna: &Dna) -> Vec<(u64, u32)> {
    let mut g = dna.gene_entries();
    g.sort();
    g
}

#[test]
fn dna_new_is_fresh() {
    let dna = Dna::new(42);
    assert_eq!(dna.address(), &vec![0]);
    assert_eq!(dna.parameters(), 0);
    assert!(dna.is_interactive());
    assert!(dna.gene_entries().is_empty());
}

#[test]
fn dna_read_is_idempotent() {
    let mut dna = Dna::new(7);
    let a = dna.u32("x");
    assert_eq!(dna.address(), &vec![1]);
    dna.reset();
    let b = dna.u32("x");
    assert_eq!(a, b);
    assert_eq!(genes_of(&dna).len(), 1);
    // a fresh name at a new address draws afresh
    let c = dna.u32("x");
    assert_eq!(genes_of(&dna).len(), 2);
    let _ = c;
}

#[test]
fn dna_read_does_not_advance_the_random_source() {
    let mut a = Dna::new(3);
    let mut b = Dna::new(3);
    let _ = a.u32("p");
    a.reset();
    let _ = a.u32("p");
    let x = a.u32("q");
    let _ = b.u32("p");
    let y = b.u32("q");
    assert_eq!(x, y);
}

#[test]
fn dna_stored_value_is_used() {
    let mut dna = Dna::new(1);
    let _ = dna.u32_in("p", 0, 25);
    let h = dna.parameter(0).hash();
    let mut d2 = Dna::new(1);
    d2.set_value(h, 30);
    assert_eq!(d2.u32_in("p", 0, 25), 4);
    assert_eq!(d2.parameter(0).raw(), 4);
    assert_eq!(d2.parameter(0).maximum(), 25);
    assert_eq!(d2.parameter(0).value(), "4");
    assert!(matches!(d2.parameter(0).kind(), ParameterKind::Ordered));
    let mut d3 = Dna::new(1);
    d3.set_value(h, 30);
    assert_eq!(d3.u32_in("p", 10, 35), 14);
    assert_eq!(d3.parameter(0).value(), "14");
}

#[test]
fn dna_index_direct_and_roulette() {
    let choices = [(1000u32, "a"), (1000u32, "b"), (1000u32, "c")];
    let mut dna = Dna::new(1);
    let _ = dna.index("x", &choices);
    let h = dna.parameter(0).hash();
    // a raw value that names a slot of positive weight is used directly
    let mut d = Dna::new(1);
    d.set_value(h, 2);
    assert_eq!(d.index("x", &choices), 2);
    assert_eq!(d.parameter(0).value(), "c");
    assert_eq!(d.parameter(0).choices(), &vec!["a".to_string(), "b".to_string(), "c".to_string()]);
    assert!(matches!(d.parameter(0).kind(), ParameterKind::Categorical));
    // otherwise the raw value is a fraction of the total weight
    let mut d = Dna::new(1);
    d.set_value(h, 0x8000_0000);
    assert_eq!(d.index("x", &choices), 1);
    let mut d = Dna::new(1);
    d.set_value(h, 0xffff_ffff);
    assert_eq!(d.index("x", &choices), 2);
    let mut d = Dna::new(1);
    d.set_value(h, 3);
    assert_eq!(d.index("x", &choices), 0);
    // a slot of zero weight is never named directly
    let skewed = [(1000u32, "a"), (0u32, "b"), (1000u32, "c")];
    let mut d = Dna::new(1);
    d.set_value(h, 1);
    assert_eq!(d.index("x", &skewed), 0);
    assert_eq!(d.parameter(0).choices(), &vec!["a".to_string(), "c".to_string()]);
}

#[test]
fn dna_choice_returns_the_value() {
    let mut dna = Dna::new(5);
    let e = dna.choice("e", &[(1000u32, "id", Ease::Id), (1000u32, "cubed", Ease::Cubed)]);
    let i = dna.parameter(0).raw();
    assert_eq!(e, if i == 0 { Ease::Id } else { Ease::Cubed });
}

#[test]
fn dna_group_and_ungroup_move_the_address() {
    let mut dna = Dna::new(5);
    let _ = dna.u32("a");
    dna.group();
    assert_eq!(dna.address(), &vec![0, 0]);
    let _ = dna.u32("b");
    dna.ungroup();
    assert_eq!(dna.address(), &vec![1]);
    dna.generate_begin();
    assert_eq!(dna.address(), &vec![1, 0]);
    dna.ungroup();
    assert_eq!(dna.address(), &vec![2]);
}

#[test]
fn dna_non_interactive_records_nothing() {
    let mut dna = Dna::new(5);
    dna.set_interactive(false);
    assert!(!dna.is_interactive());
    let _ = dna.u32("a");
    assert_eq!(dna.parameters(), 0);
}

#[test]
fn dna_reset_keeps_genes_and_order() {
    let mut dna = Dna::new(11);
    let a = genmap3(30_000, &mut dna);
    let log1 = log_of(&dna);
    let genes1 = genes_of(&dna);
    dna.reset();
    let b = genmap3(30_000, &mut dna);
    assert_eq!(format!("{:?}", a), format!("{:?}", b));
    assert_eq!(log_of(&dna), log1);
    assert_eq!(genes_of(&dna), genes1);
}

#[test]
fn generation_is_deterministic() {
    for seed in [0u64, 1, 42, 999] {
        let mut a = Dna::new(seed);
        let mut b = Dna::new(seed);
        let x = genmap3(40_000, &mut a);
        let y = genmap3(40_000, &mut b);
        assert_eq!(format!("{:?}", x), format!("{:?}", y));
        assert_eq!(log_of(&a), log_of(&b));
        assert_eq!(genes_of(&a), genes_of(&b));
    }
}

fn labels(dna: &Dna) -> Vec<(Vec<u32>, String, String)> {
    dna.parameter_vector()
        .iter()
        .filter(|p| matches!(p.kind(), ParameterKind::Categorical))
        .map(|p| (p.address().clone(), p.name().clone(), p.value().clone()))
        .collect()
}

#[test]
fn finetune_keeps_the_shape() {
    let mut parent = Dna::new(21);
    let _ = genmap3(30_000, &mut parent);
    let mut child = Dna::finetune(&parent, 5, PROBABILITY_ONE);
    let _ = genmap3(30_000, &mut child);
    assert_eq!(labels(&child), labels(&parent));
    let ordered_differs = parent
        .parameter_vector()
        .iter()
        .zip(child.parameter_vector().iter())
        .any(|(p, c)| matches!(p.kind(), ParameterKind::Ordered) && p.raw() != c.raw());
    assert!(ordered_differs);
}

#[test]
fn finetune_with_no_chance_copies_everything() {
    let mut parent = Dna::new(22);
    let _ = genmap3(30_000, &mut parent);
    let mut child = Dna::finetune(&parent, 5, 0);
    let _ = genmap3(30_000, &mut child);
    assert_eq!(log_of(&child), log_of(&parent));
}

#[test]
fn mutate_moves_every_ordered_parameter() {
    let mut parent = Dna::new(23);
    let _ = genmap3(50_000, &mut parent);
    let child = Dna::mutate(&parent, 9, PROBABILITY_ONE);
    let genes: std::collections::HashMap<u64, u32> = child.gene_entries().into_iter().collect();
    for p in parent.parameter_vector() {
        let v = genes[&p.hash()];
        match p.kind() {
            ParameterKind::Categorical => assert_eq!(v, p.raw()),
            ParameterKind::Ordered => {
                assert!(v <= p.maximum());
                if p.raw() > 0 && p.raw() < p.maximum() {
                    assert_ne!(v, p.raw());
                }
            }
        }
    }
}

#[test]
fn mutate_with_no_chance_copies_everything() {
    let mut parent = Dna::new(24);
    let _ = genmap3(30_000, &mut parent);
    let child = Dna::mutate(&parent, 9, 0);
    let expected: std::collections::HashMap<u64, u32> =
        parent.parameter_vector().iter().map(|p| (p.hash(), p.raw())).collect();
    let genes: std::collections::HashMap<u64, u32> = child.gene_entries().into_iter().collect();
    assert_eq!(genes, expected);
}

#[test]
fn node_type_at_low_complexity_seed_42() {
    let mut dna = Dna::new(42);
    let node = genmap3(5_000, &mut dna);
    let first = dna.parameter(0);
    assert_eq!(first.name(), "node type");
    // basis is the heaviest slot at this complexity: 1.5 against 1.0, 0.01, 0.01
    assert_eq!(first.choices()[0], "basis");
    // the first raw draw of seed 42 is 0xcdf0ce16, 0.804 of the total weight:
    // past the basis share of 1.5 / 2.52, within the unary one
    let mut rnd = funutd::rnd::Rnd::from_u64(42);
    assert_eq!(rnd.u32(), 0xcdf0ce16);
    assert_eq!(first.value(), "unary");
    assert_eq!(node.family(), NodeFamily::Unary);
    // at the same complexity a raw value within the basis share gives a leaf
    let mut d = Dna::new(42);
    d.set_value(first.hash(), 0x4000_0000);
    let leaf = genmap3(5_000, &mut d);
    assert_eq!(leaf.family(), NodeFamily::Basis);
}

#[test]
fn top_level_families_follow_the_weights() {
    let mut counts = [0usize; 4];
    for seed in 0..1000u64 {
        let mut dna = Dna::new(seed);
        let node = genmap3(5_000, &mut dna);
        let i = match node.family() {
            NodeFamily::Basis => 0,
            NodeFamily::Unary => 1,
            NodeFamily::Binary => 2,
            NodeFamily::Fractal => 3,
        };
        counts[i] += 1;
    }
    // weights 1.5, 1.0, 0.01, 0.01 out of 2.52
    let expected = [1000.0 * 1.5 / 2.52, 1000.0 * 1.0 / 2.52, 1000.0 * 0.01 / 2.52, 1000.0 * 0.01 / 2.52];
    for i in 0..4 {
        let sd = (expected[i] * (1.0 - expected[i] / 1000.0) as f64).sqrt();
        assert!((counts[i] as f64 - expected[i]).abs() <= 4.0 * sd + 2.0, "{:?}", counts);
    }
}

#[test]
fn depth_limit_forces_leaves() {
    let mut dna = Dna::new(8);
    let node = funutd::map3gen::genmap3_node(1_000_000, false, 0, &mut dna);
    assert_eq!(node.family(), NodeFamily::Basis);
}

#[test]
fn codes_of_metrics_and_eases() {
    assert_eq!(Distance::Norm2.get_code(), "Distance::Norm2");
    assert_eq!(Distance::NormMax.get_code(), "Distance::NormMax");
    assert_eq!(Ease::UpArc.get_code(), "Ease::UpArc");
    assert_eq!(Ease::Id.get_code(), "Ease::Id");
}

#[test]
fn tiling_constructors() {
    let _ = tile_none();
    let a = tile_all();
    assert_eq!((a.sx, a.sy, a.sz), (1, 1, 1));
    let b = tile_all_in(2, 3, 4);
    assert_eq!((b.sx, b.sy, b.sz), (2, 3, 4));
    let c = tile_xy();
    assert_eq!((c.sx, c.sy), (1, 1));
    let d = tile_xy_in(5, 6);
    assert_eq!((d.sx, d.sy), (5, 6));
}

#[test]
fn palette_draws_nine_colors_then_the_map() {
    let mut dna = Dna::new(4);
    let node = funutd::map3gen::genmap3palette(5_000, &mut dna);
    assert_eq!(dna.parameter(0).name(), "hue 1");
    assert_eq!(dna.parameter(8).name(), "lightness 3");
    assert_eq!(dna.parameter(9).name(), "node type");
    assert_eq!(node.family(), if dna.parameter(9).raw() == 0 { NodeFamily::Basis } else { node.family() });
}
