use funutd::dna::Dna;
use funutd::map3gen::genmap3;

fn sorted(mut v: Vec<(u64, u32)>) -> Vec<(u64, u32)> {
    v.sort();
    v
}

#[test]
fn save_then_load_round_trip() {
    let mut dna = Dna::new(77);
    let _ = genmap3(40_000, &mut dna);
    let text = dna.save_bytes(b"tiling none");
    let (preamble, loaded) = Dna::load_bytes(&text).unwrap();
    assert_eq!(preamble, b"tiling none".to_vec());
    assert_eq!(sorted(loaded.gene_entries()), sorted(dna.gene_entries()));
}

#[test]
fn save_format_is_one_gene_per_line() {
    let mut dna = Dna::new(0);
    dna.set_value(12, 34);
    let text = dna.save_bytes(b"pre");
    assert_eq!(text, b"pre\n12 34\n".to_vec());
}

#[test]
fn load_reads_genes() {
    let (pre, dna) = Dna::load_bytes(b"hello\n1 2\n18446744073709551615 4294967295").unwrap();
    assert_eq!(pre, b"hello".to_vec());
    assert_eq!(
        sorted(dna.gene_entries()),
        vec![(1, 2), (18446744073709551615, 4294967295)]
    );
}

#[test]
fn load_of_preamble_only() {
    let (pre, dna) = Dna::load_bytes(b"just a preamble").unwrap();
    assert_eq!(pre, b"just a preamble".to_vec());
    assert!(dna.gene_entries().is_empty());
    let (pre, dna) = Dna::load_bytes(b"").unwrap();
    assert!(pre.is_empty());
    assert!(dna.gene_entries().is_empty());
}

#[test]
fn load_rejects_malformed_lines() {
    assert!(Dna::load_bytes(b"p\n1 2\nx 3\n").is_none());
    assert!(Dna::load_bytes(b"p\n1 2\n\n").is_none());
    assert!(Dna::load_bytes(b"p\n12\n").is_none());
    assert!(Dna::load_bytes(b"p\n1 4294967296\n").is_none());
    assert!(Dna::load_bytes(b"p\n18446744073709551616 1\n").is_none());
    assert!(Dna::load_bytes(b"p\n1  2\n").is_none());
    assert!(Dna::load_bytes(b"p\n 1 2\n").is_none());
}

#[test]
fn later_lines_override_earlier_ones() {
    let (_, dna) = Dna::load_bytes(b"p\n5 1\n5 2\n").unwrap();
    assert_eq!(dna.gene_entries(), vec![(5, 2)]);
}
