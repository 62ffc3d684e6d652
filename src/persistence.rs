//! The text form of a chromosome: a preamble line owned by the caller, then
//! one `"<hash> <value>"` line per gene, in decimal.
use crate::dna::{Dna, DnaView, ParameterView};
use crate::rnd::Rnd;
use vstd::prelude::*;

verus! {

/// The byte of a newline.
pub const NEWLINE: u8 = 10;

/// The byte of a space.
pub const SPACE: u8 = 32;

/// Decimal digits of a natural number, as ASCII bytes.
pub open spec fn dec_bytes(n: nat) -> Seq<u8>
    decreases n,
{
    if n < 10 {
        seq![(48 + n) as u8]
    } else {
        dec_bytes(n / 10).push((48 + n % 10) as u8)
    }
}

/// An ASCII decimal digit.
pub open spec fn is_digit(b: u8) -> bool {
    48 <= b <= 57
}

/// The number that a sequence of ASCII digits spells.
pub open spec fn digits_value(s: Seq<u8>) -> nat
    decreases s.len(),
{
    if s.len() == 0 {
        0
    } else {
        digits_value(s.drop_last()) * 10 + (s.last() - 48) as nat
    }
}

/// A nonempty run of decimal digits whose value is at most `bound`.
pub open spec fn parse_number(s: Seq<u8>, bound: nat) -> Option<nat> {
    if s.len() > 0 && (forall|i: int| 0 <= i < s.len() ==> is_digit(#[trigger] s[i])) && digits_value(s)
        <= bound {
        Some(digits_value(s))
    } else {
        None
    }
}

/// The position of the first `b` in `s`, or the length of `s` if there is none.
pub open spec fn first_index_of(s: Seq<u8>, b: u8) -> nat
    decreases s.len(),
{
    if s.len() == 0 {
        0
    } else if s[0] == b {
        0
    } else {
        1 + first_index_of(s.drop_first(), b)
    }
}

/// One gene line without its newline: a hash and a value separated by the
/// first space.
pub open spec fn parse_gene(line: Seq<u8>) -> Option<(u64, u32)> {
    let i = first_index_of(line, SPACE);
    if i < line.len() {
        match (
            parse_number(line.subrange(0, i as int), u64::MAX as nat),
            parse_number(line.subrange(i + 1 as int, line.len() as int), u32::MAX as nat),
        ) {
            (Some(k), Some(v)) => Some((k as u64, v as u32)),
            _ => None,
        }
    } else {
        None
    }
}

/// The genes that newline-terminated lines spell, in order; `None` if any
/// line is malformed. A last line may lack its newline.
pub open spec fn parse_entries(s: Seq<u8>) -> Option<Seq<(u64, u32)>>
    decreases s.len(),
{
    if s.len() == 0 {
        Some(Seq::empty())
    } else {
        let j = first_index_of(s, NEWLINE);
        let rest = if j < s.len() {
            s.subrange(j + 1 as int, s.len() as int)
        } else {
            Seq::empty()
        };
        match (parse_gene(s.subrange(0, j as int)), parse_entries(rest)) {
            (Some(g), Some(es)) => Some(seq![g] + es),
            _ => None,
        }
    }
}

/// The map that a list of genes builds, later entries overriding earlier ones.
pub open spec fn map_of(es: Seq<(u64, u32)>) -> Map<u64, u32>
    decreases es.len(),
{
    if es.len() == 0 {
        Map::empty()
    } else {
        map_of(es.drop_last()).insert(es.last().0, es.last().1)
    }
}

/// What a saved text holds: the preamble (its first line) and the genes; `None`
/// if a gene line is malformed.
pub open spec fn load_spec(text: Seq<u8>) -> Option<(Seq<u8>, Map<u64, u32>)> {
    let j = first_index_of(text, NEWLINE);
    if j >= text.len() {
        Some((text, Map::empty()))
    } else {
        match parse_entries(text.subrange(j + 1 as int, text.len() as int)) {
            Some(es) => Some((text.subrange(0, j as int), map_of(es))),
            None => None,
        }
    }
}

/// One gene as a line of text.
pub open spec fn gene_line(g: (u64, u32)) -> Seq<u8> {
    dec_bytes(g.0 as nat) + seq![SPACE] + dec_bytes(g.1 as nat) + seq![NEWLINE]
}

/// Genes as lines of text, in order.
pub open spec fn genes_text(es: Seq<(u64, u32)>) -> Seq<u8>
    decreases es.len(),
{
    if es.len() == 0 {
        Seq::empty()
    } else {
        genes_text(es.drop_last()) + gene_line(es.last())
    }
}

/// A list of genes that holds each gene of `genes` exactly once.
pub open spec fn enumerates(es: Seq<(u64, u32)>, genes: Map<u64, u32>) -> bool {
    &&& forall|i: int| 0 <= i < es.len() ==> genes.contains_key(#[trigger] es[i].0) && genes[es[i].0] == es[i].1
    &&& forall|k: u64| genes.contains_key(k) ==> exists|i: int| 0 <= i < es.len() && #[trigger] es[i].0 == k
    &&& forall|i: int, j: int| 0 <= i < j < es.len() ==> es[i].0 != es[j].0
}

/// The genome that loading makes of genes: a fresh genome from seed zero
/// holding them.
pub open spec fn loaded_genome(v: DnaView, genes: Map<u64, u32>) -> bool {
    &&& v.address == seq![0u32]
    &&& v.genes == genes
    &&& v.rnd == Rnd::seeded(0)
    &&& v.interactive
    &&& v.log == Seq::<ParameterView>::empty()
}

/// Appends the decimal digits of `n`.
fn push_decimal(out: &mut Vec<u8>, n: u64)
    ensures
        final(out)@ == old(out)@ + dec_bytes(n as nat),
    decreases n,
{
    if n >= 10 {
        push_decimal(out, n / 10);
    }
    out.push(48 + (n % 10) as u8);
    proof {
        if n >= 10 {
            assert(old(out)@ + dec_bytes(n as nat) =~= old(out)@ + dec_bytes((n / 10) as nat) + seq![
                (48 + n % 10) as u8,
            ]);
        } else {
            assert(old(out)@ + dec_bytes(n as nat) =~= old(out)@ + seq![(48 + n % 10) as u8]);
        }
    }
}

impl Dna {
    /// The text of the chromosome: the preamble, a newline, and one
    /// `"<hash> <value>"` line per gene, in an order that the chromosome
    /// does not promise.
    pub fn save_bytes(&self, preamble: &[u8]) -> (r: Vec<u8>)
        ensures
            exists|es: Seq<(u64, u32)>|
                enumerates(es, self@.genes) && r@ == preamble@ + seq![NEWLINE] + genes_text(es),
    {
        let entries = self.gene_entries();
        let mut out: Vec<u8> = Vec::new();
        let mut i: usize = 0;
        while i < preamble.len()
            invariant
                i <= preamble@.len(),
                out@ == preamble@.subrange(0, i as int),
            decreases preamble@.len() - i,
        {
            out.push(preamble[i]);
            proof {
                assert(out@ =~= preamble@.subrange(0, i + 1));
            }
            i = i + 1;
        }
        proof {
            assert(preamble@.subrange(0, i as int) =~= preamble@);
        }
        out.push(NEWLINE);
        let ghost head = out@;
        let mut j: usize = 0;
        while j < entries.len()
            invariant
                j <= entries@.len(),
                out@ == head + genes_text(entries@.subrange(0, j as int)),
            decreases entries@.len() - j,
        {
            let (k, v) = entries[j];
            push_decimal(&mut out, k);
            out.push(SPACE);
            push_decimal(&mut out, v as u64);
            out.push(NEWLINE);
            proof {
                assert(entries@.subrange(0, j + 1).drop_last() =~= entries@.subrange(0, j as int));
                assert(out@ =~= head + genes_text(entries@.subrange(0, j + 1)));
            }
            j = j + 1;
        }
        proof {
            assert(entries@.subrange(0, j as int) =~= entries@);
            assert(head =~= preamble@ + seq![NEWLINE]);
            assert(enumerates(entries@, self@.genes));
        }
        out
    }
}


/// `first_index_of` is the first position holding `b`.
proof fn lemma_first_index(s: Seq<u8>, b: u8, j: int)
    requires
        0 <= j <= s.len(),
        forall|t: int| 0 <= t < j ==> s[t] != b,
        j == s.len() || s[j] == b,
    ensures
        first_index_of(s, b) == j,
    decreases s.len(),
{
    if s.len() > 0 && j > 0 {
        lemma_first_index(s.drop_first(), b, j - 1);
    }
}

/// Digits never exceed their bound once a prefix does.
proof fn lemma_digits_grow(s: Seq<u8>, i: int)
    requires
        0 <= i <= s.len(),
        forall|t: int| 0 <= t < s.len() ==> is_digit(#[trigger] s[t]),
    ensures
        digits_value(s) >= digits_value(s.subrange(0, i)),
    decreases s.len() - i,
{
    if i < s.len() {
        lemma_digits_grow(s, i + 1);
        let p = s.subrange(0, i + 1);
        assert(p.drop_last() =~= s.subrange(0, i));
        assert(is_digit(s[i]));
        assert(digits_value(p) == digits_value(p.drop_last()) * 10 + (p.last() - 48) as nat);
        assert(digits_value(p) >= digits_value(p.drop_last()));
    } else {
        assert(s.subrange(0, i) =~= s);
    }
}

/// Parses a run of decimal digits no greater than `bound`.
fn parse_number_at(text: &[u8], a: usize, b: usize, bound: u64) -> (r: Option<u64>)
    requires
        a <= b <= text@.len(),
    ensures
        match parse_number(text@.subrange(a as int, b as int), bound as nat) {
            Some(x) => r == Some(x as u64),
            None => r is None,
        },
{
    let ghost s = text@.subrange(a as int, b as int);
    if a == b {
        return None;
    }
    let mut acc: u64 = 0;
    let mut i = a;
    while i < b
        invariant
            a <= i <= b,
            b <= text@.len(),
            s == text@.subrange(a as int, b as int),
            forall|t: int| 0 <= t < i - a ==> is_digit(#[trigger] s[t]),
            acc as nat == digits_value(s.subrange(0, i - a)),
            acc <= bound,
        decreases b - i,
    {
        let c = text[i];
        if c < 48 || c > 57 {
            proof {
                assert(!is_digit(s[i - a]));
            }
            return None;
        }
        let next = (acc as u128) * 10 + (c - 48) as u128;
        proof {
            assert(s.subrange(0, i - a + 1).drop_last() =~= s.subrange(0, i - a));
        }
        if next > bound as u128 {
            proof {
                if forall|t: int| 0 <= t < s.len() ==> is_digit(#[trigger] s[t]) {
                    lemma_digits_grow(s, i - a + 1);
                }
            }
            return None;
        }
        acc = next as u64;
        i = i + 1;
    }
    proof {
        assert(s.subrange(0, i - a) =~= s);
    }
    Some(acc)
}

/// Parses one gene line, from `start` up to `end`.
fn parse_gene_at(text: &[u8], start: usize, end: usize) -> (r: Option<(u64, u32)>)
    requires
        start <= end <= text@.len(),
    ensures
        r == parse_gene(text@.subrange(start as int, end as int)),
{
    let ghost line = text@.subrange(start as int, end as int);
    let mut i = start;
    while i < end && text[i] != SPACE
        invariant
            start <= i <= end,
            end <= text@.len(),
            line == text@.subrange(start as int, end as int),
            forall|t: int| 0 <= t < i - start ==> line[t] != SPACE,
        decreases end - i,
    {
        i = i + 1;
    }
    proof {
        lemma_first_index(line, SPACE, i - start);
    }
    if i == end {
        return None;
    }
    proof {
        assert(line.subrange(0, i - start) =~= text@.subrange(start as int, i as int));
        assert(line.subrange(i - start + 1, line.len() as int) =~= text@.subrange(i + 1, end as int));
    }
    let k = parse_number_at(text, start, i, u64::MAX);
    let v = parse_number_at(text, i + 1, end, u32::MAX as u64);
    match (k, v) {
        (Some(k), Some(v)) => Some((k, v as u32)),
        _ => None,
    }
}

impl Dna {
    /// Reads a genome from the text form: the first line is the preamble,
    /// which is returned, and each further line is a gene. Loading is all or
    /// nothing: one malformed gene line gives `None`.
    pub fn load_bytes(text: &[u8]) -> (r: Option<(Vec<u8>, Dna)>)
        ensures
            match load_spec(text@) {
                Some((pre, genes)) => match r {
                    Some((p, d)) => p@ == pre && loaded_genome(d@, genes),
                    None => false,
                },
                None => r is None,
            },
    {
        let n = text.len();
        let mut j: usize = 0;
        while j < n && text[j] != NEWLINE
            invariant
                j <= n,
                n == text@.len(),
                forall|t: int| 0 <= t < j ==> text@[t] != NEWLINE,
            decreases n - j,
        {
            j = j + 1;
        }
        proof {
            lemma_first_index(text@, NEWLINE, j as int);
        }
        let mut preamble: Vec<u8> = Vec::new();
        let mut i: usize = 0;
        while i < j
            invariant
                i <= j <= n,
                n == text@.len(),
                preamble@ == text@.subrange(0, i as int),
            decreases j - i,
        {
            preamble.push(text[i]);
            proof {
                assert(preamble@ =~= text@.subrange(0, i + 1));
            }
            i = i + 1;
        }
        let mut dna = Dna::new(0);
        if j >= n {
            proof {
                assert(text@.subrange(0, j as int) =~= text@);
            }
            return Some((preamble, dna));
        }
        let ghost body = text@.subrange(j + 1, n as int);
        let ghost mut done: Seq<(u64, u32)> = Seq::empty();
        let mut start = j + 1;
        while start < n
            invariant
                j < start <= n,
                n == text@.len(),
                first_index_of(text@, NEWLINE) == j,
                preamble@ == text@.subrange(0, j as int),
                body == text@.subrange(j + 1, n as int),
                parse_entries(body) == (match parse_entries(text@.subrange(start as int, n as int)) {
                    Some(es) => Some(done + es),
                    None => None::<Seq<(u64, u32)>>,
                }),
                loaded_genome(dna@, map_of(done)),
            decreases n - start,
        {
            let ghost rem = text@.subrange(start as int, n as int);
            let mut e = start;
            while e < n && text[e] != NEWLINE
                invariant
                    start <= e <= n,
                    n == text@.len(),
                    rem == text@.subrange(start as int, n as int),
                    forall|t: int| 0 <= t < e - start ==> rem[t] != NEWLINE,
                decreases n - e,
            {
                e = e + 1;
            }
            proof {
                lemma_first_index(rem, NEWLINE, e - start);
                assert(rem.subrange(0, e - start) =~= text@.subrange(start as int, e as int));
                if e < n {
                    assert(rem.subrange(e - start + 1, rem.len() as int) =~= text@.subrange(e + 1, n as int));
                } else {
                    assert(text@.subrange(n as int, n as int) =~= Seq::<u8>::empty());
                }
            }
            match parse_gene_at(text, start, e) {
                None => {
                    proof {
                        assert(parse_entries(rem) is None);
                        assert(parse_entries(body) is None);
                    }
                    return None;
                },
                Some((k, v)) => {
                    dna.set_value(k, v);
                    proof {
                        let next: int = if e < n { e + 1 } else { n as int };
                        match parse_entries(text@.subrange(next as int, n as int)) {
                            Some(es) => {
                                assert(done + (seq![(k, v)] + es) =~= done.push((k, v)) + es);
                            },
                            None => {},
                        }
                        assert(done.push((k, v)).drop_last() =~= done);
                        done = done.push((k, v));
                    }
                },
            }
            start = if e < n {
                e + 1
            } else {
                n
            };
        }
        proof {
            assert(text@.subrange(start as int, n as int) =~= Seq::<u8>::empty());
            assert(done + Seq::<(u64, u32)>::empty() =~= done);
        }
        Some((preamble, dna))
    }
}


/// Decimal digits are digits, at least one, and spell their number.
proof fn lemma_dec_bytes(n: nat)
    ensures
        dec_bytes(n).len() >= 1,
        forall|t: int| 0 <= t < dec_bytes(n).len() ==> is_digit(#[trigger] dec_bytes(n)[t]),
        digits_value(dec_bytes(n)) == n,
    decreases n,
{
    if n >= 10 {
        lemma_dec_bytes(n / 10);
        let d = dec_bytes(n);
        assert(d.drop_last() =~= dec_bytes(n / 10));
        assert(forall|t: int| 0 <= t < d.len() - 1 ==> d[t] == dec_bytes(n / 10)[t]);
    } else {
        assert(digits_value(dec_bytes(n)) == digits_value(dec_bytes(n).drop_last()) * 10 + n);
        assert(dec_bytes(n).drop_last() =~= Seq::<u8>::empty());
    }
}

/// The text of genes, read from its first line on.
proof fn lemma_genes_text_front(es: Seq<(u64, u32)>)
    requires
        es.len() > 0,
    ensures
        genes_text(es) == gene_line(es[0]) + genes_text(es.drop_first()),
    decreases es.len(),
{
    if es.len() == 1 {
        assert(es.drop_last() =~= Seq::<(u64, u32)>::empty());
        assert(es.drop_first() =~= Seq::<(u64, u32)>::empty());
        assert(genes_text(es) =~= gene_line(es[0]));
    } else {
        lemma_genes_text_front(es.drop_last());
        assert(es.drop_first().drop_last() =~= es.drop_last().drop_first());
        assert(es.drop_first().last() == es.last());
        assert(genes_text(es) =~= gene_line(es[0]) + genes_text(es.drop_first()));
    }
}

/// A gene line parses back to its gene.
proof fn lemma_parse_gene_line(g: (u64, u32))
    ensures
        parse_gene(dec_bytes(g.0 as nat) + seq![SPACE] + dec_bytes(g.1 as nat)) == Some(g),
{
    let dk = dec_bytes(g.0 as nat);
    let dv = dec_bytes(g.1 as nat);
    lemma_dec_bytes(g.0 as nat);
    lemma_dec_bytes(g.1 as nat);
    let line = dk + seq![SPACE] + dv;
    assert forall|t: int| 0 <= t < dk.len() implies line[t] != SPACE by {
        assert(is_digit(dk[t]));
    }
    lemma_first_index(line, SPACE, dk.len() as int);
    assert(line.subrange(0, dk.len() as int) =~= dk);
    assert(line.subrange(dk.len() + 1 as int, line.len() as int) =~= dv);
}

/// The text of genes parses back to the same genes.
proof fn lemma_parse_genes_text(es: Seq<(u64, u32)>)
    ensures
        parse_entries(genes_text(es)) == Some(es),
    decreases es.len(),
{
    if es.len() == 0 {
    } else {
        lemma_genes_text_front(es);
        lemma_parse_genes_text(es.drop_first());
        let g = es[0];
        let dk = dec_bytes(g.0 as nat);
        let dv = dec_bytes(g.1 as nat);
        lemma_dec_bytes(g.0 as nat);
        lemma_dec_bytes(g.1 as nat);
        let line = dk + seq![SPACE] + dv;
        let rest = genes_text(es.drop_first());
        let s = genes_text(es);
        assert(s =~= line + seq![NEWLINE] + rest);
        assert forall|t: int| 0 <= t < line.len() implies s[t] != NEWLINE by {
            if t < dk.len() {
                assert(is_digit(dk[t]));
            } else if t > dk.len() {
                assert(is_digit(dv[t - dk.len() - 1]));
            }
        }
        lemma_first_index(s, NEWLINE, line.len() as int);
        assert(s.subrange(0, line.len() as int) =~= line);
        assert(s.subrange(line.len() + 1 as int, s.len() as int) =~= rest);
        lemma_parse_gene_line(g);
        assert(seq![g] + es.drop_first() =~= es);
    }
}

/// The map of genes listed once each holds exactly those genes.
proof fn lemma_map_of(es: Seq<(u64, u32)>)
    requires
        forall|i: int, j: int| 0 <= i < j < es.len() ==> es[i].0 != es[j].0,
    ensures
        forall|i: int|
            0 <= i < es.len() ==> map_of(es).contains_key(#[trigger] es[i].0) && map_of(es)[es[i].0]
                == es[i].1,
        forall|k: u64| map_of(es).contains_key(k) ==> exists|i: int| 0 <= i < es.len() && #[trigger] es[i].0 == k,
    decreases es.len(),
{
    if es.len() > 0 {
        let p = es.drop_last();
        lemma_map_of(p);
        assert forall|i: int| 0 <= i < es.len() implies map_of(es).contains_key(#[trigger] es[i].0)
            && map_of(es)[es[i].0] == es[i].1 by {
            if i < es.len() - 1 {
                assert(p[i] == es[i]);
            }
        }
        assert forall|k: u64| map_of(es).contains_key(k) implies exists|i: int|
            0 <= i < es.len() && #[trigger] es[i].0 == k by {
            if k != es.last().0 {
                assert(map_of(p).contains_key(k));
                let i = choose|i: int| 0 <= i < p.len() && #[trigger] p[i].0 == k;
                assert(p[i] == es[i]);
                assert(es[i].0 == k);
            } else {
                assert(es[es.len() - 1].0 == k);
            }
        }
    }
}

/// Saving a genome and loading the text back gives the same preamble and
/// the same chromosome, whatever order the genes were written in. The
/// preamble must be a single line.
pub proof fn lemma_save_load_round_trip(preamble: Seq<u8>, genes: Map<u64, u32>, es: Seq<(u64, u32)>)
    requires
        enumerates(es, genes),
        forall|t: int| 0 <= t < preamble.len() ==> #[trigger] preamble[t] != NEWLINE,
    ensures
        load_spec(preamble + seq![NEWLINE] + genes_text(es)) == Some((preamble, genes)),
{
    let text = preamble + seq![NEWLINE] + genes_text(es);
    lemma_first_index(text, NEWLINE, preamble.len() as int);
    assert(text.subrange(0, preamble.len() as int) =~= preamble);
    assert(text.subrange(preamble.len() + 1 as int, text.len() as int) =~= genes_text(es));
    lemma_parse_genes_text(es);
    lemma_map_of(es);
    assert(map_of(es) =~= genes);
}

} // verus!
