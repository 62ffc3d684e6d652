//! The genome: a tree-addressed parameter store.
//!
//! Procedural generator parameter sets are tree shaped. The identity of each
//! parameter is hashed from a local tree address and the parameter name, and
//! its raw value is kept in the chromosome under that hash. The genome keeps
//! the current address and moves it as parameters are drawn.
use crate::chromosome::{
    chromosome_get, chromosome_insert, chromosome_new, genes_of, name_hash, name_hash_of,
    Chromosome,
};
use crate::rnd::Rnd;
use vstd::prelude::*;

verus! {

/// Structural parameters choose among alternatives; ordered ones are continuous knobs.
#[derive(Clone, Copy, PartialEq, Eq, Debug, Structural)]
pub enum ParameterKind {
    Categorical,
    Ordered,
}

/// A drawn parameter, recorded for interactive and optimization purposes.
pub struct Parameter {
    kind: ParameterKind,
    name: String,
    value: String,
    address: Vec<u32>,
    maximum: u32,
    raw: u32,
    hash: u64,
    choices: Vec<String>,
}

/// What a parameter record holds.
pub struct ParameterView {
    pub kind: ParameterKind,
    pub name: Seq<char>,
    pub value: Seq<char>,
    pub address: Seq<u32>,
    pub maximum: u32,
    pub raw: u32,
    pub hash: u64,
    pub choices: Seq<Seq<char>>,
}

/// The texts of a list of strings.
pub open spec fn texts(v: Seq<String>) -> Seq<Seq<char>> {
    v.map_values(|s: String| s@)
}

impl View for Parameter {
    type V = ParameterView;

    closed spec fn view(&self) -> ParameterView {
        ParameterView {
            kind: self.kind,
            name: self.name@,
            value: self.value@,
            address: self.address@,
            maximum: self.maximum,
            raw: self.raw,
            hash: self.hash,
            choices: texts(self.choices@),
        }
    }
}

impl Parameter {
    /// Create a new `Parameter`.
    pub fn new(
        kind: ParameterKind,
        name: String,
        value: String,
        address: Vec<u32>,
        maximum: u32,
        raw: u32,
        hash: u64,
        choices: Vec<String>,
    ) -> (r: Parameter)
        ensures
            r@ == (ParameterView {
                kind,
                name: name@,
                value: value@,
                address: address@,
                maximum,
                raw,
                hash,
                choices: texts(choices@),
            }),
    {
        Parameter { kind, name, value, address, maximum, raw, hash, choices }
    }

    /// Parameter kind.
    pub fn kind(&self) -> (r: ParameterKind)
        ensures
            r == self@.kind,
    {
        self.kind
    }

    /// Name of the parameter.
    pub fn name(&self) -> (r: &String)
        ensures
            r@ == self@.name,
    {
        &self.name
    }

    /// Value of the parameter as display text.
    pub fn value(&self) -> (r: &String)
        ensures
            r@ == self@.value,
    {
        &self.value
    }

    /// Address in the parameter tree where this parameter was drawn.
    pub fn address(&self) -> (r: &Vec<u32>)
        ensures
            r@ == self@.address,
    {
        &self.address
    }

    /// Raw maximum value of the parameter.
    pub fn maximum(&self) -> (r: u32)
        ensures
            r == self@.maximum,
    {
        self.maximum
    }

    /// Raw parameter value.
    pub fn raw(&self) -> (r: u32)
        ensures
            r == self@.raw,
    {
        self.raw
    }

    /// Hash of the parameter address and name.
    pub fn hash(&self) -> (r: u64)
        ensures
            r == self@.hash,
    {
        self.hash
    }

    /// Possible choices for the values, if applicable.
    pub fn choices(&self) -> (r: &Vec<String>)
        ensures
            texts(r@) == self@.choices,
    {
        &self.choices
    }
}

/// Number of trailing address levels that a parameter hash depends on.
pub const ADDRESS_LEVELS: usize = 8;

/// Multiplier of the address hash.
pub const ADDRESS_MULTIPLIER: u64 = 0xd6e8feb86659fd93;

/// One round of the address hash.
pub open spec fn mix(h: u64, a: u32) -> u64 {
    (h ^ (a as u64) ^ (h >> 32u64)).wrapping_mul(ADDRESS_MULTIPLIER)
}

/// The address hash rounds over a sequence of levels, from `h`.
pub open spec fn fold_mix(s: Seq<u32>, h: u64) -> u64
    decreases s.len(),
{
    if s.len() == 0 {
        h
    } else {
        mix(fold_mix(s.drop_last(), h), s.last())
    }
}

/// The trailing levels of an address that its hash depends on.
pub open spec fn address_window(a: Seq<u32>) -> Seq<u32> {
    let n = if a.len() < ADDRESS_LEVELS { a.len() } else { ADDRESS_LEVELS as nat };
    a.subrange(a.len() - n, a.len() as int)
}

/// The hash of a tree address.
pub open spec fn address_hash(a: Seq<u32>) -> u64 {
    let w = address_window(a);
    let h = fold_mix(w, w.len() as u64);
    (h ^ (h >> 32u64)).wrapping_mul(ADDRESS_MULTIPLIER)
}

/// The identity of a parameter: its name's hash combined with its address hash.
pub open spec fn parameter_hash(a: Seq<u32>, name: Seq<char>) -> u64 {
    name_hash_of(name) ^ address_hash(a)
}

/// The address after moving to the next sibling.
pub open spec fn advanced(a: Seq<u32>) -> Seq<u32> {
    a.update(a.len() - 1, (a.last() + 1) as u32)
}

/// Decimal digits of a natural number.
pub open spec fn decimal(n: nat) -> Seq<char>
    decreases n,
{
    let digits = seq!['0', '1', '2', '3', '4', '5', '6', '7', '8', '9'];
    if n < 10 {
        seq![digits[n as int]]
    } else {
        decimal(n / 10).push(digits[(n % 10) as int])
    }
}

/// Relies on the `Display` impl of `u32` through `ToString`: the decimal digits
/// of the number, with no sign and no leading zeros.
#[verifier::external_body]
fn decimal_text(x: u32) -> (r: String)
    ensures
        r@ == decimal(x as nat),
{
    x.to_string()
}

/// A fresh genome from a seed: at the root, with no genes, no log, in
/// interactive mode.
pub open spec fn fresh_genome(seed: u64) -> DnaView {
    DnaView {
        address: seq![0u32],
        genes: Map::empty(),
        rnd: Rnd::seeded(seed),
        interactive: true,
        log: Seq::empty(),
    }
}

/// The genome: the mutable context threaded through generation.
pub struct Dna {
    /// Current tree address. Drawing a parameter increments the last level;
    /// descending in the tree adds a level.
    address: Vec<u32>,
    /// Values of drawn parameters.
    genome: Chromosome,
    /// Randomness source.
    rnd: Rnd,
    /// Parameters are recorded in interactive mode.
    interactive: bool,
    /// Drawn parameters for interactive display and editing.
    parameters: Vec<Parameter>,
}

/// What a genome holds.
pub struct DnaView {
    pub address: Seq<u32>,
    pub genes: Map<u64, u32>,
    pub rnd: Rnd,
    pub interactive: bool,
    pub log: Seq<ParameterView>,
}

impl View for Dna {
    type V = DnaView;

    closed spec fn view(&self) -> DnaView {
        DnaView {
            address: self.address@,
            genes: genes_of(self.genome),
            rnd: self.rnd,
            interactive: self.interactive,
            log: self.parameters@.map_values(|p: Parameter| p@),
        }
    }
}

/// The raw value read under a hash: the stored one, or a fresh draw.
pub open spec fn read_value(v: DnaView, h: u64) -> u32 {
    if v.genes.contains_key(h) {
        v.genes[h]
    } else {
        v.rnd.stepped().output() as u32
    }
}

/// The genome after reading under a hash: a fresh draw is stored and
/// advances the random source; a stored value changes nothing.
pub open spec fn after_read(v: DnaView, h: u64) -> DnaView {
    if v.genes.contains_key(h) {
        v
    } else {
        DnaView { genes: v.genes.insert(h, read_value(v, h)), rnd: v.rnd.stepped(), ..v }
    }
}

/// The genome after recording `p` in interactive mode and moving the
/// address to the next sibling.
pub open spec fn logged(v: DnaView, p: ParameterView) -> DnaView {
    DnaView {
        address: advanced(v.address),
        log: if v.interactive {
            v.log.push(p)
        } else {
            v.log
        },
        ..v
    }
}

/// The genome after a draw under hash `h` that records `p`: the value is read,
/// `p` is logged in interactive mode, and the address moves to the next sibling.
pub open spec fn after_draw(v: DnaView, h: u64, p: ParameterView) -> DnaView {
    logged(after_read(v, h), p)
}

/// Reading changes neither the address, the log nor the mode.
pub proof fn lemma_after_read_keeps(v: DnaView, h: u64)
    ensures
        after_read(v, h).address == v.address,
        after_read(v, h).log == v.log,
        after_read(v, h).interactive == v.interactive,
        after_read(v, h).genes.contains_key(h),
        after_read(v, h).genes[h] == read_value(v, h),
{
}

/// An empty list of choice labels.
fn no_choices() -> (r: Vec<String>)
    ensures
        texts(r@) == Seq::<Seq<char>>::empty(),
{
    let r: Vec<String> = Vec::new();
    proof {
        assert(texts(r@) =~= Seq::<Seq<char>>::empty());
    }
    r
}

/// A genome that draws can take: an address with a level whose last
/// component can still grow.
pub open spec fn can_draw(v: DnaView) -> bool {
    v.address.len() >= 1 && v.address.last() < u32::MAX
}

/// Sum of the weights.
pub open spec fn weight_sum(w: Seq<u32>) -> nat
    decreases w.len(),
{
    if w.len() == 0 {
        0
    } else {
        weight_sum(w.drop_last()) + w.last() as nat
    }
}

/// The roulette pick of a raw value over the weights, from slot `i` on: the
/// first slot where the value, as a fraction of 2^32 of the total weight,
/// falls within the running sum of weights. Slot 0 if none does.
pub open spec fn roulette(w: Seq<u32>, value: u32, i: nat) -> nat
    decreases w.len() - i,
{
    if i >= w.len() {
        0
    } else if value * weight_sum(w) <= weight_sum(w.subrange(0, i + 1 as int)) * 0x1_0000_0000 {
        i
    } else {
        roulette(w, value, i + 1)
    }
}

/// The slot that a raw categorical value selects: itself, where it indexes a
/// slot of positive weight, and its roulette pick otherwise.
pub open spec fn pick(w: Seq<u32>, value: u32) -> nat {
    if value < w.len() && w[value as int] > 0 {
        value as nat
    } else {
        roulette(w, value, 0)
    }
}

/// The labels of the slots of positive weight, in order.
pub open spec fn positive_labels(w: Seq<u32>, labels: Seq<Seq<char>>) -> Seq<Seq<char>>
    decreases w.len(),
{
    if w.len() == 0 || labels.len() == 0 {
        Seq::empty()
    } else {
        let rest = positive_labels(w.drop_last(), labels.drop_last());
        if w.last() > 0 {
            rest.push(labels.last())
        } else {
            rest
        }
    }
}

/// The weights of a list of weighted labels.
pub open spec fn weights_of(c: Seq<(u32, &str)>) -> Seq<u32> {
    c.map_values(|x: (u32, &str)| x.0)
}

/// The labels of a list of weighted labels.
pub open spec fn labels_of(c: Seq<(u32, &str)>) -> Seq<Seq<char>> {
    c.map_values(|x: (u32, &str)| x.1@)
}

/// The record of an ordered draw.
pub open spec fn ordered_record(
    v: DnaView,
    name: Seq<char>,
    shown: nat,
    maximum: u32,
    raw: u32,
) -> ParameterView {
    ParameterView {
        kind: ParameterKind::Ordered,
        name,
        value: decimal(shown),
        address: v.address,
        maximum,
        raw,
        hash: parameter_hash(v.address, name),
        choices: Seq::empty(),
    }
}

/// A full-range integer draw: its value and the genome after it.
#[verifier::opaque]
pub open spec fn u32_draw(v: DnaView, name: Seq<char>) -> (u32, DnaView) {
    let h = parameter_hash(v.address, name);
    let x = read_value(v, h);
    (x, after_draw(v, h, ordered_record(v, name, x as nat, u32::MAX, x)))
}

/// A draw in the inclusive range `[min, max]`: the raw value modulo the size
/// of the range, offset by `min`.
#[verifier::opaque]
pub open spec fn u32_in_draw(v: DnaView, name: Seq<char>, min: u32, max: u32) -> (u32, DnaView) {
    let h = parameter_hash(v.address, name);
    let x = (read_value(v, h) % (max - min + 1) as u32) as u32;
    (
        (x + min) as u32,
        after_draw(v, h, ordered_record(v, name, (x + min) as nat, (max - min) as u32, x)),
    )
}

/// A raw draw over the full 32-bit range, which callers read as a fraction of 2^32.
#[verifier::opaque]
pub open spec fn raw_draw(v: DnaView, name: Seq<char>) -> (u32, DnaView) {
    let h = parameter_hash(v.address, name);
    let x = read_value(v, h);
    (x, after_draw(v, h, ordered_record(v, name, x as nat, u32::MAX, x)))
}

/// A weighted categorical draw: the selected slot and the genome after it.
#[verifier::opaque]
pub open spec fn index_draw(v: DnaView, name: Seq<char>, w: Seq<u32>, labels: Seq<Seq<char>>) -> (
    u32,
    DnaView,
) {
    let h = parameter_hash(v.address, name);
    let i = pick(w, read_value(v, h));
    let p = ParameterView {
        kind: ParameterKind::Categorical,
        name,
        value: labels[i as int],
        address: v.address,
        maximum: (w.len() - 1) as u32,
        raw: i as u32,
        hash: h,
        choices: positive_labels(w, labels),
    };
    (i as u32, after_draw(v, h, p))
}

/// Descending one level under the parameter just drawn.
pub open spec fn grouped(v: DnaView) -> DnaView {
    DnaView {
        address: v.address.update(v.address.len() - 1, (v.address.last() - 1) as u32).push(0),
        ..v
    }
}

/// Ascending one level and moving to the next sibling there.
pub open spec fn ungrouped(v: DnaView) -> DnaView {
    DnaView { address: advanced(v.address.drop_last()), ..v }
}

proof fn lemma_weight_sum_bound(w: Seq<u32>)
    ensures
        weight_sum(w) <= w.len() * (u32::MAX as nat),
    decreases w.len(),
{
    if w.len() > 0 {
        lemma_weight_sum_bound(w.drop_last());
        assert(weight_sum(w.drop_last()) + w.last() <= w.len() * (u32::MAX as nat)) by (nonlinear_arith)
            requires
                weight_sum(w.drop_last()) <= (w.len() - 1) * (u32::MAX as nat),
                w.last() <= u32::MAX,
                w.len() >= 1,
        ;
    }
}

/// Picks the slot that a raw value selects.
fn pick_slot(choices: &[(u32, &str)], value: u32) -> (r: usize)
    requires
        1 <= choices@.len() < u32::MAX,
    ensures
        r == pick(weights_of(choices@), value),
        r < choices@.len(),
{
    let ghost w = weights_of(choices@);
    let n = choices.len();
    if (value as usize) < n && choices[value as usize].0 > 0 {
        return value as usize;
    }
    let mut total: u64 = 0;
    let mut i: usize = 0;
    while i < n
        invariant
            n == choices@.len(),
            n < u32::MAX,
            w == weights_of(choices@),
            i <= n,
            total == weight_sum(w.subrange(0, i as int)),
            total <= i * (u32::MAX as nat),
        decreases n - i,
    {
        proof {
            assert(w.subrange(0, i + 1).drop_last() == w.subrange(0, i as int));
            assert(total + choices@[i as int].0 <= (i + 1) * (u32::MAX as nat)) by (nonlinear_arith)
                requires
                    total <= i * (u32::MAX as nat),
                    choices@[i as int].0 <= u32::MAX,
            ;
        }
        total = total + choices[i].0 as u64;
        i = i + 1;
    }
    proof {
        assert(w.subrange(0, n as int) == w);
    }
    let mut prefix: u64 = 0;
    let mut j: usize = 0;
    while j < n
        invariant
            n == choices@.len(),
            n < u32::MAX,
            w == weights_of(choices@),
            total == weight_sum(w),
            j <= n,
            prefix == weight_sum(w.subrange(0, j as int)),
            prefix <= j * (u32::MAX as nat),
            roulette(w, value, 0) == roulette(w, value, j as nat),
            !(value < w.len() && w[value as int] > 0),
        decreases n - j,
    {
        proof {
            assert(w.subrange(0, j + 1).drop_last() == w.subrange(0, j as int));
            assert(prefix + choices@[j as int].0 <= (j + 1) * (u32::MAX as nat)) by (nonlinear_arith)
                requires
                    prefix <= j * (u32::MAX as nat),
                    choices@[j as int].0 <= u32::MAX,
            ;
        }
        prefix = prefix + choices[j].0 as u64;
        proof {
            assert((value as u128) * (total as u128) <= u128::MAX) by (nonlinear_arith)
                requires
                    value <= u32::MAX,
                    total <= u64::MAX,
            ;
            assert((prefix as u128) * 0x1_0000_0000 <= u128::MAX) by (nonlinear_arith)
                requires
                    prefix <= u64::MAX,
            ;
        }
        if (value as u128) * (total as u128) <= (prefix as u128) * 0x1_0000_0000 {
            return j;
        }
        j = j + 1;
    }
    0
}

/// The labels of the slots of positive weight.
fn positive_choice_labels(choices: &[(u32, &str)]) -> (r: Vec<String>)
    ensures
        texts(r@) == positive_labels(weights_of(choices@), labels_of(choices@)),
{
    let mut c: Vec<String> = Vec::new();
    let mut i: usize = 0;
    while i < choices.len()
        invariant
            i <= choices@.len(),
            texts(c@) == positive_labels(
                weights_of(choices@).subrange(0, i as int),
                labels_of(choices@).subrange(0, i as int),
            ),
        decreases choices@.len() - i,
    {
        proof {
            assert(weights_of(choices@).subrange(0, i + 1).drop_last() == weights_of(choices@).subrange(0, i as int));
            assert(labels_of(choices@).subrange(0, i + 1).drop_last() == labels_of(choices@).subrange(0, i as int));
        }
        if choices[i].0 > 0 {
            let label = choices[i].1.to_owned();
            let ghost before = c@;
            c.push(label);
            proof {
                assert(texts(c@) == texts(before).push(label@));
            }
        }
        i = i + 1;
    }
    proof {
        assert(weights_of(choices@).subrange(0, i as int) == weights_of(choices@));
        assert(labels_of(choices@).subrange(0, i as int) == labels_of(choices@));
    }
    c
}

impl Dna {
    /// Create a new Dna from a 64-bit seed.
    pub fn new(seed: u64) -> (r: Dna)
        ensures
            r@ == fresh_genome(seed),
            r@.address == seq![0u32],
            r@.genes == Map::<u64, u32>::empty(),
            r@.rnd == Rnd::seeded(seed),
            r@.rnd.stream_spec() == seed,
            r@.rnd.state() == crate::rnd::origin_of(seed),
            r@.interactive,
            r@.log == Seq::<ParameterView>::empty(),
    {
        let r = Dna {
            address: vec![0],
            genome: chromosome_new(),
            rnd: Rnd::from_u64(seed),
            interactive: true,
            parameters: Vec::new(),
        };
        proof {
            assert(r.parameters@.map_values(|q: Parameter| q@) =~= Seq::<ParameterView>::empty());
            assert(r.address@ =~= seq![0u32]);
        }
        r
    }

    /// Set the value of a gene.
    pub fn set_value(&mut self, hash: u64, value: u32)
        ensures
            final(self)@ == (DnaView { genes: old(self)@.genes.insert(hash, value), ..old(self)@ }),
    {
        chromosome_insert(&mut self.genome, hash, value);
    }

    /// Parameters are recorded in interactive mode.
    pub fn is_interactive(&self) -> (r: bool)
        ensures
            r == self@.interactive,
    {
        self.interactive
    }

    /// Set interactive mode. Parameters are recorded when on (the default).
    pub fn set_interactive(&mut self, interactive: bool)
        ensures
            final(self)@ == (DnaView { interactive, ..old(self)@ }),
    {
        self.interactive = interactive;
    }

    /// Number of parameters drawn from the `Dna`.
    pub fn parameters(&self) -> (r: usize)
        ensures
            r == self@.log.len(),
    {
        self.parameters.len()
    }

    /// Parameter accessor.
    pub fn parameter(&self, i: usize) -> (r: &Parameter)
        requires
            i < self@.log.len(),
        ensures
            r@ == self@.log[i as int],
    {
        &self.parameters[i]
    }

    /// Parameter vector accessor.
    pub fn parameter_vector(&self) -> (r: &Vec<Parameter>)
        ensures
            r@.map_values(|p: Parameter| p@) == self@.log,
    {
        &self.parameters
    }

    /// The current tree address.
    pub fn address(&self) -> (r: &Vec<u32>)
        ensures
            r@ == self@.address,
    {
        &self.address
    }

    /// Calculate the current address hash based on our tree location.
    fn get_address_hash(&self) -> (r: u64)
        ensures
            r == address_hash(self@.address),
    {
        let l = self.address.len();
        let n = if ADDRESS_LEVELS < l { ADDRESS_LEVELS } else { l };
        let mut hash: u64 = n as u64;
        let mut i = l - n;
        let ghost a = self.address@;
        while i < l
            invariant
                a == self.address@,
                l == a.len(),
                n <= l,
                n <= ADDRESS_LEVELS,
                l - n <= i <= l,
                hash == fold_mix(a.subrange(l - n, i as int), n as u64),
            decreases l - i,
        {
            proof {
                assert(a.subrange(l - n, i + 1).drop_last() == a.subrange(l - n, i as int));
            }
            hash = (hash ^ self.address[i] as u64 ^ (hash >> 32u64)).wrapping_mul(ADDRESS_MULTIPLIER);
            i = i + 1;
        }
        (hash ^ (hash >> 32u64)).wrapping_mul(ADDRESS_MULTIPLIER)
    }

    /// Calculate a parameter hash based on our tree location and parameter name.
    fn get_parameter_hash(&self, parameter_name: &str) -> (r: u64)
        ensures
            r == parameter_hash(self@.address, parameter_name@),
    {
        name_hash(parameter_name) ^ self.get_address_hash()
    }

    /// Read a parameter value. The value is added to the genome if it is not
    /// there already.
    fn draw_value(&mut self, parameter_hash: u64) -> (r: u32)
        ensures
            r == read_value(old(self)@, parameter_hash),
            final(self)@ == after_read(old(self)@, parameter_hash),
    {
        match chromosome_get(&self.genome, parameter_hash) {
            Some(value) => value,
            None => {
                let value = self.rnd.u32();
                chromosome_insert(&mut self.genome, parameter_hash, value);
                value
            },
        }
    }

    /// Record a drawn parameter in interactive mode, then move to the next sibling.
    fn finish_draw(&mut self, p: Parameter)
        requires
            can_draw(old(self)@),
        ensures
            final(self)@ == logged(old(self)@, p@),
    {
        let ghost before = self.parameters@;
        if self.interactive {
            self.parameters.push(p);
            proof {
                assert(self.parameters@.map_values(|q: Parameter| q@) =~= before.map_values(|q: Parameter| q@).push(p@));
            }
        }
        let l = self.address.len();
        let last = self.address[l - 1];
        self.address.set(l - 1, last + 1);
    }

    /// Reset the Dna for subsequent generation: the address returns to the
    /// root and the log is cleared; the chromosome stays.
    pub fn reset(&mut self)
        ensures
            final(self)@ == (DnaView {
                address: seq![0u32],
                log: Seq::<ParameterView>::empty(),
                ..old(self)@
            }),
    {
        self.address = vec![0];
        self.parameters = Vec::new();
        proof {
            assert(self.address@ =~= seq![0u32]);
            assert(self.parameters@.map_values(|q: Parameter| q@) =~= Seq::<ParameterView>::empty());
        }
    }

    /// Returns a full range u32 parameter.
    pub fn u32(&mut self, name: &str) -> (r: u32)
        requires
            can_draw(old(self)@),
        ensures
            (r, final(self)@) == u32_draw(old(self)@, name@),
            final(self)@.address == advanced(old(self)@.address),
    {
        proof {
            reveal(u32_draw);
        }
        let ghost v0 = self@;
        let hash = self.get_parameter_hash(name);
        let address = self.address.clone();
        assert(address@ == v0.address);
        let value = self.draw_value(hash);
        proof {
            lemma_after_read_keeps(v0, hash);
        }
        let p = Parameter::new(
            ParameterKind::Ordered,
            name.to_owned(),
            decimal_text(value),
            address,
            u32::MAX,
            value,
            hash,
            no_choices(),
        );
        assert(p@ == ordered_record(v0, name@, value as nat, u32::MAX, value));
        self.finish_draw(p);
        value
    }

    /// Returns a u32 parameter in the given inclusive range.
    pub fn u32_in(&mut self, name: &str, minimum: u32, maximum: u32) -> (r: u32)
        requires
            can_draw(old(self)@),
            minimum <= maximum,
            maximum - minimum < u32::MAX,
        ensures
            (r, final(self)@) == u32_in_draw(old(self)@, name@, minimum, maximum),
            minimum <= r <= maximum,
            final(self)@.address == advanced(old(self)@.address),
    {
        proof {
            reveal(u32_in_draw);
        }
        let ghost v0 = self@;
        let hash = self.get_parameter_hash(name);
        let address = self.address.clone();
        assert(address@ == v0.address);
        let value = self.draw_value(hash);
        proof {
            lemma_after_read_keeps(v0, hash);
        }
        let value = value % (maximum - minimum + 1);
        let p = Parameter::new(
            ParameterKind::Ordered,
            name.to_owned(),
            decimal_text(value + minimum),
            address,
            maximum - minimum,
            value,
            hash,
            no_choices(),
        );
        assert(p@ == ordered_record(v0, name@, (value + minimum) as nat, (maximum - minimum) as u32, value));
        self.finish_draw(p);
        value + minimum
    }

    /// Returns a raw parameter over the full 32-bit range, read by callers as
    /// a fraction of 2^32 (uniform in [0, 1)) and reshaped as they need.
    pub fn raw(&mut self, name: &str) -> (r: u32)
        requires
            can_draw(old(self)@),
        ensures
            (r, final(self)@) == raw_draw(old(self)@, name@),
            final(self)@.address == advanced(old(self)@.address),
    {
        proof {
            reveal(raw_draw);
        }
        let ghost v0 = self@;
        let hash = self.get_parameter_hash(name);
        let address = self.address.clone();
        assert(address@ == v0.address);
        let value = self.draw_value(hash);
        proof {
            lemma_after_read_keeps(v0, hash);
        }
        let p = Parameter::new(
            ParameterKind::Ordered,
            name.to_owned(),
            decimal_text(value),
            address,
            u32::MAX,
            value,
            hash,
            no_choices(),
        );
        assert(p@ == ordered_record(v0, name@, value as nat, u32::MAX, value));
        self.finish_draw(p);
        value
    }

    /// Returns the index of a weighted choice.
    pub fn index(&mut self, name: &str, choices: &[(u32, &str)]) -> (r: u32)
        requires
            can_draw(old(self)@),
            1 <= choices@.len() < u32::MAX,
        ensures
            (r, final(self)@) == index_draw(old(self)@, name@, weights_of(choices@), labels_of(choices@)),
            r < choices@.len(),
            final(self)@.address == advanced(old(self)@.address),
    {
        proof {
            reveal(index_draw);
        }
        let hash = self.get_parameter_hash(name);
        let address = self.address.clone();
        let value = self.draw_value(hash);
        let choice_index = pick_slot(choices, value);
        let p = Parameter::new(
            ParameterKind::Categorical,
            name.to_owned(),
            choices[choice_index].1.to_owned(),
            address,
            (choices.len() - 1) as u32,
            choice_index as u32,
            hash,
            positive_choice_labels(choices),
        );
        self.finish_draw(p);
        choice_index as u32
    }

    /// Returns the value of a weighted choice.
    pub fn choice<X: Copy>(&mut self, name: &str, choices: &[(u32, &str, X)]) -> (r: X)
        requires
            can_draw(old(self)@),
            1 <= choices@.len() < u32::MAX,
        ensures
            ({
                let pairs = choices@.map_values(|c: (u32, &str, X)| (c.0, c.1));
                let (i, v) = index_draw(old(self)@, name@, weights_of(pairs), labels_of(pairs));
                r == choices@[i as int].2 && final(self)@ == v
            }),
    {
        let mut pairs: Vec<(u32, &str)> = Vec::new();
        let mut i: usize = 0;
        while i < choices.len()
            invariant
                i <= choices@.len(),
                pairs@ == choices@.subrange(0, i as int).map_values(|c: (u32, &str, X)| (c.0, c.1)),
            decreases choices@.len() - i,
        {
            pairs.push((choices[i].0, choices[i].1));
            proof {
                assert(choices@.subrange(0, i + 1).map_values(|c: (u32, &str, X)| (c.0, c.1)) == choices@.subrange(0, i as int).map_values(|c: (u32, &str, X)| (c.0, c.1)).push((choices@[i as int].0, choices@[i as int].1)));
            }
            i = i + 1;
        }
        proof {
            assert(choices@.subrange(0, i as int) == choices@);
        }
        let k = self.index(name, pairs.as_slice());
        choices[k as usize].2
    }

    /// The genes of the chromosome, each once, in an order that the chromosome
    /// does not promise.
    pub fn gene_entries(&self) -> (r: Vec<(u64, u32)>)
        ensures
            forall|i: int|
                0 <= i < r@.len() ==> self@.genes.contains_key(#[trigger] r@[i].0) && self@.genes[r@[i].0]
                    == r@[i].1,
            forall|k: u64| self@.genes.contains_key(k) ==> exists|i: int| 0 <= i < r@.len() && #[trigger] r@[i].0 == k,
            forall|i: int, j: int| 0 <= i < j < r@.len() ==> r@[i].0 != r@[j].0,
    {
        crate::chromosome::chromosome_entries(&self.genome)
    }

    /// Start a new group (branch) of parameters under the previously drawn parameter.
    /// Must be matched with a later call to `ungroup`.
    pub fn group(&mut self)
        requires
            old(self)@.address.len() >= 1,
            old(self)@.address.last() >= 1,
        ensures
            final(self)@ == grouped(old(self)@),
    {
        let l = self.address.len();
        let last = self.address[l - 1];
        self.address.set(l - 1, last - 1);
        self.address.push(0);
    }

    /// End a previously started group. Must be matched with a preceding call to `group`.
    pub fn ungroup(&mut self)
        requires
            old(self)@.address.len() >= 2,
            old(self)@.address[old(self)@.address.len() - 2] < u32::MAX,
        ensures
            final(self)@ == ungrouped(old(self)@),
    {
        self.address.pop();
        let l = self.address.len();
        let last = self.address[l - 1];
        self.address.set(l - 1, last + 1);
    }

    /// Start a subgenerator: a new branch without a parent parameter of its
    /// own. Must be matched with a later call to `ungroup`.
    pub fn generate_begin(&mut self)
        requires
            can_draw(old(self)@),
        ensures
            final(self)@ == (DnaView { address: old(self)@.address.push(0), ..old(self)@ }),
    {
        self.address.push(0);
    }
}


/// Reading a parameter twice at the same address with the same name, with no
/// structural change in between, gives the same value the second time, and
/// the second read neither advances the random source nor changes the genes.
pub proof fn lemma_read_idempotent(v: DnaView, name: Seq<char>)
    requires
        can_draw(v),
    ensures
        ({
            let (x1, v1) = u32_draw(v, name);
            let back = DnaView { address: v.address, log: v.log, ..v1 };
            let (x2, v2) = u32_draw(back, name);
            x2 == x1 && v2.rnd == v1.rnd && v2.genes == v1.genes
        }),
{
    let h = parameter_hash(v.address, name);
    lemma_after_read_keeps(v, h);
    reveal(u32_draw);
}

/// The hash of a parameter depends on its name and on the last
/// `ADDRESS_LEVELS` levels of its address alone.
pub proof fn lemma_hash_window(a: Seq<u32>, b: Seq<u32>, name: Seq<char>)
    requires
        a.len() >= ADDRESS_LEVELS,
        b.len() >= ADDRESS_LEVELS,
        a.subrange(a.len() - ADDRESS_LEVELS, a.len() as int) == b.subrange(
            b.len() - ADDRESS_LEVELS,
            b.len() as int,
        ),
    ensures
        parameter_hash(a, name) == parameter_hash(b, name),
{
}

} // verus!
