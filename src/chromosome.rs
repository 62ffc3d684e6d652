//! The chromosome: the map from parameter hashes to raw values, held in a
//! `hashbrown` map, and the hash of a parameter name.
use core::hash::{BuildHasher, Hash, Hasher};
use vstd::prelude::*;

verus! {

/// The genes of a genome, keyed by parameter hash.
#[verifier::external_body]
pub struct Chromosome {
    genes: hashbrown::HashMap<u64, u32>,
}

/// What a chromosome holds.
pub uninterp spec fn genes_of(c: Chromosome) -> Map<u64, u32>;

/// The hash that `hashbrown`'s default hasher gives a parameter name.
pub uninterp spec fn name_hash_of(name: Seq<char>) -> u64;

/// A chromosome without genes.
pub open spec fn no_genes() -> Map<u64, u32> {
    Map::empty()
}

/// Relies on hashbrown::HashMap::new: the new map is empty.
#[verifier::external_body]
pub(crate) fn chromosome_new() -> (r: Chromosome)
    ensures
        genes_of(r) == no_genes(),
{
    Chromosome { genes: hashbrown::HashMap::new() }
}

/// Relies on hashbrown::HashMap::get: the value stored under the key, if any.
#[verifier::external_body]
pub(crate) fn chromosome_get(c: &Chromosome, key: u64) -> (r: Option<u32>)
    ensures
        r == (if genes_of(*c).contains_key(key) {
            Some(genes_of(*c)[key])
        } else {
            None::<u32>
        }),
{
    c.genes.get(&key).copied()
}

/// Relies on hashbrown::HashMap::insert: the key maps to the value afterwards,
/// and every other key keeps its value.
#[verifier::external_body]
pub(crate) fn chromosome_insert(c: &mut Chromosome, key: u64, value: u32)
    ensures
        genes_of(*final(c)) == genes_of(*old(c)).insert(key, value),
{
    c.genes.insert(key, value);
}

/// Relies on hashbrown::HashMap::iter: each entry once, in an order that the
/// map does not promise.
#[verifier::external_body]
pub(crate) fn chromosome_entries(c: &Chromosome) -> (r: Vec<(u64, u32)>)
    ensures
        forall|i: int|
            0 <= i < r@.len() ==> genes_of(*c).contains_key(#[trigger] r@[i].0) && genes_of(
                *c,
            )[r@[i].0] == r@[i].1,
        forall|k: u64|
            genes_of(*c).contains_key(k) ==> exists|i: int| 0 <= i < r@.len() && #[trigger] r@[i].0 == k,
        forall|i: int, j: int| 0 <= i < j < r@.len() ==> r@[i].0 != r@[j].0,
{
    c.genes.iter().map(|(k, v)| (*k, *v)).collect()
}

/// Relies on hashing a `str` with hashbrown's DefaultHashBuilder, an `AHasher`
/// with fixed keys: the hash depends on the name alone.
#[verifier::external_body]
pub(crate) fn name_hash(name: &str) -> (r: u64)
    ensures
        r == name_hash_of(name@),
{
    let mut hasher = hashbrown::hash_map::DefaultHashBuilder::default().build_hasher();
    name.hash(&mut hasher);
    hasher.finish()
}

} // verus!
