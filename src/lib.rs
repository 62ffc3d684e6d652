//! Procedural texture generation driven by a tree-addressed parameter genome.
//!
//! The genome (`dna`) gives every random decision a stable identity and keeps
//! raw values in its chromosome (`chromosome`); the grammar (`map3gen`) walks
//! it to assemble a tree of texture operators; `mutation` derives child
//! genomes and `persistence` reads and writes chromosomes as text. The
//! Krull64 generator (`rnd`, over `lcg`) supplies the randomness. `replay`
//! and `shape` prove what regenerating over a known chromosome gives.
use vstd::prelude::*;

pub mod chromosome;
pub mod distance;
pub mod dna;
pub mod ease;
pub mod hash;
pub mod lcg;
pub mod map3gen;
pub mod math;
pub mod mutation;
pub mod persistence;
pub mod replay;
pub mod rnd;
pub mod shape;
pub mod tiling;

verus! {

} // verus!
