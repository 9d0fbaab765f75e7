//! Tools for gisp pattern graphs: a parser for the gisp pattern language,
//! a textual re-emitter, exporters to graph-query and Cypher syntax, a
//! seeded relabeling transform, and star decomposition of a pattern
//! around chosen root vertices.

pub mod pattern_graph;
pub mod text;
pub mod types;

use vstd::prelude::*;

verus! {

/// The fixed seed of every relabeling stream: reproducibility across
/// runs is part of the relabeling transform's contract.
pub const SEED: u64 = 19491001;

} // verus!
