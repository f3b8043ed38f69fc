//! A benchmarking engine for single-pair shortest-path computation.
//!
//! An experiment is a full-factorial design over five factors: the input
//! graph, its representation in memory, the algorithm and its frontier, the
//! reuse of the algorithm's scratch data, and the set of source-sink pairs.
//! Every combination of levels is a treatment; a treatment is run query by
//! query and its measurements are aggregated into one row.
use vstd::prelude::*;

pub mod algorithm;
pub mod experimentation;
pub mod graph;
pub mod operations;
pub mod utils;

verus! {

/// Weight of an edge, and length of a path.
pub type Weight = u64;

} // verus!
