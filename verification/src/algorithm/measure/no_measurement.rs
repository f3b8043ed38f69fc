//! The measure that measures nothing.
use crate::algorithm::measure::run_measure::Measure;
use crate::graph::adjacency::Adjacency;
use crate::graph::sp_graph::SpGraph;
use crate::Weight;
use vstd::prelude::*;

verus! {

pub struct NoMeasurement;

impl Measure for NoMeasurement {
    open spec fn observes(
        &self,
        adjacency: Adjacency,
        source: usize,
        sink: usize,
        outcome: Option<Option<Weight>>,
    ) -> bool {
        true
    }

    /// A step leaves the measure as it is.
    open spec fn steps(before: Self, heap_length: usize, heap_capacity: usize, after: Self) -> bool {
        after == before
    }

    #[inline(always)]
    fn initialize<G: SpGraph>(_graph: &G, _source: usize, _sink: usize) -> (measure: Self) {
        Self
    }

    #[inline(always)]
    fn iterate(&mut self, _heap_length: usize, _heap_capacity: usize) {
    }

    #[inline(always)]
    fn finalize(&mut self, _shortest_distance: Option<Weight>) {
    }
}

} // verus!
