//! The result of one query together with its measure.
use crate::algorithm::measure::run_measure::Measure;
use crate::graph::adjacency::Adjacency;
use crate::graph::sp_graph::SpGraph;
use crate::graph::walks::valid_query;
use crate::Weight;
use vstd::prelude::*;

verus! {

pub struct Solution<M: Measure> {
    pub measure: M,
    pub shortest_distance: Option<Weight>,
}

impl<M: Measure> Solution<M> {
    /// The query from `source` to `sink` on `adjacency` runs, no result yet.
    pub open spec fn is_open(&self, adjacency: Adjacency, source: usize, sink: usize) -> bool {
        self.shortest_distance is None && self.measure.observes(adjacency, source, sink, None)
    }

    /// The query from `source` to `sink` on `adjacency` has ended, and the
    /// measure was closed with the result that the solution holds.
    pub open spec fn is_closed(&self, adjacency: Adjacency, source: usize, sink: usize) -> bool {
        self.measure.observes(adjacency, source, sink, Some(self.shortest_distance))
    }

    /// Starts the measure of a query.
    pub fn new<G: SpGraph>(graph: &G, source: usize, sink: usize) -> (solution: Self)
        requires
            valid_query(graph.adjacency(), source, sink),
        ensures
            solution.is_open(graph.adjacency(), source, sink),
    {
        Self { measure: M::initialize(graph, source, sink), shortest_distance: None }
    }

    /// Ends the query: the sink was reached at `distance`.
    pub fn reached(self, distance: Weight) -> (solution: Self)
        ensures
            solution.shortest_distance == Some(distance),
            forall|adjacency: Adjacency, source: usize, sink: usize| #[trigger]
                self.measure.observes(adjacency, source, sink, None) ==> solution.is_closed(
                    adjacency,
                    source,
                    sink,
                ),
    {
        let mut solution = self;
        solution.shortest_distance = Some(distance);
        solution.measure.finalize(solution.shortest_distance);
        solution
    }

    /// Ends the query: the sink cannot be reached.
    pub fn not_connected(self) -> (solution: Self)
        ensures
            solution.shortest_distance == self.shortest_distance,
            forall|adjacency: Adjacency, source: usize, sink: usize| #[trigger]
                self.measure.observes(adjacency, source, sink, None) ==> solution.is_closed(
                    adjacency,
                    source,
                    sink,
                ),
    {
        let mut solution = self;
        solution.measure.finalize(solution.shortest_distance);
        solution
    }

    /// Tells the measure of one step of the algorithm, after which the
    /// frontier has the given length and capacity.
    pub fn iterate(&mut self, heap_length: usize, heap_capacity: usize)
        ensures
            final(self).shortest_distance == old(self).shortest_distance,
            M::steps(old(self).measure, heap_length, heap_capacity, final(self).measure),
            forall|adjacency: Adjacency, source: usize, sink: usize| #[trigger]
                old(self).is_open(adjacency, source, sink) ==> final(self).is_open(adjacency, source, sink),
    {
        self.measure.iterate(heap_length, heap_capacity)
    }
}

} // verus!
