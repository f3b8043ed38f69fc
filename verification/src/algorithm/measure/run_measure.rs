//! The observer of one query.
use crate::graph::adjacency::Adjacency;
use crate::graph::sp_graph::SpGraph;
use crate::graph::walks::valid_query;
use crate::Weight;
use vstd::prelude::*;

verus! {

/// Measures one query: made when the query starts, told of every step of
/// the algorithm, and closed with the result of the query.
pub trait Measure: Sized {
    /// Whether this is a measure of the query from `source` to `sink` on
    /// the graph `adjacency`; `outcome` is `None` while the query runs and
    /// holds the result that the measure was closed with afterwards.
    spec fn observes(
        &self,
        adjacency: Adjacency,
        source: usize,
        sink: usize,
        outcome: Option<Option<Weight>>,
    ) -> bool;

    /// Whether `after` is `before` once it has been told of one step of
    /// the algorithm, after which the frontier had the given length and
    /// capacity.
    spec fn steps(before: Self, heap_length: usize, heap_capacity: usize, after: Self) -> bool;

    /// The measure of a query that starts now.
    fn initialize<G: SpGraph>(graph: &G, source: usize, sink: usize) -> (measure: Self)
        requires
            valid_query(graph.adjacency(), source, sink),
        ensures
            measure.observes(graph.adjacency(), source, sink, None),
    ;

    /// One step of the algorithm is done; the frontier has the given length
    /// and capacity.
    fn iterate(&mut self, heap_length: usize, heap_capacity: usize)
        ensures
            Self::steps(*old(self), heap_length, heap_capacity, *final(self)),
            forall|adjacency: Adjacency, source: usize, sink: usize| #[trigger]
                old(self).observes(adjacency, source, sink, None) ==> final(self).observes(
                    adjacency,
                    source,
                    sink,
                    None,
                ),
    ;

    /// The query has ended with the given result.
    fn finalize(&mut self, shortest_distance: Option<Weight>)
        ensures
            forall|adjacency: Adjacency, source: usize, sink: usize| #[trigger]
                old(self).observes(adjacency, source, sink, None) ==> final(self).observes(
                    adjacency,
                    source,
                    sink,
                    Some(shortest_distance),
                ),
    ;
}

} // verus!
