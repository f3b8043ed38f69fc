//! What every shortest-distance algorithm offers.
use crate::algorithm::measure::run_measure::Measure;
use crate::algorithm::solution::Solution;
use crate::graph::sp_graph::SpGraph;
use crate::graph::walks::{is_answer, valid_query};
use vstd::prelude::*;

verus! {

/// An algorithm that answers queries on graphs of type `G`. An instance
/// owns scratch data that it resets before every query.
pub trait ShortestDistanceAlgorithm<G: SpGraph>: Sized {
    /// Whether instances of this algorithm can be made.
    spec fn available() -> bool;

    /// Whether this instance is as `new` makes it: its frontier holds
    /// nothing, and it keeps nothing from an earlier query.
    spec fn is_fresh(&self) -> bool;

    /// Whether this instance can answer queries on a graph of `nodes` nodes.
    spec fn serves(&self, nodes: nat) -> bool;

    /// An instance for queries on `graph`.
    fn new(graph: &G) -> (algorithm: Self)
        requires
            Self::available(),
        ensures
            algorithm.is_fresh(),
            algorithm.serves(graph.adjacency().len()),
    ;

    /// Answers the query with the scratch data of this instance, whatever
    /// earlier queries left in it.
    fn run_cached<M: Measure>(&mut self, graph: &G, source: usize, sink: usize) -> (solution: Solution<M>)
        requires
            old(self).serves(graph.adjacency().len()),
            valid_query(graph.adjacency(), source, sink),
        ensures
            final(self).serves(graph.adjacency().len()),
            is_answer(graph.adjacency(), source, sink, solution.shortest_distance),
            solution.is_closed(graph.adjacency(), source, sink),
    ;

    /// Answers the query with an instance of its own.
    fn run_pure<M: Measure>(graph: &G, source: usize, sink: usize) -> (solution: Solution<M>)
        requires
            Self::available(),
            valid_query(graph.adjacency(), source, sink),
        ensures
            is_answer(graph.adjacency(), source, sink, solution.shortest_distance),
            solution.is_closed(graph.adjacency(), source, sink),
    {
        let mut algorithm = Self::new(graph);
        algorithm.run_cached(graph, source, sink)
    }
}

} // verus!
