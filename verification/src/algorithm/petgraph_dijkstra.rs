//! The shortest-path routine of `petgraph` as an algorithm of its own. It
//! runs on `petgraph` graphs only.
use crate::algorithm::measure::run_measure::Measure;
use crate::algorithm::sd_algorithm::ShortestDistanceAlgorithm;
use crate::algorithm::solution::Solution;
use crate::graph::adjlist_petgraph::{petgraph_dijkstra, AdjListPetgraph};
use crate::graph::sp_graph::SpGraph;
use vstd::prelude::*;

verus! {

pub struct PetgraphDijsktra;

impl ShortestDistanceAlgorithm<AdjListPetgraph> for PetgraphDijsktra {
    open spec fn available() -> bool {
        true
    }

    /// The algorithm keeps nothing.
    open spec fn is_fresh(&self) -> bool {
        true
    }

    open spec fn serves(&self, nodes: nat) -> bool {
        true
    }

    fn new(graph: &AdjListPetgraph) -> (algorithm: Self) {
        let algorithm = Self;
        assert(<Self as ShortestDistanceAlgorithm<AdjListPetgraph>>::is_fresh(&algorithm));
        assert(<Self as ShortestDistanceAlgorithm<AdjListPetgraph>>::serves(&algorithm, graph.adjacency().len()));
        algorithm
    }

    fn run_cached<M: Measure>(
        &mut self,
        graph: &AdjListPetgraph,
        source: usize,
        sink: usize,
    ) -> (solution: Solution<M>) {
        let solution = Solution::new(graph, source, sink);

        let distance = petgraph_dijkstra(graph, source, sink);

        match distance {
            Some(d) => solution.reached(d),
            None => solution.not_connected(),
        }
    }
}

} // verus!
