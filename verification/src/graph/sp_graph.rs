//! The graph as the shortest-path algorithms read it.
use crate::graph::adjacency::{
    edge_count, edge_count_upto, lemma_edge_count_upto_monotone, Adjacency,
};
use crate::graph::out_edges::OutEdges;
use vstd::prelude::*;

verus! {

/// A directed graph with weighted edges whose nodes are `0..num_nodes()`.
pub trait SpGraph {
    type OutEdges<'a>: OutEdges where Self: 'a;

    /// What the graph holds: for each node its outgoing edges, in the order
    /// in which `out_edges` hands them out.
    spec fn adjacency(&self) -> Adjacency;

    /// Name of the representation.
    fn name() -> &'static str;

    fn num_nodes(&self) -> (n: usize)
        ensures
            n == self.adjacency().len(),
    ;

    /// The edges leaving `node`, from the first one on at every call.
    fn out_edges(&self, node: usize) -> (edges: Self::OutEdges<'_>)
        requires
            node < self.adjacency().len(),
        ensures
            edges.remaining() == self.adjacency()[node as int],
    ;

    /// Number of edges, counted node by node.
    fn num_edges(&self) -> (m: usize)
        requires
            edge_count(self.adjacency()) <= usize::MAX,
        ensures
            m == edge_count(self.adjacency()),
    {
        let n = self.num_nodes();
        let mut m: usize = 0;
        let mut i: usize = 0;
        while i < n
            invariant
                i <= n,
                n == self.adjacency().len(),
                m == edge_count_upto(self.adjacency(), i as int),
                edge_count(self.adjacency()) <= usize::MAX,
            decreases n - i,
        {
            let mut edges = self.out_edges(i);
            let count = edges.count_edges();
            proof {
                lemma_edge_count_upto_monotone(self.adjacency(), i + 1, n as int);
            }
            m = m + count;
            i = i + 1;
        }
        m
    }
}

} // verus!
