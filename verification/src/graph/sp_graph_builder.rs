//! Building a graph node by node and edge by edge.
use crate::graph::adjacency::{edge_added, no_nodes, with_node, Adjacency};
use crate::graph::sp_graph::SpGraph;
use crate::Weight;
use vstd::prelude::*;

verus! {

/// A graph under construction. `build` turns it into the graph that the
/// algorithms read.
pub trait SpGraphBuilder: Sized {
    type G: SpGraph;

    /// What has been added so far.
    spec fn staged(&self) -> Adjacency;

    /// Whether a builder that holds `staged` takes one more node.
    spec fn takes_node(staged: Adjacency) -> bool;

    /// Whether a builder that holds `staged` takes an edge from `tail` to
    /// `head`. The builders differ in whether `head` has to be a node
    /// already.
    spec fn takes_edge(staged: Adjacency, tail: usize, head: usize) -> bool;

    /// What a builder that holds `staged` holds once it has taken the edge.
    spec fn with_edge(staged: Adjacency, tail: usize, head: usize, weight: Weight) -> Adjacency;

    /// An edge that is taken is one more edge leaving its tail, and nothing
    /// else changes. The builders differ in where among the edges of the
    /// tail they put it.
    proof fn lemma_edge_is_added(staged: Adjacency, tail: usize, head: usize, weight: Weight)
        requires
            Self::takes_edge(staged, tail, head),
        ensures
            edge_added(staged, Self::with_edge(staged, tail, head, weight), tail as int, head, weight),
    ;

    /// A builder without nodes. The capacities are hints.
    fn new(nodes_capacity: Option<usize>, edges_capacity: Option<usize>) -> (builder: Self)
        ensures
            builder.staged() == no_nodes(),
    ;

    fn can_add_node(&self) -> (can: bool)
        ensures
            can == Self::takes_node(self.staged()),
    ;

    fn can_add_edge(&self, tail: usize, head: usize) -> (can: bool)
        ensures
            can == Self::takes_edge(self.staged(), tail, head),
    ;

    /// Adds the node `node`, which has to be the number of nodes added before.
    fn add_node(&mut self, node: usize, out_degree_capacity: Option<usize>)
        requires
            node == old(self).staged().len(),
            Self::takes_node(old(self).staged()),
        ensures
            final(self).staged() == with_node(old(self).staged()),
    ;

    /// Adds an edge from `tail` to `head`.
    fn add_edge(&mut self, tail: usize, head: usize, weight: Weight)
        requires
            Self::takes_edge(old(self).staged(), tail, head),
        ensures
            final(self).staged() == Self::with_edge(old(self).staged(), tail, head, weight),
    ;

    /// The graph that holds what was added.
    fn build(self) -> (graph: Self::G)
        ensures
            graph.adjacency() == self.staged(),
    ;
}

} // verus!
