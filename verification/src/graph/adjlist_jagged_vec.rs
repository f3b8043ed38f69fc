//! Adjacency list as one `Vec` of edges per node.
use crate::graph::adjacency::{
    lemma_with_edge_last_added, no_nodes, with_edge_last, with_node, Adjacency,
};
use crate::graph::out_edges::OutEdgeData;
use crate::graph::out_edges_std_vec::{edge_pairs, OutEdge, OutEdgesStdVec};
use crate::graph::sp_graph::SpGraph;
use crate::graph::sp_graph_builder::SpGraphBuilder;
use crate::Weight;
use vstd::prelude::*;

verus! {

pub type AdjListJaggedVec = Vec<Vec<OutEdge>>;

/// Another name of the same layout.
pub type AdjListStdVec = AdjListJaggedVec;

/// The rows of a jagged adjacency list as a graph.
pub open spec fn jagged_adjacency(rows: Seq<Vec<OutEdge>>) -> Adjacency {
    Seq::new(rows.len(), |u: int| edge_pairs(rows[u]@))
}

impl SpGraphBuilder for AdjListJaggedVec {
    type G = AdjListJaggedVec;

    open spec fn staged(&self) -> Adjacency {
        jagged_adjacency(self@)
    }

    open spec fn takes_node(staged: Adjacency) -> bool {
        true
    }

    /// The tail has to be a node; the head may be added later.
    open spec fn takes_edge(staged: Adjacency, tail: usize, head: usize) -> bool {
        tail < staged.len()
    }

    /// The edge becomes the last of those leaving `tail`.
    open spec fn with_edge(staged: Adjacency, tail: usize, head: usize, weight: Weight) -> Adjacency {
        with_edge_last(staged, tail as int, head, weight)
    }

    proof fn lemma_edge_is_added(staged: Adjacency, tail: usize, head: usize, weight: Weight) {
        lemma_with_edge_last_added(staged, tail as int, head, weight);
    }

    fn can_add_node(&self) -> (can: bool) {
        true
    }

    fn can_add_edge(&self, tail: usize, _head: usize) -> (can: bool) {
        tail < self.len()
    }

    fn new(nodes_capacity: Option<usize>, _edges_capacity: Option<usize>) -> (builder: Self) {
        let builder: Vec<Vec<OutEdge>> = match nodes_capacity {
            Some(c) => Vec::with_capacity(c),
            None => Vec::new(),
        };
        assert(builder.staged() =~= no_nodes());
        builder
    }

    fn add_node(&mut self, node: usize, out_degree_capacity: Option<usize>) {
        let row: Vec<OutEdge> = match out_degree_capacity {
            Some(c) => Vec::with_capacity(c),
            None => Vec::new(),
        };
        self.push(row);
        assert(self.staged() =~= with_node(old(self).staged())) by {
            assert forall|u: int| 0 <= u < self@.len() implies #[trigger] self.staged()[u]
                =~= with_node(old(self).staged())[u] by {}
        }
    }

    fn add_edge(&mut self, tail: usize, head: usize, weight: Weight) {
        self[tail].push(OutEdge::new(head, weight));
        proof {
            assert(self.staged() =~= with_edge_last(old(self).staged(), tail as int, head, weight)) by {
                assert forall|u: int| 0 <= u < self@.len() implies #[trigger] self.staged()[u]
                    =~= with_edge_last(old(self).staged(), tail as int, head, weight)[u] by {}
            }
        }
    }

    fn build(self) -> (graph: Self::G) {
        self
    }
}

impl SpGraph for AdjListJaggedVec {
    type OutEdges<'a> = OutEdgesStdVec<'a>;

    open spec fn adjacency(&self) -> Adjacency {
        jagged_adjacency(self@)
    }

    fn name() -> (name: &'static str)
        ensures
            name@ == "AdjListJaggedVec"@,
    {
        "AdjListJaggedVec"
    }

    fn num_nodes(&self) -> (n: usize) {
        self.len()
    }

    fn out_edges(&self, node: usize) -> (edges: Self::OutEdges<'_>) {
        OutEdgesStdVec::over(&self[node])
    }
}

} // verus!
