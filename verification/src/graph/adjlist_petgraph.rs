//! Adjacency list as a directed `petgraph` graph.
use crate::graph::adjacency::{
    edge_count, lemma_with_edge_first_added, no_nodes, with_edge_first, with_node, Adjacency,
};
use crate::graph::out_edges_petgraph::OutEdgesPetgraph;
use crate::graph::out_edges_std_vec::{edge_pairs, OutEdge};
use crate::graph::sp_graph::SpGraph;
use crate::graph::sp_graph_builder::SpGraphBuilder;
use crate::graph::walks::{is_answer, valid_query};
use crate::Weight;
use petgraph::graph::NodeIndex;
use petgraph::visit::EdgeRef;
use vstd::prelude::*;

verus! {

#[verifier::external_type_specification]
#[verifier::external_body]
#[verifier::reject_recursive_types(N)]
#[verifier::reject_recursive_types(E)]
#[verifier::reject_recursive_types(Ty)]
#[verifier::reject_recursive_types(Ix)]
pub struct ExGraph<N, E, Ty, Ix>(petgraph::graph::Graph<N, E, Ty, Ix>);

#[verifier::external_type_specification]
#[verifier::external_body]
pub struct ExDirected(petgraph::Directed);

pub type AdjListPetgraph = petgraph::graph::Graph<(), Weight, petgraph::Directed>;

/// What the graph holds: for each node its outgoing edges, the one added
/// last first.
pub uninterp spec fn petgraph_adjacency(graph: AdjListPetgraph) -> Adjacency;

/// The most nodes, and the most edges, that such a graph can hold: its
/// indices are 32 bits wide and the largest of them is set aside.
pub open spec fn petgraph_limit() -> int {
    u32::MAX as int
}

/// `Graph::with_capacity`: a graph without nodes. The capacities are hints.
#[verifier::external_body]
fn petgraph_with_capacity(nodes: usize, edges: usize) -> (graph: AdjListPetgraph)
    ensures
        petgraph_adjacency(graph) == no_nodes(),
{
    AdjListPetgraph::with_capacity(nodes, edges)
}

/// `Graph::add_node`, for a graph below its limit of nodes: one more node
/// without edges, whose index is the number of nodes before.
#[verifier::external_body]
fn petgraph_add_node(graph: &mut AdjListPetgraph) -> (index: usize)
    requires
        petgraph_adjacency(*old(graph)).len() < petgraph_limit(),
    ensures
        petgraph_adjacency(*final(graph)) == with_node(petgraph_adjacency(*old(graph))),
        index == petgraph_adjacency(*old(graph)).len(),
{
    graph.add_node(()).index()
}

/// `Graph::add_edge`, between two nodes of a graph below its limit of
/// edges: the new edge becomes the first of those leaving `tail`.
#[verifier::external_body]
fn petgraph_add_edge(graph: &mut AdjListPetgraph, tail: usize, head: usize, weight: Weight)
    requires
        tail < petgraph_adjacency(*old(graph)).len(),
        head < petgraph_adjacency(*old(graph)).len(),
        edge_count(petgraph_adjacency(*old(graph))) < petgraph_limit(),
    ensures
        petgraph_adjacency(*final(graph)) == with_edge_first(petgraph_adjacency(*old(graph)), tail as int, head, weight),
{
    graph.add_edge(NodeIndex::new(tail), NodeIndex::new(head), weight);
}

/// `Graph::node_count`: the number of nodes.
#[verifier::external_body]
fn petgraph_node_count(graph: &AdjListPetgraph) -> (n: usize)
    ensures
        n == petgraph_adjacency(*graph).len(),
{
    graph.node_count()
}

/// `Graph::edge_count`: the number of edges.
#[verifier::external_body]
fn petgraph_edge_count(graph: &AdjListPetgraph) -> (m: usize)
    ensures
        m == edge_count(petgraph_adjacency(*graph)),
{
    graph.edge_count()
}

/// `Graph::edges`: the edges leaving `node`, each as its head and weight.
#[verifier::external_body]
fn petgraph_edges(graph: &AdjListPetgraph, node: usize) -> (edges: Vec<OutEdge>)
    requires
        node < petgraph_adjacency(*graph).len(),
    ensures
        edge_pairs(edges@) == petgraph_adjacency(*graph)[node as int],
{
    graph.edges(NodeIndex::new(node)).map(|e| OutEdge::new(e.target().index(), *e.weight())).collect()
}

/// `petgraph::algo::dijkstra` from `source` with the goal `sink`, and what
/// the map that it returns holds for `sink`: the length of the shortest
/// path from `source` to `sink`, nothing where there is no path.
#[verifier::external_body]
pub(crate) fn petgraph_dijkstra(
    graph: &AdjListPetgraph,
    source: usize,
    sink: usize,
) -> (distance: Option<Weight>)
    requires
        valid_query(petgraph_adjacency(*graph), source, sink),
    ensures
        is_answer(petgraph_adjacency(*graph), source, sink, distance),
{
    let sink = NodeIndex::new(sink);
    let result = petgraph::algo::dijkstra(graph, NodeIndex::new(source), Some(sink), |e| *e.weight());
    result.get(&sink).cloned()
}

impl SpGraphBuilder for AdjListPetgraph {
    type G = AdjListPetgraph;

    open spec fn staged(&self) -> Adjacency {
        petgraph_adjacency(*self)
    }

    /// The graph is below its limit of nodes.
    open spec fn takes_node(staged: Adjacency) -> bool {
        staged.len() < petgraph_limit()
    }

    /// Tail and head have to be nodes, and the graph below its limit of
    /// edges.
    open spec fn takes_edge(staged: Adjacency, tail: usize, head: usize) -> bool {
        &&& tail < staged.len()
        &&& head < staged.len()
        &&& edge_count(staged) < petgraph_limit()
    }

    /// The edge becomes the first of those leaving `tail`.
    open spec fn with_edge(staged: Adjacency, tail: usize, head: usize, weight: Weight) -> Adjacency {
        with_edge_first(staged, tail as int, head, weight)
    }

    proof fn lemma_edge_is_added(staged: Adjacency, tail: usize, head: usize, weight: Weight) {
        lemma_with_edge_first_added(staged, tail as int, head, weight);
    }

    fn can_add_node(&self) -> (can: bool) {
        petgraph_node_count(self) < u32::MAX as usize
    }

    fn can_add_edge(&self, tail: usize, head: usize) -> (can: bool) {
        let n = petgraph_node_count(self);
        tail < n && head < n && petgraph_edge_count(self) < u32::MAX as usize
    }

    fn new(nodes_capacity: Option<usize>, edges_capacity: Option<usize>) -> (builder: Self) {
        let nodes = match nodes_capacity {
            Some(c) => c,
            None => 0,
        };
        let edges = match edges_capacity {
            Some(c) => c,
            None => 0,
        };
        petgraph_with_capacity(nodes, edges)
    }

    fn add_node(&mut self, node: usize, _out_degree_capacity: Option<usize>) {
        let index = petgraph_add_node(self);
        assert(index == node);
    }

    fn add_edge(&mut self, tail: usize, head: usize, weight: Weight) {
        petgraph_add_edge(self, tail, head, weight);
    }

    fn build(self) -> (graph: Self::G) {
        self
    }
}

impl SpGraph for AdjListPetgraph {
    type OutEdges<'a> = OutEdgesPetgraph;

    open spec fn adjacency(&self) -> Adjacency {
        petgraph_adjacency(*self)
    }

    fn name() -> (name: &'static str)
        ensures
            name@ == "AdjListPetgraph"@,
    {
        "AdjListPetgraph"
    }

    fn num_nodes(&self) -> (n: usize) {
        petgraph_node_count(self)
    }

    fn out_edges(&self, node: usize) -> (edges: Self::OutEdges<'_>) {
        OutEdgesPetgraph::over(petgraph_edges(self, node))
    }
}

} // verus!
