//! Graphs from lists of edges, and what a graph keeps of the edges that
//! went into it.
use crate::experimentation::factors::graph_data::dimacs9th::{isolated, takes_nodes, with_nodes};
use crate::graph::adjacency::{edge_bag, Adjacency};
use crate::graph::sp_graph::SpGraph;
use crate::graph::sp_graph_builder::SpGraphBuilder;
use crate::Weight;
use vstd::multiset::Multiset;
use vstd::prelude::*;

verus! {

/// Heads and weights of the edges of the list that leave `node`.
pub open spec fn leaving(edges: Seq<(usize, usize, Weight)>, node: int) -> Multiset<(usize, Weight)>
    decreases edges.len(),
{
    if edges.len() == 0 {
        Multiset::empty()
    } else {
        let before = leaving(edges.drop_last(), node);
        if edges.last().0 == node {
            before.insert((edges.last().1, edges.last().2))
        } else {
            before
        }
    }
}

/// What a builder of type `B` holds after `nodes` nodes and the first
/// `count` edges of the list, `None` if it does not take one of them.
pub open spec fn staged_edges<B: SpGraphBuilder>(
    nodes: nat,
    edges: Seq<(usize, usize, Weight)>,
    count: nat,
) -> Option<Adjacency>
    decreases count,
{
    if count == 0 {
        if takes_nodes::<B>(nodes) {
            Some(isolated(nodes))
        } else {
            None
        }
    } else {
        match staged_edges::<B>(nodes, edges, (count - 1) as nat) {
            None => None,
            Some(staged) => {
                let (tail, head, weight) = edges[count - 1];
                if B::takes_edge(staged, tail, head) {
                    Some(B::with_edge(staged, tail, head, weight))
                } else {
                    None
                }
            },
        }
    }
}

/// A graph that is read back holds, node by node, the edges that were
/// added to it, each as often as it was added, whatever the order in
/// which the builder keeps them.
pub proof fn lemma_edges_are_kept<B: SpGraphBuilder>(
    nodes: nat,
    edges: Seq<(usize, usize, Weight)>,
    count: nat,
)
    requires
        count <= edges.len(),
        staged_edges::<B>(nodes, edges, count) is Some,
    ensures
        staged_edges::<B>(nodes, edges, count)->Some_0.len() == nodes,
        forall|u: int|
            0 <= u < nodes ==> #[trigger] edge_bag(staged_edges::<B>(nodes, edges, count)->Some_0, u) == leaving(
                edges.take(count as int),
                u,
            ),
    decreases count,
{
    let after = staged_edges::<B>(nodes, edges, count)->Some_0;
    if count == 0 {
        assert forall|u: int| 0 <= u < nodes implies #[trigger] edge_bag(after, u) == leaving(
            edges.take(0),
            u,
        ) by {
            assert(after[u] =~= Seq::empty());
            after[u].to_multiset_ensures();
            assert(edge_bag(after, u) =~= Multiset::empty());
        }
    } else {
        lemma_edges_are_kept::<B>(nodes, edges, (count - 1) as nat);
        let before = staged_edges::<B>(nodes, edges, (count - 1) as nat)->Some_0;
        let (tail, head, weight) = edges[count - 1];
        B::lemma_edge_is_added(before, tail, head, weight);
        assert(edges.take(count as int).drop_last() =~= edges.take(count - 1));
        assert forall|u: int| 0 <= u < nodes implies #[trigger] edge_bag(after, u) == leaving(
            edges.take(count as int),
            u,
        ) by {
            assert(edge_bag(before, u) == leaving(edges.take(count - 1), u));
            if u != tail {
                assert(after[u] == before[u]);
            }
        }
    }
}

/// Builds the graph of `num_nodes` nodes with the edges of the list, each
/// a tail, a head and a weight. `None` if the builder does not take a
/// node or an edge.
pub fn build_from_edges<B: SpGraphBuilder>(
    num_nodes: usize,
    edges: &Vec<(usize, usize, Weight)>,
) -> (graph: Option<B::G>)
    ensures
        match graph {
            Some(graph) => {
                &&& staged_edges::<B>(num_nodes as nat, edges@, edges@.len()) == Some(graph.adjacency())
                &&& graph.adjacency().len() == num_nodes
                &&& forall|u: int|
                    0 <= u < num_nodes ==> #[trigger] edge_bag(graph.adjacency(), u) == leaving(edges@, u)
            },
            None => staged_edges::<B>(num_nodes as nat, edges@, edges@.len()) is None,
        },
{
    let mut builder: B = match with_nodes::<B>(num_nodes, Some(edges.len())) {
        Some(builder) => builder,
        None => {
            proof {
                lemma_refusal_stays::<B>(num_nodes as nat, edges@, 0, edges@.len());
            }
            return None;
        },
    };
    let mut i: usize = 0;
    while i < edges.len()
        invariant
            i <= edges@.len(),
            staged_edges::<B>(num_nodes as nat, edges@, i as nat) == Some(builder.staged()),
        decreases edges@.len() - i,
    {
        let (tail, head, weight) = edges[i];
        if !builder.can_add_edge(tail, head) {
            proof {
                lemma_refusal_stays::<B>(num_nodes as nat, edges@, (i + 1) as nat, edges@.len());
            }
            return None;
        }
        builder.add_edge(tail, head, weight);
        i = i + 1;
    }
    proof {
        lemma_edges_are_kept::<B>(num_nodes as nat, edges@, edges@.len());
        assert(edges@.take(edges@.len() as int) =~= edges@);
    }
    Some(builder.build())
}

/// A builder that has refused a node or an edge holds nothing later.
pub proof fn lemma_refusal_stays<B: SpGraphBuilder>(
    nodes: nat,
    edges: Seq<(usize, usize, Weight)>,
    count: nat,
    more: nat,
)
    requires
        count <= more,
        staged_edges::<B>(nodes, edges, count) is None,
    ensures
        staged_edges::<B>(nodes, edges, more) is None,
    decreases more,
{
    if count < more {
        lemma_refusal_stays::<B>(nodes, edges, count, (more - 1) as nat);
    }
}

} // verus!
