//! The mathematical model of a graph: for each node the sequence of its
//! outgoing edges, each a pair of head and weight.
use crate::Weight;
use vstd::multiset::Multiset;
use vstd::prelude::*;

verus! {

/// `adjacency[u][k]` is the head and the weight of the `k`-th edge leaving `u`.
pub type Adjacency = Seq<Seq<(usize, Weight)>>;

/// Every edge leads to a node of the graph.
pub open spec fn heads_in_range(adjacency: Adjacency) -> bool {
    forall|u: int, k: int|
        0 <= u < adjacency.len() && 0 <= k < adjacency[u].len() ==> (#[trigger] adjacency[u][k]).0
            < adjacency.len()
}

/// Number of edges leaving the first `upto` nodes.
pub open spec fn edge_count_upto(adjacency: Adjacency, upto: int) -> int
    decreases upto,
{
    if upto <= 0 {
        0
    } else {
        edge_count_upto(adjacency, upto - 1) + adjacency[upto - 1].len()
    }
}

/// Number of edges of the graph.
pub open spec fn edge_count(adjacency: Adjacency) -> int {
    edge_count_upto(adjacency, adjacency.len() as int)
}

/// The edges leaving `node` without their order.
pub open spec fn edge_bag(adjacency: Adjacency, node: int) -> Multiset<(usize, Weight)> {
    adjacency[node].to_multiset()
}

/// The graph without nodes.
pub open spec fn no_nodes() -> Adjacency {
    Seq::empty()
}

/// The graph with one more node, which has no edges yet.
pub open spec fn with_node(adjacency: Adjacency) -> Adjacency {
    adjacency.push(Seq::empty())
}

/// The graph with the edge `(head, weight)` appended to those leaving `tail`.
pub open spec fn with_edge_last(adjacency: Adjacency, tail: int, head: usize, weight: Weight) -> Adjacency {
    adjacency.update(tail, adjacency[tail].push((head, weight)))
}

/// The graph with the edge `(head, weight)` put in front of those leaving `tail`.
pub open spec fn with_edge_first(adjacency: Adjacency, tail: int, head: usize, weight: Weight) -> Adjacency {
    adjacency.update(tail, seq![(head, weight)] + adjacency[tail])
}

/// `after` is `before` with one more edge `(head, weight)` leaving `tail`, at
/// any place among the edges of `tail`.
pub open spec fn edge_added(before: Adjacency, after: Adjacency, tail: int, head: usize, weight: Weight) -> bool {
    &&& after.len() == before.len()
    &&& 0 <= tail < before.len()
    &&& edge_bag(after, tail) == edge_bag(before, tail).insert((head, weight))
    &&& forall|u: int| 0 <= u < before.len() && u != tail ==> #[trigger] after[u] == before[u]
}

pub proof fn lemma_edge_count_upto_nonnegative(a: Adjacency, upto: int)
    ensures
        edge_count_upto(a, upto) >= 0,
    decreases upto,
{
    if upto > 0 {
        lemma_edge_count_upto_nonnegative(a, upto - 1);
    }
}

pub proof fn lemma_edge_count_upto_monotone(a: Adjacency, i: int, j: int)
    requires
        i <= j,
    ensures
        edge_count_upto(a, i) <= edge_count_upto(a, j),
    decreases j - i,
{
    lemma_edge_count_upto_nonnegative(a, j);
    if i < j && j > 0 {
        lemma_edge_count_upto_monotone(a, i, j - 1);
    }
}

pub proof fn lemma_with_edge_last_added(adjacency: Adjacency, tail: int, head: usize, weight: Weight)
    requires
        0 <= tail < adjacency.len(),
    ensures
        edge_added(adjacency, with_edge_last(adjacency, tail, head, weight), tail, head, weight),
{
    let row = adjacency[tail];
    row.to_multiset_ensures();
    assert(row.push((head, weight)).to_multiset() == row.to_multiset().insert((head, weight)));
}

pub proof fn lemma_with_edge_first_added(adjacency: Adjacency, tail: int, head: usize, weight: Weight)
    requires
        0 <= tail < adjacency.len(),
    ensures
        edge_added(adjacency, with_edge_first(adjacency, tail, head, weight), tail, head, weight),
{
    let row = adjacency[tail];
    let one = seq![(head, weight)];
    vstd::seq_lib::lemma_multiset_commutative(one, row);
    one.to_multiset_ensures();
    assert(one =~= Seq::<(usize, Weight)>::empty().push((head, weight)));
    Seq::<(usize, Weight)>::empty().to_multiset_ensures();
    assert(Seq::<(usize, Weight)>::empty().to_multiset() =~= Multiset::empty());
    assert(one.to_multiset() =~= Multiset::empty().insert((head, weight)));
    assert((one + row).to_multiset() =~= row.to_multiset().insert((head, weight)));
}

} // verus!
