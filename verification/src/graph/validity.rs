//! What can be tested of a graph before queries are run on it: that its
//! edges lead to nodes, and that its weights are small enough for distances
//! to fit.
use crate::graph::adjacency::{heads_in_range, Adjacency};
use crate::graph::out_edges::{OutEdgeData, OutEdges};
use crate::graph::sp_graph::SpGraph;
use crate::graph::walks::{
    is_shortest, is_walk, is_walk_to, lemma_walk_weight_nonnegative, relaxations_fit, valid_query,
    walk_end, walk_weight, Step,
};
use crate::Weight;
use vstd::prelude::*;
use vstd::set_lib::{lemma_int_range, lemma_len_subset, set_int_range};

verus! {

/// No edge weighs more than `cap`.
pub open spec fn weights_at_most(adjacency: Adjacency, cap: int) -> bool {
    forall|u: int, k: int|
        0 <= u < adjacency.len() && 0 <= k < adjacency[u].len() ==> (#[trigger] adjacency[u][k]).1 <= cap
}

/// As many edges as the graph has nodes, each of the weight of the
/// heaviest, weigh less than the largest weight.
pub open spec fn weights_bounded(adjacency: Adjacency) -> bool {
    exists|cap: int| weights_at_most(adjacency, cap) && 0 <= cap && #[trigger] (adjacency.len() * cap) < Weight::MAX
}

/// What holds of a walk that is made of two.
pub proof fn lemma_walk_concat(adjacency: Adjacency, source: int, first: Seq<Step>, second: Seq<Step>)
    ensures
        is_walk(adjacency, source, first + second) == (is_walk(adjacency, source, first) && is_walk(
            adjacency,
            walk_end(adjacency, source, first),
            second,
        )),
        walk_end(adjacency, source, first + second) == walk_end(
            adjacency,
            walk_end(adjacency, source, first),
            second,
        ),
        walk_weight(adjacency, first + second) == walk_weight(adjacency, first) + walk_weight(adjacency, second),
    decreases second.len(),
{
    if second.len() == 0 {
        assert(first + second =~= first);
    } else {
        lemma_walk_concat(adjacency, source, first, second.drop_last());
        assert((first + second).drop_last() =~= first + second.drop_last());
        assert((first + second).last() == second.last());
    }
}

pub proof fn lemma_walk_stays_inside(adjacency: Adjacency, source: int, walk: Seq<Step>)
    requires
        heads_in_range(adjacency),
        0 <= source < adjacency.len(),
        is_walk(adjacency, source, walk),
    ensures
        0 <= walk_end(adjacency, source, walk) < adjacency.len(),
{
    if walk.len() > 0 {
        let step = walk.last();
        assert(adjacency[step.tail][step.edge].0 < adjacency.len());
    }
}

/// A walk that comes to a node twice can leave out what lies between.
pub proof fn lemma_walk_cut(adjacency: Adjacency, source: int, walk: Seq<Step>, i: int, j: int)
    requires
        is_walk(adjacency, source, walk),
        0 <= i < j <= walk.len(),
        walk_end(adjacency, source, walk.take(i)) == walk_end(adjacency, source, walk.take(j)),
    ensures
        is_walk(adjacency, source, walk.take(i) + walk.skip(j)),
        walk_end(adjacency, source, walk.take(i) + walk.skip(j)) == walk_end(adjacency, source, walk),
        walk_weight(adjacency, walk.take(i) + walk.skip(j)) <= walk_weight(adjacency, walk),
{
    let head = walk.take(i);
    let middle = walk.subrange(i, j);
    let tail = walk.skip(j);
    assert(walk =~= walk.take(j) + tail);
    assert(walk.take(j) =~= head + middle);
    lemma_walk_concat(adjacency, source, walk.take(j), tail);
    lemma_walk_concat(adjacency, source, head, middle);
    lemma_walk_concat(adjacency, source, head, tail);
    lemma_walk_weight_nonnegative(adjacency, middle);
}

/// The nodes that a walk comes to, from its source to its end.
pub open spec fn walk_nodes(adjacency: Adjacency, source: int, walk: Seq<Step>) -> Seq<int> {
    Seq::new(walk.len() + 1, |i: int| walk_end(adjacency, source, walk.take(i)))
}

/// A walk of at least as many steps as there are nodes comes to a node
/// twice.
pub proof fn lemma_walk_repeats(adjacency: Adjacency, source: int, walk: Seq<Step>) -> (places: (int, int))
    requires
        heads_in_range(adjacency),
        0 <= source < adjacency.len(),
        is_walk(adjacency, source, walk),
        walk.len() >= adjacency.len(),
    ensures
        0 <= places.0 < places.1 <= walk.len(),
        walk_end(adjacency, source, walk.take(places.0)) == walk_end(adjacency, source, walk.take(places.1)),
{
    let nodes = walk_nodes(adjacency, source, walk);
    let inside = set_int_range(0, adjacency.len() as int);
    assert forall|i: int| 0 <= i < nodes.len() implies inside.contains(#[trigger] nodes[i]) by {
        assert(walk =~= walk.take(i) + walk.skip(i));
        lemma_walk_concat(adjacency, source, walk.take(i), walk.skip(i));
        lemma_walk_stays_inside(adjacency, source, walk.take(i));
    }
    if nodes.no_duplicates() {
        nodes.unique_seq_to_set();
        lemma_int_range(0, adjacency.len() as int);
        assert(nodes.to_set().subset_of(inside)) by {
            assert forall|v: int| nodes.to_set().contains(v) implies inside.contains(v) by {
                let i = choose|i: int| 0 <= i < nodes.len() && nodes[i] == v;
                assert(inside.contains(nodes[i]));
            }
        }
        lemma_len_subset(nodes.to_set(), inside);
        assert(false);
    }
    let (i, j) = choose|i: int, j: int|
        0 <= i < nodes.len() && 0 <= j < nodes.len() && i != j && nodes[i] == nodes[j];
    if i < j {
        (i, j)
    } else {
        (j, i)
    }
}

/// Where a walk leads, a walk of fewer steps than there are nodes leads
/// too, and it weighs no more.
pub proof fn lemma_short_walk(adjacency: Adjacency, source: int, walk: Seq<Step>) -> (short: Seq<Step>)
    requires
        heads_in_range(adjacency),
        0 <= source < adjacency.len(),
        is_walk(adjacency, source, walk),
    ensures
        is_walk(adjacency, source, short),
        walk_end(adjacency, source, short) == walk_end(adjacency, source, walk),
        walk_weight(adjacency, short) <= walk_weight(adjacency, walk),
        short.len() < adjacency.len(),
    decreases walk.len(),
{
    if walk.len() < adjacency.len() {
        walk
    } else {
        let (i, j) = lemma_walk_repeats(adjacency, source, walk);
        lemma_walk_cut(adjacency, source, walk, i, j);
        lemma_short_walk(adjacency, source, walk.take(i) + walk.skip(j))
    }
}

/// A walk weighs at most its number of steps times the heaviest weight.
pub proof fn lemma_walk_weight_at_most(adjacency: Adjacency, source: int, walk: Seq<Step>, cap: int)
    requires
        is_walk(adjacency, source, walk),
        weights_at_most(adjacency, cap),
        0 <= cap,
    ensures
        walk_weight(adjacency, walk) <= walk.len() * cap,
    decreases walk.len(),
{
    if walk.len() > 0 {
        lemma_walk_weight_at_most(adjacency, source, walk.drop_last(), cap);
        let step = walk.last();
        assert(adjacency[step.tail][step.edge].1 <= cap);
        assert((walk.len() - 1) * cap + cap == walk.len() * cap) by (nonlinear_arith);
    } else {
        assert(0 * cap == 0) by (nonlinear_arith);
    }
}

/// On a graph of bounded weights every query between nodes of the graph
/// can be answered.
pub proof fn lemma_bounded_weights_fit(adjacency: Adjacency, source: int)
    requires
        heads_in_range(adjacency),
        weights_bounded(adjacency),
        0 <= source < adjacency.len(),
    ensures
        relaxations_fit(adjacency, source),
{
    let cap = choose|cap: int|
        weights_at_most(adjacency, cap) && 0 <= cap && #[trigger] (adjacency.len() * cap) < Weight::MAX;
    let n = adjacency.len() as int;
    assert forall|u: int, k: int, distance: int|
        0 <= u < adjacency.len() && 0 <= k < adjacency[u].len() && #[trigger] is_shortest(
            adjacency,
            source,
            u,
            distance,
        ) implies distance + (#[trigger] adjacency[u][k]).1 < Weight::MAX by {
        let walk = choose|walk: Seq<Step>| #[trigger]
            is_walk_to(adjacency, source, u, walk) && walk_weight(adjacency, walk) == distance;
        let short = lemma_short_walk(adjacency, source, walk);
        assert(is_walk_to(adjacency, source, u, short));
        lemma_walk_weight_at_most(adjacency, source, short, cap);
        assert(adjacency[u][k].1 <= cap);
        assert(short.len() * cap + cap <= n * cap) by (nonlinear_arith)
            requires
                0 <= short.len() < n,
                0 <= cap,
        ;
    }
}

/// Whether every edge of the graph leads to a node of the graph.
pub fn has_valid_heads<G: SpGraph>(graph: &G) -> (valid: bool)
    ensures
        valid == heads_in_range(graph.adjacency()),
{
    let n = graph.num_nodes();
    let ghost adjacency = graph.adjacency();
    let mut u: usize = 0;
    while u < n
        invariant
            adjacency == graph.adjacency(),
            n == adjacency.len(),
            u <= n,
            forall|v: int, k: int|
                0 <= v < u && 0 <= k < adjacency[v].len() ==> (#[trigger] adjacency[v][k]).0 < n,
        decreases n - u,
    {
        let mut edges = graph.out_edges(u);
        let ghost mut done: int = 0;
        loop
            invariant
                adjacency == graph.adjacency(),
                n == adjacency.len(),
                u < n,
                0 <= done <= adjacency[u as int].len(),
                edges.remaining() == adjacency[u as int].subrange(done, adjacency[u as int].len() as int),
                forall|k: int| 0 <= k < done ==> (#[trigger] adjacency[u as int][k]).0 < n,
            ensures
                forall|k: int| 0 <= k < adjacency[u as int].len() ==> (#[trigger] adjacency[u as int][k]).0 < n,
            decreases edges.remaining().len(),
        {
            let edge = match edges.next_edge() {
                Some(edge) => edge,
                None => {
                    break ;
                },
            };
            proof {
                assert(edge.as_pair() == adjacency[u as int][done]);
                assert(edges.remaining() =~= adjacency[u as int].subrange(
                    done + 1,
                    adjacency[u as int].len() as int,
                ));
            }
            if edge.head() >= n {
                return false;
            }
            proof {
                done = done + 1;
            }
        }
        u = u + 1;
    }
    true
}

/// The weight of the heaviest edge of the graph, zero where it has none.
pub fn max_weight<G: SpGraph>(graph: &G) -> (heaviest: Weight)
    ensures
        weights_at_most(graph.adjacency(), heaviest as int),
        forall|cap: int| weights_at_most(graph.adjacency(), cap) && 0 <= cap ==> heaviest <= cap,
{
    let n = graph.num_nodes();
    let ghost adjacency = graph.adjacency();
    let mut heaviest: Weight = 0;
    let mut u: usize = 0;
    while u < n
        invariant
            adjacency == graph.adjacency(),
            n == adjacency.len(),
            u <= n,
            forall|v: int, k: int|
                0 <= v < u && 0 <= k < adjacency[v].len() ==> (#[trigger] adjacency[v][k]).1 <= heaviest,
            forall|cap: int| weights_at_most(adjacency, cap) && 0 <= cap ==> heaviest <= cap,
        decreases n - u,
    {
        let mut edges = graph.out_edges(u);
        let ghost mut done: int = 0;
        loop
            invariant
                adjacency == graph.adjacency(),
                n == adjacency.len(),
                u < n,
                0 <= done <= adjacency[u as int].len(),
                edges.remaining() == adjacency[u as int].subrange(done, adjacency[u as int].len() as int),
                forall|v: int, k: int|
                    0 <= v < u && 0 <= k < adjacency[v].len() ==> (#[trigger] adjacency[v][k]).1 <= heaviest,
                forall|k: int| 0 <= k < done ==> (#[trigger] adjacency[u as int][k]).1 <= heaviest,
                forall|cap: int| weights_at_most(adjacency, cap) && 0 <= cap ==> heaviest <= cap,
            ensures
                forall|v: int, k: int|
                    0 <= v < u + 1 && 0 <= k < adjacency[v].len() ==> (#[trigger] adjacency[v][k]).1 <= heaviest,
                forall|cap: int| weights_at_most(adjacency, cap) && 0 <= cap ==> heaviest <= cap,
            decreases edges.remaining().len(),
        {
            let edge = match edges.next_edge() {
                Some(edge) => edge,
                None => {
                    break ;
                },
            };
            proof {
                assert(edge.as_pair() == adjacency[u as int][done]);
                assert(edges.remaining() =~= adjacency[u as int].subrange(
                    done + 1,
                    adjacency[u as int].len() as int,
                ));
            }
            let weight = edge.weight();
            if weight > heaviest {
                heaviest = weight;
                proof {
                    assert forall|cap: int| weights_at_most(adjacency, cap) && 0 <= cap implies
                        heaviest <= cap by {
                        assert(adjacency[u as int][done].1 <= cap);
                    }
                }
            }
            proof {
                done = done + 1;
            }
        }
        u = u + 1;
    }
    heaviest
}

/// Whether the weights of the graph are bounded, so that distances fit.
pub fn weights_fit<G: SpGraph>(graph: &G) -> (fit: bool)
    ensures
        fit == weights_bounded(graph.adjacency()),
{
    let n = graph.num_nodes();
    let heaviest = max_weight(graph);
    let ghost adjacency = graph.adjacency();
    let fit = match (n as u64).checked_mul(heaviest) {
        Some(product) => product < Weight::MAX,
        None => false,
    };
    proof {
        if fit {
            assert(adjacency.len() * (heaviest as int) < Weight::MAX);
        } else if weights_bounded(adjacency) {
            let cap = choose|cap: int|
                weights_at_most(adjacency, cap) && 0 <= cap && #[trigger] (adjacency.len() * cap) < Weight::MAX;
            assert(adjacency.len() * heaviest <= adjacency.len() * cap) by (nonlinear_arith)
                requires
                    0 <= heaviest <= cap,
            ;
        }
    }
    fit
}

/// Whether queries can be run on the graph: its edges lead to nodes and
/// its weights are bounded. Every query between two of its nodes can then
/// be answered.
pub fn admits_queries<G: SpGraph>(graph: &G) -> (admits: bool)
    ensures
        admits == (heads_in_range(graph.adjacency()) && weights_bounded(graph.adjacency())),
        admits ==> forall|source: usize, sink: usize|
            source < graph.adjacency().len() && sink < graph.adjacency().len() ==> #[trigger] valid_query(
                graph.adjacency(),
                source,
                sink,
            ),
{
    let admits = has_valid_heads(graph) && weights_fit(graph);
    proof {
        if admits {
            assert forall|source: usize, sink: usize|
                source < graph.adjacency().len() && sink < graph.adjacency().len() implies #[trigger] valid_query(
                graph.adjacency(),
                source,
                sink,
            ) by {
                lemma_bounded_weights_fit(graph.adjacency(), source as int);
            }
        }
    }
    admits
}

} // verus!
