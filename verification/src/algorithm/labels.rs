//! The reasoning that the variants of Dijkstra's algorithm share: tentative
//! distances, settled nodes, and why the least tentative distance of the
//! frontier is a shortest distance.
use crate::graph::adjacency::{heads_in_range, Adjacency};
use crate::graph::walks::{
    is_shortest, is_walk, is_walk_to, lemma_reaches_by_edge, lemma_reaches_itself,
    lemma_walk_weight_nonnegative, reachable, reaches, relaxations_fit, walk_end, walk_weight, Step,
};
use crate::Weight;
use vstd::prelude::*;

verus! {

/// The tentative distance of a node that has none yet.
pub open spec fn unlabelled() -> int {
    Weight::MAX as int
}

/// Tentative distances that are lengths of walks from `source`, settled
/// nodes whose tentative distance is their shortest distance, and no edge
/// leaving a settled node that would improve the distance of its head.
pub open spec fn labels_sound(adjacency: Adjacency, source: int, dist: Seq<int>, settled: Set<int>) -> bool {
    &&& dist.len() == adjacency.len()
    &&& 0 <= source < adjacency.len()
    &&& dist[source] == 0
    &&& forall|v: int| 0 <= v < dist.len() ==> 0 <= #[trigger] dist[v] <= unlabelled()
    &&& forall|v: int|
        0 <= v < dist.len() && #[trigger] dist[v] < unlabelled() ==> reaches(adjacency, source, v, dist[v])
    &&& forall|u: int| #[trigger]
        settled.contains(u) ==> 0 <= u < dist.len() && dist[u] < unlabelled() && is_shortest(
            adjacency,
            source,
            u,
            dist[u],
        )
    &&& forall|u: int, k: int|
        settled.contains(u) && 0 <= k < adjacency[u].len() ==> dist[(#[trigger] adjacency[u][k]).0 as int]
            <= dist[u] + adjacency[u][k].1
}

/// No node of the frontier (labelled, not settled) has a tentative distance
/// below `bound`.
pub open spec fn frontier_at_least(dist: Seq<int>, settled: Set<int>, bound: int) -> bool {
    forall|v: int|
        0 <= v < dist.len() && !settled.contains(v) && #[trigger] dist[v] < unlabelled() ==> bound <= dist[v]
}

/// The labels before anything is settled: the source at distance zero.
pub open spec fn initial_labels(nodes: nat, source: int) -> Seq<int> {
    Seq::new(nodes, |v: int| if v == source { 0 } else { unlabelled() })
}

pub proof fn lemma_initial_labels_sound(adjacency: Adjacency, source: int)
    requires
        0 <= source < adjacency.len(),
    ensures
        labels_sound(adjacency, source, initial_labels(adjacency.len(), source), Set::empty()),
{
    lemma_reaches_itself(adjacency, source);
}

/// A walk from the source ends at a settled node or is at least as long as
/// the least tentative distance of the frontier.
pub proof fn lemma_walk_bound(
    adjacency: Adjacency,
    source: int,
    dist: Seq<int>,
    settled: Set<int>,
    bound: int,
    walk: Seq<Step>,
)
    requires
        labels_sound(adjacency, source, dist, settled),
        heads_in_range(adjacency),
        relaxations_fit(adjacency, source),
        frontier_at_least(dist, settled, bound),
        is_walk(adjacency, source, walk),
    ensures
        settled.contains(walk_end(adjacency, source, walk)) || bound <= walk_weight(adjacency, walk),
        0 <= walk_end(adjacency, source, walk) < adjacency.len(),
    decreases walk.len(),
{
    if walk.len() == 0 {
        if !settled.contains(source) {
            assert(dist[source] < unlabelled());
        }
    } else {
        let before = walk.drop_last();
        let step = walk.last();
        let y = step.tail;
        let x = walk_end(adjacency, source, walk);
        lemma_walk_bound(adjacency, source, dist, settled, bound, before);
        lemma_walk_weight_nonnegative(adjacency, before);
        let edge = adjacency[y][step.edge];
        assert(edge.0 < adjacency.len());
        if settled.contains(y) {
            assert(is_walk_to(adjacency, source, y, before));
            assert(dist[y] <= walk_weight(adjacency, before));
            assert(dist[edge.0 as int] <= dist[y] + edge.1);
            assert(dist[y] + edge.1 < Weight::MAX);
            if !settled.contains(x) {
                assert(dist[x] < unlabelled());
            }
        }
    }
}

/// The least tentative distance of the frontier is the shortest distance of
/// the node that has it.
pub proof fn lemma_frontier_least_is_shortest(
    adjacency: Adjacency,
    source: int,
    dist: Seq<int>,
    settled: Set<int>,
    node: int,
    cost: int,
)
    requires
        labels_sound(adjacency, source, dist, settled),
        heads_in_range(adjacency),
        relaxations_fit(adjacency, source),
        frontier_at_least(dist, settled, cost),
        !settled.contains(node),
        reaches(adjacency, source, node, cost),
    ensures
        is_shortest(adjacency, source, node, cost),
{
    assert forall|walk: Seq<Step>| #[trigger] is_walk_to(adjacency, source, node, walk) implies cost
        <= walk_weight(adjacency, walk) by {
        lemma_walk_bound(adjacency, source, dist, settled, cost, walk);
    }
}

/// Once the frontier is empty, the nodes that are not settled cannot be
/// reached.
pub proof fn lemma_frontier_empty(
    adjacency: Adjacency,
    source: int,
    dist: Seq<int>,
    settled: Set<int>,
    node: int,
)
    requires
        labels_sound(adjacency, source, dist, settled),
        heads_in_range(adjacency),
        relaxations_fit(adjacency, source),
        forall|v: int| 0 <= v < dist.len() && !settled.contains(v) ==> #[trigger] dist[v] == unlabelled(),
        !settled.contains(node),
    ensures
        !reachable(adjacency, source, node),
{
    if reachable(adjacency, source, node) {
        let walk = choose|walk: Seq<Step>| is_walk_to(adjacency, source, node, walk);
        let bound = walk_weight(adjacency, walk) + 1;
        assert(frontier_at_least(dist, settled, bound));
        lemma_walk_bound(adjacency, source, dist, settled, bound, walk);
    }
}

/// The state while the edges of `node` are relaxed: the labels are sound,
/// `node` has its shortest distance `cost`, and its first `done` edges no
/// longer improve the distance of their heads.
pub open spec fn relaxing(
    adjacency: Adjacency,
    source: int,
    dist: Seq<int>,
    settled: Set<int>,
    node: int,
    cost: int,
    done: int,
) -> bool {
    &&& labels_sound(adjacency, source, dist, settled)
    &&& 0 <= node < adjacency.len()
    &&& dist[node] == cost
    &&& cost < unlabelled()
    &&& is_shortest(adjacency, source, node, cost)
    &&& 0 <= done <= adjacency[node].len()
    &&& forall|k: int|
        0 <= k < done ==> dist[(#[trigger] adjacency[node][k]).0 as int] <= cost + adjacency[node][k].1
}

/// The labels after the `edge`-th edge of `node` has been relaxed.
pub open spec fn relaxed(adjacency: Adjacency, dist: Seq<int>, node: int, cost: int, edge: int) -> Seq<int> {
    let head = adjacency[node][edge].0 as int;
    let next_cost = cost + adjacency[node][edge].1;
    if next_cost < dist[head] {
        dist.update(head, next_cost)
    } else {
        dist
    }
}

/// Relaxing the next edge keeps the state, improves the distance of no
/// settled node and not that of `node` itself.
pub proof fn lemma_relax_edge(
    adjacency: Adjacency,
    source: int,
    dist: Seq<int>,
    settled: Set<int>,
    node: int,
    cost: int,
    edge: int,
)
    requires
        relaxing(adjacency, source, dist, settled, node, cost, edge),
        edge < adjacency[node].len(),
        heads_in_range(adjacency),
        relaxations_fit(adjacency, source),
    ensures
        relaxing(adjacency, source, relaxed(adjacency, dist, node, cost, edge), settled, node, cost, edge + 1),
        cost + adjacency[node][edge].1 < Weight::MAX,
        adjacency[node][edge].0 < adjacency.len(),
        reaches(adjacency, source, adjacency[node][edge].0 as int, cost + adjacency[node][edge].1),
        cost + adjacency[node][edge].1 < dist[adjacency[node][edge].0 as int] ==> {
            &&& !settled.contains(adjacency[node][edge].0 as int)
            &&& adjacency[node][edge].0 != node
            &&& adjacency[node][edge].0 != source
        },
{
    let pair = adjacency[node][edge];
    let head = pair.0 as int;
    let next_cost = cost + pair.1;
    let after = relaxed(adjacency, dist, node, cost, edge);
    assert(head < adjacency.len());
    assert(next_cost < Weight::MAX);
    lemma_reaches_by_edge(adjacency, source, node, cost, edge);
    let witness = choose|walk: Seq<Step>| #[trigger]
        is_walk_to(adjacency, source, head, walk) && walk_weight(adjacency, walk) == next_cost;
    assert(is_walk_to(adjacency, source, head, witness));
    if settled.contains(head) {
        assert(dist[head] <= next_cost);
    }
    if next_cost < dist[head] {
        assert forall|u: int, k: int| settled.contains(u) && 0 <= k < adjacency[u].len() implies after[(
        #[trigger] adjacency[u][k]).0 as int] <= after[u] + adjacency[u][k].1 by {
            assert(dist[adjacency[u][k].0 as int] <= dist[u] + adjacency[u][k].1);
        }
        assert forall|k: int| 0 <= k < edge + 1 implies after[(#[trigger] adjacency[node][k]).0 as int] <= cost
            + adjacency[node][k].1 by {
            if k < edge {
                assert(dist[adjacency[node][k].0 as int] <= cost + adjacency[node][k].1);
            }
        }
        assert forall|v: int| 0 <= v < after.len() && #[trigger] after[v] < unlabelled() implies reaches(
            adjacency,
            source,
            v,
            after[v],
        ) by {
            if v != head {
                assert(dist[v] < unlabelled());
            }
        }
        assert forall|v: int| 0 <= v < after.len() implies 0 <= #[trigger] after[v] <= unlabelled() by {
            if v != head {
                assert(0 <= dist[v] <= unlabelled());
            }
        }
    } else {
        assert forall|k: int| 0 <= k < edge + 1 implies dist[(#[trigger] adjacency[node][k]).0 as int] <= cost
            + adjacency[node][k].1 by {}
    }
}

/// Once all its edges are relaxed, `node` is settled.
pub proof fn lemma_settle(
    adjacency: Adjacency,
    source: int,
    dist: Seq<int>,
    settled: Set<int>,
    node: int,
    cost: int,
)
    requires
        relaxing(adjacency, source, dist, settled, node, cost, adjacency[node].len() as int),
    ensures
        labels_sound(adjacency, source, dist, settled.insert(node)),
{
    let more = settled.insert(node);
    assert forall|u: int, k: int| more.contains(u) && 0 <= k < adjacency[u].len() implies dist[(
    #[trigger] adjacency[u][k]).0 as int] <= dist[u] + adjacency[u][k].1 by {
        if u != node {
            assert(settled.contains(u));
        }
    }
    assert forall|u: int| #[trigger] more.contains(u) implies 0 <= u < dist.len() && dist[u] < unlabelled()
        && is_shortest(adjacency, source, u, dist[u]) by {
        if u != node {
            assert(settled.contains(u));
        }
    }
}

/// Sum of the tentative distances.
pub open spec fn total(dist: Seq<int>) -> int
    decreases dist.len(),
{
    if dist.len() == 0 {
        0
    } else {
        total(dist.drop_last()) + dist.last()
    }
}

pub proof fn lemma_total_nonnegative(dist: Seq<int>)
    requires
        forall|v: int| 0 <= v < dist.len() ==> 0 <= #[trigger] dist[v],
    ensures
        total(dist) >= 0,
    decreases dist.len(),
{
    if dist.len() > 0 {
        lemma_total_nonnegative(dist.drop_last());
    }
}

/// Changing one tentative distance changes the sum by as much.
pub proof fn lemma_total_update(dist: Seq<int>, node: int, value: int)
    requires
        0 <= node < dist.len(),
    ensures
        total(dist.update(node, value)) == total(dist) - dist[node] + value,
    decreases dist.len(),
{
    let after = dist.update(node, value);
    if node == dist.len() - 1 {
        assert(after.drop_last() =~= dist.drop_last());
    } else {
        lemma_total_update(dist.drop_last(), node, value);
        assert(after.drop_last() =~= dist.drop_last().update(node, value));
    }
}

/// How a frontier that keeps every entry ever pushed relates to the labels:
/// an entry is the length of a walk to its node and not below the node's
/// tentative distance, and every labelled node that is not settled, but
/// for `except`, has an entry at its tentative distance. `holds(v, c)` says
/// whether the frontier holds the node `v` at cost `c`.
pub open spec fn lazy_frontier(
    adjacency: Adjacency,
    source: int,
    dist: Seq<int>,
    settled: Set<int>,
    except: int,
    holds: spec_fn(usize, Weight) -> bool,
) -> bool {
    &&& forall|v: usize, c: Weight| #[trigger]
        holds(v, c) ==> v < dist.len() && c < Weight::MAX && dist[v as int] <= c && reaches(
            adjacency,
            source,
            v as int,
            c as int,
        )
    &&& forall|v: int|
        0 <= v < dist.len() && v != except && !settled.contains(v) && #[trigger] dist[v] < unlabelled()
            ==> holds(v as usize, dist[v] as Weight)
}

/// The least cost of such a frontier bounds the tentative distances of the
/// labelled nodes that are not settled.
pub proof fn lemma_lazy_least(
    adjacency: Adjacency,
    source: int,
    dist: Seq<int>,
    settled: Set<int>,
    holds: spec_fn(usize, Weight) -> bool,
    cost: Weight,
)
    requires
        labels_sound(adjacency, source, dist, settled),
        lazy_frontier(adjacency, source, dist, settled, -1, holds),
        forall|v: usize, c: Weight| #[trigger] holds(v, c) ==> cost <= c,
    ensures
        frontier_at_least(dist, settled, cost as int),
{
    assert forall|v: int|
        0 <= v < dist.len() && !settled.contains(v) && #[trigger] dist[v] < unlabelled() implies cost
        <= dist[v] by {
        assert(holds(v as usize, dist[v] as Weight));
    }
}

} // verus!
