//! Walks in a graph, their lengths, and what the shortest distance between
//! two nodes is.
use crate::graph::adjacency::{heads_in_range, Adjacency};
use crate::Weight;
use vstd::prelude::*;

verus! {

/// One step of a walk: leaving `tail` by its `edge`-th edge.
pub struct Step {
    pub tail: int,
    pub edge: int,
}

pub open spec fn step_fits(adjacency: Adjacency, step: Step) -> bool {
    0 <= step.tail < adjacency.len() && 0 <= step.edge < adjacency[step.tail].len()
}

pub open spec fn step_head(adjacency: Adjacency, step: Step) -> int {
    adjacency[step.tail][step.edge].0 as int
}

pub open spec fn step_weight(adjacency: Adjacency, step: Step) -> int {
    adjacency[step.tail][step.edge].1 as int
}

/// The node at which `walk` ends when it starts at `source`.
pub open spec fn walk_end(adjacency: Adjacency, source: int, walk: Seq<Step>) -> int {
    if walk.len() == 0 {
        source
    } else {
        step_head(adjacency, walk.last())
    }
}

/// `walk` starts at `source` and each of its steps starts where the one
/// before it ended.
pub open spec fn is_walk(adjacency: Adjacency, source: int, walk: Seq<Step>) -> bool
    decreases walk.len(),
{
    if walk.len() == 0 {
        true
    } else {
        &&& is_walk(adjacency, source, walk.drop_last())
        &&& step_fits(adjacency, walk.last())
        &&& walk.last().tail == walk_end(adjacency, source, walk.drop_last())
    }
}

/// Sum of the weights of the edges of `walk`.
pub open spec fn walk_weight(adjacency: Adjacency, walk: Seq<Step>) -> int
    decreases walk.len(),
{
    if walk.len() == 0 {
        0
    } else {
        walk_weight(adjacency, walk.drop_last()) + step_weight(adjacency, walk.last())
    }
}

pub open spec fn is_walk_to(adjacency: Adjacency, source: int, sink: int, walk: Seq<Step>) -> bool {
    is_walk(adjacency, source, walk) && walk_end(adjacency, source, walk) == sink
}

/// Some walk from `source` to `sink` has weight `distance`.
pub open spec fn reaches(adjacency: Adjacency, source: int, sink: int, distance: int) -> bool {
    exists|walk: Seq<Step>| #[trigger]
        is_walk_to(adjacency, source, sink, walk) && walk_weight(adjacency, walk) == distance
}

/// Some walk leads from `source` to `sink`.
pub open spec fn reachable(adjacency: Adjacency, source: int, sink: int) -> bool {
    exists|walk: Seq<Step>| is_walk_to(adjacency, source, sink, walk)
}

/// `distance` is the weight of a walk from `source` to `sink`, and no walk
/// from `source` to `sink` weighs less.
pub open spec fn is_shortest(adjacency: Adjacency, source: int, sink: int, distance: int) -> bool {
    &&& reaches(adjacency, source, sink, distance)
    &&& forall|walk: Seq<Step>| #[trigger]
        is_walk_to(adjacency, source, sink, walk) ==> distance <= walk_weight(adjacency, walk)
}

/// The shortest distance from `source` to `sink`, `None` where no walk leads
/// from the one to the other.
pub open spec fn shortest_distance(adjacency: Adjacency, source: int, sink: int) -> Option<int> {
    if exists|distance: int| is_shortest(adjacency, source, sink, distance) {
        Some(choose|distance: int| is_shortest(adjacency, source, sink, distance))
    } else {
        None
    }
}

/// `answer` is what a query from `source` to `sink` has to return.
pub open spec fn is_answer(adjacency: Adjacency, source: usize, sink: usize, answer: Option<Weight>) -> bool {
    match answer {
        Some(distance) => is_shortest(adjacency, source as int, sink as int, distance as int),
        None => !reachable(adjacency, source as int, sink as int),
    }
}

/// Adding the weight of an edge to the shortest distance of its tail stays
/// below the largest weight, for every node that `source` reaches. The
/// largest weight itself stands for "no distance yet".
pub open spec fn relaxations_fit(adjacency: Adjacency, source: int) -> bool {
    forall|u: int, k: int, distance: int|
        0 <= u < adjacency.len() && 0 <= k < adjacency[u].len() && #[trigger] is_shortest(
            adjacency,
            source,
            u,
            distance,
        ) ==> distance + (#[trigger] adjacency[u][k]).1 < Weight::MAX
}

/// A query that the algorithms answer: both nodes exist, every edge leads
/// to a node, and no distance that is computed on the way overflows.
pub open spec fn valid_query(adjacency: Adjacency, source: usize, sink: usize) -> bool {
    &&& source < adjacency.len()
    &&& sink < adjacency.len()
    &&& heads_in_range(adjacency)
    &&& relaxations_fit(adjacency, source as int)
}

pub proof fn lemma_walk_weight_nonnegative(adjacency: Adjacency, walk: Seq<Step>)
    ensures
        walk_weight(adjacency, walk) >= 0,
    decreases walk.len(),
{
    if walk.len() > 0 {
        lemma_walk_weight_nonnegative(adjacency, walk.drop_last());
    }
}

/// The empty walk leads from a node to itself.
pub proof fn lemma_reaches_itself(adjacency: Adjacency, source: int)
    ensures
        reaches(adjacency, source, source, 0),
        reachable(adjacency, source, source),
{
    let walk = Seq::<Step>::empty();
    assert(is_walk_to(adjacency, source, source, walk));
    assert(walk_weight(adjacency, walk) == 0);
}

/// A walk that is prolonged by an edge leaving its end is a walk to the
/// head of that edge.
pub proof fn lemma_walk_push(adjacency: Adjacency, source: int, walk: Seq<Step>, edge: int)
    requires
        is_walk(adjacency, source, walk),
        step_fits(adjacency, Step { tail: walk_end(adjacency, source, walk), edge }),
    ensures
        ({
            let step = Step { tail: walk_end(adjacency, source, walk), edge };
            &&& is_walk_to(adjacency, source, step_head(adjacency, step), walk.push(step))
            &&& walk_weight(adjacency, walk.push(step)) == walk_weight(adjacency, walk) + step_weight(
                adjacency,
                step,
            )
        }),
{
    let step = Step { tail: walk_end(adjacency, source, walk), edge };
    let longer = walk.push(step);
    assert(longer.drop_last() =~= walk);
    assert(longer.last() == step);
}

pub proof fn lemma_reaches_by_edge(adjacency: Adjacency, source: int, tail: int, distance: int, edge: int)
    requires
        reaches(adjacency, source, tail, distance),
        step_fits(adjacency, Step { tail, edge }),
    ensures
        reaches(
            adjacency,
            source,
            adjacency[tail][edge].0 as int,
            distance + adjacency[tail][edge].1,
        ),
{
    let walk = choose|walk: Seq<Step>| #[trigger]
        is_walk_to(adjacency, source, tail, walk) && walk_weight(adjacency, walk) == distance;
    lemma_walk_push(adjacency, source, walk, edge);
    let step = Step { tail, edge };
    assert(is_walk_to(adjacency, source, step_head(adjacency, step), walk.push(step)));
}

pub proof fn lemma_reaches_is_reachable(adjacency: Adjacency, source: int, sink: int, distance: int)
    requires
        reaches(adjacency, source, sink, distance),
    ensures
        reachable(adjacency, source, sink),
        distance >= 0,
{
    let walk = choose|walk: Seq<Step>| #[trigger]
        is_walk_to(adjacency, source, sink, walk) && walk_weight(adjacency, walk) == distance;
    assert(is_walk_to(adjacency, source, sink, walk));
    lemma_walk_weight_nonnegative(adjacency, walk);
}

/// Two nodes have at most one shortest distance.
pub proof fn lemma_shortest_is_unique(adjacency: Adjacency, source: int, sink: int, first: int, second: int)
    requires
        is_shortest(adjacency, source, sink, first),
        is_shortest(adjacency, source, sink, second),
    ensures
        first == second,
{
    let a = choose|walk: Seq<Step>| #[trigger]
        is_walk_to(adjacency, source, sink, walk) && walk_weight(adjacency, walk) == first;
    let b = choose|walk: Seq<Step>| #[trigger]
        is_walk_to(adjacency, source, sink, walk) && walk_weight(adjacency, walk) == second;
    assert(is_walk_to(adjacency, source, sink, a));
    assert(is_walk_to(adjacency, source, sink, b));
}

/// A query has one answer: whatever computes an answer computes the same.
pub proof fn lemma_answer_is_unique(
    adjacency: Adjacency,
    source: usize,
    sink: usize,
    first: Option<Weight>,
    second: Option<Weight>,
)
    requires
        is_answer(adjacency, source, sink, first),
        is_answer(adjacency, source, sink, second),
    ensures
        first == second,
{
    match (first, second) {
        (Some(a), Some(b)) => {
            lemma_shortest_is_unique(adjacency, source as int, sink as int, a as int, b as int);
        },
        (Some(a), None) => {
            lemma_reaches_is_reachable(adjacency, source as int, sink as int, a as int);
        },
        (None, Some(b)) => {
            lemma_reaches_is_reachable(adjacency, source as int, sink as int, b as int);
        },
        (None, None) => {},
    }
}

/// An answer is the shortest distance of the two nodes.
pub proof fn lemma_answer_is_shortest_distance(
    adjacency: Adjacency,
    source: usize,
    sink: usize,
    answer: Option<Weight>,
)
    requires
        is_answer(adjacency, source, sink, answer),
    ensures
        shortest_distance(adjacency, source as int, sink as int) == match answer {
            Some(distance) => Some(distance as int),
            None => None,
        },
{
    match answer {
        Some(distance) => {
            let chosen = choose|d: int| is_shortest(adjacency, source as int, sink as int, d);
            lemma_shortest_is_unique(adjacency, source as int, sink as int, distance as int, chosen);
        },
        None => {
            if exists|d: int| is_shortest(adjacency, source as int, sink as int, d) {
                let d = choose|d: int| is_shortest(adjacency, source as int, sink as int, d);
                lemma_reaches_is_reachable(adjacency, source as int, sink as int, d);
            }
        },
    }
}

} // verus!
