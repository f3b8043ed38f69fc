//! Dijkstra's algorithm on the priority queue of the `priority_queue`
//! crate, a heap paired with an index map. That queue hands out the entry
//! of greatest priority, so a node is kept at the reverse of its cost.
use crate::algorithm::measure::run_measure::Measure;
use crate::algorithm::orx_pqdeckey_dijkstra::{lowered, no_keys, run_with_queue, DecKeyQueue};
use crate::algorithm::sd_algorithm::ShortestDistanceAlgorithm;
use crate::algorithm::solution::Solution;
use crate::experimentation::factors::algorithm::dary::Dary;
use crate::graph::sp_graph::SpGraph;
use crate::graph::walks::{is_answer, valid_query};
use crate::Weight;
use priority_queue::PriorityQueue;
use std::cmp::Reverse;
use vstd::prelude::*;

verus! {

/// A `PriorityQueue` of nodes, each at the reverse of its cost.
#[verifier::external_body]
pub struct ReverseCostQueue {
    queue: PriorityQueue<usize, Reverse<Weight>>,
}

/// The nodes that the queue holds, each with its cost.
pub uninterp spec fn cost_queue_keys(queue: ReverseCostQueue) -> Map<usize, Weight>;

/// `PriorityQueue::with_capacity`: a queue without nodes. The capacity is
/// a hint.
#[verifier::external_body]
fn cost_queue_with_capacity(capacity: usize) -> (queue: ReverseCostQueue)
    ensures
        cost_queue_keys(queue) == no_keys(),
{
    ReverseCostQueue { queue: PriorityQueue::with_capacity(capacity) }
}

/// `PriorityQueue::clear`: no node is left.
#[verifier::external_body]
fn cost_queue_clear(queue: &mut ReverseCostQueue)
    ensures
        cost_queue_keys(*final(queue)) == no_keys(),
{
    queue.queue.clear()
}

/// `PriorityQueue::push`: the queue holds `node` at `cost`, whether or
/// not it held `node` before.
#[verifier::external_body]
fn cost_queue_push(queue: &mut ReverseCostQueue, node: usize, cost: Weight)
    ensures
        cost_queue_keys(*final(queue)) == cost_queue_keys(*old(queue)).insert(node, cost),
{
    queue.queue.push(node, Reverse(cost));
}

/// `PriorityQueue::pop`: takes out a node of greatest priority, which is
/// one of least cost; `None` from a queue without nodes.
#[verifier::external_body]
fn cost_queue_pop(queue: &mut ReverseCostQueue) -> (popped: Option<(usize, Weight)>)
    ensures
        match popped {
            Some(entry) => {
                &&& cost_queue_keys(*old(queue)).contains_pair(entry.0, entry.1)
                &&& cost_queue_keys(*final(queue)) == cost_queue_keys(*old(queue)).remove(entry.0)
                &&& forall|other: usize| #[trigger]
                    cost_queue_keys(*old(queue)).contains_key(other)
                        ==> entry.1 <= cost_queue_keys(*old(queue))[other]
            },
            None => {
                &&& forall|other: usize| !#[trigger] cost_queue_keys(*old(queue)).contains_key(other)
                &&& cost_queue_keys(*final(queue)) == cost_queue_keys(*old(queue))
            },
        },
{
    queue.queue.pop().map(|(node, cost)| (node, cost.0))
}

/// `PriorityQueue::push_increase`: a node that the queue holds at a lower
/// priority, which is a greater cost, gets `cost`; a node that it does not
/// hold is pushed at `cost`.
#[verifier::external_body]
fn cost_queue_push_increase(queue: &mut ReverseCostQueue, node: usize, cost: Weight)
    ensures
        cost_queue_keys(*final(queue)) == lowered(cost_queue_keys(*old(queue)), node, cost),
{
    queue.queue.push_increase(node, Reverse(cost));
}

/// `PriorityQueue::len`: the number of nodes.
#[verifier::external_body]
fn cost_queue_len(queue: &ReverseCostQueue) -> (len: usize)
    ensures
        len == cost_queue_keys(*queue).dom().len(),
{
    queue.queue.len()
}

/// `PriorityQueue::capacity`: the number of nodes that the queue has room
/// for. Nothing is claimed of it.
#[verifier::external_body]
fn cost_queue_capacity(queue: &ReverseCostQueue) -> (capacity: usize) {
    queue.queue.capacity()
}

impl DecKeyQueue for ReverseCostQueue {
    open spec fn keys(&self) -> Map<usize, Weight> {
        cost_queue_keys(*self)
    }

    open spec fn primed(&self) -> bool {
        true
    }

    open spec fn room(&self) -> nat {
        (usize::MAX + 1) as nat
    }

    /// The queue has no arity; `nodes` is its first capacity.
    fn for_nodes(_dary: Dary, nodes: usize) -> (queue: Self) {
        let queue = cost_queue_with_capacity(nodes);
        assert(queue.keys() == no_keys() && queue.room() >= nodes && queue.primed());
        queue
    }

    fn clear(&mut self) {
        cost_queue_clear(self)
    }

    fn push(&mut self, node: usize, key: Weight) {
        cost_queue_push(self, node, key)
    }

    fn pop(&mut self) -> (popped: Option<(usize, Weight)>) {
        cost_queue_pop(self)
    }

    fn try_decrease_key_or_push(&mut self, node: &usize, key: Weight) {
        cost_queue_push_increase(self, *node, key)
    }

    fn len(&self) -> (len: usize) {
        cost_queue_len(self)
    }

    fn capacity(&self) -> (capacity: usize) {
        cost_queue_capacity(self)
    }
}

pub struct PriorityQueuePqDecKeyDijkstra {
    queue: ReverseCostQueue,
    visited: Vec<bool>,
}

impl PriorityQueuePqDecKeyDijkstra {
    /// The queue of the algorithm.
    pub closed spec fn queue(&self) -> ReverseCostQueue {
        self.queue
    }

    /// The marks of the visited nodes that the algorithm keeps from query
    /// to query.
    pub closed spec fn scratch(&self) -> Seq<bool> {
        self.visited@
    }

    /// The algorithm on the given queue, without marks yet.
    pub fn new(queue: ReverseCostQueue) -> (algorithm: Self)
        ensures
            algorithm.queue() == queue,
            algorithm.scratch().len() == 0,
    {
        Self { queue, visited: Vec::new() }
    }

    pub fn run_cached_core<G: SpGraph, M: Measure>(
        &mut self,
        graph: &G,
        source: usize,
        sink: usize,
    ) -> (solution: Solution<M>)
        requires
            valid_query(graph.adjacency(), source, sink),
        ensures
            is_answer(graph.adjacency(), source, sink, solution.shortest_distance),
            solution.is_closed(graph.adjacency(), source, sink),
    {
        let _ = graph.num_nodes();
        assert(self.queue.room() >= graph.adjacency().len());
        run_with_queue(&mut self.queue, &mut self.visited, graph, source, sink)
    }
}

// impl
impl<G: SpGraph> ShortestDistanceAlgorithm<G> for PriorityQueuePqDecKeyDijkstra {
    open spec fn available() -> bool {
        true
    }

    /// The queue holds no node, and no marks are kept.
    open spec fn is_fresh(&self) -> bool {
        &&& cost_queue_keys(self.queue()) == no_keys()
        &&& self.scratch().len() == 0
    }

    open spec fn serves(&self, nodes: nat) -> bool {
        true
    }

    fn new(graph: &G) -> (algorithm: Self) {
        let algorithm = Self::new(ReverseCostQueue::for_nodes(Dary::Binary, graph.num_nodes()));
        assert(<Self as ShortestDistanceAlgorithm<G>>::is_fresh(&algorithm));
        assert(<Self as ShortestDistanceAlgorithm<G>>::serves(&algorithm, graph.adjacency().len()));
        algorithm
    }

    fn run_cached<M: Measure>(&mut self, graph: &G, source: usize, sink: usize) -> (solution: Solution<M>) {
        self.run_cached_core(graph, source, sink)
    }
}

} // verus!
