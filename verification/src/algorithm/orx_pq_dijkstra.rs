//! Dijkstra's algorithm on a d-ary heap without decrease-key: a node is
//! pushed again whenever its distance improves, and entries that have been
//! overtaken are skipped when they come out.
use crate::algorithm::labels::{
    initial_labels, labels_sound, lazy_frontier, lemma_frontier_empty,
    lemma_frontier_least_is_shortest, lemma_initial_labels_sound, lemma_lazy_least,
    lemma_relax_edge, lemma_settle, lemma_total_nonnegative, lemma_total_update, relaxed, relaxing,
    total, unlabelled,
};
use crate::algorithm::measure::run_measure::Measure;
use crate::algorithm::scratch::{labels, reset};
use crate::algorithm::sd_algorithm::ShortestDistanceAlgorithm;
use crate::algorithm::solution::Solution;
use crate::experimentation::factors::algorithm::dary::{is_arity, Dary};
use crate::graph::out_edges::{OutEdgeData, OutEdges};
use crate::graph::sp_graph::SpGraph;
use crate::graph::walks::{is_answer, lemma_reaches_itself, reaches, valid_query};
use crate::Weight;
use orx_priority_queue::{DaryHeap, PriorityQueue};
use vstd::multiset::Multiset;
use vstd::pervasive::unreached;
use vstd::prelude::*;

verus! {

#[verifier::external_type_specification]
#[verifier::external_body]
#[verifier::reject_recursive_types(N)]
#[verifier::reject_recursive_types(K)]
pub struct ExDaryHeap<N: Clone, K: PartialOrd + Clone, const D: usize>(DaryHeap<N, K, D>);

/// A d-ary heap of nodes keyed by cost, of one of the arities that are the
/// levels of `Dary`.
pub enum OrxDaryHeap {
    Binary(DaryHeap<usize, Weight, 2>),
    Quaternary(DaryHeap<usize, Weight, 4>),
    Octonary(DaryHeap<usize, Weight, 8>),
    D16(DaryHeap<usize, Weight, 16>),
    D32(DaryHeap<usize, Weight, 32>),
    D64(DaryHeap<usize, Weight, 64>),
}

/// The number of children of a node of the heap.
pub open spec fn heap_arity(heap: OrxDaryHeap) -> Dary {
    match heap {
        OrxDaryHeap::Binary(_) => Dary::Binary,
        OrxDaryHeap::Quaternary(_) => Dary::Quaternary,
        OrxDaryHeap::Octonary(_) => Dary::Octonary,
        OrxDaryHeap::D16(_) => Dary::D16,
        OrxDaryHeap::D32(_) => Dary::D32,
        OrxDaryHeap::D64(_) => Dary::D64,
    }
}

/// The pairs of node and key that the heap holds.
pub uninterp spec fn dary_heap_items(heap: OrxDaryHeap) -> Multiset<(usize, Weight)>;

/// Whether the heap has held an entry since it was made. Only then can
/// its capacity be asked.
pub uninterp spec fn dary_heap_primed(heap: OrxDaryHeap) -> bool;

/// `DaryHeap::default` at the arity of `dary`: a heap of that arity
/// without entries.
#[verifier::external_body]
fn dary_heap_new(dary: Dary) -> (heap: OrxDaryHeap)
    ensures
        dary_heap_items(heap) == Multiset::<(usize, Weight)>::empty(),
        heap_arity(heap) == dary,
{
    match dary {
        Dary::Binary => OrxDaryHeap::Binary(DaryHeap::default()),
        Dary::Quaternary => OrxDaryHeap::Quaternary(DaryHeap::default()),
        Dary::Octonary => OrxDaryHeap::Octonary(DaryHeap::default()),
        Dary::D16 => OrxDaryHeap::D16(DaryHeap::default()),
        Dary::D32 => OrxDaryHeap::D32(DaryHeap::default()),
        Dary::D64 => OrxDaryHeap::D64(DaryHeap::default()),
    }
}

/// `PriorityQueue::clear` of `DaryHeap`: no entry is left.
#[verifier::external_body]
fn dary_heap_clear(heap: &mut OrxDaryHeap)
    ensures
        dary_heap_items(*final(heap)) == Multiset::<(usize, Weight)>::empty(),
        dary_heap_primed(*final(heap)) == dary_heap_primed(*old(heap)),
{
    match heap {
        OrxDaryHeap::Binary(h) => h.clear(),
        OrxDaryHeap::Quaternary(h) => h.clear(),
        OrxDaryHeap::Octonary(h) => h.clear(),
        OrxDaryHeap::D16(h) => h.clear(),
        OrxDaryHeap::D32(h) => h.clear(),
        OrxDaryHeap::D64(h) => h.clear(),
    }
}

/// `PriorityQueue::push` of `DaryHeap`: the heap holds one more entry, the
/// pair of `node` and `key`, whether or not it held `node` before.
#[verifier::external_body]
fn dary_heap_push(heap: &mut OrxDaryHeap, node: usize, key: Weight)
    ensures
        dary_heap_items(*final(heap)) == dary_heap_items(*old(heap)).insert((node, key)),
        dary_heap_primed(*final(heap)),
{
    match heap {
        OrxDaryHeap::Binary(h) => h.push(node, key),
        OrxDaryHeap::Quaternary(h) => h.push(node, key),
        OrxDaryHeap::Octonary(h) => h.push(node, key),
        OrxDaryHeap::D16(h) => h.push(node, key),
        OrxDaryHeap::D32(h) => h.push(node, key),
        OrxDaryHeap::D64(h) => h.push(node, key),
    }
}

/// `PriorityQueue::pop` of `DaryHeap`: takes out an entry whose key is the
/// least in the heap; `None` from a heap without entries.
#[verifier::external_body]
fn dary_heap_pop(heap: &mut OrxDaryHeap) -> (popped: Option<(usize, Weight)>)
    ensures
        dary_heap_primed(*final(heap)) == dary_heap_primed(*old(heap)),
        match popped {
            Some(entry) => {
                &&& dary_heap_items(*old(heap)).count(entry) > 0
                &&& dary_heap_items(*final(heap)) == dary_heap_items(*old(heap)).remove(entry)
                &&& forall|other: (usize, Weight)|
                    dary_heap_items(*old(heap)).count(other) > 0 ==> entry.1 <= other.1
            },
            None => dary_heap_items(*old(heap)).len() == 0 && dary_heap_items(*final(heap)) == dary_heap_items(
                *old(heap),
            ),
        },
{
    match heap {
        OrxDaryHeap::Binary(h) => h.pop(),
        OrxDaryHeap::Quaternary(h) => h.pop(),
        OrxDaryHeap::Octonary(h) => h.pop(),
        OrxDaryHeap::D16(h) => h.pop(),
        OrxDaryHeap::D32(h) => h.pop(),
        OrxDaryHeap::D64(h) => h.pop(),
    }
}

/// `PriorityQueue::len` of `DaryHeap`: the number of entries.
#[verifier::external_body]
fn dary_heap_len(heap: &OrxDaryHeap) -> (len: usize)
    ensures
        len == dary_heap_items(*heap).len(),
{
    match heap {
        OrxDaryHeap::Binary(h) => h.len(),
        OrxDaryHeap::Quaternary(h) => h.len(),
        OrxDaryHeap::Octonary(h) => h.len(),
        OrxDaryHeap::D16(h) => h.len(),
        OrxDaryHeap::D32(h) => h.len(),
        OrxDaryHeap::D64(h) => h.len(),
    }
}

/// `PriorityQueue::capacity` of `DaryHeap`: the number of entries that the
/// heap has room for. It is the capacity of the vector of the heap less
/// its padding, as the length of the heap is the length of that vector less
/// its padding, so that it is not below the number of entries.
#[verifier::external_body]
fn dary_heap_capacity(heap: &OrxDaryHeap) -> (capacity: usize)
    requires
        dary_heap_primed(*heap),
    ensures
        capacity >= dary_heap_items(*heap).len(),
{
    match heap {
        OrxDaryHeap::Binary(h) => h.capacity(),
        OrxDaryHeap::Quaternary(h) => h.capacity(),
        OrxDaryHeap::Octonary(h) => h.capacity(),
        OrxDaryHeap::D16(h) => h.capacity(),
        OrxDaryHeap::D32(h) => h.capacity(),
        OrxDaryHeap::D64(h) => h.capacity(),
    }
}

/// Whether the pair of the node `v` and the cost `c` is among the items.
pub open spec fn queue_holds(items: Multiset<(usize, Weight)>) -> spec_fn(usize, Weight) -> bool {
    |v: usize, c: Weight| items.count((v, c)) > 0
}

/// Whether the heap holds the node `v` at cost `c`.
pub open spec fn holds(heap: OrxDaryHeap) -> spec_fn(usize, Weight) -> bool {
    queue_holds(dary_heap_items(heap))
}

/// Dijkstra's algorithm on a heap with `D` children per node.
pub struct OrxPqDijkstra<const D: usize> {
    queue: OrxDaryHeap,
    distances: Vec<Weight>,
}

impl<const D: usize> OrxPqDijkstra<D> {
    /// The heap of the algorithm.
    pub closed spec fn queue(&self) -> OrxDaryHeap {
        self.queue
    }

    /// The distances that the algorithm keeps from query to query.
    pub closed spec fn scratch(&self) -> Seq<Weight> {
        self.distances@
    }

    /// The algorithm on the given heap, without distances yet.
    fn new(queue: OrxDaryHeap) -> (algorithm: Self)
        ensures
            algorithm.queue() == queue,
            algorithm.scratch().len() == 0,
    {
        Self { queue, distances: Vec::new() }
    }

    fn run_cached_core<G: SpGraph, M: Measure>(
        &mut self,
        graph: &G,
        source: usize,
        sink: usize,
    ) -> (solution: Solution<M>)
        requires
            valid_query(graph.adjacency(), source, sink),
        ensures
            is_answer(graph.adjacency(), source, sink, solution.shortest_distance),
            solution.is_closed(graph.adjacency(), source, sink),
    {
        // reset
        let mut solution = Solution::new(graph, source, sink);
        let n = graph.num_nodes();
        reset(&mut self.distances, n, Weight::MAX);
        dary_heap_clear(&mut self.queue);

        // init
        self.distances.set(source, 0);
        dary_heap_push(&mut self.queue, source, 0);

        let ghost adjacency = graph.adjacency();
        let ghost mut settled: Set<int> = Set::empty();
        proof {
            lemma_initial_labels_sound(adjacency, source as int);
            lemma_reaches_itself(adjacency, source as int);
            assert(labels(self.distances@, n as nat) =~= initial_labels(n as nat, source as int));
            lemma_total_nonnegative(labels(self.distances@, n as nat));
        }

        // iterate
        loop
            invariant
                adjacency == graph.adjacency(),
                n == adjacency.len(),
                valid_query(adjacency, source, sink),
                self.distances@.len() >= n,
                labels_sound(adjacency, source as int, labels(self.distances@, n as nat), settled),
                lazy_frontier(
                    adjacency,
                    source as int,
                    labels(self.distances@, n as nat),
                    settled,
                    -1,
                    holds(self.queue),
                ),
                !settled.contains(sink as int),
                dary_heap_primed(self.queue),
                solution.is_open(adjacency, source, sink),
                total(labels(self.distances@, n as nat)) >= 0,
            decreases dary_heap_items(self.queue).len() + 2 * total(labels(self.distances@, n as nat)),
        {
            let ghost dist = labels(self.distances@, n as nat);
            let ghost items = dary_heap_items(self.queue);
            let (position, cost) = match dary_heap_pop(&mut self.queue) {
                Some(entry) => entry,
                None => {
                    proof {
                        assert forall|v: int| 0 <= v < dist.len() && !settled.contains(v) implies #[trigger] dist[v]
                            == unlabelled() by {
                            if dist[v] < unlabelled() {
                                assert(queue_holds(items)(v as usize, dist[v] as Weight));
                            }
                        }
                        lemma_frontier_empty(adjacency, source as int, dist, settled, sink as int);
                    }
                    return solution.not_connected();
                },
            };
            proof {
                assert(queue_holds(items)(position, cost));
                assert forall|v: usize, c: Weight| #[trigger] queue_holds(items)(v, c) implies cost <= c by {
                    assert(items.count((v, c)) > 0);
                }
                lemma_lazy_least(adjacency, source as int, dist, settled, queue_holds(items), cost);
            }
            if position == sink {
                proof {
                    lemma_frontier_least_is_shortest(
                        adjacency,
                        source as int,
                        dist,
                        settled,
                        sink as int,
                        cost as int,
                    );
                }
                return solution.reached(cost);
            }
            if cost > self.distances[position] {
                proof {
                    assert forall|v: usize, c: Weight| #[trigger] holds(self.queue)(v, c) implies queue_holds(
                        items,
                    )(v, c) by {}
                    assert forall|v: int|
                        0 <= v < dist.len() && !settled.contains(v) && #[trigger] dist[v]
                            < unlabelled() implies holds(self.queue)(v as usize, dist[v] as Weight) by {
                        assert(queue_holds(items)(v as usize, dist[v] as Weight));
                    }
                }
                continue ;
            }
            proof {
                if !settled.contains(position as int) {
                    lemma_frontier_least_is_shortest(
                        adjacency,
                        source as int,
                        dist,
                        settled,
                        position as int,
                        cost as int,
                    );
                }
                assert forall|v: usize, c: Weight| #[trigger] holds(self.queue)(v, c) implies queue_holds(
                    items,
                )(v, c) by {}
                assert forall|v: int|
                    0 <= v < dist.len() && v != position && !settled.contains(v) && #[trigger] dist[v]
                        < unlabelled() implies holds(self.queue)(v as usize, dist[v] as Weight) by {
                    assert(queue_holds(items)(v as usize, dist[v] as Weight));
                }
            }

            let mut out_edges = graph.out_edges(position);
            let ghost mut done: int = 0;
            loop
                invariant
                    adjacency == graph.adjacency(),
                    n == adjacency.len(),
                    valid_query(adjacency, source, sink),
                    self.distances@.len() >= n,
                    position < n,
                    position != sink,
                    0 <= done <= adjacency[position as int].len(),
                    out_edges.remaining() == adjacency[position as int].subrange(
                        done,
                        adjacency[position as int].len() as int,
                    ),
                    relaxing(
                        adjacency,
                        source as int,
                        labels(self.distances@, n as nat),
                        settled,
                        position as int,
                        cost as int,
                        done,
                    ),
                    lazy_frontier(
                        adjacency,
                        source as int,
                        labels(self.distances@, n as nat),
                        settled,
                        position as int,
                        holds(self.queue),
                    ),
                    !settled.contains(sink as int),
                    dary_heap_primed(self.queue),
                    total(labels(self.distances@, n as nat)) >= 0,
                    dary_heap_items(self.queue).len() + 2 * total(labels(self.distances@, n as nat))
                        < items.len() + 2 * total(dist),
                ensures
                    done == adjacency[position as int].len(),
                    dary_heap_primed(self.queue),
                    self.distances@.len() >= n,
                    relaxing(
                        adjacency,
                        source as int,
                        labels(self.distances@, n as nat),
                        settled,
                        position as int,
                        cost as int,
                        done,
                    ),
                    lazy_frontier(
                        adjacency,
                        source as int,
                        labels(self.distances@, n as nat),
                        settled,
                        position as int,
                        holds(self.queue),
                    ),
                    total(labels(self.distances@, n as nat)) >= 0,
                    dary_heap_items(self.queue).len() + 2 * total(labels(self.distances@, n as nat))
                        < items.len() + 2 * total(dist),
                decreases out_edges.remaining().len(),
            {
                let edge = match out_edges.next_edge() {
                    Some(edge) => edge,
                    None => {
                        break ;
                    },
                };
                let (head, weight) = (edge.head(), edge.weight());
                let ghost now = labels(self.distances@, n as nat);
                let ghost held = dary_heap_items(self.queue);
                proof {
                    assert((head, weight) == adjacency[position as int][done]);
                    lemma_relax_edge(adjacency, source as int, now, settled, position as int, cost as int, done);
                }
                let next_cost = cost + weight;
                if next_cost < self.distances[head] {
                    dary_heap_push(&mut self.queue, head, next_cost);
                    self.distances.set(head, next_cost);
                    proof {
                        let after = labels(self.distances@, n as nat);
                        assert(after =~= relaxed(adjacency, now, position as int, cost as int, done));
                        lemma_total_update(now, head as int, next_cost as int);
                        lemma_total_nonnegative(after);
                        assert forall|v: usize, c: Weight| #[trigger] holds(self.queue)(v, c) implies v
                            < after.len() && c < Weight::MAX && after[v as int] <= c && reaches(
                            adjacency,
                            source as int,
                            v as int,
                            c as int,
                        ) by {
                            if (v, c) != (head, next_cost) {
                                assert(queue_holds(held)(v, c));
                            }
                        }
                        assert forall|v: int|
                            0 <= v < after.len() && v != position && !settled.contains(v) && #[trigger] after[v]
                                < unlabelled() implies holds(self.queue)(v as usize, after[v] as Weight) by {
                            if v != head {
                                assert(now[v] < unlabelled());
                                assert(queue_holds(held)(v as usize, now[v] as Weight));
                            }
                        }
                    }
                } else {
                    proof {
                        assert(labels(self.distances@, n as nat) =~= relaxed(
                            adjacency,
                            now,
                            position as int,
                            cost as int,
                            done,
                        ));
                    }
                }
                proof {
                    assert(out_edges.remaining() =~= adjacency[position as int].subrange(
                        done + 1,
                        adjacency[position as int].len() as int,
                    ));
                    done = done + 1;
                }
            }

            solution.iterate(dary_heap_len(&self.queue), dary_heap_capacity(&self.queue));
            proof {
                let after = labels(self.distances@, n as nat);
                lemma_settle(adjacency, source as int, after, settled, position as int, cost as int);
                settled = settled.insert(position as int);
            }
        }
    }
}

// impl
impl<G: SpGraph, const D: usize> ShortestDistanceAlgorithm<G> for OrxPqDijkstra<D> {
    open spec fn available() -> bool {
        is_arity(D)
    }

    /// The heap has `D` children per node and holds no entry, and no
    /// distances are kept.
    open spec fn is_fresh(&self) -> bool {
        &&& heap_arity(self.queue()).arity() == D
        &&& dary_heap_items(self.queue()) == Multiset::<(usize, Weight)>::empty()
        &&& self.scratch().len() == 0
    }

    open spec fn serves(&self, nodes: nat) -> bool {
        true
    }

    fn new(graph: &G) -> (algorithm: Self) {
        let algorithm = match Dary::with_d(D) {
            Some(dary) => Self::new(dary_heap_new(dary)),
            None => unreached(),
        };
        assert(<Self as ShortestDistanceAlgorithm<G>>::is_fresh(&algorithm));
        assert(<Self as ShortestDistanceAlgorithm<G>>::serves(&algorithm, graph.adjacency().len()));
        algorithm
    }

    fn run_cached<M: Measure>(&mut self, graph: &G, source: usize, sink: usize) -> (solution: Solution<M>) {
        self.run_cached_core(graph, source, sink)
    }
}

} // verus!
