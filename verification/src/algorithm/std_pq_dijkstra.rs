//! Dijkstra's algorithm on a binary heap without decrease-key: a node is
//! pushed again whenever its distance improves, and entries that have been
//! overtaken are skipped when they come out.
use crate::algorithm::labels::{
    initial_labels, labels_sound, lazy_frontier, lemma_frontier_empty,
    lemma_frontier_least_is_shortest, lemma_initial_labels_sound, lemma_lazy_least,
    lemma_relax_edge, lemma_settle, lemma_total_nonnegative, lemma_total_update, relaxed, relaxing,
    total, unlabelled,
};
use crate::algorithm::measure::run_measure::Measure;
use crate::algorithm::scratch::{labels, reset};
use crate::algorithm::sd_algorithm::ShortestDistanceAlgorithm;
use crate::algorithm::solution::Solution;
pub use crate::algorithm::state_heap::State;
use crate::algorithm::state_heap::{precedes, StateHeap};
use crate::graph::out_edges::{OutEdgeData, OutEdges};
use crate::graph::sp_graph::SpGraph;
use crate::graph::walks::{lemma_reaches_itself, reaches, valid_query};
use crate::Weight;
use vstd::multiset::Multiset;
use vstd::prelude::*;

verus! {

pub struct StdPqDijkstra {
    heap: StateHeap,
    distances: Vec<Weight>,
}

/// Whether the heap holds the node `v` at cost `c`.
pub open spec fn heap_holds(items: Multiset<State>) -> spec_fn(usize, Weight) -> bool {
    |v: usize, c: Weight| items.count(State { cost: c, position: v }) > 0
}

impl StdPqDijkstra {
    /// The states in the heap of the algorithm.
    pub closed spec fn frontier(&self) -> Multiset<State> {
        self.heap@
    }

    /// The distances that the algorithm keeps from query to query.
    pub closed spec fn scratch(&self) -> Seq<Weight> {
        self.distances@
    }
}

impl Default for StdPqDijkstra {
    /// The algorithm with a heap that holds no state and without distances
    /// yet.
    fn default() -> (algorithm: Self)
        ensures
            algorithm.frontier() == Multiset::<State>::empty(),
            algorithm.scratch().len() == 0,
    {
        Self { heap: StateHeap::new(), distances: Vec::new() }
    }
}

impl<G: SpGraph> ShortestDistanceAlgorithm<G> for StdPqDijkstra {
    open spec fn available() -> bool {
        true
    }

    /// The heap holds no state, and no distances are kept.
    open spec fn is_fresh(&self) -> bool {
        &&& self.frontier() == Multiset::<State>::empty()
        &&& self.scratch().len() == 0
    }

    open spec fn serves(&self, nodes: nat) -> bool {
        true
    }

    fn new(graph: &G) -> (algorithm: Self) {
        let algorithm = Self::default();
        assert(<Self as ShortestDistanceAlgorithm<G>>::is_fresh(&algorithm));
        assert(<Self as ShortestDistanceAlgorithm<G>>::serves(&algorithm, graph.adjacency().len()));
        algorithm
    }

    fn run_cached<M: Measure>(&mut self, graph: &G, source: usize, sink: usize) -> (solution: Solution<M>) {
        // reset
        let mut solution = Solution::new(graph, source, sink);
        let n = graph.num_nodes();
        reset(&mut self.distances, n, Weight::MAX);
        self.heap.clear();

        // init
        self.distances.set(source, 0);
        self.heap.push(State { cost: 0, position: source });

        let ghost adjacency = graph.adjacency();
        let ghost mut settled: Set<int> = Set::empty();
        proof {
            lemma_initial_labels_sound(adjacency, source as int);
            lemma_reaches_itself(adjacency, source as int);
            assert(labels(self.distances@, n as nat) =~= initial_labels(n as nat, source as int));
            lemma_total_nonnegative(labels(self.distances@, n as nat));
        }

        // iterate
        loop
            invariant
                adjacency == graph.adjacency(),
                n == adjacency.len(),
                valid_query(adjacency, source, sink),
                self.distances@.len() >= n,
                labels_sound(adjacency, source as int, labels(self.distances@, n as nat), settled),
                lazy_frontier(
                    adjacency,
                    source as int,
                    labels(self.distances@, n as nat),
                    settled,
                    -1,
                    heap_holds(self.heap@),
                ),
                !settled.contains(sink as int),
                solution.is_open(adjacency, source, sink),
                total(labels(self.distances@, n as nat)) >= 0,
            decreases self.heap@.len() + 2 * total(labels(self.distances@, n as nat)),
        {
            let ghost dist = labels(self.distances@, n as nat);
            let ghost items = self.heap@;
            let (cost, position) = match self.heap.pop() {
                Some(state) => (state.cost, state.position),
                None => {
                    proof {
                        assert forall|v: int| 0 <= v < dist.len() && !settled.contains(v) implies #[trigger] dist[v]
                            == unlabelled() by {
                            if dist[v] < unlabelled() {
                                assert(heap_holds(items)(v as usize, dist[v] as Weight));
                            }
                        }
                        lemma_frontier_empty(adjacency, source as int, dist, settled, sink as int);
                    }
                    return solution.not_connected();
                },
            };
            let ghost popped = State { cost, position };
            proof {
                assert(heap_holds(items)(position, cost));
                assert forall|v: usize, c: Weight| #[trigger] heap_holds(items)(v, c) implies cost <= c by {
                    assert(precedes(popped, State { cost: c, position: v }));
                }
                lemma_lazy_least(adjacency, source as int, dist, settled, heap_holds(items), cost);
            }
            if position == sink {
                proof {
                    lemma_frontier_least_is_shortest(
                        adjacency,
                        source as int,
                        dist,
                        settled,
                        sink as int,
                        cost as int,
                    );
                }
                return solution.reached(cost);
            }
            if cost > self.distances[position] {
                proof {
                    assert forall|v: usize, c: Weight| #[trigger] heap_holds(self.heap@)(v, c) implies heap_holds(
                        items,
                    )(v, c) by {}
                    assert forall|v: int|
                        0 <= v < dist.len() && !settled.contains(v) && #[trigger] dist[v]
                            < unlabelled() implies heap_holds(self.heap@)(v as usize, dist[v] as Weight) by {
                        assert(heap_holds(items)(v as usize, dist[v] as Weight));
                    }
                }
                continue ;
            }
            proof {
                if !settled.contains(position as int) {
                    lemma_frontier_least_is_shortest(
                        adjacency,
                        source as int,
                        dist,
                        settled,
                        position as int,
                        cost as int,
                    );
                }
                assert forall|v: usize, c: Weight| #[trigger] heap_holds(self.heap@)(v, c) implies heap_holds(
                    items,
                )(v, c) by {}
                assert forall|v: int|
                    0 <= v < dist.len() && v != position && !settled.contains(v) && #[trigger] dist[v]
                        < unlabelled() implies heap_holds(self.heap@)(v as usize, dist[v] as Weight) by {
                    assert(heap_holds(items)(v as usize, dist[v] as Weight));
                }
            }

            let mut out_edges = graph.out_edges(position);
            let ghost mut done: int = 0;
            loop
                invariant
                    adjacency == graph.adjacency(),
                    n == adjacency.len(),
                    valid_query(adjacency, source, sink),
                    self.distances@.len() >= n,
                    position < n,
                    position != sink,
                    0 <= done <= adjacency[position as int].len(),
                    out_edges.remaining() == adjacency[position as int].subrange(
                        done,
                        adjacency[position as int].len() as int,
                    ),
                    relaxing(
                        adjacency,
                        source as int,
                        labels(self.distances@, n as nat),
                        settled,
                        position as int,
                        cost as int,
                        done,
                    ),
                    lazy_frontier(
                        adjacency,
                        source as int,
                        labels(self.distances@, n as nat),
                        settled,
                        position as int,
                        heap_holds(self.heap@),
                    ),
                    !settled.contains(sink as int),
                    total(labels(self.distances@, n as nat)) >= 0,
                    self.heap@.len() + 2 * total(labels(self.distances@, n as nat))
                        < items.len() + 2 * total(dist),
                ensures
                    done == adjacency[position as int].len(),
                    self.distances@.len() >= n,
                    relaxing(
                        adjacency,
                        source as int,
                        labels(self.distances@, n as nat),
                        settled,
                        position as int,
                        cost as int,
                        done,
                    ),
                    lazy_frontier(
                        adjacency,
                        source as int,
                        labels(self.distances@, n as nat),
                        settled,
                        position as int,
                        heap_holds(self.heap@),
                    ),
                    total(labels(self.distances@, n as nat)) >= 0,
                    self.heap@.len() + 2 * total(labels(self.distances@, n as nat))
                        < items.len() + 2 * total(dist),
                decreases out_edges.remaining().len(),
            {
                let edge = match out_edges.next_edge() {
                    Some(edge) => edge,
                    None => {
                        break ;
                    },
                };
                let (head, weight) = (edge.head(), edge.weight());
                let ghost now = labels(self.distances@, n as nat);
                let ghost held = self.heap@;
                proof {
                    assert((head, weight) == adjacency[position as int][done]);
                    lemma_relax_edge(adjacency, source as int, now, settled, position as int, cost as int, done);
                }
                let next = State { cost: cost + weight, position: head };

                if next.cost < self.distances[next.position] {
                    self.heap.push(next);
                    self.distances.set(next.position, next.cost);
                    proof {
                        let after = labels(self.distances@, n as nat);
                        assert(after =~= relaxed(adjacency, now, position as int, cost as int, done));
                        lemma_total_update(now, head as int, next.cost as int);
                        lemma_total_nonnegative(after);
                        assert forall|v: usize, c: Weight| #[trigger] heap_holds(self.heap@)(v, c) implies v
                            < after.len() && c < Weight::MAX && after[v as int] <= c && reaches(
                            adjacency,
                            source as int,
                            v as int,
                            c as int,
                        ) by {
                            if (State { cost: c, position: v }) != next {
                                assert(heap_holds(held)(v, c));
                            }
                        }
                        assert forall|v: int|
                            0 <= v < after.len() && v != position && !settled.contains(v) && #[trigger] after[v]
                                < unlabelled() implies heap_holds(self.heap@)(v as usize, after[v] as Weight) by {
                            if v != head {
                                assert(now[v] < unlabelled());
                                assert(heap_holds(held)(v as usize, now[v] as Weight));
                            }
                        }
                    }
                } else {
                    proof {
                        assert(labels(self.distances@, n as nat) =~= relaxed(
                            adjacency,
                            now,
                            position as int,
                            cost as int,
                            done,
                        ));
                    }
                }
                proof {
                    assert(out_edges.remaining() =~= adjacency[position as int].subrange(
                        done + 1,
                        adjacency[position as int].len() as int,
                    ));
                    done = done + 1;
                }
            }

            solution.iterate(self.heap.len(), self.heap.capacity());
            proof {
                let after = labels(self.distances@, n as nat);
                lemma_settle(adjacency, source as int, after, settled, position as int, cost as int);
                settled = settled.insert(position as int);
            }
        }
    }
}

} // verus!
