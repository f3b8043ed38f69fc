//! Dijkstra's algorithm on a d-ary heap with decrease-key: the frontier
//! holds a node once, at its tentative distance, and a node is settled as
//! soon as it has come out and its edges are relaxed.
use crate::algorithm::labels::{
    frontier_at_least, initial_labels, labels_sound, lemma_frontier_empty,
    lemma_frontier_least_is_shortest, lemma_initial_labels_sound, lemma_relax_edge, lemma_settle,
    relaxed, relaxing, unlabelled,
};
use crate::algorithm::measure::run_measure::Measure;
use crate::algorithm::scratch::reset;
use crate::algorithm::sd_algorithm::ShortestDistanceAlgorithm;
use crate::algorithm::solution::Solution;
use crate::experimentation::factors::algorithm::dary::{is_arity, Dary};
use crate::graph::adjacency::Adjacency;
use crate::graph::out_edges::{OutEdgeData, OutEdges};
use crate::graph::sp_graph::SpGraph;
use crate::graph::walks::{is_answer, lemma_reaches_itself, reaches, valid_query};
use crate::Weight;
use orx_priority_queue::{DaryHeapOfIndices, DaryHeapWithMap, PriorityQueue, PriorityQueueDecKey};
use vstd::pervasive::unreached;
use vstd::prelude::*;
use vstd::set_lib::{lemma_int_range, lemma_len_subset, set_int_range};

verus! {

/// The keys of a queue without nodes.
pub open spec fn no_keys() -> Map<usize, Weight> {
    Map::empty()
}

/// The keys after `node` was offered at `key`: a node that is held keeps
/// the lesser of the two keys, a node that is not held is taken in.
pub open spec fn lowered(keys: Map<usize, Weight>, node: usize, key: Weight) -> Map<usize, Weight> {
    if keys.contains_key(node) && keys[node] <= key {
        keys
    } else {
        keys.insert(node, key)
    }
}

/// A frontier that holds every node at most once and can lower the key of
/// a node that it holds.
pub trait DecKeyQueue: Sized {
    /// The nodes in the queue, each with its key.
    spec fn keys(&self) -> Map<usize, Weight>;

    /// Whether the capacity can be asked.
    spec fn primed(&self) -> bool;

    /// The queue takes the nodes below this number.
    spec fn room(&self) -> nat;

    /// A queue of the given arity without nodes, for the nodes `0..nodes`.
    fn for_nodes(dary: Dary, nodes: usize) -> (queue: Self)
        ensures
            queue.keys() == no_keys(),
            queue.room() >= nodes,
    ;

    fn clear(&mut self)
        ensures
            final(self).keys() == no_keys(),
            final(self).primed() == old(self).primed(),
            final(self).room() == old(self).room(),
    ;

    fn push(&mut self, node: usize, key: Weight)
        requires
            node < old(self).room(),
            !old(self).keys().contains_key(node),
        ensures
            final(self).keys() == old(self).keys().insert(node, key),
            final(self).primed(),
            final(self).room() == old(self).room(),
    ;

    /// Takes out a node of least key, `None` from a queue without nodes.
    fn pop(&mut self) -> (popped: Option<(usize, Weight)>)
        ensures
            final(self).primed() == old(self).primed(),
            final(self).room() == old(self).room(),
            match popped {
                Some(entry) => {
                    &&& old(self).keys().contains_pair(entry.0, entry.1)
                    &&& final(self).keys() == old(self).keys().remove(entry.0)
                    &&& forall|other: usize| #[trigger]
                        old(self).keys().contains_key(other) ==> entry.1 <= old(self).keys()[other]
                },
                None => {
                    &&& forall|other: usize| !#[trigger] old(self).keys().contains_key(other)
                    &&& final(self).keys() == old(self).keys()
                },
            },
    ;

    fn try_decrease_key_or_push(&mut self, node: &usize, key: Weight)
        requires
            *node < old(self).room(),
        ensures
            final(self).keys() == lowered(old(self).keys(), *node, key),
            final(self).primed(),
            final(self).room() == old(self).room(),
    ;

    fn len(&self) -> (len: usize)
        ensures
            len == self.keys().dom().len(),
    ;

    fn capacity(&self) -> (capacity: usize)
        requires
            self.primed(),
    ;
}

/// A `DaryHeapOfIndices` of nodes keyed by cost with `D` children per node.
#[verifier::external_body]
pub struct IndexHeap<const D: usize> {
    heap: DaryHeapOfIndices<usize, Weight, D>,
}

/// A d-ary heap with, for every node below a bound, its place in the heap,
/// of one of the arities that are the levels of `Dary`.
pub enum OrxDaryHeapOfIndices {
    Binary(IndexHeap<2>),
    Quaternary(IndexHeap<4>),
    Octonary(IndexHeap<8>),
    D16(IndexHeap<16>),
    D32(IndexHeap<32>),
    D64(IndexHeap<64>),
}

/// The nodes that the heap holds, each with its key.
pub uninterp spec fn indexed_heap_keys(heap: OrxDaryHeapOfIndices) -> Map<usize, Weight>;

/// Whether the heap has held an entry since it was made. Only then can
/// its capacity be asked.
pub uninterp spec fn indexed_heap_primed(heap: OrxDaryHeapOfIndices) -> bool;

/// The bound that the heap was made with: it takes the nodes below it.
pub uninterp spec fn indexed_heap_bound(heap: OrxDaryHeapOfIndices) -> nat;

/// `DaryHeapOfIndices::with_index_bound` at the arity of `dary`: a heap
/// without nodes that takes the nodes below `nodes`.
#[verifier::external_body]
fn indexed_heap_new(dary: Dary, nodes: usize) -> (heap: OrxDaryHeapOfIndices)
    ensures
        indexed_heap_keys(heap) == no_keys(),
        indexed_heap_bound(heap) == nodes,
{
    match dary {
        Dary::Binary => OrxDaryHeapOfIndices::Binary(
            IndexHeap { heap: DaryHeapOfIndices::with_index_bound(nodes) },
        ),
        Dary::Quaternary => OrxDaryHeapOfIndices::Quaternary(
            IndexHeap { heap: DaryHeapOfIndices::with_index_bound(nodes) },
        ),
        Dary::Octonary => OrxDaryHeapOfIndices::Octonary(
            IndexHeap { heap: DaryHeapOfIndices::with_index_bound(nodes) },
        ),
        Dary::D16 => OrxDaryHeapOfIndices::D16(IndexHeap { heap: DaryHeapOfIndices::with_index_bound(nodes) }),
        Dary::D32 => OrxDaryHeapOfIndices::D32(IndexHeap { heap: DaryHeapOfIndices::with_index_bound(nodes) }),
        Dary::D64 => OrxDaryHeapOfIndices::D64(IndexHeap { heap: DaryHeapOfIndices::with_index_bound(nodes) }),
    }
}

/// `PriorityQueue::clear` of `DaryHeapOfIndices`: no node is left.
#[verifier::external_body]
fn indexed_heap_clear(heap: &mut OrxDaryHeapOfIndices)
    ensures
        indexed_heap_keys(*final(heap)) == no_keys(),
        indexed_heap_primed(*final(heap)) == indexed_heap_primed(*old(heap)),
        indexed_heap_bound(*final(heap)) == indexed_heap_bound(*old(heap)),
{
    match heap {
        OrxDaryHeapOfIndices::Binary(h) => h.heap.clear(),
        OrxDaryHeapOfIndices::Quaternary(h) => h.heap.clear(),
        OrxDaryHeapOfIndices::Octonary(h) => h.heap.clear(),
        OrxDaryHeapOfIndices::D16(h) => h.heap.clear(),
        OrxDaryHeapOfIndices::D32(h) => h.heap.clear(),
        OrxDaryHeapOfIndices::D64(h) => h.heap.clear(),
    }
}

/// `PriorityQueue::push` of `DaryHeapOfIndices`, for a node that the heap does not
/// hold and that is below its bound: the heap holds `node` with `key`.
#[verifier::external_body]
fn indexed_heap_push(heap: &mut OrxDaryHeapOfIndices, node: usize, key: Weight)
    requires
        node < indexed_heap_bound(*old(heap)),
        !indexed_heap_keys(*old(heap)).contains_key(node),
    ensures
        indexed_heap_keys(*final(heap)) == indexed_heap_keys(*old(heap)).insert(node, key),
        indexed_heap_primed(*final(heap)),
        indexed_heap_bound(*final(heap)) == indexed_heap_bound(*old(heap)),
{
    match heap {
        OrxDaryHeapOfIndices::Binary(h) => h.heap.push(node, key),
        OrxDaryHeapOfIndices::Quaternary(h) => h.heap.push(node, key),
        OrxDaryHeapOfIndices::Octonary(h) => h.heap.push(node, key),
        OrxDaryHeapOfIndices::D16(h) => h.heap.push(node, key),
        OrxDaryHeapOfIndices::D32(h) => h.heap.push(node, key),
        OrxDaryHeapOfIndices::D64(h) => h.heap.push(node, key),
    }
}

/// `PriorityQueue::pop` of `DaryHeapOfIndices`: takes out a node whose key is the
/// least in the heap; `None` from a heap without nodes.
#[verifier::external_body]
fn indexed_heap_pop(heap: &mut OrxDaryHeapOfIndices) -> (popped: Option<(usize, Weight)>)
    ensures
        indexed_heap_primed(*final(heap)) == indexed_heap_primed(*old(heap)),
        indexed_heap_bound(*final(heap)) == indexed_heap_bound(*old(heap)),
        match popped {
            Some(entry) => {
                &&& indexed_heap_keys(*old(heap)).contains_pair(entry.0, entry.1)
                &&& indexed_heap_keys(*final(heap)) == indexed_heap_keys(*old(heap)).remove(entry.0)
                &&& forall|other: usize| #[trigger]
                    indexed_heap_keys(*old(heap)).contains_key(other)
                        ==> entry.1 <= indexed_heap_keys(*old(heap))[other]
            },
            None => {
                &&& forall|other: usize| !#[trigger] indexed_heap_keys(*old(heap)).contains_key(other)
                &&& indexed_heap_keys(*final(heap)) == indexed_heap_keys(*old(heap))
            },
        },
{
    match heap {
        OrxDaryHeapOfIndices::Binary(h) => h.heap.pop(),
        OrxDaryHeapOfIndices::Quaternary(h) => h.heap.pop(),
        OrxDaryHeapOfIndices::Octonary(h) => h.heap.pop(),
        OrxDaryHeapOfIndices::D16(h) => h.heap.pop(),
        OrxDaryHeapOfIndices::D32(h) => h.heap.pop(),
        OrxDaryHeapOfIndices::D64(h) => h.heap.pop(),
    }
}

/// `PriorityQueueDecKey::try_decrease_key_or_push` of `DaryHeapOfIndices`, for a node below the bound:
/// a node that the heap holds gets `key` if that is less than its key, and
/// a node that it does not hold is pushed with `key`.
#[verifier::external_body]
fn indexed_heap_try_decrease_key_or_push(heap: &mut OrxDaryHeapOfIndices, node: usize, key: Weight)
    requires
        node < indexed_heap_bound(*old(heap)),
    ensures
        indexed_heap_keys(*final(heap)) == lowered(indexed_heap_keys(*old(heap)), node, key),
        indexed_heap_primed(*final(heap)),
        indexed_heap_bound(*final(heap)) == indexed_heap_bound(*old(heap)),
{
    match heap {
        OrxDaryHeapOfIndices::Binary(h) => h.heap.try_decrease_key_or_push(&node, key),
        OrxDaryHeapOfIndices::Quaternary(h) => h.heap.try_decrease_key_or_push(&node, key),
        OrxDaryHeapOfIndices::Octonary(h) => h.heap.try_decrease_key_or_push(&node, key),
        OrxDaryHeapOfIndices::D16(h) => h.heap.try_decrease_key_or_push(&node, key),
        OrxDaryHeapOfIndices::D32(h) => h.heap.try_decrease_key_or_push(&node, key),
        OrxDaryHeapOfIndices::D64(h) => h.heap.try_decrease_key_or_push(&node, key),
    };
}

/// `PriorityQueue::len` of `DaryHeapOfIndices`: the number of nodes.
#[verifier::external_body]
fn indexed_heap_len(heap: &OrxDaryHeapOfIndices) -> (len: usize)
    ensures
        len == indexed_heap_keys(*heap).dom().len(),
{
    match heap {
        OrxDaryHeapOfIndices::Binary(h) => h.heap.len(),
        OrxDaryHeapOfIndices::Quaternary(h) => h.heap.len(),
        OrxDaryHeapOfIndices::Octonary(h) => h.heap.len(),
        OrxDaryHeapOfIndices::D16(h) => h.heap.len(),
        OrxDaryHeapOfIndices::D32(h) => h.heap.len(),
        OrxDaryHeapOfIndices::D64(h) => h.heap.len(),
    }
}

/// `PriorityQueue::capacity` of `DaryHeapOfIndices`: the number of nodes that
/// the heap has room for. It is the capacity of the vector of the heap
/// less its padding, as the length of the heap is the length of that vector
/// less its padding, so that it is not below the number of nodes.
#[verifier::external_body]
fn indexed_heap_capacity(heap: &OrxDaryHeapOfIndices) -> (capacity: usize)
    requires
        indexed_heap_primed(*heap),
    ensures
        capacity >= indexed_heap_keys(*heap).dom().len(),
{
    match heap {
        OrxDaryHeapOfIndices::Binary(h) => h.heap.capacity(),
        OrxDaryHeapOfIndices::Quaternary(h) => h.heap.capacity(),
        OrxDaryHeapOfIndices::Octonary(h) => h.heap.capacity(),
        OrxDaryHeapOfIndices::D16(h) => h.heap.capacity(),
        OrxDaryHeapOfIndices::D32(h) => h.heap.capacity(),
        OrxDaryHeapOfIndices::D64(h) => h.heap.capacity(),
    }
}

impl DecKeyQueue for OrxDaryHeapOfIndices {
    open spec fn keys(&self) -> Map<usize, Weight> {
        indexed_heap_keys(*self)
    }

    open spec fn primed(&self) -> bool {
        indexed_heap_primed(*self)
    }

    open spec fn room(&self) -> nat {
        indexed_heap_bound(*self)
    }

    fn for_nodes(dary: Dary, nodes: usize) -> (queue: Self) {
        indexed_heap_new(dary, nodes)
    }

    fn clear(&mut self) {
        indexed_heap_clear(self)
    }

    fn push(&mut self, node: usize, key: Weight) {
        indexed_heap_push(self, node, key)
    }

    fn pop(&mut self) -> (popped: Option<(usize, Weight)>) {
        indexed_heap_pop(self)
    }

    fn try_decrease_key_or_push(&mut self, node: &usize, key: Weight) {
        indexed_heap_try_decrease_key_or_push(self, *node, key)
    }

    fn len(&self) -> (len: usize) {
        indexed_heap_len(self)
    }

    /// The heap has room for the nodes that it holds, at least.
    fn capacity(&self) -> (capacity: usize)
        ensures
            capacity >= self.keys().dom().len(),
    {
        indexed_heap_capacity(self)
    }
}

/// A `DaryHeapWithMap` of nodes keyed by cost with `D` children per node.
#[verifier::external_body]
pub struct MapHeap<const D: usize> {
    heap: DaryHeapWithMap<usize, Weight, D>,
}

/// A d-ary heap with a hash map from the nodes to their places in the heap,
/// of one of the arities that are the levels of `Dary`.
pub enum OrxDaryHeapWithMap {
    Binary(MapHeap<2>),
    Quaternary(MapHeap<4>),
    Octonary(MapHeap<8>),
    D16(MapHeap<16>),
    D32(MapHeap<32>),
    D64(MapHeap<64>),
}

/// The nodes that the heap holds, each with its key.
pub uninterp spec fn mapped_heap_keys(heap: OrxDaryHeapWithMap) -> Map<usize, Weight>;

/// Whether the heap has held an entry since it was made. Only then can
/// its capacity be asked.
pub uninterp spec fn mapped_heap_primed(heap: OrxDaryHeapWithMap) -> bool;

/// `DaryHeapWithMap::default` at the arity of `dary`: a heap without nodes.
#[verifier::external_body]
fn mapped_heap_new(dary: Dary, nodes: usize) -> (heap: OrxDaryHeapWithMap)
    ensures
        mapped_heap_keys(heap) == no_keys(),
{
    match dary {
        Dary::Binary => OrxDaryHeapWithMap::Binary(MapHeap { heap: DaryHeapWithMap::default() }),
        Dary::Quaternary => OrxDaryHeapWithMap::Quaternary(MapHeap { heap: DaryHeapWithMap::default() }),
        Dary::Octonary => OrxDaryHeapWithMap::Octonary(MapHeap { heap: DaryHeapWithMap::default() }),
        Dary::D16 => OrxDaryHeapWithMap::D16(MapHeap { heap: DaryHeapWithMap::default() }),
        Dary::D32 => OrxDaryHeapWithMap::D32(MapHeap { heap: DaryHeapWithMap::default() }),
        Dary::D64 => OrxDaryHeapWithMap::D64(MapHeap { heap: DaryHeapWithMap::default() }),
    }
}

/// `PriorityQueue::clear` of `DaryHeapWithMap`: no node is left.
#[verifier::external_body]
fn mapped_heap_clear(heap: &mut OrxDaryHeapWithMap)
    ensures
        mapped_heap_keys(*final(heap)) == no_keys(),
        mapped_heap_primed(*final(heap)) == mapped_heap_primed(*old(heap)),
{
    match heap {
        OrxDaryHeapWithMap::Binary(h) => h.heap.clear(),
        OrxDaryHeapWithMap::Quaternary(h) => h.heap.clear(),
        OrxDaryHeapWithMap::Octonary(h) => h.heap.clear(),
        OrxDaryHeapWithMap::D16(h) => h.heap.clear(),
        OrxDaryHeapWithMap::D32(h) => h.heap.clear(),
        OrxDaryHeapWithMap::D64(h) => h.heap.clear(),
    }
}

/// `PriorityQueue::push` of `DaryHeapWithMap`, for a node that the heap does not
/// hold: the heap holds `node` with `key`.
#[verifier::external_body]
fn mapped_heap_push(heap: &mut OrxDaryHeapWithMap, node: usize, key: Weight)
    requires
        !mapped_heap_keys(*old(heap)).contains_key(node),
    ensures
        mapped_heap_keys(*final(heap)) == mapped_heap_keys(*old(heap)).insert(node, key),
        mapped_heap_primed(*final(heap)),
{
    match heap {
        OrxDaryHeapWithMap::Binary(h) => h.heap.push(node, key),
        OrxDaryHeapWithMap::Quaternary(h) => h.heap.push(node, key),
        OrxDaryHeapWithMap::Octonary(h) => h.heap.push(node, key),
        OrxDaryHeapWithMap::D16(h) => h.heap.push(node, key),
        OrxDaryHeapWithMap::D32(h) => h.heap.push(node, key),
        OrxDaryHeapWithMap::D64(h) => h.heap.push(node, key),
    }
}

/// `PriorityQueue::pop` of `DaryHeapWithMap`: takes out a node whose key is the
/// least in the heap; `None` from a heap without nodes.
#[verifier::external_body]
fn mapped_heap_pop(heap: &mut OrxDaryHeapWithMap) -> (popped: Option<(usize, Weight)>)
    ensures
        mapped_heap_primed(*final(heap)) == mapped_heap_primed(*old(heap)),
        match popped {
            Some(entry) => {
                &&& mapped_heap_keys(*old(heap)).contains_pair(entry.0, entry.1)
                &&& mapped_heap_keys(*final(heap)) == mapped_heap_keys(*old(heap)).remove(entry.0)
                &&& forall|other: usize| #[trigger]
                    mapped_heap_keys(*old(heap)).contains_key(other)
                        ==> entry.1 <= mapped_heap_keys(*old(heap))[other]
            },
            None => {
                &&& forall|other: usize| !#[trigger] mapped_heap_keys(*old(heap)).contains_key(other)
                &&& mapped_heap_keys(*final(heap)) == mapped_heap_keys(*old(heap))
            },
        },
{
    match heap {
        OrxDaryHeapWithMap::Binary(h) => h.heap.pop(),
        OrxDaryHeapWithMap::Quaternary(h) => h.heap.pop(),
        OrxDaryHeapWithMap::Octonary(h) => h.heap.pop(),
        OrxDaryHeapWithMap::D16(h) => h.heap.pop(),
        OrxDaryHeapWithMap::D32(h) => h.heap.pop(),
        OrxDaryHeapWithMap::D64(h) => h.heap.pop(),
    }
}

/// `PriorityQueueDecKey::try_decrease_key_or_push` of `DaryHeapWithMap`:
/// a node that the heap holds gets `key` if that is less than its key, and
/// a node that it does not hold is pushed with `key`.
#[verifier::external_body]
fn mapped_heap_try_decrease_key_or_push(heap: &mut OrxDaryHeapWithMap, node: usize, key: Weight)
    ensures
        mapped_heap_keys(*final(heap)) == lowered(mapped_heap_keys(*old(heap)), node, key),
        mapped_heap_primed(*final(heap)),
{
    match heap {
        OrxDaryHeapWithMap::Binary(h) => h.heap.try_decrease_key_or_push(&node, key),
        OrxDaryHeapWithMap::Quaternary(h) => h.heap.try_decrease_key_or_push(&node, key),
        OrxDaryHeapWithMap::Octonary(h) => h.heap.try_decrease_key_or_push(&node, key),
        OrxDaryHeapWithMap::D16(h) => h.heap.try_decrease_key_or_push(&node, key),
        OrxDaryHeapWithMap::D32(h) => h.heap.try_decrease_key_or_push(&node, key),
        OrxDaryHeapWithMap::D64(h) => h.heap.try_decrease_key_or_push(&node, key),
    };
}

/// `PriorityQueue::len` of `DaryHeapWithMap`: the number of nodes.
#[verifier::external_body]
fn mapped_heap_len(heap: &OrxDaryHeapWithMap) -> (len: usize)
    ensures
        len == mapped_heap_keys(*heap).dom().len(),
{
    match heap {
        OrxDaryHeapWithMap::Binary(h) => h.heap.len(),
        OrxDaryHeapWithMap::Quaternary(h) => h.heap.len(),
        OrxDaryHeapWithMap::Octonary(h) => h.heap.len(),
        OrxDaryHeapWithMap::D16(h) => h.heap.len(),
        OrxDaryHeapWithMap::D32(h) => h.heap.len(),
        OrxDaryHeapWithMap::D64(h) => h.heap.len(),
    }
}

/// `PriorityQueue::capacity` of `DaryHeapWithMap`: the number of nodes that
/// the heap has room for. It is the capacity of the vector of the heap
/// less its padding, as the length of the heap is the length of that vector
/// less its padding, so that it is not below the number of nodes.
#[verifier::external_body]
fn mapped_heap_capacity(heap: &OrxDaryHeapWithMap) -> (capacity: usize)
    requires
        mapped_heap_primed(*heap),
    ensures
        capacity >= mapped_heap_keys(*heap).dom().len(),
{
    match heap {
        OrxDaryHeapWithMap::Binary(h) => h.heap.capacity(),
        OrxDaryHeapWithMap::Quaternary(h) => h.heap.capacity(),
        OrxDaryHeapWithMap::Octonary(h) => h.heap.capacity(),
        OrxDaryHeapWithMap::D16(h) => h.heap.capacity(),
        OrxDaryHeapWithMap::D32(h) => h.heap.capacity(),
        OrxDaryHeapWithMap::D64(h) => h.heap.capacity(),
    }
}

impl DecKeyQueue for OrxDaryHeapWithMap {
    open spec fn keys(&self) -> Map<usize, Weight> {
        mapped_heap_keys(*self)
    }

    open spec fn primed(&self) -> bool {
        mapped_heap_primed(*self)
    }

    open spec fn room(&self) -> nat {
        (usize::MAX + 1) as nat
    }

    fn for_nodes(dary: Dary, nodes: usize) -> (queue: Self) {
        mapped_heap_new(dary, nodes)
    }

    fn clear(&mut self) {
        mapped_heap_clear(self)
    }

    fn push(&mut self, node: usize, key: Weight) {
        mapped_heap_push(self, node, key)
    }

    fn pop(&mut self) -> (popped: Option<(usize, Weight)>) {
        mapped_heap_pop(self)
    }

    fn try_decrease_key_or_push(&mut self, node: &usize, key: Weight) {
        mapped_heap_try_decrease_key_or_push(self, *node, key)
    }

    fn len(&self) -> (len: usize) {
        mapped_heap_len(self)
    }

    /// The heap has room for the nodes that it holds, at least.
    fn capacity(&self) -> (capacity: usize)
        ensures
            capacity >= self.keys().dom().len(),
    {
        mapped_heap_capacity(self)
    }
}

/// How the queue relates to the labels: a node of the queue is a node of
/// the graph, its key is the length of a walk to it and, unless the node is
/// settled or is `except`, its tentative distance; and every labelled node
/// that is not settled, but for `except`, is in the queue.
pub open spec fn keyed_frontier(
    adjacency: Adjacency,
    source: int,
    dist: Seq<int>,
    settled: Set<int>,
    except: int,
    keys: Map<usize, Weight>,
) -> bool {
    &&& keys.dom().finite()
    &&& forall|v: usize| #[trigger]
        keys.contains_key(v) ==> {
            &&& v < dist.len()
            &&& keys[v] < Weight::MAX
            &&& reaches(adjacency, source, v as int, keys[v] as int)
            &&& (settled.contains(v as int) || v == except || keys[v] == dist[v as int])
        }
    &&& forall|v: int|
        0 <= v < dist.len() && v != except && !settled.contains(v) && #[trigger] dist[v] < unlabelled()
            ==> keys.contains_key(v as usize)
}

/// The settled nodes are those that are marked as visited.
pub open spec fn marks(visited: Seq<bool>, nodes: nat, settled: Set<int>) -> bool {
    &&& visited.len() >= nodes
    &&& settled.finite()
    &&& forall|v: int| 0 <= v < nodes ==> (#[trigger] visited[v] <==> settled.contains(v))
    &&& forall|v: int| #[trigger] settled.contains(v) ==> 0 <= v < nodes
}

pub proof fn lemma_marks_bounded(visited: Seq<bool>, nodes: nat, settled: Set<int>)
    requires
        marks(visited, nodes, settled),
    ensures
        settled.len() <= nodes,
{
    lemma_int_range(0, nodes as int);
    lemma_len_subset(settled, set_int_range(0, nodes as int));
}

/// Dijkstra's algorithm on a queue with decrease-key and `D` children per
/// node of its heap.
pub struct OrxPqDecKeyDijkstra<Pq: DecKeyQueue, const D: usize> {
    queue: Pq,
    visited: Vec<bool>,
}

impl<Pq: DecKeyQueue, const D: usize> OrxPqDecKeyDijkstra<Pq, D> {
    /// The queue of the algorithm.
    pub closed spec fn queue(&self) -> Pq {
        self.queue
    }

    /// The marks of the visited nodes that the algorithm keeps from query
    /// to query.
    pub closed spec fn scratch(&self) -> Seq<bool> {
        self.visited@
    }

    fn new(queue: Pq) -> (algorithm: Self)
        ensures
            algorithm.queue == queue,
            algorithm.scratch().len() == 0,
    {
        Self { queue, visited: Vec::new() }
    }

    fn run_cached_core<G: SpGraph, M: Measure>(
        &mut self,
        graph: &G,
        source: usize,
        sink: usize,
    ) -> (solution: Solution<M>)
        requires
            valid_query(graph.adjacency(), source, sink),
            old(self).queue.room() >= graph.adjacency().len(),
        ensures
            final(self).queue.room() == old(self).queue.room(),
            is_answer(graph.adjacency(), source, sink, solution.shortest_distance),
            solution.is_closed(graph.adjacency(), source, sink),
    {
        run_with_queue(&mut self.queue, &mut self.visited, graph, source, sink)
    }
}

/// Answers a query with the given queue and marks, whatever they hold.
pub fn run_with_queue<Pq: DecKeyQueue, G: SpGraph, M: Measure>(
    queue: &mut Pq,
    visited: &mut Vec<bool>,
    graph: &G,
    source: usize,
    sink: usize,
) -> (solution: Solution<M>)
    requires
        valid_query(graph.adjacency(), source, sink),
        old(queue).room() >= graph.adjacency().len(),
    ensures
        final(queue).room() == old(queue).room(),
        is_answer(graph.adjacency(), source, sink, solution.shortest_distance),
        solution.is_closed(graph.adjacency(), source, sink),
{
    // reset
    let mut solution = Solution::new(graph, source, sink);
    let n = graph.num_nodes();
    reset(visited, n, false);
    queue.clear();

    // init
    queue.push(source, 0);

    let ghost adjacency = graph.adjacency();
    let ghost room = queue.room();
    let ghost mut settled: Set<int> = Set::empty();
    let ghost mut dist: Seq<int> = initial_labels(n as nat, source as int);
    proof {
        lemma_initial_labels_sound(adjacency, source as int);
        lemma_reaches_itself(adjacency, source as int);
        assert(queue.keys().dom() =~= Set::<usize>::empty().insert(source));
    }

    // iterate
    loop
        invariant
            adjacency == graph.adjacency(),
            n == adjacency.len(),
            valid_query(adjacency, source, sink),
            queue.room() == room,
            room == old(queue).room(),
            room >= n,
            queue.primed(),
            marks(visited@, n as nat, settled),
            labels_sound(adjacency, source as int, dist, settled),
            keyed_frontier(adjacency, source as int, dist, settled, -1, queue.keys()),
            !settled.contains(sink as int),
            solution.is_open(adjacency, source, sink),
        decreases n - settled.len(), queue.keys().dom().len(),
    {
        let ghost keys = queue.keys();
        proof {
            lemma_marks_bounded(visited@, n as nat, settled);
        }
        let (position, cost) = match queue.pop() {
            Some(entry) => entry,
            None => {
                proof {
                    assert forall|v: int| 0 <= v < dist.len() && !settled.contains(v) implies #[trigger] dist[v]
                        == unlabelled() by {
                        if dist[v] < unlabelled() {
                            assert(keys.contains_key(v as usize));
                        }
                    }
                    lemma_frontier_empty(adjacency, source as int, dist, settled, sink as int);
                }
                return solution.not_connected();
            },
        };
        proof {
            assert(keys.contains_key(position));
            assert(queue.keys().dom() =~= keys.dom().remove(position));
            assert forall|v: int|
                0 <= v < dist.len() && !settled.contains(v) && #[trigger] dist[v] < unlabelled() implies cost
                <= dist[v] by {
                assert(keys.contains_key(v as usize));
            }
            assert(frontier_at_least(dist, settled, cost as int));
        }
        if position == sink {
            proof {
                lemma_frontier_least_is_shortest(
                    adjacency,
                    source as int,
                    dist,
                    settled,
                    sink as int,
                    cost as int,
                );
            }
            return solution.reached(cost);
        } else if visited[position] {
            proof {
                assert forall|v: usize| #[trigger] queue.keys().contains_key(v) implies keys.contains_key(
                    v,
                ) by {}
                assert forall|v: int|
                    0 <= v < dist.len() && !settled.contains(v) && #[trigger] dist[v]
                        < unlabelled() implies queue.keys().contains_key(v as usize) by {
                    assert(keys.contains_key(v as usize));
                }
            }
            continue ;
        }
        proof {
            lemma_frontier_least_is_shortest(
                adjacency,
                source as int,
                dist,
                settled,
                position as int,
                cost as int,
            );
            assert forall|v: usize| #[trigger] queue.keys().contains_key(v) implies keys.contains_key(
                v,
            ) by {}
            assert forall|v: int|
                0 <= v < dist.len() && v != position && !settled.contains(v) && #[trigger] dist[v]
                    < unlabelled() implies queue.keys().contains_key(v as usize) by {
                assert(keys.contains_key(v as usize));
            }
        }

        let mut out_edges = graph.out_edges(position);
        let ghost mut done: int = 0;
        loop
            invariant
                adjacency == graph.adjacency(),
                n == adjacency.len(),
                valid_query(adjacency, source, sink),
                queue.room() == room,
                room >= n,
                queue.primed(),
                position < n,
                position != sink,
                !settled.contains(position as int),
                marks(visited@, n as nat, settled),
                0 <= done <= adjacency[position as int].len(),
                out_edges.remaining() == adjacency[position as int].subrange(
                    done,
                    adjacency[position as int].len() as int,
                ),
                relaxing(adjacency, source as int, dist, settled, position as int, cost as int, done),
                keyed_frontier(adjacency, source as int, dist, settled, position as int, queue.keys()),
                !settled.contains(sink as int),
            ensures
                done == adjacency[position as int].len(),
                queue.room() == room,
                queue.primed(),
                marks(visited@, n as nat, settled),
                relaxing(adjacency, source as int, dist, settled, position as int, cost as int, done),
                keyed_frontier(adjacency, source as int, dist, settled, position as int, queue.keys()),
            decreases out_edges.remaining().len(),
        {
            let edge = match out_edges.next_edge() {
                Some(edge) => edge,
                None => {
                    break ;
                },
            };
            let (head, weight) = (edge.head(), edge.weight());
            let ghost now = dist;
            let ghost held = queue.keys();
            proof {
                assert((head, weight) == adjacency[position as int][done]);
                lemma_relax_edge(adjacency, source as int, now, settled, position as int, cost as int, done);
                dist = relaxed(adjacency, now, position as int, cost as int, done);
            }
            if !visited[head] {
                queue.try_decrease_key_or_push(&head, cost + weight);
                proof {
                    let next_cost = (cost + weight) as Weight;
                    let after = queue.keys();
                    assert(after == lowered(held, head, next_cost));
                    if !held.contains_key(head) && head != position {
                        assert(now[head as int] == unlabelled());
                    }
                    assert(after.dom() =~= held.dom().insert(head));
                    assert forall|v: usize| #[trigger] after.contains_key(v) implies {
                        &&& v < dist.len()
                        &&& after[v] < Weight::MAX
                        &&& reaches(adjacency, source as int, v as int, after[v] as int)
                        &&& (settled.contains(v as int) || v == position || after[v] == dist[v as int])
                    } by {
                        if v != head {
                            assert(held.contains_key(v));
                        } else if held.contains_key(head) {
                        }
                    }
                    assert forall|v: int|
                        0 <= v < dist.len() && v != position && !settled.contains(v) && #[trigger] dist[v]
                            < unlabelled() implies after.contains_key(v as usize) by {
                        if v != head {
                            assert(now[v] < unlabelled());
                            assert(held.contains_key(v as usize));
                        }
                    }
                }
            }
            proof {
                assert(out_edges.remaining() =~= adjacency[position as int].subrange(
                    done + 1,
                    adjacency[position as int].len() as int,
                ));
                done = done + 1;
            }
        }
        visited.set(position, true);
        solution.iterate(queue.len(), queue.capacity());
        proof {
            lemma_settle(adjacency, source as int, dist, settled, position as int, cost as int);
            settled = settled.insert(position as int);
            lemma_marks_bounded(visited@, n as nat, settled);
        }
    }
}

// impl
impl<G: SpGraph, Pq: DecKeyQueue, const D: usize> ShortestDistanceAlgorithm<G> for OrxPqDecKeyDijkstra<Pq, D> {
    open spec fn available() -> bool {
        is_arity(D)
    }

    /// The queue holds no node, and no marks are kept.
    open spec fn is_fresh(&self) -> bool {
        &&& self.queue().keys() == no_keys()
        &&& self.scratch().len() == 0
    }

    closed spec fn serves(&self, nodes: nat) -> bool {
        self.queue.room() >= nodes
    }

    fn new(graph: &G) -> (algorithm: Self) {
        let algorithm = match Dary::with_d(D) {
            Some(dary) => Self::new(Pq::for_nodes(dary, graph.num_nodes())),
            None => unreached(),
        };
        assert(<Self as ShortestDistanceAlgorithm<G>>::is_fresh(&algorithm));
        assert(<Self as ShortestDistanceAlgorithm<G>>::serves(&algorithm, graph.adjacency().len()));
        algorithm
    }

    fn run_cached<M: Measure>(&mut self, graph: &G, source: usize, sink: usize) -> (solution: Solution<M>) {
        self.run_cached_core(graph, source, sink)
    }
}

} // verus!
