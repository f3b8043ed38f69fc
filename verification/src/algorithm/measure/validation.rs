//! The measure that checks the result of a query against that of a
//! reference algorithm.
use crate::algorithm::measure::no_measurement::NoMeasurement;
use crate::algorithm::measure::run_measure::Measure;
use crate::algorithm::sd_algorithm::ShortestDistanceAlgorithm;
use crate::algorithm::solution::Solution;
use crate::algorithm::std_pq_dijkstra::StdPqDijkstra;
use crate::graph::adjacency::Adjacency;
use crate::graph::sp_graph::SpGraph;
use crate::graph::walks::{is_answer, lemma_answer_is_unique, valid_query};
use crate::Weight;
use vstd::prelude::*;

verus! {

#[derive(Debug)]
pub struct Validation {
    pub source: usize,
    pub sink: usize,
    pub correct_shortest_distance: Option<Weight>,
    pub found_shortest_distance: Option<Weight>,
}

impl Validation {
    /// Whether the result that was found is the one of the reference.
    pub fn is_correct(&self) -> (correct: bool)
        ensures
            correct == (self.correct_shortest_distance == self.found_shortest_distance),
    {
        self.correct_shortest_distance == self.found_shortest_distance
    }

    /// A measure that was closed with the answer of its query is correct.
    pub proof fn lemma_answer_is_correct(
        &self,
        adjacency: Adjacency,
        source: usize,
        sink: usize,
        found: Option<Weight>,
    )
        requires
            self.observes(adjacency, source, sink, Some(found)),
            is_answer(adjacency, source, sink, found),
        ensures
            self.correct_shortest_distance == self.found_shortest_distance,
    {
        lemma_answer_is_unique(adjacency, source, sink, self.correct_shortest_distance, found);
    }
}

impl Measure for Validation {
    /// The measure holds the two nodes of the query and the answer of the
    /// query. Before it is closed it holds, as the result that was found,
    /// the largest weight; afterwards the result that it was closed with.
    open spec fn observes(
        &self,
        adjacency: Adjacency,
        source: usize,
        sink: usize,
        outcome: Option<Option<Weight>>,
    ) -> bool {
        &&& self.source == source
        &&& self.sink == sink
        &&& is_answer(adjacency, source, sink, self.correct_shortest_distance)
        &&& self.found_shortest_distance == match outcome {
            Some(found) => found,
            None => Some(Weight::MAX),
        }
    }

    /// A step leaves the measure as it is.
    open spec fn steps(before: Self, heap_length: usize, heap_capacity: usize, after: Self) -> bool {
        after == before
    }

    fn initialize<G: SpGraph>(graph: &G, source: usize, sink: usize) -> (measure: Self) {
        Self {
            source,
            sink,
            correct_shortest_distance: get_valid_solution(graph, source, sink),
            found_shortest_distance: Some(Weight::MAX),
        }
    }

    #[inline(always)]
    fn iterate(&mut self, _heap_length: usize, _heap_capacity: usize) {
    }

    fn finalize(&mut self, shortest_distance: Option<Weight>) {
        self.found_shortest_distance = shortest_distance;
    }
}

/// Whether an algorithm keeps its scratch data from query to query or
/// not, it finds the same distance and the validation finds it correct
/// either way: both runs return the answer of the query.
pub proof fn lemma_cached_and_pure_agree(
    adjacency: Adjacency,
    source: usize,
    sink: usize,
    cached: Solution<Validation>,
    pure: Solution<Validation>,
)
    requires
        is_answer(adjacency, source, sink, cached.shortest_distance),
        is_answer(adjacency, source, sink, pure.shortest_distance),
        cached.is_closed(adjacency, source, sink),
        pure.is_closed(adjacency, source, sink),
    ensures
        cached.shortest_distance == pure.shortest_distance,
        cached.measure.correct_shortest_distance == cached.measure.found_shortest_distance,
        pure.measure.correct_shortest_distance == pure.measure.found_shortest_distance,
{
    lemma_answer_is_unique(adjacency, source, sink, cached.shortest_distance, pure.shortest_distance);
    cached.measure.lemma_answer_is_correct(adjacency, source, sink, cached.shortest_distance);
    pure.measure.lemma_answer_is_correct(adjacency, source, sink, pure.shortest_distance);
}

/// The answer of the query by the reference algorithm, which is not
/// measured.
pub fn get_valid_solution<G: SpGraph>(graph: &G, source: usize, sink: usize) -> (distance: Option<Weight>)
    requires
        valid_query(graph.adjacency(), source, sink),
    ensures
        is_answer(graph.adjacency(), source, sink, distance),
{
    StdPqDijkstra::run_pure::<NoMeasurement>(graph, source, sink).shortest_distance
}

} // verus!
