//! The measure of the room that the frontier takes: its length and its
//! capacity after each step of the algorithm.
use crate::algorithm::measure::run_measure::Measure;
use crate::algorithm::measure::time::{Time, NOT_STOPPED};
use crate::graph::adjacency::Adjacency;
use crate::graph::sp_graph::SpGraph;
use crate::Weight;
use vstd::prelude::*;

verus! {

pub struct Memory {
    pub time: Time,
    pub num_iterations: usize,
    pub max_num_items: usize,
    pub total_num_items_in_observations: usize,
    pub max_capacity: usize,
    pub total_capacity_in_observations: usize,
}

/// The sum of two counts, the largest count where the sum is beyond it.
pub open spec fn capped_sum(a: usize, b: usize) -> usize {
    if a + b > usize::MAX {
        usize::MAX
    } else {
        (a + b) as usize
    }
}

pub open spec fn larger(a: usize, b: usize) -> usize {
    if a >= b {
        a
    } else {
        b
    }
}

/// The larger of two counts.
pub fn max_of(a: usize, b: usize) -> (max: usize)
    ensures
        max == larger(a, b),
{
    if a >= b {
        a
    } else {
        b
    }
}

impl Memory {
    /// The counts of the measure: the number of steps, the greatest
    /// length, the sum of the lengths, the greatest capacity and the sum of
    /// the capacities.
    pub open spec fn counts(&self) -> (usize, usize, usize, usize, usize) {
        (
            self.num_iterations,
            self.max_num_items,
            self.total_num_items_in_observations,
            self.max_capacity,
            self.total_capacity_in_observations,
        )
    }
}

impl Measure for Memory {
    open spec fn observes(
        &self,
        adjacency: Adjacency,
        source: usize,
        sink: usize,
        outcome: Option<Option<Weight>>,
    ) -> bool {
        true
    }

    /// A step is counted, the length and the capacity of the frontier are
    /// added to their sums, and the greater of each and of the greatest so
    /// far is kept. The time stays as it is.
    open spec fn steps(before: Self, heap_length: usize, heap_capacity: usize, after: Self) -> bool {
        &&& after.counts() == (
            capped_sum(before.num_iterations, 1),
            larger(before.max_num_items, heap_length),
            capped_sum(before.total_num_items_in_observations, heap_length),
            larger(before.max_capacity, heap_capacity),
            capped_sum(before.total_capacity_in_observations, heap_capacity),
        )
        &&& after.time == before.time
    }

    fn initialize<G: SpGraph>(_graph: &G, _source: usize, _sink: usize) -> (measure: Self)
        ensures
            measure.counts() == (0usize, 0usize, 0usize, 0usize, 0usize),
            measure.time.elapsed_nanos == NOT_STOPPED,
    {
        Self {
            time: Time::start(),
            num_iterations: 0,
            max_num_items: 0,
            total_num_items_in_observations: 0,
            max_capacity: 0,
            total_capacity_in_observations: 0,
        }
    }

    /// Counts one step. The sums stop at the largest count.
    fn iterate(&mut self, heap_length: usize, heap_capacity: usize)
        ensures
            final(self).counts() == (
                capped_sum(old(self).num_iterations, 1),
                larger(old(self).max_num_items, heap_length),
                capped_sum(old(self).total_num_items_in_observations, heap_length),
                larger(old(self).max_capacity, heap_capacity),
                capped_sum(old(self).total_capacity_in_observations, heap_capacity),
            ),
            final(self).time == old(self).time,
    {
        self.time.iterate(heap_length, heap_capacity);
        self.num_iterations = self.num_iterations.saturating_add(1);

        self.max_num_items = max_of(self.max_num_items, heap_length);
        self.total_num_items_in_observations = self.total_num_items_in_observations.saturating_add(heap_length);

        self.max_capacity = max_of(self.max_capacity, heap_capacity);
        self.total_capacity_in_observations = self.total_capacity_in_observations.saturating_add(heap_capacity);
    }

    /// The counts stay as they are, and the time is taken.
    fn finalize(&mut self, _shortest_distance: Option<Weight>)
        ensures
            final(self).counts() == old(self).counts(),
            final(self).time.start_time == old(self).time.start_time,
            final(self).time.elapsed_nanos < NOT_STOPPED,
    {
        self.time.stop()
    }
}

} // verus!
