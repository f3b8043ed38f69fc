//! The room that the frontier took over the queries of a treatment.
use crate::algorithm::measure::memory::{capped_sum, larger, max_of, Memory};
use crate::algorithm::measure::treatment_measure::treatment_core::TreatmentMeasure;
use crate::algorithm::measure::treatment_measure::time::{capped_nanos, counted, TreatmentTime};
use vstd::prelude::*;

verus! {

pub struct TreatmentMemory {
    pub time: TreatmentTime,
    pub num_iterations: usize,
    pub max_num_items: usize,
    pub total_num_items_in_observations: usize,
    pub max_capacity: usize,
    pub total_capacity_in_observations: usize,
}

impl Default for TreatmentMemory {
    fn default() -> (aggregate: Self)
        ensures
            aggregate.counts() == (0usize, 0usize, 0usize, 0usize, 0usize),
            aggregate.time.count == 0,
            aggregate.time.total_elapsed_nanos == 0,
    {
        Self {
            time: TreatmentTime::default(),
            num_iterations: 0,
            max_num_items: 0,
            total_num_items_in_observations: 0,
            max_capacity: 0,
            total_capacity_in_observations: 0,
        }
    }
}

impl TreatmentMemory {
    /// The counts of the aggregate: the number of steps, the greatest
    /// length, the sum of the lengths, the greatest capacity and the sum of
    /// the capacities.
    pub open spec fn counts(&self) -> (usize, usize, usize, usize, usize) {
        (
            self.num_iterations,
            self.max_num_items,
            self.total_num_items_in_observations,
            self.max_capacity,
            self.total_capacity_in_observations,
        )
    }

    /// The sum of the lengths and the number of steps, of which the
    /// average length of the frontier is the quotient; `None` where no
    /// step was counted and the average is zero.
    pub fn average_heap_size(&self) -> (parts: Option<(usize, usize)>)
        ensures
            parts == if self.num_iterations == 0 {
                None
            } else {
                Some((self.total_num_items_in_observations, self.num_iterations))
            },
    {
        if self.num_iterations == 0 {
            None
        } else {
            Some((self.total_num_items_in_observations, self.num_iterations))
        }
    }

    /// The sum of the capacities and the number of steps, of which the
    /// average capacity of the frontier is the quotient; `None` where no
    /// step was counted and the average is zero.
    pub fn average_heap_capacity(&self) -> (parts: Option<(usize, usize)>)
        ensures
            parts == if self.num_iterations == 0 {
                None
            } else {
                Some((self.total_capacity_in_observations, self.num_iterations))
            },
    {
        if self.num_iterations == 0 {
            None
        } else {
            Some((self.total_capacity_in_observations, self.num_iterations))
        }
    }
}

/// The counts of an aggregate that has taken in one more measure: the
/// sums are added, and the greater of the greatest values are kept.
pub open spec fn merged(
    counts: (usize, usize, usize, usize, usize),
    more: (usize, usize, usize, usize, usize),
) -> (usize, usize, usize, usize, usize) {
    (
        capped_sum(counts.0, more.0),
        larger(counts.1, more.1),
        capped_sum(counts.2, more.2),
        larger(counts.3, more.3),
        capped_sum(counts.4, more.4),
    )
}

/// The order in which two measures are taken in does not matter.
pub proof fn lemma_merged_in_any_order(
    counts: (usize, usize, usize, usize, usize),
    first: (usize, usize, usize, usize, usize),
    second: (usize, usize, usize, usize, usize),
)
    ensures
        merged(merged(counts, first), second) == merged(merged(counts, second), first),
{
}

impl TreatmentMeasure for TreatmentMemory {
    type M = Memory;

    open spec fn is_neutral(&self) -> bool {
        self.counts() == (0usize, 0usize, 0usize, 0usize, 0usize) && self.time.is_neutral()
    }

    open spec fn is_faultless(&self) -> bool {
        true
    }

    /// The counts are merged, and the time is taken in.
    open spec fn takes_in(before: Self, run_measure: Self::M, after: Self) -> bool {
        &&& after.counts() == merged(before.counts(), run_measure.counts())
        &&& TreatmentTime::takes_in(before.time, run_measure.time, after.time)
    }

    proof fn lemma_default_is_neutral(made: Self) {
    }

    proof fn lemma_neutral_is_faultless(&self) {
    }

    /// Adds the sums and keeps the greater of the greatest values. The
    /// sums stop at the largest count.
    fn aggregate(&mut self, run_measure: Self::M)
        ensures
            final(self).counts() == merged(old(self).counts(), run_measure.counts()),
            final(self).time.count == counted(old(self).time.count),
            final(self).time.total_elapsed_nanos == capped_nanos(
                old(self).time.total_elapsed_nanos,
                run_measure.time.elapsed_nanos,
            ),
    {
        self.num_iterations = self.num_iterations.saturating_add(run_measure.num_iterations);

        self.max_num_items = max_of(self.max_num_items, run_measure.max_num_items);
        self.total_num_items_in_observations = self.total_num_items_in_observations.saturating_add(
            run_measure.total_num_items_in_observations,
        );

        self.max_capacity = max_of(self.max_capacity, run_measure.max_capacity);
        self.total_capacity_in_observations = self.total_capacity_in_observations.saturating_add(
            run_measure.total_capacity_in_observations,
        );

        self.time.aggregate(run_measure.time);
    }
}

} // verus!
