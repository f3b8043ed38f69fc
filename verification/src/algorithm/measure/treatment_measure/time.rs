//! The time that the queries of a treatment took.
use crate::algorithm::measure::time::Time;
use crate::algorithm::measure::treatment_measure::treatment_core::TreatmentMeasure;
use vstd::prelude::*;

verus! {

pub struct TreatmentTime {
    /// The number of queries.
    pub count: usize,
    /// The time that the queries took in nanoseconds.
    pub total_elapsed_nanos: u128,
}

/// The sum of two times, the largest time where the sum is beyond it.
pub open spec fn capped_nanos(a: u128, b: u128) -> u128 {
    if a + b > u128::MAX {
        u128::MAX
    } else {
        (a + b) as u128
    }
}

/// One more than a count, the largest count where it is reached.
pub open spec fn counted(count: usize) -> usize {
    if count == usize::MAX {
        usize::MAX
    } else {
        (count + 1) as usize
    }
}

/// The order in which two times are added does not matter.
pub proof fn lemma_capped_nanos_in_any_order(total: u128, first: u128, second: u128)
    ensures
        capped_nanos(capped_nanos(total, first), second) == capped_nanos(capped_nanos(total, second), first),
{
}

impl Default for TreatmentTime {
    fn default() -> (aggregate: Self)
        ensures
            aggregate.count == 0,
            aggregate.total_elapsed_nanos == 0,
    {
        Self { count: 0, total_elapsed_nanos: 0 }
    }
}

impl TreatmentTime {
    /// The time per query in nanoseconds, rounded down; zero where there
    /// was no query.
    pub fn elapsed_nanos_per_treatment(&self) -> (nanos: u128)
        ensures
            nanos == if self.count == 0 {
                0
            } else {
                self.total_elapsed_nanos as int / self.count as int
            },
    {
        if self.count == 0 {
            0
        } else {
            self.total_elapsed_nanos / (self.count as u128)
        }
    }
}

impl TreatmentMeasure for TreatmentTime {
    type M = Time;

    open spec fn is_neutral(&self) -> bool {
        self.count == 0 && self.total_elapsed_nanos == 0
    }

    open spec fn is_faultless(&self) -> bool {
        true
    }

    /// The query is counted and its time added.
    open spec fn takes_in(before: Self, run_measure: Self::M, after: Self) -> bool {
        &&& after.count == counted(before.count)
        &&& after.total_elapsed_nanos == capped_nanos(before.total_elapsed_nanos, run_measure.elapsed_nanos)
    }

    proof fn lemma_default_is_neutral(made: Self) {
    }

    proof fn lemma_neutral_is_faultless(&self) {
    }

    /// Counts the query and adds its time. Count and sum stop at their
    /// largest values.
    fn aggregate(&mut self, run_measure: Self::M)
        ensures
            final(self).count == counted(old(self).count),
            final(self).total_elapsed_nanos == capped_nanos(
                old(self).total_elapsed_nanos,
                run_measure.elapsed_nanos,
            ),
    {
        self.count = self.count.saturating_add(1);
        self.total_elapsed_nanos = self.total_elapsed_nanos.saturating_add(run_measure.elapsed_nanos);
    }
}

} // verus!
