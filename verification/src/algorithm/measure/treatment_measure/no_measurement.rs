//! The aggregate of measures that measure nothing.
use crate::algorithm::measure::no_measurement::NoMeasurement;
use crate::algorithm::measure::treatment_measure::treatment_core::TreatmentMeasure;
use vstd::prelude::*;

verus! {

pub struct TreatmentNoMeasurement;

impl Default for TreatmentNoMeasurement {
    fn default() -> (aggregate: Self) {
        Self
    }
}

impl TreatmentMeasure for TreatmentNoMeasurement {
    type M = NoMeasurement;

    open spec fn is_neutral(&self) -> bool {
        true
    }

    open spec fn is_faultless(&self) -> bool {
        true
    }

    open spec fn takes_in(before: Self, run_measure: Self::M, after: Self) -> bool {
        true
    }

    proof fn lemma_default_is_neutral(made: Self) {
    }

    proof fn lemma_neutral_is_faultless(&self) {
    }

    fn aggregate(&mut self, _run_measure: Self::M) {
    }
}

} // verus!
