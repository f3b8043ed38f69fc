//! How the run of a treatment ended.
use crate::algorithm::measure::run_measure::Measure;
use crate::algorithm::measure::treatment_measure::treatment_core::TreatmentMeasure;
use vstd::prelude::*;

verus! {

#[verifier::reject_recursive_types(M)]
pub enum RunAttempt<M, E> where M: Measure, E: TreatmentMeasure<M = M> {
    /// All queries were answered; their measures are put together.
    Succeeded(E),
    /// No query was run, for the reason given.
    NotCompleted(String),
}

} // verus!
