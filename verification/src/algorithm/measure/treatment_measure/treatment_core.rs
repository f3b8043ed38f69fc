//! What every aggregate of measures offers.
use crate::algorithm::measure::run_measure::Measure;
use crate::graph::adjacency::Adjacency;
use crate::graph::walks::is_answer;
use crate::Weight;
use vstd::prelude::*;

verus! {

/// The aggregate of the measures of the queries of one treatment. It
/// starts as what `default` makes and takes the measures in one by one.
pub trait TreatmentMeasure: Default {
    type M: Measure;

    /// Whether this is the aggregate of no measures.
    spec fn is_neutral(&self) -> bool;

    /// Whether the aggregate reports no query that was answered wrongly.
    spec fn is_faultless(&self) -> bool;

    /// Whether `after` is `before` with the measure taken in.
    spec fn takes_in(before: Self, run_measure: Self::M, after: Self) -> bool;

    /// What `default` makes is the aggregate of no measures.
    proof fn lemma_default_is_neutral(made: Self)
        requires
            call_ensures(Self::default, (), made),
        ensures
            made.is_neutral(),
    ;

    /// The aggregate of no measures reports no wrong answer.
    proof fn lemma_neutral_is_faultless(&self)
        requires
            self.is_neutral(),
        ensures
            self.is_faultless(),
    ;

    /// Takes in the measure of one more query. The measure of a query that
    /// was closed with its answer adds no fault.
    fn aggregate(&mut self, run_measure: Self::M)
        ensures
            Self::takes_in(*old(self), run_measure, *final(self)),
            forall|adjacency: Adjacency, source: usize, sink: usize, found: Option<Weight>|
                old(self).is_faultless() && #[trigger] run_measure.observes(
                    adjacency,
                    source,
                    sink,
                    Some(found),
                ) && is_answer(adjacency, source, sink, found) ==> final(self).is_faultless(),
    ;
}

} // verus!
