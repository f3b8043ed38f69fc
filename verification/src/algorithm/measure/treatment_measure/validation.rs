//! The wrong results of a treatment.
use crate::algorithm::measure::run_measure::Measure;
use crate::algorithm::measure::treatment_measure::treatment_core::TreatmentMeasure;
use crate::algorithm::measure::validation::Validation;
use crate::graph::adjacency::Adjacency;
use crate::graph::walks::is_answer;
use crate::Weight;
use crate::utils::text::{append_decimal, decimal_string, decimal_text, texts};
use vstd::prelude::*;
use vstd::string::StringExecFns;

verus! {

/// The measures of the queries whose result was not that of the
/// reference, in the order of the queries.
pub struct TreatmentValidation {
    pub wrong_results: Vec<Validation>,
}

impl Default for TreatmentValidation {
    fn default() -> (aggregate: Self)
        ensures
            aggregate.wrong_results@.len() == 0,
    {
        Self { wrong_results: Vec::new() }
    }
}

impl TreatmentValidation {
    /// The number of wrong results.
    pub fn num_wrong_results(&self) -> (n: usize)
        ensures
            n == self.wrong_results@.len(),
    {
        self.wrong_results.len()
    }

    /// Source and sink of the first wrong result.
    pub fn first_wrong_pair(&self) -> (pair: Option<(usize, usize)>)
        ensures
            pair == if self.wrong_results@.len() == 0 {
                None
            } else {
                Some((self.wrong_results@[0].source, self.wrong_results@[0].sink))
            },
    {
        if self.wrong_results.len() == 0 {
            None
        } else {
            Some((self.wrong_results[0].source, self.wrong_results[0].sink))
        }
    }
}

impl TreatmentValidation {
    /// What the row of the results says of the validation: the number of
    /// wrong results, and source and sink of the first of them with a
    /// hyphen between them, nothing where there is none.
    pub open spec fn result_texts(&self) -> Seq<Seq<char>> {
        seq![
            decimal_text(self.wrong_results@.len()),
            if self.wrong_results@.len() == 0 {
                Seq::empty()
            } else {
                decimal_text(self.wrong_results@[0].source as nat) + "-"@ + decimal_text(
                    self.wrong_results@[0].sink as nat,
                )
            },
        ]
    }

    pub fn result_cells(&self) -> (cells: Vec<String>)
        ensures
            texts(cells@) == self.result_texts(),
    {
        let mut cells: Vec<String> = Vec::new();
        cells.push(decimal_string(self.wrong_results.len() as u64));
        let mut pair = String::new();
        match self.first_wrong_pair() {
            Some((source, sink)) => {
                append_decimal(&mut pair, source as u64);
                pair.append("-");
                append_decimal(&mut pair, sink as u64);
            },
            None => {},
        }
        cells.push(pair);
        assert(texts(cells@) =~= self.result_texts());
        cells
    }
}

impl TreatmentMeasure for TreatmentValidation {
    type M = Validation;

    open spec fn is_neutral(&self) -> bool {
        self.wrong_results@.len() == 0
    }

    open spec fn is_faultless(&self) -> bool {
        self.wrong_results@.len() == 0
    }

    /// The measure is kept, behind those that were kept before, if its
    /// result is wrong.
    open spec fn takes_in(before: Self, run_measure: Self::M, after: Self) -> bool {
        after.wrong_results@ == if run_measure.correct_shortest_distance == run_measure.found_shortest_distance {
            before.wrong_results@
        } else {
            before.wrong_results@.push(run_measure)
        }
    }

    proof fn lemma_default_is_neutral(made: Self) {
    }

    proof fn lemma_neutral_is_faultless(&self) {
    }

    /// Keeps the measure if its result is wrong.
    fn aggregate(&mut self, run_measure: Self::M)
        ensures
            final(self).wrong_results@ == if run_measure.correct_shortest_distance
                == run_measure.found_shortest_distance {
                old(self).wrong_results@
            } else {
                old(self).wrong_results@.push(run_measure)
            },
    {
        proof {
            assert forall|adjacency: Adjacency, source: usize, sink: usize, found: Option<Weight>| #[trigger]
                run_measure.observes(adjacency, source, sink, Some(found)) && is_answer(
                    adjacency,
                    source,
                    sink,
                    found,
                ) implies run_measure.correct_shortest_distance == run_measure.found_shortest_distance by {
                run_measure.lemma_answer_is_correct(adjacency, source, sink, found);
            }
        }
        if !run_measure.is_correct() {
            self.wrong_results.push(run_measure);
        }
    }
}

} // verus!
