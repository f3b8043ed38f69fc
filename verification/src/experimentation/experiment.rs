//! An experiment: the levels of each factor, and the treatments that
//! combine them.
use crate::experimentation::factors::algorithm::factor_algorithm::FactorAlgorithm;
use crate::experimentation::factors::algorithm_data::FactorAlgorithmData;
use crate::experimentation::factors::graph_data::factor_graph_data::FactorGraphData;
use crate::experimentation::factors::graph_representation::FactorGraphRepresentation;
use crate::experimentation::factors::pairs::FactorPairs;
use crate::experimentation::measurement::Measurement;
use crate::experimentation::treatment::Treatment;
use crate::utils::places::{lemma_place_bounds, lemma_place_carry, lemma_place_first, place};
use crate::algorithm::measure::run_measure::Measure;
use crate::algorithm::measure::treatment_measure::treatment_core::TreatmentMeasure;
use crate::algorithm::run_attempt::RunAttempt;
use crate::experimentation::factors::factor::Factor;
use crate::utils::text::{append_decimal, decimal_text, kept, push_if, texts};
use vstd::prelude::*;
use vstd::string::StringExecFns;

verus! {

pub struct Experiment {
    pub measurement: Measurement,
    pub graph_data: Vec<FactorGraphData>,
    pub graph_representation: Vec<FactorGraphRepresentation>,
    pub algorithm: Vec<FactorAlgorithm>,
    pub algorithm_data: Vec<FactorAlgorithmData>,
    pub pairs: Vec<FactorPairs>,
}

/// What is to be done once a treatment has been run.
pub struct Step {
    /// The treatment succeeded: its row is to be written.
    pub write_row: bool,
    /// The treatment was not completed: the message is to be shown.
    pub error: Option<String>,
    /// The rows that were written are to be flushed.
    pub flush: bool,
}

/// The progress of the run of an experiment: its treatments are run one
/// after the other, and those that are not completed are counted.
pub struct ExperimentRun {
    num_treatments: usize,
    next: usize,
    num_not_completed: usize,
}

/// The rows are flushed after every this many treatments.
pub const FLUSH_EVERY: usize = 100;

/// What is shown of a treatment that was not completed.
pub open spec fn not_completed_text(index: usize, why: Seq<char>) -> Seq<char> {
    "[T-"@ + decimal_text(index as nat) + "-NotCompleted] "@ + why + "\n"@
}

impl ExperimentRun {
    #[verifier::type_invariant]
    spec fn well_formed(&self) -> bool {
        self.num_not_completed <= self.next <= self.num_treatments
    }

    /// The number of the treatment that is to be run next.
    pub closed spec fn position(&self) -> usize {
        self.next
    }

    pub closed spec fn total(&self) -> usize {
        self.num_treatments
    }

    /// The number of treatments that were not completed.
    pub closed spec fn failures(&self) -> usize {
        self.num_not_completed
    }

    /// The run of `num_treatments` treatments, before the first.
    pub fn new(num_treatments: usize) -> (run: Self)
        ensures
            run.position() == 0,
            run.failures() == 0,
            run.total() == num_treatments,
    {
        Self { num_treatments, next: 0, num_not_completed: 0 }
    }

    /// The treatment that is to be run next, `None` once all are run.
    pub fn next_treatment(&self) -> (next: Option<usize>)
        ensures
            next == if self.position() < self.total() {
                Some(self.position())
            } else {
                None
            },
            self.failures() <= self.position() <= self.total(),
    {
        proof {
            use_type_invariant(self);
        }
        if self.next < self.num_treatments {
            Some(self.next)
        } else {
            None
        }
    }

    pub fn num_not_completed(&self) -> (count: usize)
        ensures
            count == self.failures(),
    {
        self.num_not_completed
    }

    /// Takes note of how the next treatment ended and says what is to be
    /// done: a treatment that succeeded gets its row, one that was not
    /// completed is counted and its reason shown, and the rows are flushed
    /// after the first treatment and then after every hundredth.
    pub fn record<M: Measure, E: TreatmentMeasure<M = M>>(
        &mut self,
        attempt: &RunAttempt<M, E>,
    ) -> (step: Step)
        requires
            old(self).position() < old(self).total(),
        ensures
            final(self).position() == old(self).position() + 1,
            final(self).total() == old(self).total(),
            step.flush == (old(self).position() % FLUSH_EVERY == 0),
            match *attempt {
                RunAttempt::Succeeded(_) => {
                    &&& step.write_row
                    &&& step.error is None
                    &&& final(self).failures() == old(self).failures()
                },
                RunAttempt::NotCompleted(why) => {
                    &&& !step.write_row
                    &&& step.error matches Some(message)
                    &&& message@ == not_completed_text(old(self).position(), why@)
                    &&& final(self).failures() == old(self).failures() + 1
                },
            },
    {
        proof {
            use_type_invariant(&*self);
        }
        let t = self.next;
        let step = match attempt {
            RunAttempt::NotCompleted(why) => {
                let mut message = String::from_str("[T-");
                append_decimal(&mut message, t as u64);
                message.append("-NotCompleted] ");
                message.append(why.as_str());
                message.append("\n");
                assert(message@ =~= not_completed_text(t, why@));
                Step { write_row: false, error: Some(message), flush: t % FLUSH_EVERY == 0 }
            },
            RunAttempt::Succeeded(_) => Step { write_row: true, error: None, flush: t % FLUSH_EVERY == 0 },
        };
        let failed: usize = if step.write_row {
            0
        } else {
            1
        };
        let moved = Self {
            num_treatments: self.num_treatments,
            next: t + 1,
            num_not_completed: self.num_not_completed + failed,
        };
        *self = moved;
        step
    }
}

impl Experiment {
    /// Which of the five factors have more than one level.
    pub open spec fn varies(&self) -> (bool, bool, bool, bool, bool) {
        (
            self.graph_data@.len() > 1,
            self.graph_representation@.len() > 1,
            self.algorithm@.len() > 1,
            self.algorithm_data@.len() > 1,
            self.pairs@.len() > 1,
        )
    }

    /// The names of the five factors.
    pub open spec fn factor_texts() -> Seq<Seq<char>> {
        seq![
            FactorGraphData::factor_text(),
            FactorGraphRepresentation::factor_text(),
            FactorAlgorithm::factor_text(),
            FactorAlgorithmData::factor_text(),
            FactorPairs::factor_text(),
        ]
    }

    /// The heads of the first columns of a table of treatments: `i` for
    /// the number of the treatment, and the name of every factor that has
    /// more than one level.
    pub open spec fn header_texts(&self) -> Seq<Seq<char>> {
        seq!["i"@] + kept(self.varies(), Self::factor_texts())
    }

    pub fn table_header(&self) -> (cells: Vec<String>)
        ensures
            texts(cells@) == self.header_texts(),
    {
        let mut cells: Vec<String> = Vec::new();
        cells.push(String::from_str("i"));
        push_if(&mut cells, self.graph_data.len() > 1, String::from_str(FactorGraphData::name_factor()));
        push_if(
            &mut cells,
            self.graph_representation.len() > 1,
            String::from_str(FactorGraphRepresentation::name_factor()),
        );
        push_if(&mut cells, self.algorithm.len() > 1, String::from_str(FactorAlgorithm::name_factor()));
        push_if(&mut cells, self.algorithm_data.len() > 1, String::from_str(FactorAlgorithmData::name_factor()));
        push_if(&mut cells, self.pairs.len() > 1, String::from_str(FactorPairs::name_factor()));
        assert(texts(cells@) =~= self.header_texts());
        cells
    }

    /// The heads of the columns of the results: those of the table of
    /// treatments, and those of what is measured.
    pub fn result_header(&self) -> (cells: Vec<String>)
        ensures
            texts(cells@) == self.header_texts() + self.measurement.column_texts(),
    {
        let mut cells = self.table_header();
        let mut columns = self.measurement.result_columns();
        let ghost first = cells@;
        let ghost second = columns@;
        cells.append(&mut columns);
        assert(texts(cells@) =~= texts(first) + texts(second));
        cells
    }

    /// The product of the numbers of levels of the five factors.
    pub open spec fn treatment_count(&self) -> int {
        (self.graph_data@.len() * self.graph_representation@.len() * self.algorithm@.len()
            * self.algorithm_data@.len() * self.pairs@.len()) as int
    }

    /// The treatment that combines the levels at the given places.
    pub open spec fn treatment_of(&self, i: int, j: int, k: int, l: int, m: int) -> Treatment {
        Treatment {
            graph_data: self.graph_data@[i],
            graph_representation: self.graph_representation@[j],
            algorithm: self.algorithm@[k],
            algorithm_data: self.algorithm_data@[l],
            pairs: self.pairs@[m],
        }
    }

    /// The rank of that treatment among all: the pairs vary fastest, then
    /// the caching, the algorithm, the representation and the graph data.
    pub open spec fn rank(&self, i: int, j: int, k: int, l: int, m: int) -> int {
        place(
            place(
                place(place(i, self.graph_representation@.len() as int, j), self.algorithm@.len() as int, k),
                self.algorithm_data@.len() as int,
                l,
            ),
            self.pairs@.len() as int,
            m,
        )
    }

    /// The treatment at a rank.
    pub open spec fn treatment_at(&self, rank: int) -> Treatment {
        let m = rank % (self.pairs@.len() as int);
        let above_pairs = rank / (self.pairs@.len() as int);
        let l = above_pairs % (self.algorithm_data@.len() as int);
        let above_data = above_pairs / (self.algorithm_data@.len() as int);
        let k = above_data % (self.algorithm@.len() as int);
        let above_algorithm = above_data / (self.algorithm@.len() as int);
        let j = above_algorithm % (self.graph_representation@.len() as int);
        let i = above_algorithm / (self.graph_representation@.len() as int);
        self.treatment_of(i, j, k, l, m)
    }

    /// All treatments in their order.
    pub open spec fn treatments(&self) -> Seq<Treatment> {
        Seq::new(self.treatment_count() as nat, |rank: int| self.treatment_at(rank))
    }

    /// The treatment of the levels at `(i, j, k, l, m)` stands at its rank.
    pub proof fn lemma_treatment_at_rank(&self, i: int, j: int, k: int, l: int, m: int)
        requires
            0 <= i < self.graph_data@.len(),
            0 <= j < self.graph_representation@.len(),
            0 <= k < self.algorithm@.len(),
            0 <= l < self.algorithm_data@.len(),
            0 <= m < self.pairs@.len(),
        ensures
            0 <= self.rank(i, j, k, l, m) < self.treatment_count(),
            self.treatments()[self.rank(i, j, k, l, m)] == self.treatment_of(i, j, k, l, m),
    {
        let g = self.graph_data@.len() as int;
        let r = self.graph_representation@.len() as int;
        let a = self.algorithm@.len() as int;
        let c = self.algorithm_data@.len() as int;
        let p = self.pairs@.len() as int;
        lemma_place_bounds(i, g, r, j);
        lemma_place_bounds(place(i, r, j), g * r, a, k);
        lemma_place_bounds(place(place(i, r, j), a, k), g * r * a, c, l);
        lemma_place_bounds(place(place(place(i, r, j), a, k), c, l), g * r * a * c, p, m);
    }

    /// The number of treatments, where it is a `usize`.
    pub fn num_treatments(&self) -> (n: usize)
        requires
            self.treatment_count() <= usize::MAX,
        ensures
            n == self.treatment_count(),
    {
        let g = self.graph_data.len();
        let r = self.graph_representation.len();
        let a = self.algorithm.len();
        let c = self.algorithm_data.len();
        let p = self.pairs.len();
        if g == 0 || r == 0 || a == 0 || c == 0 || p == 0 {
            assert(g * r * a * c * p == 0) by (nonlinear_arith)
                requires
                    g == 0 || r == 0 || a == 0 || c == 0 || p == 0,
            ;
            return 0;
        }
        assert(g * r <= g * r * a * c * p && g * r * a <= g * r * a * c * p && g * r * a * c <= g * r * a * c * p)
            by (nonlinear_arith)
            requires
                g >= 1,
                r >= 1,
                a >= 1,
                c >= 1,
                p >= 1,
        ;
        g * r * a * c * p
    }

    /// The number of treatments, `None` where it is no `usize`.
    pub fn checked_num_treatments(&self) -> (n: Option<usize>)
        ensures
            match n {
                Some(n) => n == self.treatment_count(),
                None => self.treatment_count() > usize::MAX,
            },
    {
        let g = self.graph_data.len();
        let r = self.graph_representation.len();
        let a = self.algorithm.len();
        let c = self.algorithm_data.len();
        let p = self.pairs.len();
        if g == 0 || r == 0 || a == 0 || c == 0 || p == 0 {
            assert(g * r * a * c * p == 0) by (nonlinear_arith)
                requires
                    g == 0 || r == 0 || a == 0 || c == 0 || p == 0,
            ;
            return Some(0);
        }
        assert(g * r <= g * r * a * c * p && g * r * a <= g * r * a * c * p && g * r * a * c <= g * r * a * c * p)
            by (nonlinear_arith)
            requires
                g >= 1,
                r >= 1,
                a >= 1,
                c >= 1,
                p >= 1,
        ;
        let gr = match g.checked_mul(r) {
            Some(x) => x,
            None => {
                return None;
            },
        };
        let gra = match gr.checked_mul(a) {
            Some(x) => x,
            None => {
                return None;
            },
        };
        let grac = match gra.checked_mul(c) {
            Some(x) => x,
            None => {
                return None;
            },
        };
        grac.checked_mul(p)
    }

    /// All treatments: every combination of levels once, the pairs varying
    /// fastest, then the caching, the algorithm, the representation and the
    /// graph data.
    pub fn create_treatments(&self) -> (treatments: Vec<Treatment>)
        ensures
            treatments@ == self.treatments(),
            treatments@.len() == self.treatment_count(),
    {
        let mut treatments: Vec<Treatment> = Vec::new();
        let ghost r = self.graph_representation@.len() as int;
        let ghost a = self.algorithm@.len() as int;
        let ghost c = self.algorithm_data@.len() as int;
        let ghost p = self.pairs@.len() as int;
        proof {
            lemma_place_first(r);
            lemma_place_first(a);
            lemma_place_first(c);
            lemma_place_first(p);
        }
        let mut i: usize = 0;
        while i < self.graph_data.len()
            invariant
                i <= self.graph_data@.len(),
                self.built(treatments@, self.rank(i as int, 0, 0, 0, 0)),
                r == self.graph_representation@.len(),
                a == self.algorithm@.len(),
                c == self.algorithm_data@.len(),
                p == self.pairs@.len(),
            decreases self.graph_data@.len() - i,
        {
            let graph_data = self.graph_data[i];
            let mut j: usize = 0;
            while j < self.graph_representation.len()
                invariant
                    i < self.graph_data@.len(),
                    graph_data == self.graph_data@[i as int],
                    j <= self.graph_representation@.len(),
                    self.built(treatments@, self.rank(i as int, j as int, 0, 0, 0)),
                    r == self.graph_representation@.len(),
                    a == self.algorithm@.len(),
                    c == self.algorithm_data@.len(),
                    p == self.pairs@.len(),
                decreases self.graph_representation@.len() - j,
            {
                let graph_representation = self.graph_representation[j];
                let mut k: usize = 0;
                while k < self.algorithm.len()
                    invariant
                        i < self.graph_data@.len(),
                        graph_data == self.graph_data@[i as int],
                        j < self.graph_representation@.len(),
                        graph_representation == self.graph_representation@[j as int],
                        k <= self.algorithm@.len(),
                        self.built(treatments@, self.rank(i as int, j as int, k as int, 0, 0)),
                        r == self.graph_representation@.len(),
                        a == self.algorithm@.len(),
                        c == self.algorithm_data@.len(),
                        p == self.pairs@.len(),
                    decreases self.algorithm@.len() - k,
                {
                    let algorithm = self.algorithm[k];
                    let mut l: usize = 0;
                    while l < self.algorithm_data.len()
                        invariant
                            i < self.graph_data@.len(),
                            graph_data == self.graph_data@[i as int],
                            j < self.graph_representation@.len(),
                            graph_representation == self.graph_representation@[j as int],
                            k < self.algorithm@.len(),
                            algorithm == self.algorithm@[k as int],
                            l <= self.algorithm_data@.len(),
                            self.built(treatments@, self.rank(i as int, j as int, k as int, l as int, 0)),
                            r == self.graph_representation@.len(),
                            a == self.algorithm@.len(),
                            c == self.algorithm_data@.len(),
                            p == self.pairs@.len(),
                        decreases self.algorithm_data@.len() - l,
                    {
                        let algorithm_data = self.algorithm_data[l];
                        let mut m: usize = 0;
                        while m < self.pairs.len()
                            invariant
                                i < self.graph_data@.len(),
                                graph_data == self.graph_data@[i as int],
                                j < self.graph_representation@.len(),
                                graph_representation == self.graph_representation@[j as int],
                                k < self.algorithm@.len(),
                                algorithm == self.algorithm@[k as int],
                                l < self.algorithm_data@.len(),
                                algorithm_data == self.algorithm_data@[l as int],
                                m <= self.pairs@.len(),
                                self.built(
                                    treatments@,
                                    self.rank(i as int, j as int, k as int, l as int, m as int),
                                ),
                                r == self.graph_representation@.len(),
                                a == self.algorithm@.len(),
                                c == self.algorithm_data@.len(),
                                p == self.pairs@.len(),
                            decreases self.pairs@.len() - m,
                        {
                            let pairs = self.pairs[m];
                            proof {
                                self.lemma_treatment_at_rank(i as int, j as int, k as int, l as int, m as int);
                            }
                            treatments.push(
                                Treatment { graph_data, graph_representation, algorithm, algorithm_data, pairs },
                            );
                            m = m + 1;
                        }
                        proof {
                            lemma_place_carry(
                                place(place(place(i as int, r, j as int), a, k as int), c, l as int),
                                p,
                            );
                        }
                        l = l + 1;
                    }
                    proof {
                        lemma_place_carry(place(place(i as int, r, j as int), a, k as int), c);
                    }
                    k = k + 1;
                }
                proof {
                    lemma_place_carry(place(i as int, r, j as int), a);
                }
                j = j + 1;
            }
            proof {
                lemma_place_carry(i as int, r);
            }
            i = i + 1;
        }
        proof {
            assert(self.rank(i as int, 0, 0, 0, 0) == self.treatment_count());
            assert(treatments@ =~= self.treatments());
        }
        treatments
    }

    /// `built` holds the first `count` treatments.
    pub open spec fn built(&self, built: Seq<Treatment>, count: int) -> bool {
        &&& built.len() == count
        &&& forall|rank: int| 0 <= rank < count ==> #[trigger] built[rank] == self.treatment_at(rank)
    }
}

} // verus!
