//! One combination of levels, one of each factor, and its run.
use crate::algorithm::measure::run_measure::Measure;
use crate::algorithm::measure::treatment_measure::treatment_core::TreatmentMeasure;
use crate::algorithm::orx_pq_dijkstra::OrxPqDijkstra;
use crate::algorithm::orx_pqdeckey_dijkstra::{
    OrxDaryHeapOfIndices, OrxDaryHeapWithMap, OrxPqDecKeyDijkstra,
};
use crate::algorithm::petgraph_dijkstra::PetgraphDijsktra;
use crate::algorithm::priority_queue_priority_queue::PriorityQueuePqDecKeyDijkstra;
use crate::algorithm::run_attempt::RunAttempt;
use crate::algorithm::sd_algorithm::ShortestDistanceAlgorithm;
use crate::algorithm::solution::Solution;
use crate::algorithm::std_pq_dijkstra::StdPqDijkstra;
use crate::experimentation::factors::algorithm::dary::Dary;
use crate::experimentation::factors::algorithm::dijkstra::Dijkstra;
use crate::experimentation::factors::algorithm::factor_algorithm::FactorAlgorithm;
use crate::experimentation::factors::algorithm::priority_queue::PriorityQueue;
use crate::experimentation::factors::algorithm::priority_queue_deckey::PriorityQueueDecKey;
use crate::experimentation::factors::algorithm_data::FactorAlgorithmData;
use crate::experimentation::factors::graph_data::factor_graph_data::{
    FactorGraphData, GraphFault, GraphSource,
};
use crate::experimentation::factors::graph_representation::FactorGraphRepresentation;
use crate::experimentation::factors::pairs::FactorPairs;
use crate::graph::adjacency::{heads_in_range, Adjacency};
use crate::graph::adjlist_flat_vec::AdjListFlatVecBuilder;
use crate::graph::adjlist_jagged_vec::AdjListJaggedVec;
use crate::graph::adjlist_petgraph::AdjListPetgraph;
use crate::graph::sp_graph::SpGraph;
use crate::graph::sp_graph_builder::SpGraphBuilder;
use crate::graph::validity::{
    has_valid_heads, lemma_bounded_weights_fit, weights_bounded, weights_fit,
};
use crate::experimentation::experiment::Experiment;
use crate::experimentation::factors::factor::Factor;
use crate::utils::text::{decimal_string, decimal_text, joined, joined_text, kept, push_if, texts};
use crate::graph::walks::is_answer;
use crate::Weight;
use vstd::pervasive::unreached;
use vstd::prelude::*;
use vstd::string::StringExecFns;

verus! {

#[derive(Clone, Copy, Debug, PartialEq, Eq, Structural)]
pub struct Treatment {
    pub graph_data: FactorGraphData,
    pub graph_representation: FactorGraphRepresentation,
    pub algorithm: FactorAlgorithm,
    pub algorithm_data: FactorAlgorithmData,
    pub pairs: FactorPairs,
}

/// Why the shortest-path routine of `petgraph` is not run on another
/// graph than that of `petgraph`.
pub const MISMATCH: &'static str =
    "(graph, algorithm) mismatch:\npetgraph::algo::Dijkstra can only be run with petgraph::graph::Graph";

impl Treatment {
    /// Algorithm and graph representation do not go together.
    pub open spec fn is_mismatch(&self) -> bool {
        &&& self.algorithm == FactorAlgorithm::Dijkstra(Dijkstra::Petgraph)
        &&& self.graph_representation != FactorGraphRepresentation::AdjListPetgraph
    }

    /// The run was refused, with the reason why.
    pub open spec fn is_refusal<M: Measure, E: TreatmentMeasure<M = M>>(
        &self,
        result: Result<RunAttempt<M, E>, GraphFault>,
    ) -> bool {
        result matches Ok(RunAttempt::NotCompleted(reason)) && reason@ == MISMATCH@
    }

    /// Queries can be run on the graph: its edges lead to nodes, its
    /// weights are bounded, and it has a node if pairs are to be drawn.
    pub open spec fn fits(&self, adjacency: Adjacency) -> bool {
        &&& heads_in_range(adjacency)
        &&& weights_bounded(adjacency)
        &&& self.pairs.num_pairs > 0 ==> adjacency.len() > 0
    }

    /// `fault` is the first reason why no queries can be run on the graph.
    pub open spec fn unfit(&self, adjacency: Adjacency, fault: GraphFault) -> bool {
        match fault {
            GraphFault::HeadOutOfRange => !heads_in_range(adjacency),
            GraphFault::WeightsTooLarge => heads_in_range(adjacency) && !weights_bounded(adjacency),
            GraphFault::NoNodes => heads_in_range(adjacency) && weights_bounded(adjacency) && self.pairs.num_pairs
                > 0 && adjacency.len() == 0,
            _ => false,
        }
    }

    /// All queries were answered: the aggregate reports no wrong answer,
    /// and it is the aggregate of no measures where there was no query.
    pub open spec fn completes<M: Measure, E: TreatmentMeasure<M = M>>(&self, attempt: RunAttempt<M, E>) -> bool {
        &&& attempt matches RunAttempt::Succeeded(aggregate)
        &&& aggregate.is_faultless()
        &&& self.pairs.num_pairs == 0 ==> aggregate.is_neutral()
    }

    /// The `i`-th query: its pair is one of nodes of the graph, `found[i]`
    /// is its answer, its measure was closed with that answer, and the
    /// aggregate `stages[i]` became `stages[i + 1]` by taking the measure in.
    pub open spec fn query_merged<M: Measure, E: TreatmentMeasure<M = M>>(
        adjacency: Adjacency,
        pairs: Seq<(usize, usize)>,
        found: Seq<Option<Weight>>,
        measures: Seq<M>,
        stages: Seq<E>,
        i: int,
    ) -> bool {
        &&& pairs[i].0 < adjacency.len()
        &&& pairs[i].1 < adjacency.len()
        &&& is_answer(adjacency, pairs[i].0, pairs[i].1, found[i])
        &&& measures[i].observes(adjacency, pairs[i].0, pairs[i].1, Some(found[i]))
        &&& E::takes_in(stages[i], measures[i], stages[i + 1])
    }

    /// The aggregate after the first `count` queries: `stages` holds the
    /// aggregate before and after each query, from that of no measures on.
    pub open spec fn merged_from<M: Measure, E: TreatmentMeasure<M = M>>(
        adjacency: Adjacency,
        aggregate: E,
        pairs: Seq<(usize, usize)>,
        found: Seq<Option<Weight>>,
        measures: Seq<M>,
        stages: Seq<E>,
        count: int,
    ) -> bool {
        &&& 0 <= count <= pairs.len()
        &&& found.len() == count
        &&& measures.len() == count
        &&& stages.len() == count + 1
        &&& stages[0].is_neutral()
        &&& stages[count] == aggregate
        &&& forall|i: int|
            0 <= i < count ==> #[trigger] Self::query_merged(adjacency, pairs, found, measures, stages, i)
    }

    /// All queries were answered on the graph `adjacency`: the aggregate
    /// is that of no measures with the measure of one query for each pair
    /// taken in, one after the other.
    pub open spec fn completes_on<M: Measure, E: TreatmentMeasure<M = M>>(
        &self,
        adjacency: Adjacency,
        attempt: RunAttempt<M, E>,
    ) -> bool {
        &&& self.completes(attempt)
        &&& exists|pairs: Seq<(usize, usize)>, found: Seq<Option<Weight>>, measures: Seq<M>, stages: Seq<E>|
            pairs.len() == self.pairs.num_pairs && #[trigger] Self::merged_from(
                adjacency,
                attempt->Succeeded_0,
                pairs,
                found,
                measures,
                stages,
                pairs.len() as int,
            )
    }

    /// How a run on the graph `adjacency` ends.
    pub open spec fn ran_on<M: Measure, E: TreatmentMeasure<M = M>>(
        &self,
        adjacency: Adjacency,
        result: Result<RunAttempt<M, E>, GraphFault>,
    ) -> bool {
        match result {
            Ok(attempt) => self.fits(adjacency) && self.completes_on(adjacency, attempt),
            Err(fault) => self.unfit(adjacency, fault),
        }
    }

    /// How a run ends that builds its graph from `source` with a builder
    /// of type `B`.
    pub open spec fn ran<B: SpGraphBuilder, M: Measure, E: TreatmentMeasure<M = M>>(
        &self,
        source: GraphSource,
        result: Result<RunAttempt<M, E>, GraphFault>,
    ) -> bool {
        ||| self.graph_data.rejects::<B>(source, result->Err_0) && result is Err
        ||| exists|staged: Adjacency| #[trigger]
            self.graph_data.stages::<B>(source, staged) && self.ran_on(staged, result)
    }

    /// The names of the levels of the treatment.
    pub open spec fn level_texts(&self) -> Seq<Seq<char>> {
        seq![
            self.graph_data.level_text(),
            self.graph_representation.level_text(),
            self.algorithm.level_text(),
            self.algorithm_data.level_text(),
            self.pairs.level_text(),
        ]
    }

    /// What the cells of a table say of the levels of the treatment.
    pub open spec fn cell_texts(&self) -> Seq<Seq<char>> {
        seq![
            self.graph_data.cell_text(),
            self.graph_representation.cell_text(),
            self.algorithm.cell_text(),
            self.algorithm_data.cell_text(),
            self.pairs.cell_text(),
        ]
    }

    /// The first cells of the row of the treatment in a table: its number
    /// `i`, and its level of every factor that has more than one level in
    /// the experiment.
    pub fn table_row(&self, experiment: &Experiment, i: usize) -> (cells: Vec<String>)
        ensures
            texts(cells@) == seq![decimal_text(i as nat)] + kept(experiment.varies(), self.cell_texts()),
    {
        let mut cells: Vec<String> = Vec::new();
        let xp = experiment;
        cells.push(decimal_string(i as u64));
        push_if(&mut cells, xp.graph_data.len() > 1, self.graph_data.to_cell_string());
        push_if(&mut cells, xp.graph_representation.len() > 1, self.graph_representation.to_cell_string());
        push_if(&mut cells, xp.algorithm.len() > 1, self.algorithm.to_cell_string());
        push_if(&mut cells, xp.algorithm_data.len() > 1, self.algorithm_data.to_cell_string());
        push_if(&mut cells, xp.pairs.len() > 1, self.pairs.to_cell_string());
        assert(texts(cells@) =~= seq![decimal_text(i as nat)] + kept(experiment.varies(), self.cell_texts()));
        cells
    }

    /// The first cells of the row of the treatment in the results: its
    /// number `i`, and the name of its level of every factor that has more
    /// than one level in the experiment.
    pub fn result_row(&self, experiment: &Experiment, i: usize) -> (cells: Vec<String>)
        ensures
            texts(cells@) == seq![decimal_text(i as nat)] + kept(experiment.varies(), self.level_texts()),
    {
        let mut cells: Vec<String> = Vec::new();
        let xp = experiment;
        cells.push(decimal_string(i as u64));
        push_if(&mut cells, xp.graph_data.len() > 1, self.graph_data.name_level());
        push_if(&mut cells, xp.graph_representation.len() > 1, self.graph_representation.name_level());
        push_if(&mut cells, xp.algorithm.len() > 1, self.algorithm.name_level());
        push_if(&mut cells, xp.algorithm_data.len() > 1, self.algorithm_data.name_level());
        push_if(&mut cells, xp.pairs.len() > 1, self.pairs.name_level());
        assert(texts(cells@) =~= seq![decimal_text(i as nat)] + kept(experiment.varies(), self.level_texts()));
        cells
    }

    /// The treatment in short: the names of its levels of the factors
    /// that have more than one level in the experiment.
    pub fn short_definition(&self, experiment: &Experiment) -> (definition: String)
        ensures
            definition@ == joined_text(kept(experiment.varies(), self.level_texts()), " | "@),
    {
        let mut def: Vec<String> = Vec::new();
        let xp = experiment;
        push_if(&mut def, xp.graph_data.len() > 1, self.graph_data.name_level());
        push_if(&mut def, xp.graph_representation.len() > 1, self.graph_representation.name_level());
        push_if(&mut def, xp.algorithm.len() > 1, self.algorithm.name_level());
        push_if(&mut def, xp.algorithm_data.len() > 1, self.algorithm_data.name_level());
        push_if(&mut def, xp.pairs.len() > 1, self.pairs.name_level());
        assert(texts(def@) =~= kept(experiment.varies(), self.level_texts()));
        joined(&def, " | ")
    }

    /// Whether algorithm and graph representation do not go together, so
    /// that a run would build no graph.
    pub fn mismatches(&self) -> (mismatch: bool)
        ensures
            mismatch == self.is_mismatch(),
    {
        let delegate = match self.algorithm {
            FactorAlgorithm::Dijkstra(Dijkstra::Petgraph) => true,
            _ => false,
        };
        let own_graph = match self.graph_representation {
            FactorGraphRepresentation::AdjListPetgraph => true,
            _ => false,
        };
        delegate && !own_graph
    }

    // RUN
    /// Runs the treatment on the graph that `source` gives. Where algorithm
    /// and graph representation do not go together, nothing is built or
    /// run. Otherwise the graph is built and tested, and if queries can be
    /// run on it, all queries are answered.
    pub fn run<E, M>(&self, source: &GraphSource) -> (result: Result<RunAttempt<M, E>, GraphFault>) where
        M: Measure,
        E: TreatmentMeasure<M = M>,

        ensures
            self.is_mismatch() ==> self.is_refusal(result),
            !self.is_mismatch() ==> match self.graph_representation {
                FactorGraphRepresentation::AdjListJaggedVec => self.ran::<AdjListJaggedVec, M, E>(*source, result),
                FactorGraphRepresentation::AdjListFlatVec => self.ran::<AdjListFlatVecBuilder, M, E>(
                    *source,
                    result,
                ),
                FactorGraphRepresentation::AdjListPetgraph => self.ran::<AdjListPetgraph, M, E>(*source, result),
            },
    {
        let special = self.run_special::<E, M>(source);
        if let Some(s) = special {
            return s;
        }
        match self.graph_representation {
            FactorGraphRepresentation::AdjListJaggedVec => {
                match self.graph_data.create_graph_builder::<AdjListJaggedVec>(source) {
                    Ok(builder) => self.run_with_graph_builder(builder),
                    Err(fault) => Err(fault),
                }
            },
            FactorGraphRepresentation::AdjListFlatVec => {
                match self.graph_data.create_graph_builder::<AdjListFlatVecBuilder>(source) {
                    Ok(builder) => self.run_with_graph_builder(builder),
                    Err(fault) => Err(fault),
                }
            },
            FactorGraphRepresentation::AdjListPetgraph => {
                match self.graph_data.create_graph_builder::<AdjListPetgraph>(source) {
                    Ok(builder) => self.run_with_graph_builder(builder),
                    Err(fault) => Err(fault),
                }
            },
        }
    }

    // handle special matches
    /// Runs the treatment if its algorithm is the routine of `petgraph`.
    fn run_special<E, M>(&self, source: &GraphSource) -> (special: Option<Result<RunAttempt<M, E>, GraphFault>>) where
        M: Measure,
        E: TreatmentMeasure<M = M>,

        ensures
            special is Some <==> self.algorithm == FactorAlgorithm::Dijkstra(Dijkstra::Petgraph),
            special matches Some(result) ==> {
                &&& self.is_mismatch() ==> self.is_refusal(result)
                &&& !self.is_mismatch() ==> self.ran::<AdjListPetgraph, M, E>(*source, result)
            },
    {
        match &self.algorithm {
            FactorAlgorithm::Dijkstra(dijkstra) => match dijkstra {
                Dijkstra::Petgraph => {
                    let attempt = match self.graph_representation {
                        FactorGraphRepresentation::AdjListPetgraph => {
                            match self.graph_data.create_graph_builder::<AdjListPetgraph>(source) {
                                Ok(builder) => {
                                    let graph = builder.build();
                                    match self.test_graph(&graph) {
                                        Some(fault) => Err(fault),
                                        None => {
                                            let algorithm = PetgraphDijsktra::new(&graph);
                                            Ok(self.run_with_graph_alg(graph, algorithm))
                                        },
                                    }
                                },
                                Err(fault) => Err(fault),
                            }
                        },
                        _ => {
                            let err = String::from_str(MISMATCH);
                            Ok(RunAttempt::NotCompleted(err))
                        },
                    };
                    Some(attempt)
                },
                _ => None,
            },
        }
    }

    /// Tests whether queries can be run on the graph.
    fn test_graph<G: SpGraph>(&self, graph: &G) -> (fault: Option<GraphFault>)
        ensures
            match fault {
                Some(fault) => self.unfit(graph.adjacency(), fault),
                None => self.fits(graph.adjacency()),
            },
    {
        if !has_valid_heads(graph) {
            Some(GraphFault::HeadOutOfRange)
        } else if !weights_fit(graph) {
            Some(GraphFault::WeightsTooLarge)
        } else if self.pairs.num_pairs > 0 && graph.num_nodes() == 0 {
            Some(GraphFault::NoNodes)
        } else {
            None
        }
    }

    // all graphs
    fn run_with_graph_builder<E, M, G, B>(&self, graph_builder: B) -> (result: Result<RunAttempt<M, E>, GraphFault>) where
        M: Measure,
        G: SpGraph,
        B: SpGraphBuilder<G = G>,
        E: TreatmentMeasure<M = M>,

        requires
            self.algorithm != FactorAlgorithm::Dijkstra(Dijkstra::Petgraph),
        ensures
            self.ran_on(graph_builder.staged(), result),
    {
        let graph = graph_builder.build();
        if let Some(fault) = self.test_graph(&graph) {
            return Err(fault);
        }
        match &self.algorithm {
            FactorAlgorithm::Dijkstra(dijkstra) => match dijkstra {
                Dijkstra::PriorityQueue(pq) => Ok(self.run_with_graph_pq(pq, graph)),
                Dijkstra::PriorityQueueDecKey(pqdk) => Ok(self.run_with_graph_pqdk(pqdk, graph)),
                Dijkstra::Petgraph => unreached(),
            },
        }
    }

    fn run_with_graph_pq<E, M, G>(&self, pq: &PriorityQueue, graph: G) -> (attempt: RunAttempt<M, E>) where
        M: Measure,
        G: SpGraph,
        E: TreatmentMeasure<M = M>,

        requires
            self.fits(graph.adjacency()),
        ensures
            self.completes_on(graph.adjacency(), attempt),
    {
        match pq {
            PriorityQueue::StdBinaryHeap => {
                let algorithm = <StdPqDijkstra as ShortestDistanceAlgorithm<G>>::new(&graph);
                self.run_with_graph_alg(graph, algorithm)
            },
            PriorityQueue::OrxDaryHeap(dary) => match dary {
                Dary::Binary => {
                    let algorithm = <OrxPqDijkstra<2> as ShortestDistanceAlgorithm<G>>::new(&graph);
                    self.run_with_graph_alg(graph, algorithm)
                },
                Dary::Quaternary => {
                    let algorithm = <OrxPqDijkstra<4> as ShortestDistanceAlgorithm<G>>::new(&graph);
                    self.run_with_graph_alg(graph, algorithm)
                },
                Dary::Octonary => {
                    let algorithm = <OrxPqDijkstra<8> as ShortestDistanceAlgorithm<G>>::new(&graph);
                    self.run_with_graph_alg(graph, algorithm)
                },
                Dary::D16 => {
                    let algorithm = <OrxPqDijkstra<16> as ShortestDistanceAlgorithm<G>>::new(&graph);
                    self.run_with_graph_alg(graph, algorithm)
                },
                Dary::D32 => {
                    let algorithm = <OrxPqDijkstra<32> as ShortestDistanceAlgorithm<G>>::new(&graph);
                    self.run_with_graph_alg(graph, algorithm)
                },
                Dary::D64 => {
                    let algorithm = <OrxPqDijkstra<64> as ShortestDistanceAlgorithm<G>>::new(&graph);
                    self.run_with_graph_alg(graph, algorithm)
                },
            },
        }
    }

    fn run_with_graph_pqdk<E, M, G>(&self, pqdk: &PriorityQueueDecKey, graph: G) -> (attempt: RunAttempt<M, E>) where
        M: Measure,
        G: SpGraph,
        E: TreatmentMeasure<M = M>,

        requires
            self.fits(graph.adjacency()),
        ensures
            self.completes_on(graph.adjacency(), attempt),
    {
        match pqdk {
            PriorityQueueDecKey::OrxDaryHeapOfIndices(dary) => self.run_with_graph_pqdk_idx(dary, graph),
            PriorityQueueDecKey::OrxDaryHeapWithMap(dary) => self.run_with_graph_pqdk_map(dary, graph),
            PriorityQueueDecKey::PriorityQueuePriorityQueue => {
                let algorithm = <PriorityQueuePqDecKeyDijkstra as ShortestDistanceAlgorithm<G>>::new(&graph);
                self.run_with_graph_alg(graph, algorithm)
            },
        }
    }

    fn run_with_graph_pqdk_idx<E, M, G>(&self, dary: &Dary, graph: G) -> (attempt: RunAttempt<M, E>) where
        M: Measure,
        G: SpGraph,
        E: TreatmentMeasure<M = M>,

        requires
            self.fits(graph.adjacency()),
        ensures
            self.completes_on(graph.adjacency(), attempt),
    {
        match dary {
            Dary::Binary => {
                let algorithm = <OrxPqDecKeyDijkstra<OrxDaryHeapOfIndices, 2> as ShortestDistanceAlgorithm<G>>::new(
                    &graph,
                );
                self.run_with_graph_alg(graph, algorithm)
            },
            Dary::Quaternary => {
                let algorithm = <OrxPqDecKeyDijkstra<OrxDaryHeapOfIndices, 4> as ShortestDistanceAlgorithm<G>>::new(
                    &graph,
                );
                self.run_with_graph_alg(graph, algorithm)
            },
            Dary::Octonary => {
                let algorithm = <OrxPqDecKeyDijkstra<OrxDaryHeapOfIndices, 8> as ShortestDistanceAlgorithm<G>>::new(
                    &graph,
                );
                self.run_with_graph_alg(graph, algorithm)
            },
            Dary::D16 => {
                let algorithm = <OrxPqDecKeyDijkstra<OrxDaryHeapOfIndices, 16> as ShortestDistanceAlgorithm<G>>::new(
                    &graph,
                );
                self.run_with_graph_alg(graph, algorithm)
            },
            Dary::D32 => {
                let algorithm = <OrxPqDecKeyDijkstra<OrxDaryHeapOfIndices, 32> as ShortestDistanceAlgorithm<G>>::new(
                    &graph,
                );
                self.run_with_graph_alg(graph, algorithm)
            },
            Dary::D64 => {
                let algorithm = <OrxPqDecKeyDijkstra<OrxDaryHeapOfIndices, 64> as ShortestDistanceAlgorithm<G>>::new(
                    &graph,
                );
                self.run_with_graph_alg(graph, algorithm)
            },
        }
    }

    fn run_with_graph_pqdk_map<E, M, G>(&self, dary: &Dary, graph: G) -> (attempt: RunAttempt<M, E>) where
        M: Measure,
        G: SpGraph,
        E: TreatmentMeasure<M = M>,

        requires
            self.fits(graph.adjacency()),
        ensures
            self.completes_on(graph.adjacency(), attempt),
    {
        match dary {
            Dary::Binary => {
                let algorithm = <OrxPqDecKeyDijkstra<OrxDaryHeapWithMap, 2> as ShortestDistanceAlgorithm<G>>::new(
                    &graph,
                );
                self.run_with_graph_alg(graph, algorithm)
            },
            Dary::Quaternary => {
                let algorithm = <OrxPqDecKeyDijkstra<OrxDaryHeapWithMap, 4> as ShortestDistanceAlgorithm<G>>::new(
                    &graph,
                );
                self.run_with_graph_alg(graph, algorithm)
            },
            Dary::Octonary => {
                let algorithm = <OrxPqDecKeyDijkstra<OrxDaryHeapWithMap, 8> as ShortestDistanceAlgorithm<G>>::new(
                    &graph,
                );
                self.run_with_graph_alg(graph, algorithm)
            },
            Dary::D16 => {
                let algorithm = <OrxPqDecKeyDijkstra<OrxDaryHeapWithMap, 16> as ShortestDistanceAlgorithm<G>>::new(
                    &graph,
                );
                self.run_with_graph_alg(graph, algorithm)
            },
            Dary::D32 => {
                let algorithm = <OrxPqDecKeyDijkstra<OrxDaryHeapWithMap, 32> as ShortestDistanceAlgorithm<G>>::new(
                    &graph,
                );
                self.run_with_graph_alg(graph, algorithm)
            },
            Dary::D64 => {
                let algorithm = <OrxPqDecKeyDijkstra<OrxDaryHeapWithMap, 64> as ShortestDistanceAlgorithm<G>>::new(
                    &graph,
                );
                self.run_with_graph_alg(graph, algorithm)
            },
        }
    }

    /// Draws the pairs and answers the query of each. With the cached
    /// policy the one instance `algorithm` answers them all, with the pure
    /// policy every query gets an instance of its own.
    fn run_with_graph_alg<E, M, G, A>(&self, graph: G, algorithm: A) -> (attempt: RunAttempt<M, E>) where
        M: Measure,
        G: SpGraph,
        A: ShortestDistanceAlgorithm<G>,
        E: TreatmentMeasure<M = M>,

        requires
            self.fits(graph.adjacency()),
            A::available(),
            algorithm.serves(graph.adjacency().len()),
        ensures
            self.completes_on(graph.adjacency(), attempt),
    {
        let mut algorithm = algorithm;
        let pairs = self.pairs.create_pairs(graph.num_nodes());
        let mut exp_measure = E::default();
        let ghost mut found: Seq<Option<Weight>> = Seq::empty();
        let ghost mut measures: Seq<M> = Seq::empty();
        let ghost mut stages: Seq<E> = seq![exp_measure];
        proof {
            E::lemma_default_is_neutral(exp_measure);
            exp_measure.lemma_neutral_is_faultless();
        }
        let mut i: usize = 0;
        while i < pairs.len()
            invariant
                Self::merged_from(graph.adjacency(), exp_measure, pairs@, found, measures, stages, i as int),
                self.fits(graph.adjacency()),
                A::available(),
                algorithm.serves(graph.adjacency().len()),
                i <= pairs@.len(),
                forall|j: int|
                    0 <= j < pairs@.len() ==> (#[trigger] pairs@[j]).0 < graph.adjacency().len() && pairs@[j].1
                        < graph.adjacency().len(),
                exp_measure.is_faultless(),
                pairs@.len() == 0 ==> exp_measure.is_neutral(),
            decreases pairs@.len() - i,
        {
            let (source, sink) = pairs[i];
            proof {
                lemma_bounded_weights_fit(graph.adjacency(), source as int);
            }
            let solution: Solution<M> = match self.algorithm_data {
                FactorAlgorithmData::Cached => algorithm.run_cached(&graph, source, sink),
                FactorAlgorithmData::Pure => A::run_pure(&graph, source, sink),
            };
            let ghost before = exp_measure;
            let ghost measure = solution.measure;
            let ghost answer = solution.shortest_distance;
            exp_measure.aggregate(solution.measure);
            proof {
                let earlier = stages;
                let earlier_found = found;
                let earlier_measures = measures;
                found = found.push(answer);
                measures = measures.push(measure);
                stages = stages.push(exp_measure);
                assert forall|j: int| 0 <= j < i + 1 implies #[trigger] Self::query_merged(
                    graph.adjacency(),
                    pairs@,
                    found,
                    measures,
                    stages,
                    j,
                ) by {
                    if j < i {
                        assert(Self::query_merged(
                            graph.adjacency(),
                            pairs@,
                            earlier_found,
                            earlier_measures,
                            earlier,
                            j,
                        ));
                        assert(stages[j] == earlier[j] && stages[j + 1] == earlier[j + 1]);
                        assert(found[j] == earlier_found[j]);
                        assert(measures[j] == earlier_measures[j]);
                    } else {
                        assert(stages[j] == before);
                        assert(measures[j] == measure && found[j] == answer);
                        assert(pairs@[j] == (source, sink));
                    }
                }
                assert(stages[0] == earlier[0]);
            }
            i = i + 1;
        }
        RunAttempt::Succeeded(exp_measure)
    }
}

} // verus!
