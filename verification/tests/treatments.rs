use bench_shortest_path::algorithm::measure::memory::Memory;
use bench_shortest_path::algorithm::measure::no_measurement::NoMeasurement;
use bench_shortest_path::algorithm::measure::time::Time;
use bench_shortest_path::algorithm::measure::treatment_measure::memory::TreatmentMemory;
use bench_shortest_path::algorithm::measure::treatment_measure::no_measurement::TreatmentNoMeasurement;
use bench_shortest_path::algorithm::measure::treatment_measure::time::TreatmentTime;
use bench_shortest_path::algorithm::measure::treatment_measure::validation::TreatmentValidation;
use bench_shortest_path::algorithm::measure::validation::Validation;
use bench_shortest_path::algorithm::run_attempt::RunAttempt;
use bench_shortest_path::experimentation::factors::algorithm::dary::Dary;
use bench_shortest_path::experimentation::factors::algorithm::dijkstra::Dijkstra;
use bench_shortest_path::experimentation::factors::algorithm::factor_algorithm::FactorAlgorithm;
use bench_shortest_path::experimentation::factors::algorithm::priority_queue::PriorityQueue;
use bench_shortest_path::experimentation::factors::algorithm::priority_queue_deckey::PriorityQueueDecKey;
use bench_shortest_path::experimentation::factors::algorithm_data::FactorAlgorithmData;
use bench_shortest_path::experimentation::factors::graph_data::dimacs9th::{
    DimacsError, DimacsFault, GraphDimacs9th,
};
use bench_shortest_path::experimentation::factors::graph_data::factor_graph_data::{
    FactorGraphData, GraphFault, GraphSource,
};
use bench_shortest_path::experimentation::factors::graph_data::random::{
    GraphRandom, RandomGraphFault,
};
use bench_shortest_path::experimentation::factors::graph_representation::FactorGraphRepresentation;
use bench_shortest_path::experimentation::factors::pairs::FactorPairs;
use bench_shortest_path::experimentation::treatment::{Treatment, MISMATCH};

fn lines(text: &str) -> GraphSource {
    GraphSource::Dimacs9th { lines: text.lines().map(|line| line.as_bytes().to_vec()).collect() }
}

fn road() -> GraphSource {
    lines("c a small network\np sp 5 7\na 1 2 1\na 2 3 2\na 1 3 5\na 3 4 1\na 4 1 1\na 5 5 3\na 2 4 9")
}

fn all_algorithms() -> Vec<FactorAlgorithm> {
    let mut all = vec![FactorAlgorithm::Dijkstra(Dijkstra::PriorityQueue(PriorityQueue::StdBinaryHeap))];
    for dary in Dary::levels() {
        all.push(FactorAlgorithm::Dijkstra(Dijkstra::PriorityQueue(PriorityQueue::OrxDaryHeap(dary))));
        all.push(FactorAlgorithm::Dijkstra(Dijkstra::PriorityQueueDecKey(
            PriorityQueueDecKey::OrxDaryHeapOfIndices(dary),
        )));
        all.push(FactorAlgorithm::Dijkstra(Dijkstra::PriorityQueueDecKey(PriorityQueueDecKey::OrxDaryHeapWithMap(
            dary,
        ))));
    }
    all.push(FactorAlgorithm::Dijkstra(Dijkstra::PriorityQueueDecKey(
        PriorityQueueDecKey::PriorityQueuePriorityQueue,
    )));
    all
}

fn treatment(
    representation: FactorGraphRepresentation,
    algorithm: FactorAlgorithm,
    caching: FactorAlgorithmData,
    num_pairs: usize,
) -> Treatment {
    Treatment {
        graph_data: FactorGraphData::Dimacs9th(GraphDimacs9th::USARoaddNY),
        graph_representation: representation,
        algorithm,
        algorithm_data: caching,
        pairs: FactorPairs { seed: 42, num_pairs },
    }
}

fn validated(treatment: &Treatment, source: &GraphSource) -> TreatmentValidation {
    match treatment.run::<TreatmentValidation, Validation>(source) {
        Ok(RunAttempt::Succeeded(aggregate)) => aggregate,
        Ok(RunAttempt::NotCompleted(reason)) => panic!("not completed: {}", reason),
        Err(fault) => panic!("no graph: {:?}", fault),
    }
}

#[test]
fn validation_finds_no_wrong_result() {
    for representation in FactorGraphRepresentation::levels() {
        for algorithm in all_algorithms() {
            for caching in FactorAlgorithmData::levels() {
                let aggregate = validated(&treatment(representation, algorithm, caching, 40), &road());
                assert_eq!(aggregate.num_wrong_results(), 0);
                assert_eq!(aggregate.first_wrong_pair(), None);
                assert_eq!(aggregate.result_cells(), vec!["0", ""]);
            }
        }
    }
    let petgraph = treatment(
        FactorGraphRepresentation::AdjListPetgraph,
        FactorAlgorithm::Dijkstra(Dijkstra::Petgraph),
        FactorAlgorithmData::Pure,
        40,
    );
    assert_eq!(validated(&petgraph, &road()).num_wrong_results(), 0);
}

#[test]
fn petgraph_routine_on_another_graph_is_not_completed() {
    for representation in [FactorGraphRepresentation::AdjListJaggedVec, FactorGraphRepresentation::AdjListFlatVec] {
        let treatment =
            treatment(representation, FactorAlgorithm::Dijkstra(Dijkstra::Petgraph), FactorAlgorithmData::Cached, 5);
        match treatment.run::<TreatmentTime, Time>(&road()) {
            Ok(RunAttempt::NotCompleted(reason)) => {
                assert_eq!(reason, MISMATCH);
                assert_eq!(
                    reason,
                    "(graph, algorithm) mismatch:\npetgraph::algo::Dijkstra can only be run with petgraph::graph::Graph"
                );
            },
            _ => panic!("the treatment was run"),
        }
        match treatment.run::<TreatmentTime, Time>(&lines("no graph at all")) {
            Ok(RunAttempt::NotCompleted(_)) => {},
            _ => panic!("the graph was built"),
        }
    }
}

#[test]
fn no_pairs_leave_the_aggregate_as_it_starts() {
    for caching in FactorAlgorithmData::levels() {
        let treatment = treatment(
            FactorGraphRepresentation::AdjListFlatVec,
            FactorAlgorithm::Dijkstra(Dijkstra::PriorityQueue(PriorityQueue::OrxDaryHeap(Dary::Quaternary))),
            caching,
            0,
        );
        match treatment.run::<TreatmentTime, Time>(&road()) {
            Ok(RunAttempt::Succeeded(aggregate)) => {
                assert_eq!(aggregate.count, 0);
                assert_eq!(aggregate.total_elapsed_nanos, 0);
                assert_eq!(aggregate.elapsed_nanos_per_treatment(), 0);
            },
            _ => panic!("the treatment did not succeed"),
        }
        match treatment.run::<TreatmentMemory, Memory>(&road()) {
            Ok(RunAttempt::Succeeded(aggregate)) => {
                assert_eq!(aggregate.num_iterations, 0);
                assert_eq!(aggregate.max_num_items, 0);
                assert_eq!(aggregate.total_num_items_in_observations, 0);
                assert_eq!(aggregate.max_capacity, 0);
                assert_eq!(aggregate.total_capacity_in_observations, 0);
                assert_eq!(aggregate.time.count, 0);
                assert_eq!(aggregate.average_heap_size(), None);
                assert_eq!(aggregate.average_heap_capacity(), None);
            },
            _ => panic!("the treatment did not succeed"),
        }
        assert!(validated(&treatment, &road()).wrong_results.is_empty());
        assert!(matches!(
            treatment.run::<TreatmentNoMeasurement, NoMeasurement>(&road()),
            Ok(RunAttempt::Succeeded(TreatmentNoMeasurement))
        ));
        assert!(matches!(
            treatment.run::<TreatmentTime, Time>(&lines("p sp 0 0")),
            Ok(RunAttempt::Succeeded(_))
        ));
    }
}

#[test]
fn time_counts_the_queries() {
    let treatment = treatment(
        FactorGraphRepresentation::AdjListJaggedVec,
        FactorAlgorithm::Dijkstra(Dijkstra::PriorityQueue(PriorityQueue::StdBinaryHeap)),
        FactorAlgorithmData::Cached,
        17,
    );
    match treatment.run::<TreatmentTime, Time>(&road()) {
        Ok(RunAttempt::Succeeded(aggregate)) => {
            assert_eq!(aggregate.count, 17);
            assert_eq!(aggregate.elapsed_nanos_per_treatment(), aggregate.total_elapsed_nanos / 17);
        },
        _ => panic!("the treatment did not succeed"),
    }
}

#[test]
fn memory_counts_the_steps() {
    let treatment = treatment(
        FactorGraphRepresentation::AdjListJaggedVec,
        FactorAlgorithm::Dijkstra(Dijkstra::PriorityQueueDecKey(PriorityQueueDecKey::OrxDaryHeapOfIndices(
            Dary::Binary,
        ))),
        FactorAlgorithmData::Pure,
        30,
    );
    match treatment.run::<TreatmentMemory, Memory>(&road()) {
        Ok(RunAttempt::Succeeded(aggregate)) => {
            assert_eq!(aggregate.time.count, 30);
            assert!(aggregate.num_iterations > 0);
            assert!(aggregate.max_num_items >= 1 && aggregate.max_num_items <= 4);
            assert!(aggregate.total_num_items_in_observations <= aggregate.max_num_items * aggregate.num_iterations);
            assert!(aggregate.max_capacity >= aggregate.max_num_items);
            assert_eq!(
                aggregate.average_heap_size(),
                Some((aggregate.total_num_items_in_observations, aggregate.num_iterations))
            );
            assert_eq!(
                aggregate.average_heap_capacity(),
                Some((aggregate.total_capacity_in_observations, aggregate.num_iterations))
            );
        },
        _ => panic!("the treatment did not succeed"),
    }
}

fn fault_of(treatment: &Treatment, source: &GraphSource) -> GraphFault {
    match treatment.run::<TreatmentNoMeasurement, NoMeasurement>(source) {
        Err(fault) => fault,
        Ok(_) => panic!("the graph was accepted"),
    }
}

#[test]
fn graphs_that_admit_no_queries_are_reported() {
    let std_pq = FactorAlgorithm::Dijkstra(Dijkstra::PriorityQueue(PriorityQueue::StdBinaryHeap));
    let jagged = treatment(FactorGraphRepresentation::AdjListJaggedVec, std_pq, FactorAlgorithmData::Cached, 3);
    let flat = treatment(FactorGraphRepresentation::AdjListFlatVec, std_pq, FactorAlgorithmData::Cached, 3);
    let petgraph = treatment(FactorGraphRepresentation::AdjListPetgraph, std_pq, FactorAlgorithmData::Cached, 3);
    let delegate = treatment(
        FactorGraphRepresentation::AdjListPetgraph,
        FactorAlgorithm::Dijkstra(Dijkstra::Petgraph),
        FactorAlgorithmData::Cached,
        3,
    );

    let beyond = lines("p sp 2 1\na 1 3 4");
    assert_eq!(fault_of(&jagged, &beyond), GraphFault::HeadOutOfRange);
    assert_eq!(fault_of(&flat, &beyond), GraphFault::HeadOutOfRange);
    let refused = GraphFault::Dimacs9th(DimacsError { line: 1, fault: DimacsFault::EdgeRefused });
    assert_eq!(fault_of(&petgraph, &beyond), refused);
    assert_eq!(fault_of(&delegate, &beyond), refused);

    let heavy = lines("p sp 2 1\na 1 2 18446744073709551615");
    for treatment in [&jagged, &flat, &petgraph, &delegate] {
        assert_eq!(fault_of(treatment, &heavy), GraphFault::WeightsTooLarge);
        assert_eq!(fault_of(treatment, &lines("p sp 0 0")), GraphFault::NoNodes);
        assert_eq!(
            fault_of(treatment, &lines("a 1 2 3")),
            GraphFault::Dimacs9th(DimacsError { line: 0, fault: DimacsFault::MissingGraphMetaData })
        );
        assert_eq!(
            fault_of(treatment, &GraphSource::Random { out_degrees: vec![] }),
            GraphFault::SourceMismatch
        );
    }
}

#[test]
fn random_graphs_are_run() {
    let random = GraphRandom { seed: 9864, num_nodes: 30, density_bits: 0x3E80_0000 };
    let out_degrees: Vec<usize> = (0..30).map(|node| (node * 7) % 13).collect();
    let source = GraphSource::Random { out_degrees };
    for representation in FactorGraphRepresentation::levels() {
        for algorithm in all_algorithms() {
            let treatment = Treatment {
                graph_data: FactorGraphData::Random(random),
                graph_representation: representation,
                algorithm,
                algorithm_data: FactorAlgorithmData::Cached,
                pairs: FactorPairs { seed: 1, num_pairs: 25 },
            };
            assert!(validated(&treatment, &source).wrong_results.is_empty());
            assert_eq!(fault_of(&treatment, &road()), GraphFault::SourceMismatch);
            assert_eq!(
                fault_of(&treatment, &GraphSource::Random { out_degrees: vec![1, 2] }),
                GraphFault::Random(RandomGraphFault::OutDegrees)
            );
        }
    }
}
