use bench_shortest_path::algorithm::measure::no_measurement::NoMeasurement;
use bench_shortest_path::algorithm::measure::treatment_measure::no_measurement::TreatmentNoMeasurement;
use bench_shortest_path::algorithm::run_attempt::RunAttempt;
use bench_shortest_path::experimentation::experiment::{Experiment, ExperimentRun};
use bench_shortest_path::experimentation::factors::algorithm::dary::Dary;
use bench_shortest_path::experimentation::factors::algorithm::dijkstra::Dijkstra;
use bench_shortest_path::experimentation::factors::algorithm::factor_algorithm::FactorAlgorithm;
use bench_shortest_path::experimentation::factors::algorithm::priority_queue::PriorityQueue;
use bench_shortest_path::experimentation::factors::algorithm::priority_queue_deckey::PriorityQueueDecKey;
use bench_shortest_path::experimentation::factors::algorithm_data::FactorAlgorithmData;
use bench_shortest_path::experimentation::factors::graph_data::dimacs9th::GraphDimacs9th;
use bench_shortest_path::experimentation::factors::graph_data::factor_graph_data::FactorGraphData;
use bench_shortest_path::experimentation::factors::graph_data::random::GraphRandom;
use bench_shortest_path::experimentation::factors::graph_representation::FactorGraphRepresentation;
use bench_shortest_path::experimentation::factors::pairs::FactorPairs;
use bench_shortest_path::experimentation::measurement::Measurement;
use bench_shortest_path::experimentation::treatment::Treatment;

fn graph_data(count: usize) -> Vec<FactorGraphData> {
    let all = vec![
        FactorGraphData::Dimacs9th(GraphDimacs9th::USARoaddNY),
        FactorGraphData::Random(GraphRandom { seed: 1, num_nodes: 10, density_bits: 0x3E80_0000 }),
        FactorGraphData::Dimacs9th(GraphDimacs9th::USARoaddBAY),
    ];
    all[..count].to_vec()
}

fn algorithms(count: usize) -> Vec<FactorAlgorithm> {
    let all = vec![
        FactorAlgorithm::Dijkstra(Dijkstra::PriorityQueue(PriorityQueue::StdBinaryHeap)),
        FactorAlgorithm::Dijkstra(Dijkstra::Petgraph),
        FactorAlgorithm::Dijkstra(Dijkstra::PriorityQueueDecKey(PriorityQueueDecKey::OrxDaryHeapWithMap(Dary::D16))),
    ];
    all[..count].to_vec()
}

fn representations(count: usize) -> Vec<FactorGraphRepresentation> {
    FactorGraphRepresentation::levels()[..count].to_vec()
}

fn cachings(count: usize) -> Vec<FactorAlgorithmData> {
    FactorAlgorithmData::levels()[..count].to_vec()
}

fn pairs(count: usize) -> Vec<FactorPairs> {
    (0..count).map(|i| FactorPairs { seed: i as u64, num_pairs: 10 + i }).collect()
}

fn experiment(counts: [usize; 5]) -> Experiment {
    Experiment {
        measurement: Measurement::Validation,
        graph_data: graph_data(counts[0]),
        graph_representation: representations(counts[1]),
        algorithm: algorithms(counts[2]),
        algorithm_data: cachings(counts[3]),
        pairs: pairs(counts[4]),
    }
}

#[test]
fn scenario_c_two_by_three_levels_are_six_treatments() {
    let experiment = experiment([2, 1, 3, 1, 1]);
    assert_eq!(experiment.num_treatments(), 6);
    assert_eq!(experiment.checked_num_treatments(), Some(6));
    let treatments = experiment.create_treatments();
    assert_eq!(treatments.len(), 6);
    let expected: Vec<(usize, usize)> = vec![(0, 0), (0, 1), (0, 2), (1, 0), (1, 1), (1, 2)];
    for (treatment, (i, k)) in treatments.iter().zip(expected) {
        assert_eq!(treatment.graph_data, experiment.graph_data[i]);
        assert_eq!(treatment.graph_representation, FactorGraphRepresentation::AdjListJaggedVec);
        assert_eq!(treatment.algorithm, experiment.algorithm[k]);
        assert_eq!(treatment.algorithm_data, FactorAlgorithmData::Cached);
        assert_eq!(treatment.pairs, experiment.pairs[0]);
    }
}

#[test]
fn treatments_come_in_nested_order() {
    let experiment = experiment([3, 3, 3, 2, 2]);
    assert_eq!(experiment.num_treatments(), 108);
    let treatments = experiment.create_treatments();
    assert_eq!(treatments.len(), 108);
    let mut rank = 0;
    for i in 0..3 {
        for j in 0..3 {
            for k in 0..3 {
                for l in 0..2 {
                    for m in 0..2 {
                        let expected = Treatment {
                            graph_data: experiment.graph_data[i],
                            graph_representation: experiment.graph_representation[j],
                            algorithm: experiment.algorithm[k],
                            algorithm_data: experiment.algorithm_data[l],
                            pairs: experiment.pairs[m],
                        };
                        assert_eq!(treatments[rank], expected);
                        assert_eq!(rank, (((i * 3 + j) * 3 + k) * 2 + l) * 2 + m);
                        rank += 1;
                    }
                }
            }
        }
    }
}

#[test]
fn a_factor_without_levels_leaves_no_treatment() {
    for empty in 0..5 {
        let mut counts = [2, 2, 2, 2, 2];
        counts[empty] = 0;
        let experiment = experiment(counts);
        assert_eq!(experiment.num_treatments(), 0);
        assert_eq!(experiment.checked_num_treatments(), Some(0));
        assert!(experiment.create_treatments().is_empty());
    }
}

#[test]
fn one_level_of_each_factor_is_one_treatment() {
    let experiment = experiment([1, 1, 1, 1, 1]);
    assert_eq!(experiment.num_treatments(), 1);
    assert_eq!(experiment.create_treatments().len(), 1);
}

#[test]
fn progress_of_a_run() {
    let mut run = ExperimentRun::new(3);
    assert_eq!(run.next_treatment(), Some(0));
    let succeeded: RunAttempt<NoMeasurement, TreatmentNoMeasurement> = RunAttempt::Succeeded(TreatmentNoMeasurement);
    let step = run.record(&succeeded);
    assert!(step.write_row);
    assert!(step.flush);
    assert!(step.error.is_none());
    assert_eq!(run.next_treatment(), Some(1));
    let failed: RunAttempt<NoMeasurement, TreatmentNoMeasurement> = RunAttempt::NotCompleted("no luck".to_string());
    let step = run.record(&failed);
    assert!(!step.write_row);
    assert!(!step.flush);
    assert_eq!(step.error, Some("[T-1-NotCompleted] no luck\n".to_string()));
    assert_eq!(run.num_not_completed(), 1);
    run.record(&failed);
    assert_eq!(run.num_not_completed(), 2);
    assert_eq!(run.next_treatment(), None);
}

#[test]
fn rows_are_flushed_after_every_hundredth_treatment() {
    let mut run = ExperimentRun::new(250);
    let succeeded: RunAttempt<NoMeasurement, TreatmentNoMeasurement> = RunAttempt::Succeeded(TreatmentNoMeasurement);
    let mut flushed = vec![];
    while let Some(t) = run.next_treatment() {
        if run.record(&succeeded).flush {
            flushed.push(t);
        }
    }
    assert_eq!(flushed, vec![0, 100, 200]);
    assert_eq!(run.num_not_completed(), 0);
}

#[test]
fn header_names_the_factors_that_vary() {
    let varied = experiment([2, 1, 3, 1, 2]);
    assert_eq!(varied.table_header(), vec!["i", "Graph Data", "Algorithm", "Source-Sink Pairs"]);
    assert_eq!(
        varied.result_header(),
        vec![
            "i",
            "Graph Data",
            "Algorithm",
            "Source-Sink Pairs",
            "Number of Wrong Results",
            "First Wrong Source-Sink Pair"
        ]
    );
    let constant = experiment([1, 1, 1, 1, 1]);
    assert_eq!(constant.table_header(), vec!["i"]);
    let all = experiment([2, 2, 2, 2, 2]);
    assert_eq!(
        all.table_header(),
        vec!["i", "Graph Data", "Graph Representation", "Algorithm", "Caching", "Source-Sink Pairs"]
    );
}

#[test]
fn columns_of_what_is_measured() {
    assert_eq!(Measurement::Time.result_columns(), vec!["Total Elapsed Seconds", "Elapsed Seconds per Problem"]);
    assert_eq!(
        Measurement::Memory.result_columns(),
        vec!["Average Heap Size", "Maximum Number of Items", "Average Heap Capacity", "Maximum Heap Capacity"]
    );
    assert_eq!(
        Measurement::Validation.result_columns(),
        vec!["Number of Wrong Results", "First Wrong Source-Sink Pair"]
    );
}

#[test]
fn rows_show_the_levels_of_the_factors_that_vary() {
    let experiment = experiment([2, 1, 3, 2, 2]);
    let treatments = experiment.create_treatments();
    let treatment = &treatments[23];
    assert_eq!(
        treatment.result_row(&experiment, 23),
        vec![
            "23",
            "Random(GraphRandom { seed: 1, num_nodes: 10, density_bits: 1048576000 })",
            "Dijkstra(PriorityQueueDecKey(OrxDaryHeapWithMap(D16)))",
            "Pure",
            "FactorPairs { seed: 1, num_pairs: 11 }"
        ]
    );
    assert_eq!(
        treatment.table_row(&experiment, 23),
        vec![
            "23",
            "Random:\n* seed      : 1\n* num_nodes : 10\n* density   : bits 1048576000",
            "Dijkstra\n* orx_priority_queue::D16HeapWithMap (d=16)",
            "Pure",
            "* seed      : 1\n* num_pairs : 11"
        ]
    );
    assert_eq!(
        treatment.short_definition(&experiment),
        "Random(GraphRandom { seed: 1, num_nodes: 10, density_bits: 1048576000 }) | \
         Dijkstra(PriorityQueueDecKey(OrxDaryHeapWithMap(D16))) | Pure | FactorPairs { seed: 1, num_pairs: 11 }"
    );
    let constant = self::experiment([1, 1, 1, 1, 1]);
    let only = constant.create_treatments();
    assert_eq!(only[0].result_row(&constant, 0), vec!["0"]);
    assert_eq!(only[0].short_definition(&constant), "");
}
