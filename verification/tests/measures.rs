use bench_shortest_path::algorithm::measure::memory::{max_of, Memory};
use bench_shortest_path::algorithm::measure::no_measurement::NoMeasurement;
use bench_shortest_path::algorithm::measure::run_measure::Measure;
use bench_shortest_path::algorithm::measure::time::{Time, NOT_STOPPED};
use bench_shortest_path::algorithm::measure::treatment_measure::memory::TreatmentMemory;
use bench_shortest_path::algorithm::measure::treatment_measure::time::TreatmentTime;
use bench_shortest_path::algorithm::measure::treatment_measure::treatment_core::TreatmentMeasure;
use bench_shortest_path::algorithm::measure::treatment_measure::validation::TreatmentValidation;
use bench_shortest_path::algorithm::measure::validation::{get_valid_solution, Validation};
use bench_shortest_path::algorithm::orx_pq_dijkstra::OrxPqDijkstra;
use bench_shortest_path::algorithm::sd_algorithm::ShortestDistanceAlgorithm;
use bench_shortest_path::algorithm::solution::Solution;
use bench_shortest_path::algorithm::std_pq_dijkstra::StdPqDijkstra;
use bench_shortest_path::graph::adjlist_jagged_vec::AdjListJaggedVec;
use bench_shortest_path::graph::edge_list::build_from_edges;

fn triangle() -> AdjListJaggedVec {
    build_from_edges::<AdjListJaggedVec>(4, &vec![(0, 1, 1), (1, 2, 2), (0, 2, 5)]).unwrap()
}

#[test]
fn solution_starts_open_and_is_closed_once() {
    let graph = triangle();
    let mut solution: Solution<Validation> = Solution::new(&graph, 0, 2);
    assert_eq!(solution.shortest_distance, None);
    assert_eq!(solution.measure.source, 0);
    assert_eq!(solution.measure.sink, 2);
    assert_eq!(solution.measure.correct_shortest_distance, Some(3));
    assert_eq!(solution.measure.found_shortest_distance, Some(u64::MAX));
    assert!(!solution.measure.is_correct());
    solution.iterate(3, 8);
    assert_eq!(solution.measure.found_shortest_distance, Some(u64::MAX));
    let reached = solution.reached(3);
    assert_eq!(reached.shortest_distance, Some(3));
    assert_eq!(reached.measure.found_shortest_distance, Some(3));
    assert!(reached.measure.is_correct());

    let lost: Solution<Validation> = Solution::new(&graph, 0, 3);
    assert_eq!(lost.measure.correct_shortest_distance, None);
    let lost = lost.not_connected();
    assert_eq!(lost.shortest_distance, None);
    assert_eq!(lost.measure.found_shortest_distance, None);
    assert!(lost.measure.is_correct());

    let wrong: Solution<Validation> = Solution::new(&graph, 0, 2);
    let wrong = wrong.reached(4);
    assert!(!wrong.measure.is_correct());
}

#[test]
fn reference_solution() {
    let graph = triangle();
    assert_eq!(get_valid_solution(&graph, 0, 2), Some(3));
    assert_eq!(get_valid_solution(&graph, 0, 1), Some(1));
    assert_eq!(get_valid_solution(&graph, 2, 0), None);
    assert_eq!(get_valid_solution(&graph, 3, 3), Some(0));
}

#[test]
fn validation_keeps_the_wrong_results() {
    let graph = triangle();
    let mut aggregate = TreatmentValidation::default();
    assert_eq!(aggregate.num_wrong_results(), 0);
    assert_eq!(aggregate.result_cells(), vec!["0", ""]);
    let right: Solution<Validation> = Solution::new(&graph, 0, 2);
    aggregate.aggregate(right.reached(3).measure);
    assert_eq!(aggregate.num_wrong_results(), 0);
    let wrong: Solution<Validation> = Solution::new(&graph, 1, 2);
    aggregate.aggregate(wrong.reached(7).measure);
    let missed: Solution<Validation> = Solution::new(&graph, 0, 1);
    aggregate.aggregate(missed.not_connected().measure);
    assert_eq!(aggregate.num_wrong_results(), 2);
    assert_eq!(aggregate.first_wrong_pair(), Some((1, 2)));
    assert_eq!(aggregate.result_cells(), vec!["2", "1-2"]);
    assert_eq!(aggregate.wrong_results[1].found_shortest_distance, None);
    assert_eq!(aggregate.wrong_results[1].correct_shortest_distance, Some(1));
}

#[test]
fn validation_of_the_algorithms_is_correct() {
    let graph = triangle();
    let found = StdPqDijkstra::run_pure::<Validation>(&graph, 0, 2);
    assert!(found.measure.is_correct());
    assert_eq!(found.measure.found_shortest_distance, Some(3));
    let lost = <OrxPqDijkstra<4> as ShortestDistanceAlgorithm<AdjListJaggedVec>>::run_pure::<Validation>(&graph, 0, 3);
    assert!(lost.measure.is_correct());
    assert_eq!(lost.measure.found_shortest_distance, None);
}

#[test]
fn time_is_taken_at_the_end() {
    let graph = triangle();
    let mut time = Time::start();
    assert_eq!(time.elapsed_nanos, NOT_STOPPED);
    time.iterate(1, 1);
    assert_eq!(time.elapsed_nanos, NOT_STOPPED);
    time.stop();
    assert!(time.elapsed_nanos < NOT_STOPPED);
    let measured = StdPqDijkstra::run_pure::<Time>(&graph, 0, 2);
    assert!(measured.measure.elapsed_nanos < NOT_STOPPED);
    let mut started = <Time as Measure>::initialize(&graph, 0, 2);
    assert_eq!(started.elapsed_nanos, NOT_STOPPED);
    started.finalize(None);
    assert!(started.elapsed_nanos < NOT_STOPPED);
}

#[test]
fn time_aggregate_sums_and_counts() {
    let mut aggregate = TreatmentTime::default();
    assert_eq!((aggregate.count, aggregate.total_elapsed_nanos), (0, 0));
    assert_eq!(aggregate.elapsed_nanos_per_treatment(), 0);
    for nanos in [10u128, 25, 7] {
        let mut time = Time::start();
        time.elapsed_nanos = nanos;
        aggregate.aggregate(time);
    }
    assert_eq!((aggregate.count, aggregate.total_elapsed_nanos), (3, 42));
    assert_eq!(aggregate.elapsed_nanos_per_treatment(), 14);
    let mut never_stopped = Time::start();
    never_stopped.elapsed_nanos = NOT_STOPPED;
    aggregate.aggregate(never_stopped);
    assert_eq!(aggregate.total_elapsed_nanos, u128::MAX);
    aggregate.count = usize::MAX;
    aggregate.aggregate(Time::start());
    assert_eq!(aggregate.count, usize::MAX);
}

#[test]
fn memory_takes_maximum_and_sum() {
    let graph = triangle();
    let mut memory = <Memory as Measure>::initialize(&graph, 0, 2);
    assert_eq!(memory.num_iterations, 0);
    memory.iterate(3, 8);
    memory.iterate(5, 8);
    memory.iterate(2, 16);
    assert_eq!(memory.num_iterations, 3);
    assert_eq!(memory.max_num_items, 5);
    assert_eq!(memory.total_num_items_in_observations, 10);
    assert_eq!(memory.max_capacity, 16);
    assert_eq!(memory.total_capacity_in_observations, 32);
    assert_eq!(memory.time.elapsed_nanos, NOT_STOPPED);
    memory.finalize(Some(3));
    assert!(memory.time.elapsed_nanos < NOT_STOPPED);
    assert_eq!(memory.num_iterations, 3);
    memory.iterate(usize::MAX, usize::MAX);
    assert_eq!(memory.total_num_items_in_observations, usize::MAX);
    assert_eq!(memory.total_capacity_in_observations, usize::MAX);
    assert_eq!(memory.max_num_items, usize::MAX);
    assert_eq!(memory.num_iterations, 4);
    assert_eq!(max_of(3, 4), 4);
    assert_eq!(max_of(4, 3), 4);
}

fn memory(steps: &[(usize, usize)]) -> Memory {
    let graph = triangle();
    let mut memory = <Memory as Measure>::initialize(&graph, 0, 2);
    for (length, capacity) in steps {
        memory.iterate(*length, *capacity);
    }
    memory.finalize(None);
    memory
}

#[test]
fn memory_aggregate_takes_maximum_and_sum() {
    let mut aggregate = TreatmentMemory::default();
    assert_eq!(aggregate.average_heap_size(), None);
    aggregate.aggregate(memory(&[(3, 8), (5, 8)]));
    aggregate.aggregate(memory(&[]));
    aggregate.aggregate(memory(&[(1, 32), (4, 32), (2, 32)]));
    assert_eq!(aggregate.num_iterations, 5);
    assert_eq!(aggregate.max_num_items, 5);
    assert_eq!(aggregate.total_num_items_in_observations, 15);
    assert_eq!(aggregate.max_capacity, 32);
    assert_eq!(aggregate.total_capacity_in_observations, 112);
    assert_eq!(aggregate.time.count, 3);
    assert_eq!(aggregate.average_heap_size(), Some((15, 5)));
    assert_eq!(aggregate.average_heap_capacity(), Some((112, 5)));
}

#[test]
fn memory_aggregate_does_not_depend_on_the_order() {
    let runs: Vec<Vec<(usize, usize)>> = vec![vec![(3, 8), (5, 8)], vec![(9, 9)], vec![(1, 32), (4, 32)]];
    let mut forward = TreatmentMemory::default();
    for run in runs.iter() {
        forward.aggregate(memory(run));
    }
    let mut backward = TreatmentMemory::default();
    for run in runs.iter().rev() {
        backward.aggregate(memory(run));
    }
    assert_eq!(forward.num_iterations, backward.num_iterations);
    assert_eq!(forward.max_num_items, backward.max_num_items);
    assert_eq!(forward.total_num_items_in_observations, backward.total_num_items_in_observations);
    assert_eq!(forward.max_capacity, backward.max_capacity);
    assert_eq!(forward.total_capacity_in_observations, backward.total_capacity_in_observations);
}

#[test]
fn no_measurement_measures_nothing() {
    let graph = triangle();
    let mut measure = <NoMeasurement as Measure>::initialize(&graph, 0, 2);
    measure.iterate(1, 2);
    measure.finalize(Some(3));
    let solution = StdPqDijkstra::run_pure::<NoMeasurement>(&graph, 0, 2);
    assert_eq!(solution.shortest_distance, Some(3));
}

#[test]
fn memory_of_a_run_sees_the_frontier() {
    let graph = triangle();
    let solution = StdPqDijkstra::run_pure::<Memory>(&graph, 0, 2);
    assert_eq!(solution.shortest_distance, Some(3));
    assert_eq!(solution.measure.num_iterations, 2);
    assert_eq!(solution.measure.max_num_items, 2);
    assert_eq!(solution.measure.total_num_items_in_observations, 4);
    assert!(solution.measure.max_capacity >= 2);
}
