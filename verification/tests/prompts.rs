use bench_shortest_path::experimentation::factors::algorithm::dary::Dary;
use bench_shortest_path::experimentation::factors::algorithm::dijkstra::{Dijkstra, PlainDijkstra};
use bench_shortest_path::experimentation::factors::algorithm::factor_algorithm::FactorAlgorithm;
use bench_shortest_path::experimentation::factors::algorithm::priority_queue::{
    PlainPriorityQueue, PriorityQueue,
};
use bench_shortest_path::experimentation::factors::algorithm::priority_queue_deckey::{
    PlainPriorityQueueDecKey, PriorityQueueDecKey,
};
use bench_shortest_path::experimentation::factors::algorithm_data::FactorAlgorithmData;
use bench_shortest_path::experimentation::factors::factor::Factor;
use bench_shortest_path::experimentation::factors::graph_data::dimacs9th::GraphDimacs9th;
use bench_shortest_path::experimentation::factors::graph_data::factor_graph_data::FactorGraphData;
use bench_shortest_path::experimentation::factors::graph_representation::FactorGraphRepresentation;
use bench_shortest_path::experimentation::factors::pairs::FactorPairs;
use bench_shortest_path::experimentation::measurement::Measurement;
use bench_shortest_path::operations::fromfile::FromFile;
use bench_shortest_path::operations::help::Help;
use bench_shortest_path::operations::interactive::Interactive;
use bench_shortest_path::experimentation::factors::graph_data::random::GraphRandom;
use bench_shortest_path::operations::operation::{
    get_operation_line, push_repeated, same_letters, starts_with, Operation,
};
use bench_shortest_path::operations::runner::{run_command, run_commands, Run};
use bench_shortest_path::utils::cli::{
    append_all, contains, echo, echo_continue, print_scalar_query_get_answer,
    print_scalar_query_get_answers, print_table_get_choice, print_table_get_choices, query_continue,
    trim,
};
use bench_shortest_path::utils::decimal::{find_field, find_field_end, parse_u64, parse_usize};
use bench_shortest_path::utils::fs::{
    experiment_and_results_filepath, get_experiment_and_results_paths, PathsStep, FOLDER_RESULTS,
};
use bench_shortest_path::utils::text::{
    append_decimal, decimal_len, decimal_string, digit_str, joined, print_treatment_completion_progress_bar, push_if,
};
use std::cell::Cell;

fn bytes(text: &str) -> Vec<u8> {
    text.as_bytes().to_vec()
}

fn number(text: &str) -> Option<u64> {
    parse_u64(&bytes(text), 0, text.len())
}

#[test]
fn numbers_are_read_as_the_standard_library_reads_them() {
    for text in ["0", "7", "42", "+42", "007", "18446744073709551615", "18446744073709551616", "", "+", "-1", "1 ",
        " 1", "1.0", "0x10", "++1", "1+", "99999999999999999999999999", "12a", "a12", "٣"]
    {
        assert_eq!(number(text), text.parse::<u64>().ok(), "{:?}", text);
        assert_eq!(parse_usize(&bytes(text), 0, text.len()), text.parse::<usize>().ok(), "{:?}", text);
    }
    assert_eq!(parse_u64(&bytes("a 12 b"), 2, 4), Some(12));
    assert_eq!(parse_u64(&bytes("a 12 b"), 2, 2), None);
}

#[test]
fn numbers_are_written_in_decimal() {
    for number in [0u64, 1, 9, 10, 11, 99, 100, 101, 12345, 1048576000, u64::MAX - 1, u64::MAX] {
        assert_eq!(decimal_string(number), number.to_string());
    }
    let mut text = String::from("n = ");
    append_decimal(&mut text, 2024);
    append_decimal(&mut text, 0);
    assert_eq!(text, "n = 20240");
    assert_eq!((0..10).map(digit_str).collect::<String>(), "0123456789");
}

#[test]
fn strings_are_joined() {
    let parts: Vec<String> = vec!["a".to_string(), "".to_string(), "bc".to_string()];
    assert_eq!(joined(&parts, " | "), "a |  | bc");
    assert_eq!(joined(&parts, "\t"), "a\t\tbc");
    assert_eq!(joined(&vec!["alone".to_string()], ", "), "alone");
    assert_eq!(joined(&vec![], ", "), "");
    let mut cells = vec![];
    push_if(&mut cells, true, "kept".to_string());
    push_if(&mut cells, false, "left out".to_string());
    assert_eq!(cells, vec!["kept"]);
}

#[test]
fn fields_of_a_line() {
    let line = bytes("a 12  b ");
    assert_eq!(find_field(&line, 32, 0), Some((0, 1)));
    assert_eq!(find_field(&line, 32, 1), Some((2, 4)));
    assert_eq!(find_field(&line, 32, 2), Some((5, 5)));
    assert_eq!(find_field(&line, 32, 3), Some((6, 7)));
    assert_eq!(find_field(&line, 32, 4), Some((8, 8)));
    assert_eq!(find_field(&line, 32, 5), None);
    assert_eq!(find_field(&line, 32, 50), None);
    assert_eq!(find_field(&bytes(""), 32, 0), Some((0, 0)));
    assert_eq!(find_field(&bytes(""), 32, 1), None);
    assert_eq!(find_field(&bytes("1,2"), 44, 1), Some((2, 3)));
    assert_eq!(find_field_end(&line, 32, 2), 4);
    assert_eq!(find_field_end(&line, 32, 8), 8);
}

#[test]
fn blanks_around_a_line_do_not_count() {
    assert_eq!(trim(&bytes("  1, 2 \r\n")), bytes("1, 2"));
    assert_eq!(trim(&bytes("\t\n ")), bytes(""));
    assert_eq!(trim(&bytes("")), bytes(""));
    assert_eq!(trim(&bytes("x")), bytes("x"));
    assert_eq!(trim(&bytes("a b")), bytes("a b"));
}

#[test]
fn answers_of_a_line() {
    let answers = |line: &str| print_scalar_query_get_answers(&bytes(line), 9, 2, 5);
    assert_eq!(answers("2,3,5\n"), vec![2, 3, 5]);
    assert_eq!(answers("5,2,5,+2,3"), vec![5, 2, 3]);
    assert_eq!(answers(" 4 \n"), vec![4]);
    assert_eq!(answers("4, 3"), vec![4]);
    assert_eq!(answers("1,6,x,,4"), vec![4]);
    assert_eq!(answers("1,6,x,"), vec![9]);
    assert_eq!(answers(""), vec![9]);
    assert_eq!(answers("\n"), vec![9]);
    assert_eq!(answers(","), vec![9]);
    assert_eq!(print_scalar_query_get_answers(&bytes("0,18446744073709551615"), 1, 0, usize::MAX), vec![
        0,
        usize::MAX
    ]);
    assert!(contains(&vec![1, 2, 3], 2));
    assert!(!contains(&vec![1, 2, 3], 4));
    assert!(!contains(&vec![], 0));
}

#[test]
fn the_one_answer_of_a_line() {
    let answer = |line: &str| print_scalar_query_get_answer(&bytes(line), 9, 2, 5);
    assert_eq!(answer("3\n"), 3);
    assert_eq!(answer("  5  "), 5);
    assert_eq!(answer("+2"), 2);
    assert_eq!(answer("6"), 9);
    assert_eq!(answer("1"), 9);
    assert_eq!(answer(""), 9);
    assert_eq!(answer("3,4"), 9);
    assert_eq!(answer("three"), 9);
}

#[test]
fn choices_of_a_table() {
    let levels = vec!['a', 'b', 'c', 'd'];
    assert_eq!(print_table_get_choices(&levels, 1, &bytes("3,0,3\n")), vec!['d', 'a']);
    assert_eq!(print_table_get_choices(&levels, 1, &bytes("\n")), vec!['b']);
    assert_eq!(print_table_get_choices(&levels, 1, &bytes("4,9")), vec!['b']);
    assert_eq!(print_table_get_choices(&vec!['z'], 0, &bytes("7,0,1")), vec!['z']);
    assert_eq!(print_table_get_choice(&levels, 2, &bytes("0")), 'a');
    assert_eq!(print_table_get_choice(&levels, 2, &bytes("4")), 'c');
    assert_eq!(print_table_get_choice(&levels, 2, &bytes("")), 'c');
    assert_eq!(print_table_get_choice(&vec!['z'], 0, &bytes("5")), 'z');
    let mut target = vec![1, 2];
    append_all(&mut target, &vec![3, 4]);
    append_all(&mut target, &vec![]);
    assert_eq!(target, vec![1, 2, 3, 4]);
}

#[test]
fn going_on_is_asked() {
    for no in ["n", "N", " n\n", "\tN "] {
        assert!(!query_continue(&bytes(no)));
        assert!(!echo_continue(true, &bytes(no)));
        assert!(echo_continue(false, &bytes(no)));
    }
    for yes in ["", "y", "no", "nn", "n n", "yes\n", "\n"] {
        assert!(query_continue(&bytes(yes)));
        assert!(echo_continue(true, &bytes(yes)));
        assert!(echo_continue(false, &bytes(yes)));
    }
}

#[test]
fn echo_acts_in_an_interactive_run_only() {
    let count = Cell::new(0);
    echo(false, || count.set(count.get() + 1));
    assert_eq!(count.get(), 0);
    echo(true, || count.set(count.get() + 1));
    assert_eq!(count.get(), 1);
}

#[test]
fn levels_of_the_arity() {
    assert_eq!(Dary::levels(), vec![Dary::Binary, Dary::Quaternary, Dary::Octonary, Dary::D16, Dary::D32, Dary::D64]);
    assert_eq!(Dary::levels().iter().map(|dary| dary.d()).collect::<Vec<_>>(), vec![2, 4, 8, 16, 32, 64]);
    assert_eq!(Dary::level_from_cli(&bytes("5,1\n")), vec![Dary::D64, Dary::Quaternary]);
    assert_eq!(Dary::level_from_cli(&bytes("\n")), vec![Dary::Binary]);
    assert_eq!(Dary::level_from_cli(&bytes("6")), vec![Dary::Binary]);
    for d in 0..70 {
        assert_eq!(Dary::with_d(d).map(|dary| dary.d()), if [2, 4, 8, 16, 32, 64].contains(&d) { Some(d) } else { None });
    }
    assert_eq!(Dary::D32.name(), "D32");
}

#[test]
fn levels_of_the_frontiers() {
    assert_eq!(
        PriorityQueue::level_from_cli(&bytes("1,0"), &bytes("0,2")),
        vec![
            PriorityQueue::OrxDaryHeap(Dary::Binary),
            PriorityQueue::OrxDaryHeap(Dary::Octonary),
            PriorityQueue::StdBinaryHeap
        ]
    );
    assert_eq!(PriorityQueue::level_from_cli(&bytes(""), &bytes("3")), vec![PriorityQueue::StdBinaryHeap]);
    assert_eq!(PlainPriorityQueue::levels(), vec![PlainPriorityQueue::StdBinaryHeap, PlainPriorityQueue::OrxDaryHeap]);
    assert_eq!(
        PriorityQueueDecKey::level_from_cli(&bytes("2,0"), &bytes("1,4")),
        vec![
            PriorityQueueDecKey::PriorityQueuePriorityQueue,
            PriorityQueueDecKey::PriorityQueuePriorityQueue,
            PriorityQueueDecKey::OrxDaryHeapOfIndices(Dary::Quaternary),
            PriorityQueueDecKey::OrxDaryHeapOfIndices(Dary::D32)
        ]
    );
    assert_eq!(
        PriorityQueueDecKey::level_from_cli(&bytes(""), &bytes("")),
        vec![PriorityQueueDecKey::OrxDaryHeapOfIndices(Dary::Binary)]
    );
    assert_eq!(PlainPriorityQueueDecKey::level_from_cli(&bytes("1")), vec![PlainPriorityQueueDecKey::OrxDaryHeapWithMap]);
    assert!(PriorityQueueDecKey::expand(&vec![], &Dary::levels()).is_empty());
}

#[test]
fn levels_of_the_algorithm() {
    let queues = vec![PriorityQueue::StdBinaryHeap];
    let deckey = vec![PriorityQueueDecKey::OrxDaryHeapWithMap(Dary::D16), PriorityQueueDecKey::PriorityQueuePriorityQueue];
    let kinds = PlainDijkstra::level_from_cli(&bytes("2,1,0"));
    assert_eq!(kinds, vec![PlainDijkstra::Petgraph, PlainDijkstra::PriorityQueueDecKey, PlainDijkstra::PriorityQueue]);
    let dijkstras = Dijkstra::level_from_cli(&kinds, &queues, &deckey);
    assert_eq!(
        dijkstras,
        vec![
            Dijkstra::Petgraph,
            Dijkstra::PriorityQueueDecKey(PriorityQueueDecKey::OrxDaryHeapWithMap(Dary::D16)),
            Dijkstra::PriorityQueueDecKey(PriorityQueueDecKey::PriorityQueuePriorityQueue),
            Dijkstra::PriorityQueue(PriorityQueue::StdBinaryHeap)
        ]
    );
    let algorithms = FactorAlgorithm::query_levels_from_cli(&dijkstras);
    assert_eq!(algorithms.len(), 4);
    assert_eq!(algorithms[0], FactorAlgorithm::Dijkstra(Dijkstra::Petgraph));
    assert_eq!(
        FactorAlgorithm::default(),
        FactorAlgorithm::Dijkstra(Dijkstra::PriorityQueue(PriorityQueue::OrxDaryHeap(Dary::Binary)))
    );
}

#[test]
fn levels_of_the_other_factors() {
    assert_eq!(
        FactorAlgorithmData::query_levels_from_cli(&bytes("1,0")),
        vec![FactorAlgorithmData::Pure, FactorAlgorithmData::Cached]
    );
    assert_eq!(FactorAlgorithmData::query_levels_from_cli(&bytes("")), vec![FactorAlgorithmData::default()]);
    assert_eq!(
        FactorGraphRepresentation::query_levels_from_cli(&bytes("2")),
        vec![FactorGraphRepresentation::AdjListPetgraph]
    );
    assert_eq!(
        FactorGraphRepresentation::query_levels_from_cli(&bytes("x")),
        vec![FactorGraphRepresentation::default()]
    );
    assert_eq!(
        GraphDimacs9th::level_from_cli(&bytes("6,0,6")),
        vec![GraphDimacs9th::USARoaddUSA, GraphDimacs9th::USARoaddNY]
    );
    assert_eq!(Measurement::query_from_cli(&bytes("0")), Measurement::Time);
    assert_eq!(Measurement::query_from_cli(&bytes("1\n")), Measurement::Memory);
    assert_eq!(Measurement::query_from_cli(&bytes("")), Measurement::Validation);
    assert_eq!(Measurement::query_from_cli(&bytes("3")), Measurement::Validation);
    assert_eq!(Measurement::levels(), vec![Measurement::Time, Measurement::Memory, Measurement::Validation]);
}

#[test]
fn cells_of_the_algorithms() {
    assert_eq!(
        PriorityQueue::OrxDaryHeap(Dary::Binary).to_cell_string("Dijkstra"),
        "Dijkstra\n* orx_priority_queue::BinaryHeap (d=2)"
    );
    assert_eq!(
        PriorityQueue::OrxDaryHeap(Dary::D64).to_cell_string("A*"),
        "A*\n* orx_priority_queue::D64Heap (d=64)"
    );
    assert_eq!(PriorityQueue::StdBinaryHeap.to_cell_string("Dijkstra"), "Dijkstra\n* std::collections::BinaryHeap");
    assert_eq!(
        PriorityQueueDecKey::OrxDaryHeapOfIndices(Dary::Quaternary).to_cell_string("Dijkstra"),
        "Dijkstra\n* orx_priority_queue::QuaternaryHeapOfIndices (d=4)"
    );
    assert_eq!(
        PriorityQueueDecKey::OrxDaryHeapWithMap(Dary::Octonary).to_cell_string("Dijkstra"),
        "Dijkstra\n* orx_priority_queue::OctonaryHeapWithMap (d=8)"
    );
    assert_eq!(
        PriorityQueueDecKey::PriorityQueuePriorityQueue.to_cell_string("Dijkstra"),
        "Dijkstra\n* priority_queue::PriorityQueue"
    );
    assert_eq!(Dijkstra::Petgraph.to_cell_string(), "Dijkstra\n* impl: petgraph::algo::dijkstra");
    assert_eq!(
        Dijkstra::PriorityQueue(PriorityQueue::OrxDaryHeap(Dary::D16)).to_cell_string(),
        "Dijkstra\n* orx_priority_queue::D16Heap (d=16)"
    );
    assert_eq!(
        Dijkstra::PriorityQueueDecKey(PriorityQueueDecKey::OrxDaryHeapWithMap(Dary::D32)).to_cell_string(),
        "Dijkstra\n* orx_priority_queue::D32HeapWithMap (d=32)"
    );
}

#[test]
fn factors_name_themselves_and_their_levels() {
    assert_eq!(
        vec![
            FactorGraphData::name_factor(),
            FactorGraphRepresentation::name_factor(),
            FactorAlgorithm::name_factor(),
            FactorAlgorithmData::name_factor(),
            FactorPairs::name_factor()
        ],
        vec!["Graph Data", "Graph Representation", "Algorithm", "Caching", "Source-Sink Pairs"]
    );
    assert_eq!(
        vec![
            FactorGraphData::query_header_index(),
            FactorGraphRepresentation::query_header_index(),
            FactorAlgorithm::query_header_index(),
            FactorAlgorithmData::query_header_index(),
            FactorPairs::query_header_index()
        ],
        vec![2, 3, 4, 5, 6]
    );
    assert_eq!(FactorGraphRepresentation::definition_factor(), "Representation of the graph in memory.");
    let algorithm = FactorAlgorithm::Dijkstra(Dijkstra::PriorityQueue(PriorityQueue::StdBinaryHeap));
    assert_eq!(algorithm.name_level(), "Dijkstra(PriorityQueue(StdBinaryHeap))");
    assert_eq!(algorithm.definition_level(), "Dijkstra(PriorityQueue(StdBinaryHeap))");
    assert_eq!(algorithm.to_cell_string(), "Dijkstra\n* std::collections::BinaryHeap");
    assert_eq!(FactorAlgorithm::Dijkstra(Dijkstra::Petgraph).name_level(), "Dijkstra(Petgraph)");
    assert_eq!(
        FactorAlgorithm::Dijkstra(Dijkstra::PriorityQueueDecKey(PriorityQueueDecKey::OrxDaryHeapOfIndices(Dary::D64)))
            .name_level(),
        "Dijkstra(PriorityQueueDecKey(OrxDaryHeapOfIndices(D64)))"
    );
    assert_eq!(FactorAlgorithmData::Pure.name_level(), "Pure");
    assert_eq!(FactorAlgorithmData::Cached.to_cell_string(), "Cached");
    assert_eq!(FactorGraphRepresentation::AdjListFlatVec.name_level(), "AdjListFlatVec");
    assert_eq!(FactorGraphData::Dimacs9th(GraphDimacs9th::USARoaddW).name_level(), "Dimacs9th(USARoaddW)");
    assert_eq!(
        FactorGraphData::Dimacs9th(GraphDimacs9th::USARoaddW).to_cell_string(),
        "Dimacs9th:\n* name: USARoaddW"
    );
    let pairs = FactorPairs { seed: 3, num_pairs: 100 };
    assert_eq!(pairs.name_level(), "FactorPairs { seed: 3, num_pairs: 100 }");
    assert_eq!(pairs.to_cell_string(), "* seed      : 3\n* num_pairs : 100");
}

#[test]
fn commands_ask_for_operations() {
    assert_eq!(Help::name(), "help");
    assert_eq!(Interactive::name(), "interactive");
    assert_eq!(FromFile::name(), "fromfile");
    assert!(Help::matches(&bytes("help")));
    assert!(Help::matches(&bytes("HeLp")));
    assert!(!Help::matches(&bytes("help ")));
    assert!(!Help::matches(&bytes("hel")));
    assert!(Interactive::matches(&bytes("INTERACTIVE")));
    assert!(!Interactive::matches(&bytes("help")));
    assert!(FromFile::matches(&bytes("fromfile=results/my.json")));
    assert!(FromFile::matches(&bytes("fromfilex")));
    assert!(!FromFile::matches(&bytes("fromfile")));
    assert!(!FromFile::matches(&bytes("FromFile=x")));
    assert_eq!(FromFile::path(&bytes("fromfile=results/my.json")), Some(bytes("results/my.json")));
    assert_eq!(FromFile::path(&bytes("fromfile=")), Some(bytes("")));
    assert_eq!(FromFile::path(&bytes("fromfile:x")), None);
    assert_eq!(FromFile::path(&bytes("fromfile")), None);
    assert!(same_letters(b"Abc-1", &bytes("aBC-1")));
    assert!(!same_letters(b"abc", &bytes("abd")));
    assert!(!same_letters(b"[", &bytes("{")));
    assert!(starts_with(&bytes("abc"), b"ab"));
    assert!(starts_with(&bytes("abc"), b""));
    assert!(!starts_with(&bytes("ab"), b"abc"));
    assert!(!starts_with(&bytes("abc"), b"ac"));
}

#[test]
fn commands_are_run_in_their_order() {
    assert!(matches!(run_command(&bytes("help"))[..], [Run::Help]));
    assert!(matches!(run_command(&bytes("Interactive"))[..], [Run::Interactive]));
    assert!(run_command(&bytes("unknown")).is_empty());
    assert!(run_command(&bytes("")).is_empty());
    match &run_command(&bytes("fromfile=a/b.json"))[..] {
        [Run::FromFile { path: Some(path) }] => assert_eq!(path, &bytes("a/b.json")),
        _ => panic!("the file is not run"),
    }
    assert!(matches!(run_command(&bytes("fromfile-a"))[..], [Run::FromFile { path: None }]));
    let runs = run_commands(&vec![bytes("help"), bytes("nothing"), bytes("interactive"), bytes("help")]);
    assert_eq!(runs.iter().map(|runs| runs.len()).collect::<Vec<_>>(), vec![1, 0, 1, 1]);
    assert!(matches!(runs[2][..], [Run::Interactive]));
}

#[test]
fn names_of_the_files() {
    assert_eq!(FOLDER_RESULTS, "results");
    assert_eq!(
        experiment_and_results_filepath("experiment", None),
        ("experiment.json".to_string(), "result-experiment.txt".to_string())
    );
    assert_eq!(
        experiment_and_results_filepath("my exp", Some(12)),
        ("my exp-12.json".to_string(), "result-my exp-12.txt".to_string())
    );
}

fn search(interactive: bool, taken: &[(bool, bool)]) -> (String, String, bool, usize) {
    let mut counter = None;
    let mut probes = 0;
    loop {
        let (experiment_exists, results_exists) = taken.get(probes).cloned().unwrap_or((false, false));
        probes += 1;
        match get_experiment_and_results_paths("x", interactive, counter, experiment_exists, results_exists) {
            PathsStep::Found { experiment, results, renamed } => return (experiment, results, renamed, probes),
            PathsStep::Next { counter: next } => counter = Some(next),
        }
    }
}

#[test]
fn free_names_are_searched() {
    assert_eq!(search(true, &[]), ("x.json".to_string(), "result-x.txt".to_string(), false, 1));
    assert_eq!(search(false, &[(true, false)]), ("x.json".to_string(), "result-x.txt".to_string(), false, 1));
    assert_eq!(search(true, &[(true, false)]), ("x-2.json".to_string(), "result-x-2.txt".to_string(), true, 2));
    assert_eq!(search(false, &[(false, true)]), ("x-2.json".to_string(), "result-x-2.txt".to_string(), false, 2));
    assert_eq!(
        search(true, &[(true, true), (false, true), (true, false)]),
        ("x-4.json".to_string(), "result-x-4.txt".to_string(), true, 4)
    );
    match get_experiment_and_results_paths("x", true, Some(usize::MAX), true, true) {
        PathsStep::Found { renamed, .. } => assert!(renamed),
        PathsStep::Next { .. } => panic!("the counter went on"),
    }
}

#[test]
fn progress_of_a_run_is_shown_as_a_bar() {
    let bar = |current: usize, all: usize| print_treatment_completion_progress_bar(current, all);
    assert_eq!(bar(0, 1), format!("[T-0]  {}", "#".repeat(93)));
    assert_eq!(bar(0, 2), format!("[T-0]  {}{}", "#".repeat(46), "-".repeat(47)));
    assert_eq!(bar(1, 2), format!("[T-1]  {}", "#".repeat(93)));
    assert_eq!(bar(9, 1000), format!("[T-9]  {}", "-".repeat(93)));
    assert_eq!(bar(10, 1000), format!("[T-10]  {}{}", "#".repeat(1), "-".repeat(91)));
    assert_eq!(bar(499, 1000), format!("[T-499]  {}{}", "#".repeat(45), "-".repeat(46)));
    assert_eq!(bar(usize::MAX - 1, usize::MAX).len(), 100);
    for current in [0usize, 5, 17, 99, 100, 12345] {
        assert_eq!(bar(current, 12346).len(), 100);
    }
    for number in [0u64, 9, 10, 99, 100, 18446744073709551615] {
        assert_eq!(decimal_len(number), number.to_string().len());
    }
}

#[test]
fn operations_are_announced() {
    let line = String::from_utf8(get_operation_line(b"help")).unwrap();
    assert_eq!(line, format!("\n{} HELP {}\n", "#".repeat(58), "#".repeat(58)));
    let line = String::from_utf8(get_operation_line(b"Interactive-1")).unwrap();
    assert_eq!(line, format!("\n{} INTERACTIVE-1 {}\n", "#".repeat(53), "#".repeat(53)));
    let long = "x".repeat(121);
    assert_eq!(String::from_utf8(get_operation_line(long.as_bytes())).unwrap(), format!("\n {} \n", "X".repeat(121)));
    let full = "y".repeat(120);
    assert_eq!(String::from_utf8(get_operation_line(full.as_bytes())).unwrap(), format!("\n {} \n", "Y".repeat(120)));
    let mut text = vec![1u8];
    push_repeated(&mut text, 7, 3);
    push_repeated(&mut text, 8, 0);
    assert_eq!(text, vec![1, 7, 7, 7]);
}

#[test]
fn levels_are_combined() {
    assert_eq!(
        FactorPairs::query_levels_from_cli(&vec![7, 8], &vec![1, 2, 3]),
        vec![
            FactorPairs { seed: 7, num_pairs: 1 },
            FactorPairs { seed: 7, num_pairs: 2 },
            FactorPairs { seed: 7, num_pairs: 3 },
            FactorPairs { seed: 8, num_pairs: 1 },
            FactorPairs { seed: 8, num_pairs: 2 },
            FactorPairs { seed: 8, num_pairs: 3 }
        ]
    );
    assert!(FactorPairs::query_levels_from_cli(&vec![], &vec![1]).is_empty());
    assert!(FactorPairs::query_levels_from_cli(&vec![1], &vec![]).is_empty());
    let levels = GraphRandom::level_from_cli(&vec![1, 2], &vec![10, 20, 30], &vec![5, 6]);
    assert_eq!(levels.len(), 12);
    let mut at = 0;
    for seed in [1, 2] {
        for num_nodes in [10, 20, 30] {
            for density_bits in [5, 6] {
                assert_eq!(levels[at], GraphRandom { seed, num_nodes, density_bits });
                at += 1;
            }
        }
    }
    assert!(GraphRandom::level_from_cli(&vec![1], &vec![], &vec![3]).is_empty());
}
