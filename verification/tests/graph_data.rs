use bench_shortest_path::experimentation::factors::graph_data::dimacs9th::{
    read_line, with_nodes, DimacsError, DimacsFault, DimacsLine, GraphDimacs9th,
};
use bench_shortest_path::experimentation::factors::graph_data::factor_graph_data::{
    FactorGraphData, GraphFault, GraphSource,
};
use bench_shortest_path::experimentation::factors::graph_data::random::{
    GraphRandom, RandomGraphFault, DEFAULT_DENSITY_BITS, DEFAULT_NUM_NODES, DEFAULT_SEED,
};
use bench_shortest_path::experimentation::factors::pairs::FactorPairs;
use bench_shortest_path::graph::adjlist_flat_vec::AdjListFlatVecBuilder;
use bench_shortest_path::graph::adjlist_jagged_vec::AdjListJaggedVec;
use bench_shortest_path::graph::adjlist_petgraph::AdjListPetgraph;
use bench_shortest_path::graph::out_edges::{OutEdgeData, OutEdges};
use bench_shortest_path::graph::sp_graph::SpGraph;
use bench_shortest_path::graph::sp_graph_builder::SpGraphBuilder;
use bench_shortest_path::graph::validity::has_valid_heads;
use bench_shortest_path::Weight;

fn lines(text: &str) -> Vec<Vec<u8>> {
    text.lines().map(|line| line.as_bytes().to_vec()).collect()
}

fn rows<G: SpGraph>(graph: &G) -> Vec<Vec<(usize, Weight)>> {
    (0..graph.num_nodes())
        .map(|node| {
            let mut edges = graph.out_edges(node);
            let mut row = vec![];
            while let Some(edge) = edges.next_edge() {
                row.push((edge.head(), edge.weight()));
            }
            row
        })
        .collect()
}

fn meaning(line: &str) -> Result<DimacsLine, DimacsFault> {
    read_line(&line.as_bytes().to_vec())
}

fn fault(text: &str) -> DimacsError {
    match GraphDimacs9th::USARoaddNY.create_graph_builder::<AdjListJaggedVec>(&lines(text)) {
        Err(error) => error,
        Ok(_) => panic!("the text was accepted"),
    }
}

#[test]
fn lines_of_the_three_kinds() {
    assert!(matches!(meaning("p sp 264346 733846"), Ok(DimacsLine::Problem { nodes: 264346, edges: 733846 })));
    assert!(matches!(meaning("a 1 2 803"), Ok(DimacsLine::Arc { tail: 1, head: 2, weight: 803 })));
    assert!(matches!(meaning("a +1 +2 +3 and more"), Ok(DimacsLine::Arc { tail: 1, head: 2, weight: 3 })));
    assert!(matches!(meaning("a 0 0 0"), Ok(DimacsLine::Arc { tail: 0, head: 0, weight: 0 })));
    assert!(matches!(meaning("c 9th DIMACS Implementation Challenge"), Ok(DimacsLine::Comment)));
    assert!(matches!(meaning(""), Ok(DimacsLine::Comment)));
    assert!(matches!(meaning("pp sp 1 1"), Ok(DimacsLine::Comment)));
    assert!(matches!(meaning(" a 1 2 3"), Ok(DimacsLine::Comment)));
    assert!(matches!(meaning("A 1 2 3"), Ok(DimacsLine::Comment)));
    assert!(matches!(
        meaning("a 18446744073709551615 1 18446744073709551615"),
        Ok(DimacsLine::Arc { tail: 18446744073709551615, head: 1, weight: 18446744073709551615 })
    ));
    assert!(matches!(meaning("p x 007 0"), Ok(DimacsLine::Problem { nodes: 7, edges: 0 })));
}

#[test]
fn faults_of_a_line() {
    assert_eq!(meaning("p").err(), Some(DimacsFault::MissingField));
    assert_eq!(meaning("p sp").err(), Some(DimacsFault::MissingField));
    assert_eq!(meaning("p sp 5").err(), Some(DimacsFault::MissingField));
    assert_eq!(meaning("p sp five 7").err(), Some(DimacsFault::InvalidNumNodes));
    assert_eq!(meaning("p sp  5 7").err(), Some(DimacsFault::InvalidNumNodes));
    assert_eq!(meaning("p sp 5 -7").err(), Some(DimacsFault::InvalidNumEdges));
    assert_eq!(meaning("p sp 5 7.0").err(), Some(DimacsFault::InvalidNumEdges));
    assert_eq!(meaning("p sp x").err(), Some(DimacsFault::InvalidNumNodes));
    assert_eq!(meaning("a").err(), Some(DimacsFault::MissingField));
    assert_eq!(meaning("a 1 2").err(), Some(DimacsFault::MissingField));
    assert_eq!(meaning("a one 2 3").err(), Some(DimacsFault::InvalidTail));
    assert_eq!(meaning("a 1 2x 3").err(), Some(DimacsFault::InvalidHead));
    assert_eq!(meaning("a 1 2 ").err(), Some(DimacsFault::InvalidWeight));
    assert_eq!(meaning("a 1 2 +").err(), Some(DimacsFault::InvalidWeight));
    assert_eq!(meaning("a 1 2 18446744073709551616").err(), Some(DimacsFault::InvalidWeight));
    assert_eq!(meaning("a 18446744073709551616 2 1").err(), Some(DimacsFault::InvalidTail));
    assert_eq!(meaning("a 1 99999999999999999999999 1").err(), Some(DimacsFault::InvalidHead));
    assert_eq!(meaning("a x y").err(), Some(DimacsFault::InvalidTail));
}

#[test]
fn a_text_becomes_a_graph() {
    let text = "c comment\np sp 4 5\nc\na 1 2 10\na 2 3 20\na 1 3 50\na 1 2 10\na 4 4 0\n";
    let expected = vec![vec![(1, 10), (2, 50), (1, 10)], vec![(2, 20)], vec![], vec![(3, 0)]];
    let jagged = GraphDimacs9th::USARoaddNY.create_graph_builder::<AdjListJaggedVec>(&lines(text)).unwrap();
    assert_eq!(rows(&jagged.build()), expected);
    let flat = GraphDimacs9th::USARoaddW.create_graph_builder::<AdjListFlatVecBuilder>(&lines(text)).unwrap();
    assert_eq!(rows(&flat.build()), expected);
    let petgraph = GraphDimacs9th::USARoaddUSA.create_graph_builder::<AdjListPetgraph>(&lines(text)).unwrap();
    let reversed: Vec<Vec<(usize, Weight)>> =
        expected.iter().map(|row| row.iter().rev().cloned().collect()).collect();
    assert_eq!(rows(&petgraph.build()), reversed);
}

#[test]
fn the_line_of_the_problem_starts_the_graph_anew() {
    let text = "p sp 4 1\na 1 2 10\np sp 2 1\na 2 1 7";
    let jagged = GraphDimacs9th::USARoaddNY.create_graph_builder::<AdjListJaggedVec>(&lines(text)).unwrap();
    assert_eq!(rows(&jagged.build()), vec![vec![], vec![(0, 7)]]);
}

#[test]
fn faults_of_a_text() {
    assert_eq!(fault(""), DimacsError { line: 0, fault: DimacsFault::MissingGraphMetaData });
    assert_eq!(fault("c only\nc comments"), DimacsError { line: 2, fault: DimacsFault::MissingGraphMetaData });
    assert_eq!(fault("c\na 1 2 3\np sp 2 1"), DimacsError { line: 1, fault: DimacsFault::MissingGraphMetaData });
    assert_eq!(fault("p sp 2 1\na 0 1 3"), DimacsError { line: 1, fault: DimacsFault::NodeIdZero });
    assert_eq!(fault("p sp 2 1\na 1 0 3"), DimacsError { line: 1, fault: DimacsFault::NodeIdZero });
    assert_eq!(fault("p sp 2 1\na 3 1 3"), DimacsError { line: 1, fault: DimacsFault::EdgeRefused });
    assert_eq!(fault("p sp 2 1\nc\na 1 2"), DimacsError { line: 2, fault: DimacsFault::MissingField });
    assert_eq!(fault("p sp 2 1\na 1 2 3\na 1 b 3\na 0 0 0"), DimacsError { line: 2, fault: DimacsFault::InvalidHead });
    assert_eq!(fault("p sp two 1\na 1 2 3"), DimacsError { line: 0, fault: DimacsFault::InvalidNumNodes });
    assert_eq!(fault("a x\np sp 1 1"), DimacsError { line: 0, fault: DimacsFault::InvalidTail });
    let beyond = GraphDimacs9th::USARoaddNY.create_graph_builder::<AdjListJaggedVec>(&lines("p sp 2 1\na 1 3 4"));
    assert!(!has_valid_heads(&beyond.unwrap().build()));
    match GraphDimacs9th::USARoaddNY.create_graph_builder::<AdjListPetgraph>(&lines("p sp 2 1\na 1 3 4")) {
        Err(error) => assert_eq!(error, DimacsError { line: 1, fault: DimacsFault::EdgeRefused }),
        Ok(_) => panic!("the edge was taken"),
    }
}

#[test]
fn builders_with_nodes() {
    let builder: AdjListJaggedVec = with_nodes::<AdjListJaggedVec>(3, None).unwrap();
    assert_eq!(builder.build().num_nodes(), 3);
    let builder = with_nodes::<AdjListPetgraph>(0, Some(4)).unwrap();
    assert_eq!(builder.build().num_nodes(), 0);
}

#[test]
fn names_of_the_networks() {
    assert_eq!(GraphDimacs9th::default(), GraphDimacs9th::USARoaddNY);
    let names: Vec<&str> = GraphDimacs9th::levels().iter().map(|level| level.name()).collect();
    assert_eq!(
        names,
        vec!["USARoaddNY", "USARoaddBAY", "USARoaddCOL", "USARoaddFLA", "USARoaddLKS", "USARoaddW", "USARoaddUSA"]
    );
    let files: Vec<&str> = GraphDimacs9th::levels().iter().map(|level| level.filename()).collect();
    assert_eq!(
        files,
        vec![
            "USA-road-d.NY",
            "USA-road-d.BAY",
            "USA-road-d.COL",
            "USA-road-d.FLA",
            "USA-road-d.LKS",
            "USA-road-d.W",
            "USA-road-d.USA"
        ]
    );
    assert_eq!(GraphDimacs9th::USARoaddFLA.to_cell_string(), "Dimacs9th:\n* name: USARoaddFLA");
}

fn random_rows<B: SpGraphBuilder>(random: &GraphRandom, out_degrees: &Vec<usize>) -> Vec<Vec<(usize, Weight)>> {
    rows(&random.create_graph_builder::<B>(out_degrees).ok().expect("the graph is built").build())
}

#[test]
fn random_graph_grants_the_out_degrees() {
    let random = GraphRandom { seed: 5, num_nodes: 12, density_bits: DEFAULT_DENSITY_BITS };
    let out_degrees: Vec<usize> = vec![0, 1, 2, 3, 4, 5, 6, 7, 10, 11, 12, 1000];
    let granted: Vec<usize> = vec![0, 1, 2, 3, 4, 5, 6, 7, 10, 11, 11, 11];
    let graph = random_rows::<AdjListJaggedVec>(&random, &out_degrees);
    assert_eq!(graph.len(), 12);
    for (node, row) in graph.iter().enumerate() {
        assert_eq!(row.len(), granted[node]);
        let mut heads: Vec<usize> = row.iter().map(|edge| edge.0).collect();
        heads.sort();
        heads.dedup();
        assert_eq!(heads.len(), row.len());
        for (head, weight) in row {
            assert!(*head < 12 && *head != node);
            assert!(1 <= *weight && *weight < 24);
        }
    }
    let most: Vec<usize> = vec![usize::MAX; 12];
    assert!(random_rows::<AdjListFlatVecBuilder>(&random, &most).iter().all(|row| row.len() == 11));
}

#[test]
fn random_graph_follows_from_the_seed() {
    let random = GraphRandom { seed: 9864, num_nodes: 20, density_bits: DEFAULT_DENSITY_BITS };
    let out_degrees: Vec<usize> = (0..20).map(|node| node % 6).collect();
    let first = random_rows::<AdjListJaggedVec>(&random, &out_degrees);
    assert_eq!(first, random_rows::<AdjListJaggedVec>(&random, &out_degrees));
    assert_eq!(first, random_rows::<AdjListFlatVecBuilder>(&random, &out_degrees));
    let other = GraphRandom { seed: 9865, num_nodes: 20, density_bits: DEFAULT_DENSITY_BITS };
    assert_ne!(first, random_rows::<AdjListJaggedVec>(&other, &out_degrees));
}

#[test]
fn random_graph_faults() {
    let random = GraphRandom { seed: 1, num_nodes: 3, density_bits: 0 };
    assert_eq!(
        random.create_graph_builder::<AdjListJaggedVec>(&vec![1, 1]).err(),
        Some(RandomGraphFault::OutDegrees)
    );
    let vast = GraphRandom { seed: 1, num_nodes: usize::MAX, density_bits: 0 };
    assert_eq!(vast.create_graph_builder::<AdjListJaggedVec>(&vec![]).err(), Some(RandomGraphFault::OutDegrees));
    let none = GraphRandom { seed: 1, num_nodes: 0, density_bits: 0 };
    assert_eq!(random_rows::<AdjListPetgraph>(&none, &vec![]).len(), 0);
    let alone = GraphRandom { seed: 1, num_nodes: 1, density_bits: 0 };
    assert_eq!(random_rows::<AdjListPetgraph>(&alone, &vec![5]), vec![vec![]]);
}

#[test]
fn defaults_of_the_random_graph() {
    let random = GraphRandom::default();
    assert_eq!(random.seed, 9864);
    assert_eq!(random.num_nodes, 1000);
    assert_eq!(f32::from_bits(random.density_bits), 0.25);
    assert_eq!((DEFAULT_SEED, DEFAULT_NUM_NODES), (9864, 1000));
    assert_eq!(FactorGraphData::default(), FactorGraphData::Random(random));
    assert_eq!(
        random.to_cell_string("0.2500"),
        "Random:\n* seed      : 9864\n* num_nodes : 1000\n* density   : 0.2500"
    );
}

#[test]
fn graph_data_builds_from_its_own_source() {
    let road = FactorGraphData::Dimacs9th(GraphDimacs9th::USARoaddNY);
    let random = FactorGraphData::Random(GraphRandom { seed: 1, num_nodes: 2, density_bits: 0 });
    let text = GraphSource::Dimacs9th { lines: lines("p sp 2 1\na 1 2 3") };
    let degrees = GraphSource::Random { out_degrees: vec![1, 0] };
    assert_eq!(rows(&road.create_graph_builder::<AdjListJaggedVec>(&text).unwrap().build()), vec![vec![(1, 3)], vec![]]);
    assert_eq!(road.create_graph_builder::<AdjListJaggedVec>(&degrees).err(), Some(GraphFault::SourceMismatch));
    assert_eq!(random.create_graph_builder::<AdjListJaggedVec>(&text).err(), Some(GraphFault::SourceMismatch));
    let drawn = rows(&random.create_graph_builder::<AdjListJaggedVec>(&degrees).unwrap().build());
    assert_eq!(drawn[0].len(), 1);
    assert_eq!(drawn[0][0].0, 1);
    assert_eq!(drawn[1].len(), 0);
    let broken = GraphSource::Dimacs9th { lines: lines("p sp 2") };
    assert_eq!(
        road.create_graph_builder::<AdjListJaggedVec>(&broken).err(),
        Some(GraphFault::Dimacs9th(DimacsError { line: 0, fault: DimacsFault::MissingField }))
    );
    assert_eq!(
        random.create_graph_builder::<AdjListJaggedVec>(&GraphSource::Random { out_degrees: vec![] }).err(),
        Some(GraphFault::Random(RandomGraphFault::OutDegrees))
    );
}

#[test]
fn pairs_are_nodes_of_the_graph() {
    let pairs = FactorPairs { seed: 465477, num_pairs: 500 };
    let drawn = pairs.create_pairs(7);
    assert_eq!(drawn.len(), 500);
    assert!(drawn.iter().all(|(source, sink)| *source < 7 && *sink < 7));
    assert!((0..7).all(|node| drawn.iter().any(|(source, _)| *source == node)));
    assert_eq!(drawn, pairs.create_pairs(7));
    assert_ne!(drawn, FactorPairs { seed: 465478, num_pairs: 500 }.create_pairs(7));
    assert!(FactorPairs { seed: 1, num_pairs: 0 }.create_pairs(0).is_empty());
    assert!(FactorPairs { seed: 1, num_pairs: 3 }.create_pairs(1).iter().all(|pair| *pair == (0, 0)));
    let default = FactorPairs::default();
    assert_eq!((default.seed, default.num_pairs), (465477, 100));
}
