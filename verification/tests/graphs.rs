use bench_shortest_path::graph::adjlist_flat_vec::{AdjListFlatVec, AdjListFlatVecBuilder};
use bench_shortest_path::graph::adjlist_jagged_vec::AdjListJaggedVec;
use bench_shortest_path::graph::adjlist_petgraph::AdjListPetgraph;
use bench_shortest_path::graph::edge_list::build_from_edges;
use bench_shortest_path::graph::out_edges::{OutEdgeData, OutEdges};
use bench_shortest_path::graph::out_edges_std_vec::{OutEdge, OutEdgesStdVec};
use bench_shortest_path::graph::sp_graph::SpGraph;
use bench_shortest_path::graph::sp_graph_builder::SpGraphBuilder;
use bench_shortest_path::graph::validity::{
    admits_queries, has_valid_heads, max_weight, weights_fit,
};
use bench_shortest_path::Weight;

type Edges = Vec<(usize, usize, Weight)>;

fn sample() -> Edges {
    vec![(0, 1, 1), (1, 2, 2), (0, 2, 5), (0, 1, 1), (2, 2, 0), (0, 3, 7)]
}

fn read_back<G: SpGraph>(graph: &G, node: usize) -> Vec<(usize, Weight)> {
    let mut edges = graph.out_edges(node);
    let mut row = vec![];
    while let Some(edge) = edges.next_edge() {
        row.push((edge.head(), edge.weight()));
    }
    row
}

fn sorted_rows<G: SpGraph>(graph: &G) -> Vec<Vec<(usize, Weight)>> {
    (0..graph.num_nodes())
        .map(|node| {
            let mut row = read_back(graph, node);
            row.sort();
            row
        })
        .collect()
}

fn expected_rows() -> Vec<Vec<(usize, Weight)>> {
    vec![vec![(1, 1), (1, 1), (2, 5), (3, 7)], vec![(2, 2)], vec![(2, 0)], vec![], vec![]]
}

#[test]
fn out_edge_holds_head_and_weight() {
    let edge = OutEdge::new(4, 9);
    assert_eq!(edge.head(), 4);
    assert_eq!(edge.weight(), 9);
}

#[test]
fn cursor_over_a_range_hands_out_that_range() {
    let edges: Vec<OutEdge> = (0..6).map(|i| OutEdge::new(i, 10 * i as Weight)).collect();
    let mut cursor = OutEdgesStdVec::over_range(&edges, 2, 5);
    let first = cursor.next_edge().unwrap();
    assert_eq!((first.head(), first.weight()), (2, 20));
    assert_eq!(cursor.count_edges(), 2);
    assert!(cursor.next_edge().is_none());
    let mut all = OutEdgesStdVec::over(&edges);
    assert_eq!(all.count_edges(), 6);
    assert_eq!(all.count_edges(), 0);
    let mut none = OutEdgesStdVec::over_range(&edges, 3, 3);
    assert!(none.next_edge().is_none());
}

#[test]
fn jagged_builder_keeps_the_order_of_the_edges() {
    let graph = build_from_edges::<AdjListJaggedVec>(5, &sample()).unwrap();
    assert_eq!(graph.num_nodes(), 5);
    assert_eq!(read_back(&graph, 0), vec![(1, 1), (2, 5), (1, 1), (3, 7)]);
    assert_eq!(read_back(&graph, 3), vec![]);
    assert_eq!(graph.num_edges(), 6);
}

#[test]
fn flat_builder_lays_the_rows_out_one_after_the_other() {
    let graph: AdjListFlatVec = build_from_edges::<AdjListFlatVecBuilder>(5, &sample()).unwrap();
    assert_eq!(graph.num_nodes(), 5);
    assert_eq!(read_back(&graph, 0), vec![(1, 1), (2, 5), (1, 1), (3, 7)]);
    assert_eq!(read_back(&graph, 1), vec![(2, 2)]);
    assert_eq!(read_back(&graph, 2), vec![(2, 0)]);
    assert_eq!(read_back(&graph, 4), vec![]);
    assert_eq!(graph.num_edges(), 6);
    let empty = <AdjListFlatVecBuilder as SpGraphBuilder>::new(None, None).build();
    assert_eq!(empty.num_nodes(), 0);
    assert_eq!(empty.num_edges(), 0);
}

#[test]
fn petgraph_builder_puts_the_last_edge_first() {
    let graph = build_from_edges::<AdjListPetgraph>(5, &sample()).unwrap();
    assert_eq!(graph.num_nodes(), 5);
    assert_eq!(read_back(&graph, 0), vec![(3, 7), (1, 1), (2, 5), (1, 1)]);
    assert_eq!(graph.num_edges(), 6);
}

#[test]
fn reading_back_gives_the_edges_that_were_added() {
    assert_eq!(sorted_rows(&build_from_edges::<AdjListJaggedVec>(5, &sample()).unwrap()), expected_rows());
    assert_eq!(sorted_rows(&build_from_edges::<AdjListFlatVecBuilder>(5, &sample()).unwrap()), expected_rows());
    assert_eq!(sorted_rows(&build_from_edges::<AdjListPetgraph>(5, &sample()).unwrap()), expected_rows());
}

#[test]
fn out_edges_start_anew_at_every_call() {
    let graph = build_from_edges::<AdjListFlatVecBuilder>(5, &sample()).unwrap();
    let mut first = graph.out_edges(0);
    first.next_edge();
    first.next_edge();
    assert_eq!(read_back(&graph, 0).len(), 4);
    assert_eq!(first.count_edges(), 2);
    let petgraph = build_from_edges::<AdjListPetgraph>(5, &sample()).unwrap();
    let mut first = petgraph.out_edges(0);
    first.next_edge();
    assert_eq!(read_back(&petgraph, 0).len(), 4);
    assert_eq!(first.count_edges(), 3);
}

#[test]
fn names_of_the_representations() {
    assert_eq!(<AdjListJaggedVec as SpGraph>::name(), "AdjListJaggedVec");
    assert_eq!(<AdjListFlatVec as SpGraph>::name(), "AdjListFlatVec");
    assert_eq!(<AdjListPetgraph as SpGraph>::name(), "AdjListPetgraph");
}

#[test]
fn builders_say_what_they_take() {
    let mut jagged = <AdjListJaggedVec as SpGraphBuilder>::new(Some(2), Some(2));
    assert!(jagged.can_add_node());
    assert!(!jagged.can_add_edge(0, 0));
    jagged.add_node(0, Some(3));
    assert!(jagged.can_add_edge(0, 7));
    assert!(!jagged.can_add_edge(1, 0));
    jagged.add_edge(0, 7, 1);
    assert!(!has_valid_heads(&jagged.build()));

    let mut petgraph = <AdjListPetgraph as SpGraphBuilder>::new(None, None);
    assert!(petgraph.can_add_node());
    SpGraphBuilder::add_node(&mut petgraph, 0, None);
    SpGraphBuilder::add_node(&mut petgraph, 1, None);
    assert!(petgraph.can_add_edge(0, 1));
    assert!(!petgraph.can_add_edge(0, 2));
    assert!(!petgraph.can_add_edge(2, 0));

    let mut flat = <AdjListFlatVecBuilder as SpGraphBuilder>::new(None, Some(1));
    assert!(flat.can_add_node());
    flat.add_node(0, None);
    assert!(flat.can_add_edge(0, 5));
    assert!(!flat.can_add_edge(1, 0));
}

#[test]
fn edges_that_a_builder_does_not_take_give_no_graph() {
    assert!(build_from_edges::<AdjListJaggedVec>(2, &vec![(2, 0, 1)]).is_none());
    assert!(build_from_edges::<AdjListJaggedVec>(2, &vec![(0, 5, 1)]).is_some());
    assert!(build_from_edges::<AdjListFlatVecBuilder>(2, &vec![(0, 1, 1), (3, 0, 1)]).is_none());
    assert!(build_from_edges::<AdjListPetgraph>(2, &vec![(0, 5, 1)]).is_none());
    assert!(build_from_edges::<AdjListPetgraph>(0, &vec![]).is_some());
}

#[test]
fn heads_are_tested() {
    assert!(has_valid_heads(&build_from_edges::<AdjListJaggedVec>(5, &sample()).unwrap()));
    assert!(!has_valid_heads(&build_from_edges::<AdjListJaggedVec>(3, &sample()).unwrap()));
    assert!(!has_valid_heads(&build_from_edges::<AdjListFlatVecBuilder>(3, &sample()).unwrap()));
    assert!(has_valid_heads(&build_from_edges::<AdjListJaggedVec>(0, &vec![]).unwrap()));
}

#[test]
fn weights_are_tested() {
    let graph = build_from_edges::<AdjListJaggedVec>(5, &sample()).unwrap();
    assert_eq!(max_weight(&graph), 7);
    assert!(weights_fit(&graph));
    assert!(admits_queries(&graph));
    assert_eq!(max_weight(&build_from_edges::<AdjListJaggedVec>(3, &vec![]).unwrap()), 0);

    let limit = (u64::MAX - 1) / 4;
    let fits = build_from_edges::<AdjListJaggedVec>(4, &vec![(0, 1, limit)]).unwrap();
    assert!(weights_fit(&fits));
    let product_is_the_largest_weight =
        build_from_edges::<AdjListJaggedVec>(5, &vec![(0, 1, u64::MAX / 5)]).unwrap();
    assert!(!weights_fit(&product_is_the_largest_weight));
    let overflows = build_from_edges::<AdjListJaggedVec>(2, &vec![(0, 1, u64::MAX)]).unwrap();
    assert!(!weights_fit(&overflows));
    assert!(!admits_queries(&overflows));
    let no_nodes_left = build_from_edges::<AdjListJaggedVec>(0, &vec![]).unwrap();
    assert!(weights_fit(&no_nodes_left));
}
