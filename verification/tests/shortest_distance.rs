use bench_shortest_path::algorithm::measure::no_measurement::NoMeasurement;
use bench_shortest_path::algorithm::orx_pq_dijkstra::OrxPqDijkstra;
use bench_shortest_path::algorithm::orx_pqdeckey_dijkstra::{
    OrxDaryHeapOfIndices, OrxDaryHeapWithMap, OrxPqDecKeyDijkstra,
};
use bench_shortest_path::algorithm::petgraph_dijkstra::PetgraphDijsktra;
use bench_shortest_path::algorithm::priority_queue_priority_queue::PriorityQueuePqDecKeyDijkstra;
use bench_shortest_path::algorithm::sd_algorithm::ShortestDistanceAlgorithm;
use bench_shortest_path::algorithm::std_pq_dijkstra::StdPqDijkstra;
use bench_shortest_path::graph::adjlist_flat_vec::AdjListFlatVecBuilder;
use bench_shortest_path::graph::adjlist_jagged_vec::AdjListJaggedVec;
use bench_shortest_path::graph::adjlist_petgraph::AdjListPetgraph;
use bench_shortest_path::graph::edge_list::build_from_edges;
use bench_shortest_path::graph::sp_graph::SpGraph;
use bench_shortest_path::graph::sp_graph_builder::SpGraphBuilder;
use bench_shortest_path::graph::validity::admits_queries;
use bench_shortest_path::Weight;

type Edges = Vec<(usize, usize, Weight)>;

fn triangle() -> Edges {
    vec![(0, 1, 1), (1, 2, 2), (0, 2, 5)]
}

fn graph<B: SpGraphBuilder>(nodes: usize, edges: &Edges) -> B::G {
    let graph = build_from_edges::<B>(nodes, edges).expect("the builder takes the edges");
    assert!(admits_queries(&graph));
    graph
}

fn answers<G: SpGraph, A: ShortestDistanceAlgorithm<G>>(graph: &G, source: usize, sink: usize) -> Vec<Option<Weight>> {
    let pure = A::run_pure::<NoMeasurement>(graph, source, sink).shortest_distance;
    let mut algorithm = A::new(graph);
    let first = algorithm.run_cached::<NoMeasurement>(graph, source, sink).shortest_distance;
    let second = algorithm.run_cached::<NoMeasurement>(graph, source, sink).shortest_distance;
    vec![pure, first, second]
}

fn all_variants<G: SpGraph>(graph: &G, source: usize, sink: usize) -> Vec<Option<Weight>> {
    let mut all = vec![];
    all.extend(answers::<G, StdPqDijkstra>(graph, source, sink));
    all.extend(answers::<G, OrxPqDijkstra<2>>(graph, source, sink));
    all.extend(answers::<G, OrxPqDijkstra<4>>(graph, source, sink));
    all.extend(answers::<G, OrxPqDijkstra<8>>(graph, source, sink));
    all.extend(answers::<G, OrxPqDijkstra<16>>(graph, source, sink));
    all.extend(answers::<G, OrxPqDijkstra<32>>(graph, source, sink));
    all.extend(answers::<G, OrxPqDijkstra<64>>(graph, source, sink));
    all.extend(answers::<G, OrxPqDecKeyDijkstra<OrxDaryHeapOfIndices, 2>>(graph, source, sink));
    all.extend(answers::<G, OrxPqDecKeyDijkstra<OrxDaryHeapOfIndices, 4>>(graph, source, sink));
    all.extend(answers::<G, OrxPqDecKeyDijkstra<OrxDaryHeapOfIndices, 8>>(graph, source, sink));
    all.extend(answers::<G, OrxPqDecKeyDijkstra<OrxDaryHeapOfIndices, 16>>(graph, source, sink));
    all.extend(answers::<G, OrxPqDecKeyDijkstra<OrxDaryHeapOfIndices, 32>>(graph, source, sink));
    all.extend(answers::<G, OrxPqDecKeyDijkstra<OrxDaryHeapOfIndices, 64>>(graph, source, sink));
    all.extend(answers::<G, OrxPqDecKeyDijkstra<OrxDaryHeapWithMap, 2>>(graph, source, sink));
    all.extend(answers::<G, OrxPqDecKeyDijkstra<OrxDaryHeapWithMap, 4>>(graph, source, sink));
    all.extend(answers::<G, OrxPqDecKeyDijkstra<OrxDaryHeapWithMap, 8>>(graph, source, sink));
    all.extend(answers::<G, OrxPqDecKeyDijkstra<OrxDaryHeapWithMap, 16>>(graph, source, sink));
    all.extend(answers::<G, OrxPqDecKeyDijkstra<OrxDaryHeapWithMap, 32>>(graph, source, sink));
    all.extend(answers::<G, OrxPqDecKeyDijkstra<OrxDaryHeapWithMap, 64>>(graph, source, sink));
    all.extend(answers::<G, PriorityQueuePqDecKeyDijkstra>(graph, source, sink));
    all
}

/// Every algorithm on every representation, and the routine of petgraph
/// on its own graph.
fn everywhere(nodes: usize, edges: &Edges, source: usize, sink: usize) -> Vec<Option<Weight>> {
    let mut all = vec![];
    all.extend(all_variants(&graph::<AdjListJaggedVec>(nodes, edges), source, sink));
    all.extend(all_variants(&graph::<AdjListFlatVecBuilder>(nodes, edges), source, sink));
    let petgraph = graph::<AdjListPetgraph>(nodes, edges);
    all.extend(all_variants(&petgraph, source, sink));
    all.extend(answers::<AdjListPetgraph, PetgraphDijsktra>(&petgraph, source, sink));
    all
}

/// Distances from `source` by relaxing all edges as often as there are nodes.
fn brute_force(nodes: usize, edges: &Edges, source: usize) -> Vec<Option<Weight>> {
    let mut distance: Vec<Option<Weight>> = vec![None; nodes];
    distance[source] = Some(0);
    for _ in 0..nodes {
        for &(tail, head, weight) in edges {
            if let Some(d) = distance[tail] {
                let through = d + weight;
                if distance[head].map_or(true, |known| through < known) {
                    distance[head] = Some(through);
                }
            }
        }
    }
    distance
}

/// A graph from a linear congruential sequence, with loops, parallel
/// edges and edges of weight zero among its edges.
fn scrambled(nodes: usize, count: usize, seed: u64) -> Edges {
    let mut state = seed;
    let mut next = move || {
        state = state.wrapping_mul(6364136223846793005).wrapping_add(1442695040888963407);
        (state >> 33) as usize
    };
    (0..count).map(|_| (next() % nodes, next() % nodes, (next() % 20) as Weight)).collect()
}

#[test]
fn scenario_a_shortest_distance_is_three() {
    let all = everywhere(3, &triangle(), 0, 2);
    assert_eq!(all.len(), 3 * 60 + 3);
    assert!(all.iter().all(|d| *d == Some(3)));
}

#[test]
fn scenario_b_isolated_node_is_unreachable() {
    let all = everywhere(4, &triangle(), 0, 3);
    assert_eq!(all.len(), 3 * 60 + 3);
    assert!(all.iter().all(|d| d.is_none()));
}

#[test]
fn source_is_its_own_sink_at_distance_zero() {
    assert!(everywhere(3, &triangle(), 1, 1).iter().all(|d| *d == Some(0)));
    assert!(everywhere(1, &vec![], 0, 0).iter().all(|d| *d == Some(0)));
}

#[test]
fn edges_are_directed() {
    assert!(everywhere(3, &triangle(), 2, 0).iter().all(|d| d.is_none()));
    assert!(everywhere(3, &triangle(), 1, 2).iter().all(|d| *d == Some(2)));
}

#[test]
fn loops_parallel_edges_and_weight_zero() {
    let edges: Edges = vec![(0, 0, 4), (0, 1, 7), (0, 1, 3), (1, 1, 0), (1, 2, 0), (2, 0, 1), (1, 3, 9), (2, 3, 8)];
    assert!(everywhere(4, &edges, 0, 3).iter().all(|d| *d == Some(11)));
    assert!(everywhere(4, &edges, 0, 2).iter().all(|d| *d == Some(3)));
    assert!(everywhere(4, &edges, 3, 0).iter().all(|d| d.is_none()));
}

#[test]
fn every_variant_agrees_with_brute_force() {
    for seed in 0..6u64 {
        let nodes = 7 + seed as usize;
        let edges = scrambled(nodes, 3 * nodes, seed);
        for source in 0..nodes {
            let expected = brute_force(nodes, &edges, source);
            for sink in 0..nodes {
                let all = everywhere(nodes, &edges, source, sink);
                assert!(all.iter().all(|d| *d == expected[sink]), "seed {seed}, {source} -> {sink}");
            }
        }
    }
}

fn cached_many<G: SpGraph, A: ShortestDistanceAlgorithm<G>>(graph: &G, nodes: usize) -> Vec<Option<Weight>> {
    let mut algorithm = A::new(graph);
    let mut found = vec![];
    for source in 0..nodes {
        for sink in 0..nodes {
            found.push(algorithm.run_cached::<NoMeasurement>(graph, source, sink).shortest_distance);
        }
    }
    found
}

fn pure_many<G: SpGraph, A: ShortestDistanceAlgorithm<G>>(graph: &G, nodes: usize) -> Vec<Option<Weight>> {
    let mut found = vec![];
    for source in 0..nodes {
        for sink in 0..nodes {
            found.push(A::run_pure::<NoMeasurement>(graph, source, sink).shortest_distance);
        }
    }
    found
}

fn cached_is_pure<G: SpGraph, A: ShortestDistanceAlgorithm<G>>(graph: &G, nodes: usize, expected: &Vec<Option<Weight>>) {
    assert_eq!(&cached_many::<G, A>(graph, nodes), expected);
    assert_eq!(&pure_many::<G, A>(graph, nodes), expected);
}

#[test]
fn cached_and_pure_runs_find_the_same() {
    let nodes = 9;
    let edges = scrambled(nodes, 20, 77);
    let mut expected = vec![];
    for source in 0..nodes {
        expected.extend(brute_force(nodes, &edges, source));
    }
    let jagged = graph::<AdjListJaggedVec>(nodes, &edges);
    cached_is_pure::<_, StdPqDijkstra>(&jagged, nodes, &expected);
    cached_is_pure::<_, OrxPqDijkstra<4>>(&jagged, nodes, &expected);
    cached_is_pure::<_, OrxPqDecKeyDijkstra<OrxDaryHeapOfIndices, 2>>(&jagged, nodes, &expected);
    cached_is_pure::<_, OrxPqDecKeyDijkstra<OrxDaryHeapWithMap, 8>>(&jagged, nodes, &expected);
    cached_is_pure::<_, PriorityQueuePqDecKeyDijkstra>(&jagged, nodes, &expected);
    let petgraph = graph::<AdjListPetgraph>(nodes, &edges);
    cached_is_pure::<_, PetgraphDijsktra>(&petgraph, nodes, &expected);
}

#[test]
fn scratch_data_serves_graphs_of_other_sizes() {
    let large = graph::<AdjListJaggedVec>(12, &scrambled(12, 40, 5));
    let small = graph::<AdjListJaggedVec>(4, &triangle());
    let mut std_pq = <StdPqDijkstra as ShortestDistanceAlgorithm<AdjListJaggedVec>>::new(&small);
    let mut orx = <OrxPqDijkstra<2> as ShortestDistanceAlgorithm<AdjListJaggedVec>>::new(&small);
    let mut map =
        <OrxPqDecKeyDijkstra<OrxDaryHeapWithMap, 2> as ShortestDistanceAlgorithm<AdjListJaggedVec>>::new(&small);
    let far = brute_force(12, &scrambled(12, 40, 5), 3);
    for _ in 0..2 {
        assert_eq!(std_pq.run_cached::<NoMeasurement>(&small, 0, 2).shortest_distance, Some(3));
        assert_eq!(orx.run_cached::<NoMeasurement>(&small, 0, 2).shortest_distance, Some(3));
        assert_eq!(map.run_cached::<NoMeasurement>(&small, 0, 2).shortest_distance, Some(3));
        for sink in 0..12 {
            assert_eq!(std_pq.run_cached::<NoMeasurement>(&large, 3, sink).shortest_distance, far[sink]);
            assert_eq!(orx.run_cached::<NoMeasurement>(&large, 3, sink).shortest_distance, far[sink]);
            assert_eq!(map.run_cached::<NoMeasurement>(&large, 3, sink).shortest_distance, far[sink]);
        }
        assert_eq!(std_pq.run_cached::<NoMeasurement>(&small, 0, 3).shortest_distance, None);
        assert_eq!(orx.run_cached::<NoMeasurement>(&small, 0, 3).shortest_distance, None);
        assert_eq!(map.run_cached::<NoMeasurement>(&small, 0, 3).shortest_distance, None);
    }
}

#[test]
fn large_weights_that_fit() {
    let big: Weight = (u64::MAX - 1) / 3;
    let edges: Edges = vec![(0, 1, big), (1, 2, big), (0, 2, big)];
    let jagged = build_from_edges::<AdjListJaggedVec>(3, &edges).unwrap();
    assert!(admits_queries(&jagged));
    assert!(all_variants(&jagged, 0, 2).iter().all(|d| *d == Some(big)));
    let too_big: Edges = vec![(0, 1, big + 1)];
    let jagged = build_from_edges::<AdjListJaggedVec>(3, &too_big).unwrap();
    assert!(!admits_queries(&jagged));
}
