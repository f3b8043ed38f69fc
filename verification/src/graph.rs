//! Graphs as the algorithms see them, their builders and their layouts.
pub mod adjacency;
pub mod adjlist_flat_vec;
pub mod adjlist_jagged_vec;
pub mod adjlist_petgraph;
pub mod edge_list;
pub mod out_edges;
pub mod out_edges_petgraph;
pub mod out_edges_std_vec;
pub mod sp_graph;
pub mod sp_graph_builder;
pub mod validity;
pub mod walks;
