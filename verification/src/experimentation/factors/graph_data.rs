//! The graph data factor: where the graph comes from.
pub mod dimacs9th;
pub mod factor_graph_data;
pub mod random;
