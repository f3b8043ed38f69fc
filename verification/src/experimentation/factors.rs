//! The five factors of an experiment.
pub mod algorithm;
pub mod algorithm_data;
pub mod factor;
pub mod graph_data;
pub mod graph_representation;
pub mod pairs;
