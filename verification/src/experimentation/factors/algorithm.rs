//! The algorithm factor: an algorithm together with its frontier.
pub mod dary;
pub mod dijkstra;
pub mod factor_algorithm;
pub mod priority_queue;
pub mod priority_queue_deckey;
