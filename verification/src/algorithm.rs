//! The shortest-distance algorithms, what they measure and what they return.
pub mod labels;
pub mod measure;
pub mod orx_pq_dijkstra;
pub mod orx_pqdeckey_dijkstra;
pub mod sd_algorithm;
pub mod solution;
pub mod state_heap;
pub mod state_order;
pub mod petgraph_dijkstra;
pub mod priority_queue_priority_queue;
pub mod run_attempt;
pub mod scratch;
pub mod std_pq_dijkstra;
