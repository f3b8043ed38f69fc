//! The measurements of the queries of a treatment put together.
pub mod treatment_core;
pub mod memory;
pub mod no_measurement;
pub mod time;
pub mod validation;
