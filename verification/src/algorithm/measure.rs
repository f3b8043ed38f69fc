//! What is measured while a query runs, and how the measurements of the
//! queries of a treatment are put together.
pub mod memory;
pub mod no_measurement;
pub mod run_measure;
pub mod time;
pub mod treatment_measure;
pub mod validation;
