//! Helpers that the rest of the library shares.
pub mod cli;
pub mod decimal;
pub mod fs;
pub mod places;
pub mod rng;
pub mod text;
