//! Experiments: the factors, their levels, and the treatments that
//! combine them.
pub mod experiment;
pub mod factors;
pub mod measurement;
pub mod treatment;
