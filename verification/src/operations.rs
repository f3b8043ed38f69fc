//! The operations of the command line and which of them a command asks
//! for.
pub mod fromfile;
pub mod help;
pub mod interactive;
pub mod operation;
pub mod runner;
