//! The checks that work has to pass.
pub mod runner;
