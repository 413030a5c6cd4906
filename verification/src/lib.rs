//! Deterministic orchestration of supervisor and executor agents.
pub mod agent_id;
pub mod agents;
pub mod checks;
pub mod cli;
pub mod clock;
pub mod config;
pub mod hq;
pub mod json;
pub mod legacy_state;
pub mod nano;
pub mod project;
pub mod pty;
pub mod rows;
pub mod runtime_status;
pub mod runtime_table;
pub mod state;
pub mod text;
