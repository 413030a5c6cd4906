//! HQ: the interactive shell that runs the workflow.
pub mod agent_manager;
pub mod commands;
pub mod dispatch;
pub mod display;
pub mod plan;
pub mod schedule;
pub mod screen;
pub mod session;
pub mod specs;
pub mod state_watcher;
pub mod transition;
pub mod tui;
