//! The command line of the program.
pub mod commands;

use vstd::prelude::*;

use crate::cli::commands::register;
use crate::cli::commands::register::{ArgsError, RegisterArgs, RoleRegistration};
use crate::cli::commands::tasks::TasksCommand;
use crate::text;

verus! {

/// The role that a server is started for.
#[derive(Clone, Copy, Debug, PartialEq, Eq, Structural)]
pub enum Role {
    Supervisor,
    Executor,
}

/// What the program is asked to do.
#[derive(Debug, Clone, PartialEq, Eq)]
pub struct Cli {
    /// Debug mode regardless of the build.
    pub debug: bool,
    pub command: Option<Commands>,
}

/// The subcommands.
#[derive(Debug, Clone, PartialEq, Eq)]
pub enum Commands {
    /// Set a project up in the current directory.
    Init { agents_path: String },
    /// Start the MCP server on standard input and output.
    Serve { role: Option<Role>, agent_name: String, agent_index: u32 },
    /// Write the settings by which agents launch the server.
    Register(RegisterArgs),
    /// Compare the project's registration, its tables and its state.
    Doctor,
    /// Repair what an interrupted session left behind.
    Recover { dry_run: bool },
    /// Show the tasks.
    Tasks(TasksCommand),
    /// Register a project that has no registration yet.
    Migrate,
}

impl Cli {
    /// Whether to run in debug mode: when asked for, and always in a debug
    /// build.
    pub fn debug_enabled(&self, debug_build: bool) -> (out: bool)
        ensures
            out == (debug_build || self.debug),
    {
        debug_build || self.debug
    }

    /// Whether to open HQ: without a subcommand.
    pub fn is_hq_mode(&self) -> (out: bool)
        ensures
            out == self.command is None,
    {
        self.command.is_none()
    }
}

/// What is to be registered by the subcommand, which needs at least one agent.
pub fn registration_plan(args: &RegisterArgs) -> (out: Result<Vec<RoleRegistration>, ArgsError>)
    ensures
        match (
            out,
            if args.supervisor is None && args.executor is None {
                Err(ArgsError::NoAgent)
            } else {
                register::registrations(
                    args.supervisor,
                    text::opt_view(args.supervisor_model),
                    args.executor,
                    text::opt_view(args.executor_model),
                )
            },
        ) {
            (Ok(list), Ok(expected)) => register::role_views(list@) == expected,
            (Err(error), Err(expected)) => error == expected,
            _ => false,
        },
{
    if args.supervisor.is_none() && args.executor.is_none() {
        return Err(ArgsError::NoAgent);
    }
    register::run(args)
}

} // verus!
