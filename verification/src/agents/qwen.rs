//! Qwen Code-backed supervisor and executor adapters.
use vstd::prelude::*;
use vstd::string::*;

use crate::agents;
use crate::agents::{
    AgentRunMode, Backend, CommandLine, CommandView, ExecutorAgent, Host, McpConfigEntry,
    PromptTransport, RunModeView, SupervisorAgent,
};
use crate::text;

verus! {

/// The name by which the backend is configured.
pub const NAME: &'static str = "qwen-code";

/// The executable that launches Qwen Code.
pub const EXECUTABLE: &'static str = "qwen";

/// Interactive and headless supervisor launcher for Qwen Code.
#[derive(Debug, Clone)]
pub struct Supervisor {
    pub model: Option<String>,
}

/// Interactive and headless executor launcher for Qwen Code.
#[derive(Debug, Clone)]
pub struct Executor {
    pub model: Option<String>,
}

/// The command line that runs Qwen Code: `-p` prints the answer to a prompt and
/// exits.
pub open spec fn command(mode: RunModeView, model: Option<Seq<char>>) -> CommandView {
    CommandView {
        program: EXECUTABLE@,
        args: agents::model_args(model) + match mode {
            RunModeView::Interactive { prompt: Some(prompt) } => seq!["-i"@, prompt],
            RunModeView::Interactive { prompt: None } => Seq::empty(),
            RunModeView::Headless { prompt } => seq!["-p"@, prompt],
        },
    }
}

/// The command line that runs Qwen Code.
fn build_command(mode: AgentRunMode<'_>, model: Option<&str>) -> (out: CommandLine)
    ensures
        out@ == command(mode@, text::opt_str_view(model)),
{
    let mut args: Vec<String> = Vec::new();
    agents::add_model_args(&mut args, model);
    match mode {
        AgentRunMode::Interactive { prompt } => {
            if let Some(line) = prompt {
                text::add_text(&mut args, "-i");
                text::add_text(&mut args, line);
            }
        },
        AgentRunMode::Headless { prompt } => {
            text::add_text(&mut args, "-p");
            text::add_text(&mut args, prompt);
        },
    }
    assert(text::views(args@) =~= command(mode@, text::opt_str_view(model)).args);
    CommandLine { program: EXECUTABLE.to_owned(), args }
}

impl Supervisor {
    /// The launcher with a model override.
    pub fn new(model: Option<&str>) -> (out: Self)
        ensures
            text::opt_view(out.model) == agents::model_choice(text::opt_str_view(model)),
    {
        Supervisor { model: agents::normalized_model(model) }
    }
}

impl SupervisorAgent for Supervisor {
    open spec fn backend(&self) -> Backend {
        Backend::QwenCode
    }

    open spec fn program(&self) -> Seq<char> {
        EXECUTABLE@
    }

    open spec fn chosen_model(&self) -> Option<Seq<char>> {
        text::opt_view(self.model)
    }

    fn name(&self) -> (out: String) {
        NAME.to_owned()
    }

    fn spawn(&self, mode: AgentRunMode<'_>, host: &Host) -> (out: CommandLine) {
        build_command(mode, self.model())
    }

    fn version_command(&self, host: &Host) -> (out: CommandLine) {
        CommandLine { program: EXECUTABLE.to_owned(), args: text::one_text("--version") }
    }

    fn mcp_config_entry(&self, role: &str, index: u32, exe: &str) -> (out: McpConfigEntry) {
        McpConfigEntry {
            command: exe.to_owned(),
            args: agents::serve_args(role, NAME, index),
            model: text::opt_clone(&self.model),
        }
    }

    fn model(&self) -> (out: Option<&str>) {
        match &self.model {
            Some(m) => Some(m.as_str()),
            None => None,
        }
    }

    fn prompt_transport(&self, host: &Host) -> (out: PromptTransport) {
        PromptTransport::Argv
    }
}

impl Executor {
    /// The launcher with a model override.
    pub fn new(model: Option<&str>) -> (out: Self)
        ensures
            text::opt_view(out.model) == agents::model_choice(text::opt_str_view(model)),
    {
        Executor { model: agents::normalized_model(model) }
    }
}

impl ExecutorAgent for Executor {
    open spec fn backend(&self) -> Backend {
        Backend::QwenCode
    }

    open spec fn program(&self) -> Seq<char> {
        EXECUTABLE@
    }

    open spec fn chosen_model(&self) -> Option<Seq<char>> {
        text::opt_view(self.model)
    }

    fn name(&self) -> (out: String) {
        NAME.to_owned()
    }

    fn spawn(&self, mode: AgentRunMode<'_>, host: &Host) -> (out: CommandLine) {
        build_command(mode, self.model())
    }

    fn version_command(&self, host: &Host) -> (out: CommandLine) {
        CommandLine { program: EXECUTABLE.to_owned(), args: text::one_text("--version") }
    }

    fn mcp_config_entry(&self, role: &str, index: u32, exe: &str) -> (out: McpConfigEntry) {
        McpConfigEntry {
            command: exe.to_owned(),
            args: agents::serve_args(role, NAME, index),
            model: text::opt_clone(&self.model),
        }
    }

    fn model(&self) -> (out: Option<&str>) {
        match &self.model {
            Some(m) => Some(m.as_str()),
            None => None,
        }
    }

    fn prompt_transport(&self, host: &Host) -> (out: PromptTransport) {
        PromptTransport::Argv
    }
}

} // verus!
