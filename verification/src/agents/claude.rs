//! Supervisor and executor adapters for the backend whose program is named by
//! whoever starts it.
use vstd::prelude::*;
use vstd::string::*;

use crate::agents;
use crate::agents::{
    AgentRunMode, Backend, CommandLine, CommandView, ExecutorAgent, Host, McpConfigEntry,
    PromptTransport, RunModeView, SupervisorAgent,
};
use crate::text;

verus! {

/// The name by which the backend is configured: that of its program, marked as
/// the one for code.
pub open spec fn configured_name(program: Seq<char>) -> Seq<char> {
    program + "-code"@
}

/// The name by which the backend is configured.
pub fn name_of(program: &str) -> (out: String)
    ensures
        out@ == configured_name(program@),
{
    let mut out: String = program.to_owned();
    out.append("-code");
    out
}

/// The file of instructions that the backend reads: its program's name in upper
/// case.
pub open spec fn instructions_name(program: Seq<char>) -> Seq<char> {
    text::upper(program) + ".md"@
}

/// The file of instructions that the backend reads.
pub fn instructions_file(program: &str) -> (out: String)
    ensures
        out@ == instructions_name(program@),
{
    let mut out: String = text::upper_string(program);
    out.append(".md");
    out
}

/// Interactive and headless supervisor launcher.
#[derive(Debug, Clone)]
pub struct Supervisor {
    /// The executable that launches the backend.
    pub program: String,
    pub model: Option<String>,
}

/// Interactive and headless executor launcher.
#[derive(Debug, Clone)]
pub struct Executor {
    /// The executable that launches the backend.
    pub program: String,
    pub model: Option<String>,
}

/// The command line that runs the backend: `-p` prints the answer to a prompt
/// and exits.
pub open spec fn command(program: Seq<char>, mode: RunModeView, model: Option<Seq<char>>) -> CommandView {
    CommandView {
        program,
        args: agents::model_args(model) + match mode {
            RunModeView::Interactive { prompt: Some(prompt) } => seq![prompt],
            RunModeView::Interactive { prompt: None } => Seq::empty(),
            RunModeView::Headless { prompt } => seq!["-p"@, prompt],
        },
    }
}

/// The command line that runs the backend.
fn build_command(program: &str, mode: AgentRunMode<'_>, model: Option<&str>) -> (out: CommandLine)
    ensures
        out@ == command(program@, mode@, text::opt_str_view(model)),
{
    let mut args: Vec<String> = Vec::new();
    agents::add_model_args(&mut args, model);
    match mode {
        AgentRunMode::Interactive { prompt } => {
            if let Some(line) = prompt {
                text::add_text(&mut args, line);
            }
        },
        AgentRunMode::Headless { prompt } => {
            text::add_text(&mut args, "-p");
            text::add_text(&mut args, prompt);
        },
    }
    assert(text::views(args@) =~= command(program@, mode@, text::opt_str_view(model)).args);
    CommandLine { program: program.to_owned(), args }
}

impl Supervisor {
    /// The launcher with a model override.
    pub fn new(program: &str, model: Option<&str>) -> (out: Self)
        ensures
            out.program@ == program@,
            text::opt_view(out.model) == agents::model_choice(text::opt_str_view(model)),
    {
        Supervisor { program: program.to_owned(), model: agents::normalized_model(model) }
    }
}

impl SupervisorAgent for Supervisor {
    open spec fn backend(&self) -> Backend {
        Backend::ClaudeCode
    }

    open spec fn program(&self) -> Seq<char> {
        self.program@
    }

    open spec fn chosen_model(&self) -> Option<Seq<char>> {
        text::opt_view(self.model)
    }

    fn name(&self) -> (out: String) {
        name_of(self.program.as_str())
    }

    fn spawn(&self, mode: AgentRunMode<'_>, host: &Host) -> (out: CommandLine) {
        build_command(self.program.as_str(), mode, self.model())
    }

    fn version_command(&self, host: &Host) -> (out: CommandLine) {
        CommandLine { program: self.program.clone(), args: text::one_text("--version") }
    }

    fn mcp_config_entry(&self, role: &str, index: u32, exe: &str) -> (out: McpConfigEntry) {
        McpConfigEntry {
            command: exe.to_owned(),
            args: agents::serve_args(role, name_of(self.program.as_str()).as_str(), index),
            model: text::opt_clone(&self.model),
        }
    }

    fn model(&self) -> (out: Option<&str>) {
        match &self.model {
            Some(m) => Some(m.as_str()),
            None => None,
        }
    }

    fn prompt_transport(&self, host: &Host) -> (out: PromptTransport) {
        PromptTransport::Argv
    }
}

impl Executor {
    /// The launcher with a model override.
    pub fn new(program: &str, model: Option<&str>) -> (out: Self)
        ensures
            out.program@ == program@,
            text::opt_view(out.model) == agents::model_choice(text::opt_str_view(model)),
    {
        Executor { program: program.to_owned(), model: agents::normalized_model(model) }
    }
}

impl ExecutorAgent for Executor {
    open spec fn backend(&self) -> Backend {
        Backend::ClaudeCode
    }

    open spec fn program(&self) -> Seq<char> {
        self.program@
    }

    open spec fn chosen_model(&self) -> Option<Seq<char>> {
        text::opt_view(self.model)
    }

    fn name(&self) -> (out: String) {
        name_of(self.program.as_str())
    }

    fn spawn(&self, mode: AgentRunMode<'_>, host: &Host) -> (out: CommandLine) {
        build_command(self.program.as_str(), mode, self.model())
    }

    fn version_command(&self, host: &Host) -> (out: CommandLine) {
        CommandLine { program: self.program.clone(), args: text::one_text("--version") }
    }

    fn mcp_config_entry(&self, role: &str, index: u32, exe: &str) -> (out: McpConfigEntry) {
        McpConfigEntry {
            command: exe.to_owned(),
            args: agents::serve_args(role, name_of(self.program.as_str()).as_str(), index),
            model: text::opt_clone(&self.model),
        }
    }

    fn model(&self) -> (out: Option<&str>) {
        match &self.model {
            Some(m) => Some(m.as_str()),
            None => None,
        }
    }

    fn prompt_transport(&self, host: &Host) -> (out: PromptTransport) {
        PromptTransport::Argv
    }
}

} // verus!
