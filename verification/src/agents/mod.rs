//! Agent adapters for the supported supervisor and executor backends.
//!
//! This module says how agent backends are named, which command line runs one
//! interactively or headlessly, and which MCP server entry serves it.
pub mod claude;
pub mod codex;
pub mod qwen;

use vstd::prelude::*;
use vstd::string::*;

use crate::json;
use crate::json::{Json, JsonView};
use crate::text;

verus! {

/// The supported backends.
#[derive(Debug, Clone, Copy, PartialEq, Eq, Structural)]
pub enum Backend {
    ClaudeCode,
    Codex,
    QwenCode,
}

/// The name by which a backend is configured.
pub open spec fn backend_name(backend: Backend, program: Seq<char>) -> Seq<char> {
    match backend {
        Backend::ClaudeCode => claude::configured_name(program),
        Backend::Codex => codex::NAME@,
        Backend::QwenCode => qwen::NAME@,
    }
}

/// Describes one MCP server entry for a spawned agent.
#[derive(Debug, Clone, PartialEq, Eq)]
pub struct McpConfigEntry {
    /// Executable that is launched for the MCP server.
    pub command: String,
    /// Arguments passed to it when the MCP server starts.
    pub args: Vec<String>,
    /// Optional model override understood by the target client.
    pub model: Option<String>,
}

/// The contents of an MCP server entry.
#[verifier::ext_equal]
pub struct EntryView {
    pub command: Seq<char>,
    pub args: Seq<Seq<char>>,
    pub model: Option<Seq<char>>,
}

impl View for McpConfigEntry {
    type V = EntryView;

    open spec fn view(&self) -> EntryView {
        EntryView {
            command: self.command@,
            args: text::views(self.args@),
            model: text::opt_view(self.model),
        }
    }
}

/// Describes how an agent process is to run.
#[derive(Debug, Clone, Copy, PartialEq, Eq)]
pub enum AgentRunMode<'a> {
    Interactive { prompt: Option<&'a str> },
    Headless { prompt: &'a str },
}

/// The contents of a run mode.
pub enum RunModeView {
    Interactive { prompt: Option<Seq<char>> },
    Headless { prompt: Seq<char> },
}

impl<'a> View for AgentRunMode<'a> {
    type V = RunModeView;

    open spec fn view(&self) -> RunModeView {
        match *self {
            AgentRunMode::Interactive { prompt } => RunModeView::Interactive {
                prompt: text::opt_str_view(prompt),
            },
            AgentRunMode::Headless { prompt } => RunModeView::Headless { prompt: prompt@ },
        }
    }
}

/// Declares how a startup prompt reaches the child process.
#[derive(Debug, Clone, Copy, PartialEq, Eq, Structural)]
pub enum PromptTransport {
    /// As a regular argument.
    Argv,
    /// On standard input, which is closed after writing.
    Stdin,
}

/// The machine that runs the agents. On Windows, Codex is started through the
/// Node executable with the script that it is given.
#[derive(Debug, Clone, PartialEq, Eq)]
pub enum Host {
    Unix,
    Windows { node: String, script: String },
}

/// The contents of a host.
pub enum HostView {
    Unix,
    Windows { node: Seq<char>, script: Seq<char> },
}

impl View for Host {
    type V = HostView;

    open spec fn view(&self) -> HostView {
        match *self {
            Host::Unix => HostView::Unix,
            Host::Windows { node, script } => HostView::Windows { node: node@, script: script@ },
        }
    }
}

/// A program with its arguments.
#[derive(Debug, Clone, PartialEq, Eq)]
pub struct CommandLine {
    pub program: String,
    pub args: Vec<String>,
}

/// The contents of a command line.
#[verifier::ext_equal]
pub struct CommandView {
    pub program: Seq<char>,
    pub args: Seq<Seq<char>>,
}

impl View for CommandLine {
    type V = CommandView;

    open spec fn view(&self) -> CommandView {
        CommandView { program: self.program@, args: text::views(self.args@) }
    }
}

/// The arguments that choose a model.
pub open spec fn model_args(model: Option<Seq<char>>) -> Seq<Seq<char>> {
    match model {
        Some(m) => seq!["--model"@, m],
        None => Seq::empty(),
    }
}

/// Appends the arguments that choose a model.
pub fn add_model_args(args: &mut Vec<String>, model: Option<&str>)
    ensures
        text::views(final(args)@) == text::views(old(args)@) + model_args(
            text::opt_str_view(model),
        ),
{
    let ghost before = text::views(args@);
    if let Some(m) = model {
        text::add_text(args, "--model");
        text::add_text(args, m);
    }
    assert(text::views(args@) =~= before + model_args(text::opt_str_view(model)));
}

/// The command line that runs a backend.
pub open spec fn command_line(
    backend: Backend,
    program: Seq<char>,
    mode: RunModeView,
    model: Option<Seq<char>>,
    host: HostView,
) -> CommandView {
    match backend {
        Backend::ClaudeCode => claude::command(program, mode, model),
        Backend::Codex => codex::command(mode, model, host),
        Backend::QwenCode => qwen::command(mode, model),
    }
}

/// The command line that asks a backend for its version.
pub open spec fn version_line(backend: Backend, program: Seq<char>, host: HostView) -> CommandView {
    match backend {
        Backend::ClaudeCode => CommandView { program, args: seq!["--version"@] },
        Backend::Codex => CommandView {
            program: codex::launcher(host).0,
            args: codex::launcher(host).1.push("--version"@),
        },
        Backend::QwenCode => CommandView { program: qwen::EXECUTABLE@, args: seq!["--version"@] },
    }
}

/// How the prompt of a headless session reaches a backend.
pub open spec fn transport(backend: Backend, host: HostView) -> PromptTransport {
    if backend is Codex && host is Windows {
        PromptTransport::Stdin
    } else {
        PromptTransport::Argv
    }
}

/// The arguments with which `ferrus serve` serves an agent.
pub open spec fn serve_arguments(role: Seq<char>, agent: Seq<char>, index: u32) -> Seq<Seq<char>> {
    seq![
        "serve"@,
        "--role"@,
        role,
        "--agent-name"@,
        agent,
        "--agent-index"@,
        text::decimal(index as nat),
    ]
}

/// The arguments with which `ferrus serve` serves an agent.
pub fn serve_args(role: &str, agent_name: &str, index: u32) -> (out: Vec<String>)
    ensures
        text::views(out@) == serve_arguments(role@, agent_name@, index),
{
    let mut out: Vec<String> = Vec::new();
    text::add_text(&mut out, "serve");
    text::add_text(&mut out, "--role");
    text::add_text(&mut out, role);
    text::add_text(&mut out, "--agent-name");
    text::add_text(&mut out, agent_name);
    text::add_text(&mut out, "--agent-index");
    text::add_text(&mut out, text::decimal_string(index as u64).as_str());
    assert(text::views(out@) =~= serve_arguments(role@, agent_name@, index));
    out
}

/// The MCP server entry that serves an agent by the executable `exe`.
pub open spec fn config_entry(
    backend: Backend,
    program: Seq<char>,
    model: Option<Seq<char>>,
    role: Seq<char>,
    index: u32,
    exe: Seq<char>,
) -> EntryView {
    EntryView { command: exe, args: serve_arguments(role, backend_name(backend, program), index), model }
}

/// What a supervisor-capable agent offers.
///
/// Supervisor agents run in interactive sessions for humans and in headless
/// sessions for HQ.
pub trait SupervisorAgent {
    /// The backend that runs the agent.
    spec fn backend(&self) -> Backend;

    /// What the program of the backend is called.
    spec fn program(&self) -> Seq<char>;

    /// The model override.
    spec fn chosen_model(&self) -> Option<Seq<char>>;

    /// The configured name of the backend.
    fn name(&self) -> (out: String)
        ensures
            out@ == backend_name(self.backend(), self.program()),
    ;

    /// The command line that runs the agent.
    fn spawn(&self, mode: AgentRunMode<'_>, host: &Host) -> (out: CommandLine)
        ensures
            out@ == command_line(self.backend(), self.program(), mode@, self.chosen_model(), host@),
    ;

    /// The command line that asks the agent for its version.
    fn version_command(&self, host: &Host) -> (out: CommandLine)
        ensures
            out@ == version_line(self.backend(), self.program(), host@),
    ;

    /// The MCP server entry of the agent.
    fn mcp_config_entry(&self, role: &str, index: u32, exe: &str) -> (out: McpConfigEntry)
        ensures
            out@ == config_entry(
                self.backend(),
                self.program(),
                self.chosen_model(),
                role@,
                index,
                exe@,
            ),
    ;

    /// The model override.
    fn model(&self) -> (out: Option<&str>)
        ensures
            text::opt_str_view(out) == self.chosen_model(),
    ;

    /// How the prompt of a headless session reaches the agent.
    fn prompt_transport(&self, host: &Host) -> (out: PromptTransport)
        ensures
            out == transport(self.backend(), host@),
    ;
}

/// What an executor-capable agent offers.
///
/// Executors mirror the supervisor interface, since HQ may start them in
/// either mode.
pub trait ExecutorAgent {
    /// The backend that runs the agent.
    spec fn backend(&self) -> Backend;

    /// What the program of the backend is called.
    spec fn program(&self) -> Seq<char>;

    /// The model override.
    spec fn chosen_model(&self) -> Option<Seq<char>>;

    /// The configured name of the backend.
    fn name(&self) -> (out: String)
        ensures
            out@ == backend_name(self.backend(), self.program()),
    ;

    /// The command line that runs the agent.
    fn spawn(&self, mode: AgentRunMode<'_>, host: &Host) -> (out: CommandLine)
        ensures
            out@ == command_line(self.backend(), self.program(), mode@, self.chosen_model(), host@),
    ;

    /// The command line that asks the agent for its version.
    fn version_command(&self, host: &Host) -> (out: CommandLine)
        ensures
            out@ == version_line(self.backend(), self.program(), host@),
    ;

    /// The MCP server entry of the agent.
    fn mcp_config_entry(&self, role: &str, index: u32, exe: &str) -> (out: McpConfigEntry)
        ensures
            out@ == config_entry(
                self.backend(),
                self.program(),
                self.chosen_model(),
                role@,
                index,
                exe@,
            ),
    ;

    /// The model override.
    fn model(&self) -> (out: Option<&str>)
        ensures
            text::opt_str_view(out) == self.chosen_model(),
    ;

    /// How the prompt of a headless session reaches the agent.
    fn prompt_transport(&self, host: &Host) -> (out: PromptTransport)
        ensures
            out == transport(self.backend(), host@),
    ;
}

/// A supervisor of any backend.
#[derive(Debug, Clone)]
pub enum AnySupervisor {
    ClaudeCode(claude::Supervisor),
    Codex(codex::Supervisor),
    QwenCode(qwen::Supervisor),
}

/// An executor of any backend.
#[derive(Debug, Clone)]
pub enum AnyExecutor {
    ClaudeCode(claude::Executor),
    Codex(codex::Executor),
    QwenCode(qwen::Executor),
}

impl SupervisorAgent for AnySupervisor {
    open spec fn backend(&self) -> Backend {
        match *self {
            AnySupervisor::ClaudeCode(_) => Backend::ClaudeCode,
            AnySupervisor::Codex(_) => Backend::Codex,
            AnySupervisor::QwenCode(_) => Backend::QwenCode,
        }
    }

    open spec fn program(&self) -> Seq<char> {
        match *self {
            AnySupervisor::ClaudeCode(agent) => agent.program@,
            AnySupervisor::Codex(_) => codex::EXECUTABLE@,
            AnySupervisor::QwenCode(_) => qwen::EXECUTABLE@,
        }
    }

    open spec fn chosen_model(&self) -> Option<Seq<char>> {
        match *self {
            AnySupervisor::ClaudeCode(agent) => text::opt_view(agent.model),
            AnySupervisor::Codex(agent) => text::opt_view(agent.model),
            AnySupervisor::QwenCode(agent) => text::opt_view(agent.model),
        }
    }

    fn name(&self) -> (out: String) {
        match self {
            AnySupervisor::ClaudeCode(agent) => agent.name(),
            AnySupervisor::Codex(agent) => agent.name(),
            AnySupervisor::QwenCode(agent) => agent.name(),
        }
    }

    fn spawn(&self, mode: AgentRunMode<'_>, host: &Host) -> (out: CommandLine) {
        match self {
            AnySupervisor::ClaudeCode(agent) => agent.spawn(mode, host),
            AnySupervisor::Codex(agent) => agent.spawn(mode, host),
            AnySupervisor::QwenCode(agent) => agent.spawn(mode, host),
        }
    }

    fn version_command(&self, host: &Host) -> (out: CommandLine) {
        match self {
            AnySupervisor::ClaudeCode(agent) => agent.version_command(host),
            AnySupervisor::Codex(agent) => agent.version_command(host),
            AnySupervisor::QwenCode(agent) => agent.version_command(host),
        }
    }

    fn mcp_config_entry(&self, role: &str, index: u32, exe: &str) -> (out: McpConfigEntry) {
        match self {
            AnySupervisor::ClaudeCode(agent) => agent.mcp_config_entry(role, index, exe),
            AnySupervisor::Codex(agent) => agent.mcp_config_entry(role, index, exe),
            AnySupervisor::QwenCode(agent) => agent.mcp_config_entry(role, index, exe),
        }
    }

    fn model(&self) -> (out: Option<&str>) {
        match self {
            AnySupervisor::ClaudeCode(agent) => agent.model(),
            AnySupervisor::Codex(agent) => agent.model(),
            AnySupervisor::QwenCode(agent) => agent.model(),
        }
    }

    fn prompt_transport(&self, host: &Host) -> (out: PromptTransport) {
        match self {
            AnySupervisor::ClaudeCode(agent) => agent.prompt_transport(host),
            AnySupervisor::Codex(agent) => agent.prompt_transport(host),
            AnySupervisor::QwenCode(agent) => agent.prompt_transport(host),
        }
    }
}

impl ExecutorAgent for AnyExecutor {
    open spec fn backend(&self) -> Backend {
        match *self {
            AnyExecutor::ClaudeCode(_) => Backend::ClaudeCode,
            AnyExecutor::Codex(_) => Backend::Codex,
            AnyExecutor::QwenCode(_) => Backend::QwenCode,
        }
    }

    open spec fn program(&self) -> Seq<char> {
        match *self {
            AnyExecutor::ClaudeCode(agent) => agent.program@,
            AnyExecutor::Codex(_) => codex::EXECUTABLE@,
            AnyExecutor::QwenCode(_) => qwen::EXECUTABLE@,
        }
    }

    open spec fn chosen_model(&self) -> Option<Seq<char>> {
        match *self {
            AnyExecutor::ClaudeCode(agent) => text::opt_view(agent.model),
            AnyExecutor::Codex(agent) => text::opt_view(agent.model),
            AnyExecutor::QwenCode(agent) => text::opt_view(agent.model),
        }
    }

    fn name(&self) -> (out: String) {
        match self {
            AnyExecutor::ClaudeCode(agent) => agent.name(),
            AnyExecutor::Codex(agent) => agent.name(),
            AnyExecutor::QwenCode(agent) => agent.name(),
        }
    }

    fn spawn(&self, mode: AgentRunMode<'_>, host: &Host) -> (out: CommandLine) {
        match self {
            AnyExecutor::ClaudeCode(agent) => agent.spawn(mode, host),
            AnyExecutor::Codex(agent) => agent.spawn(mode, host),
            AnyExecutor::QwenCode(agent) => agent.spawn(mode, host),
        }
    }

    fn version_command(&self, host: &Host) -> (out: CommandLine) {
        match self {
            AnyExecutor::ClaudeCode(agent) => agent.version_command(host),
            AnyExecutor::Codex(agent) => agent.version_command(host),
            AnyExecutor::QwenCode(agent) => agent.version_command(host),
        }
    }

    fn mcp_config_entry(&self, role: &str, index: u32, exe: &str) -> (out: McpConfigEntry) {
        match self {
            AnyExecutor::ClaudeCode(agent) => agent.mcp_config_entry(role, index, exe),
            AnyExecutor::Codex(agent) => agent.mcp_config_entry(role, index, exe),
            AnyExecutor::QwenCode(agent) => agent.mcp_config_entry(role, index, exe),
        }
    }

    fn model(&self) -> (out: Option<&str>) {
        match self {
            AnyExecutor::ClaudeCode(agent) => agent.model(),
            AnyExecutor::Codex(agent) => agent.model(),
            AnyExecutor::QwenCode(agent) => agent.model(),
        }
    }

    fn prompt_transport(&self, host: &Host) -> (out: PromptTransport) {
        match self {
            AnyExecutor::ClaudeCode(agent) => agent.prompt_transport(host),
            AnyExecutor::Codex(agent) => agent.prompt_transport(host),
            AnyExecutor::QwenCode(agent) => agent.prompt_transport(host),
        }
    }
}

/// An agent name that no backend has.
#[derive(Debug, Clone, PartialEq, Eq)]
pub struct UnknownAgent {
    pub role: String,
    pub name: String,
    /// What the program of the first backend is called.
    pub program: String,
}

/// The message for an agent name that no backend has.
pub open spec fn unknown_agent_text(
    role: Seq<char>,
    name: Seq<char>,
    program: Seq<char>,
) -> Seq<char> {
    "Unknown "@ + role + " agent '"@ + name + "'. Supported values: \""@ + claude::configured_name(
        program,
    ) + "\", \"codex\", \"qwen-code\"."@
}

impl UnknownAgent {
    /// The message for the user.
    pub fn message(&self) -> (out: String)
        ensures
            out@ == unknown_agent_text(self.role@, self.name@, self.program@),
    {
        let mut out: String = "Unknown ".to_owned();
        out.append(self.role.as_str());
        out.append(" agent '");
        out.append(self.name.as_str());
        out.append("'. Supported values: \"");
        out.append(claude::name_of(self.program.as_str()).as_str());
        out.append("\", \"codex\", \"qwen-code\".");
        out
    }
}

/// The backend with a configured name.
pub open spec fn named_backend(name: Seq<char>, program: Seq<char>) -> Option<Backend> {
    if name == claude::configured_name(program) {
        Some(Backend::ClaudeCode)
    } else if name == codex::NAME@ {
        Some(Backend::Codex)
    } else if name == qwen::NAME@ {
        Some(Backend::QwenCode)
    } else {
        None
    }
}

/// The backend with a configured name.
pub fn find_backend(name: &str, program: &str) -> (out: Option<Backend>)
    ensures
        out == named_backend(name@, program@),
{
    if text::same(name, claude::name_of(program).as_str()) {
        Some(Backend::ClaudeCode)
    } else if text::same(name, codex::NAME) {
        Some(Backend::Codex)
    } else if text::same(name, qwen::NAME) {
        Some(Backend::QwenCode)
    } else {
        None
    }
}

/// A backend's name names that backend, unless two of them have programs of the
/// same name.
pub proof fn law_backend_names(backend: Backend, program: Seq<char>)
    requires
        program != qwen::EXECUTABLE@,
    ensures
        named_backend(backend_name(backend, program), program) == Some(backend),
{
    reveal_strlit("-code");
    reveal_strlit("codex");
    reveal_strlit("qwen");
    reveal_strlit("qwen-code");
    let first = claude::configured_name(program);
    assert(first.last() == 'e');
    assert(codex::NAME@.last() == 'x');
    assert(codex::NAME@.len() == 5);
    assert(qwen::NAME@.len() == 9);
    if first == qwen::NAME@ {
        assert(program =~= first.take(program.len() as int));
        assert(program =~= qwen::EXECUTABLE@);
    }
}

/// The supervisor of the backend with a configured name.
pub fn parse_supervisor_agent(agent_type: &str, model: Option<&str>, program: &str) -> (out: Result<
    AnySupervisor,
    UnknownAgent,
>)
    ensures
        match (out, named_backend(agent_type@, program@)) {
            (Ok(agent), Some(backend)) => agent.backend() == backend && agent.chosen_model()
                == model_choice(text::opt_str_view(model)) && (backend is ClaudeCode
                ==> agent.program() == program@),
            (Err(unknown), None) => unknown.role@ == "supervisor"@ && unknown.name@ == agent_type@
                && unknown.program@ == program@,
            _ => false,
        },
{
    match find_backend(agent_type, program) {
        Some(Backend::ClaudeCode) => Ok(
            AnySupervisor::ClaudeCode(claude::Supervisor::new(program, model)),
        ),
        Some(Backend::Codex) => Ok(AnySupervisor::Codex(codex::Supervisor::new(model))),
        Some(Backend::QwenCode) => Ok(AnySupervisor::QwenCode(qwen::Supervisor::new(model))),
        None => Err(
            UnknownAgent {
                role: "supervisor".to_owned(),
                name: agent_type.to_owned(),
                program: program.to_owned(),
            },
        ),
    }
}

/// The executor of the backend with a configured name.
pub fn parse_executor_agent(agent_type: &str, model: Option<&str>, program: &str) -> (out: Result<
    AnyExecutor,
    UnknownAgent,
>)
    ensures
        match (out, named_backend(agent_type@, program@)) {
            (Ok(agent), Some(backend)) => agent.backend() == backend && agent.chosen_model()
                == model_choice(text::opt_str_view(model)) && (backend is ClaudeCode
                ==> agent.program() == program@),
            (Err(unknown), None) => unknown.role@ == "executor"@ && unknown.name@ == agent_type@
                && unknown.program@ == program@,
            _ => false,
        },
{
    match find_backend(agent_type, program) {
        Some(Backend::ClaudeCode) => Ok(
            AnyExecutor::ClaudeCode(claude::Executor::new(program, model)),
        ),
        Some(Backend::Codex) => Ok(AnyExecutor::Codex(codex::Executor::new(model))),
        Some(Backend::QwenCode) => Ok(AnyExecutor::QwenCode(qwen::Executor::new(model))),
        None => Err(
            UnknownAgent {
                role: "executor".to_owned(),
                name: agent_type.to_owned(),
                program: program.to_owned(),
            },
        ),
    }
}

/// A model override without the white space around it; none where nothing is
/// left.
pub open spec fn model_choice(model: Option<Seq<char>>) -> Option<Seq<char>> {
    match model {
        Some(m) => if text::trim(m).len() == 0 {
            None
        } else {
            Some(text::trim(m))
        },
        None => None,
    }
}

/// A model override without the white space around it; none where nothing is
/// left.
pub fn normalized_model(model: Option<&str>) -> (out: Option<String>)
    ensures
        text::opt_view(out) == model_choice(text::opt_str_view(model)),
{
    match model {
        Some(m) => {
            let trimmed: String = text::trim_string(m);
            proof {
                reveal_strlit("");
                assert(trimmed@.len() == 0 ==> trimmed@ =~= ""@);
            }
            if text::same(trimmed.as_str(), "") {
                None
            } else {
                Some(trimmed)
            }
        },
        None => None,
    }
}

/// The permission that allows every tool of an MCP server.
pub open spec fn tools_permission(server: Seq<char>) -> Seq<char> {
    "mcp__"@ + server + "__*"@
}

/// The permission that allows every tool of an MCP server.
pub fn mcp_server_tools_permission(server_key: &str) -> (out: String)
    ensures
        out@ == tools_permission(server_key@),
{
    let mut out: String = "mcp__".to_owned();
    out.append(server_key);
    out.append("__*");
    out
}

/// Why a permission cannot be added to a settings document.
#[derive(Debug, Clone, Copy, PartialEq, Eq, Structural)]
pub enum AllowError {
    RootNotObject,
    PermissionsNotObject,
    AllowNotList,
    AllowNotStrings,
}

/// What is wrong, as it follows the name of the file.
pub open spec fn allow_problem(error: AllowError) -> Seq<char> {
    match error {
        AllowError::RootNotObject => " root is not a JSON object"@,
        AllowError::PermissionsNotObject => " permissions is not an object"@,
        AllowError::AllowNotList => " permissions.allow is not an array"@,
        AllowError::AllowNotStrings => " permissions.allow must contain only strings"@,
    }
}

impl AllowError {
    /// The message for the user about the file at `path`.
    pub fn message(&self, path: &str) -> (out: String)
        ensures
            out@ == path@ + allow_problem(*self),
    {
        let mut out: String = path.to_owned();
        out.append(
            match self {
                AllowError::RootNotObject => " root is not a JSON object",
                AllowError::PermissionsNotObject => " permissions is not an object",
                AllowError::AllowNotList => " permissions.allow is not an array",
                AllowError::AllowNotStrings => " permissions.allow must contain only strings",
            },
        );
        out
    }
}

/// The allowed permissions of a settings document.
pub open spec fn allowed(root: JsonView) -> Result<Seq<JsonView>, AllowError> {
    if root is Object {
        match json::field(root, "permissions"@) {
            None => Ok(Seq::empty()),
            Some(JsonView::Object(entries)) => match json::field(
                JsonView::Object(entries),
                "allow"@,
            ) {
                None => Ok(Seq::empty()),
                Some(JsonView::List(items)) => Ok(items),
                Some(_) => Err(AllowError::AllowNotList),
            },
            Some(_) => Err(AllowError::PermissionsNotObject),
        }
    } else {
        Err(AllowError::RootNotObject)
    }
}

/// Whether an item of a list is the given text.
pub open spec fn lists_text(items: Seq<JsonView>, value: Seq<char>) -> bool {
    exists|i: int| 0 <= i < items.len() && #[trigger] items[i] == JsonView::Text(value)
}

/// Whether every item of a list is a text.
pub open spec fn only_texts(items: Seq<JsonView>) -> bool {
    forall|i: int| 0 <= i < items.len() ==> #[trigger] items[i] is Text
}

/// What adding a permission comes to: whether it was added, or why it cannot
/// be. One that is there is not added again.
pub open spec fn allow_outcome(root: JsonView, permission: Seq<char>) -> Result<bool, AllowError> {
    match allowed(root) {
        Err(error) => Err(error),
        Ok(items) => if lists_text(items, permission) {
            Ok(false)
        } else if only_texts(items) {
            Ok(true)
        } else {
            Err(AllowError::AllowNotStrings)
        },
    }
}

/// The settings document with the given list of allowed permissions.
pub open spec fn with_allowed(root: JsonView, items: Seq<JsonView>) -> JsonView {
    JsonView::Object(
        json::set_key(
            json::object_entries(Some(root)),
            "permissions"@,
            JsonView::Object(
                json::set_key(
                    json::object_entries(json::field(root, "permissions"@)),
                    "allow"@,
                    JsonView::List(items),
                ),
            ),
        ),
    )
}

/// Whether an item of a list is the given text.
fn has_text(items: &Vec<Json>, value: &str) -> (out: bool)
    ensures
        out == lists_text(json::list_view(items@), value@),
{
    let ghost all = json::list_view(items@);
    let mut i: usize = 0;
    while i < items.len()
        invariant
            i <= items@.len(),
            all == json::list_view(items@),
            forall|k: int| 0 <= k < i ==> #[trigger] all[k] != JsonView::Text(value@),
        decreases items@.len() - i,
    {
        assert(all[i as int] == items@[i as int]@);
        if let Json::Text(s) = &items[i] {
            if text::same(s.as_str(), value) {
                return true;
            }
        }
        i = i + 1;
    }
    false
}

/// Whether every item of a list is a text.
fn is_all_text(items: &Vec<Json>) -> (out: bool)
    ensures
        out == only_texts(json::list_view(items@)),
{
    let ghost all = json::list_view(items@);
    let mut i: usize = 0;
    while i < items.len()
        invariant
            i <= items@.len(),
            all == json::list_view(items@),
            forall|k: int| 0 <= k < i ==> #[trigger] all[k] is Text,
        decreases items@.len() - i,
    {
        assert(all[i as int] == items@[i as int]@);
        match &items[i] {
            Json::Text(_) => {},
            _ => {
                return false;
            },
        }
        i = i + 1;
    }
    true
}

/// What adding a permission would come to.
fn check_allow(root: &Json, permission: &str) -> (out: Result<bool, AllowError>)
    ensures
        out == allow_outcome(root@, permission@),
{
    proof {
        assert(!lists_text(Seq::<JsonView>::empty(), permission@));
        assert(only_texts(Seq::<JsonView>::empty()));
    }
    match root {
        Json::Object(_) => {},
        _ => {
            return Err(AllowError::RootNotObject);
        },
    }
    match root.get("permissions") {
        None => Ok(true),
        Some(permissions) => {
            match permissions {
                Json::Object(_) => {},
                _ => {
                    return Err(AllowError::PermissionsNotObject);
                },
            }
            match permissions.get("allow") {
                None => Ok(true),
                Some(Json::List(items)) => {
                    if has_text(items, permission) {
                        Ok(false)
                    } else if is_all_text(items) {
                        Ok(true)
                    } else {
                        Err(AllowError::AllowNotStrings)
                    }
                },
                Some(_) => Err(AllowError::AllowNotList),
            }
        },
    }
}

/// Adds a permission to the allowed ones of a settings document, unless it is
/// there. A document that has no place for it stays as it is.
pub fn add_json_allow_permission(root: &mut Json, permission: &str) -> (out: Result<
    bool,
    AllowError,
>)
    requires
        json::is_of(old(root)@, json::Format::Json),
    ensures
        out == allow_outcome(old(root)@, permission@),
        out == Ok::<bool, AllowError>(true) ==> final(root)@ == with_allowed(
            old(root)@,
            allowed(old(root)@)->Ok_0.push(JsonView::Text(permission@)),
        ),
        out != Ok::<bool, AllowError>(true) ==> final(root)@ == old(root)@,
        json::is_of(final(root)@, json::Format::Json),
{
    let outcome: Result<bool, AllowError> = check_allow(root, permission);
    let added: bool = match &outcome {
        Ok(added) => *added,
        Err(_) => false,
    };
    if added {
        let ghost before = root@;
        match root {
            Json::Object(entries) => {
                let ghost top = json::entries_view(entries@);
                assert(before == JsonView::Object(top));
                let mut permissions: Vec<(String, Json)> = json::take_object(
                    entries,
                    "permissions",
                );
                let ghost inner = json::entries_view(permissions@);
                proof {
                    lemma_inner_format(before, "permissions"@);
                }
                let mut items: Vec<Json> = json::take_list(&mut permissions, "allow");
                let ghost listed = json::list_view(items@);
                proof {
                    lemma_inner_format(JsonView::Object(inner), "allow"@);
                }
                items.push(Json::Text(permission.to_owned()));
                assert(json::list_view(items@) =~= listed.push(JsonView::Text(permission@)));
                proof {
                    let list = JsonView::List(json::list_view(items@));
                    lemma_pushed_format(listed, JsonView::Text(permission@));
                    json::lemma_set_key_format(inner, "allow"@, list, json::Format::Json);
                    json::lemma_set_key_format(
                        top,
                        "permissions"@,
                        JsonView::Object(json::set_key(inner, "allow"@, list)),
                        json::Format::Json,
                    );
                }
                json::put_key(&mut permissions, "allow", Json::List(items));
                json::put_key(entries, "permissions", Json::Object(permissions));
            },
            _ => {},
        }
    }
    outcome
}

/// The object or list under a key of a JSON document is a JSON document; so is
/// an empty one in its place.
proof fn lemma_inner_format(root: JsonView, key: Seq<char>)
    requires
        json::is_of(root, json::Format::Json),
        root is Object,
    ensures
        json::is_of(
            JsonView::Object(json::object_entries(json::field(root, key))),
            json::Format::Json,
        ),
        json::is_of(
            JsonView::List(json::list_items(json::field(root, key))),
            json::Format::Json,
        ),
{
    let entries = root->Object_0;
    json::lemma_key_index(entries, key);
    let at = json::key_index(entries, key);
    if at < entries.len() {
        assert(json::is_of(entries[at].1, json::Format::Json));
        assert(json::field(root, key) == Some(entries[at].1));
    }
    assert(json::is_of(
        JsonView::Object(Seq::<(Seq<char>, JsonView)>::empty()),
        json::Format::Json,
    ));
    assert(JsonView::List(Seq::<JsonView>::empty())->List_0.len() == 0);
    assert(json::is_of(JsonView::List(Seq::<JsonView>::empty()), json::Format::Json));
}

proof fn lemma_pushed_format(items: Seq<JsonView>, item: JsonView)
    requires
        json::is_of(JsonView::List(items), json::Format::Json),
        json::is_of(item, json::Format::Json),
    ensures
        json::is_of(JsonView::List(items.push(item)), json::Format::Json),
{
    json::lemma_list_format(items, json::Format::Json);
    let after = items.push(item);
    assert(JsonView::List(after)->List_0 == after);
    assert forall|i: int| 0 <= i < after.len() implies json::is_of(
        #[trigger] after[i],
        json::Format::Json,
    ) by {
        if i < items.len() {
            assert(after[i] == items[i]);
        }
    }
}

/// A permission that was added is there: adding it again adds nothing.
pub proof fn law_permission_is_added_once(root: JsonView, permission: Seq<char>)
    requires
        allow_outcome(root, permission) == Ok::<bool, AllowError>(true),
    ensures
        allow_outcome(
            with_allowed(root, allowed(root)->Ok_0.push(JsonView::Text(permission))),
            permission,
        ) == Ok::<bool, AllowError>(false),
{
    let items = allowed(root)->Ok_0.push(JsonView::Text(permission));
    let inner = json::object_entries(json::field(root, "permissions"@));
    let top = json::object_entries(Some(root));
    json::law_set_key_is_found(inner, "allow"@, JsonView::List(items));
    json::law_set_key_is_found(
        top,
        "permissions"@,
        JsonView::Object(json::set_key(inner, "allow"@, JsonView::List(items))),
    );
    assert(items[items.len() - 1] == JsonView::Text(permission));
    assert(lists_text(items, permission));
}

/// Why a settings file cannot be rewritten.
#[derive(Debug, Clone, PartialEq, Eq)]
pub enum SettingsError {
    Unreadable,
    Allow(AllowError),
}

impl SettingsError {
    /// The message for the user about the file at `path`.
    pub fn message(&self, path: &str) -> (out: String)
        ensures
            out@ == match *self {
                SettingsError::Unreadable => "Failed to parse "@ + path@,
                SettingsError::Allow(error) => path@ + allow_problem(error),
            },
    {
        match self {
            SettingsError::Unreadable => {
                let mut out: String = "Failed to parse ".to_owned();
                out.append(path);
                out
            },
            SettingsError::Allow(error) => error.message(path),
        }
    }
}

/// A settings file that allows the tools of a server.
#[derive(Debug, Clone, PartialEq, Eq)]
pub struct AllowedTools {
    pub content: String,
    pub permission: String,
    pub added: bool,
}

/// The document of a settings file; an empty object where there is no file.
pub open spec fn settings_document(content: Option<Seq<char>>) -> Option<JsonView> {
    match content {
        Some(text) => json::json_document(text),
        None => Some(JsonView::Object(Seq::empty())),
    }
}

/// The settings file of `content` with the tools of a server allowed.
pub fn allow_mcp_server_tools(content: Option<&str>, server_key: &str) -> (out: Result<
    AllowedTools,
    SettingsError,
>)
    ensures
        match settings_document(text::opt_str_view(content)) {
            None => out == Err::<AllowedTools, SettingsError>(SettingsError::Unreadable),
            Some(root) => allowed_tools(root, tools_permission(server_key@), out),
        },
{
    let permission: String = mcp_server_tools_permission(server_key);
    let mut root: Json = match content {
        Some(text) => match json::parse_json(text) {
            Some(root) => root,
            None => {
                return Err(SettingsError::Unreadable);
            },
        },
        None => json::empty_object(),
    };
    match add_json_allow_permission(&mut root, permission.as_str()) {
        Ok(added) => Ok(AllowedTools { content: json::print_json(root), permission, added }),
        Err(error) => Err(SettingsError::Allow(error)),
    }
}

/// What allowing a permission in a settings document comes to.
pub open spec fn allowed_tools(
    root: JsonView,
    permission: Seq<char>,
    out: Result<AllowedTools, SettingsError>,
) -> bool {
    match allow_outcome(root, permission) {
        Err(error) => out == Err::<AllowedTools, SettingsError>(SettingsError::Allow(error)),
        Ok(added) => {
            let document = if added {
                with_allowed(root, allowed(root)->Ok_0.push(JsonView::Text(permission)))
            } else {
                root
            };
            out matches Ok(tools) && tools.permission@ == permission && tools.added == added
                && tools.content@ == json::json_text(document) && (json::reads_back(document)
                ==> json::json_document(tools.content@) == Some(document))
        },
    }
}

// ------------------------------------------------------------------ how agents are run

/// What a headless session is started with. The prompt comes last, or on standard input
/// with a dash in its place for Codex on Windows; what makes the session end by itself, and
/// the model where one is chosen, stand before it; and there is nothing else.
pub proof fn law_headless_prompt_is_handed_over(
    backend: Backend,
    program: Seq<char>,
    prompt: Seq<char>,
    model: Option<Seq<char>>,
    host: HostView,
)
    ensures
        ({
            let line = command_line(
                backend,
                program,
                RunModeView::Headless { prompt },
                model,
                host,
            );
            let on_stdin = backend is Codex && host is Windows;
            let first = if backend is Codex && host is Windows {
                1int
            } else {
                0
            };
            let extra = if model is Some {
                2int
            } else {
                0
            };
            &&& (transport(backend, host) is Stdin) == on_stdin
            &&& line.args.len() == first + 2 + extra
            &&& line.args.last() == if on_stdin {
                "-"@
            } else {
                prompt
            }
            &&& match backend {
                Backend::Codex => line.args[first] == "exec"@ && (model is Some ==> line.args[first
                    + 1] == "--model"@ && line.args[first + 2] == model->0),
                _ => line.args[extra] == "-p"@ && (model is Some ==> line.args[0] == "--model"@
                    && line.args[1] == model->0),
            }
            &&& line.program == match backend {
                Backend::ClaudeCode => program,
                Backend::QwenCode => "qwen"@,
                Backend::Codex => match host {
                    HostView::Unix => "codex"@,
                    HostView::Windows { node, script } => node,
                },
            }
            &&& host matches HostView::Windows { node, script } ==> (backend is Codex
                ==> line.args[0] == script)
        }),
{
}

/// What an interactive session is started with: the model where one is chosen, then the
/// prompt where there is one, which comes last; and nothing that would make it end by
/// itself.
pub proof fn law_interactive_session_stays_open(
    backend: Backend,
    program: Seq<char>,
    prompt: Option<Seq<char>>,
    model: Option<Seq<char>>,
    host: HostView,
)
    ensures
        ({
            let line = command_line(
                backend,
                program,
                RunModeView::Interactive { prompt },
                model,
                host,
            );
            let first = if backend is Codex && host is Windows {
                1int
            } else {
                0
            };
            let extra = if model is Some {
                2int
            } else {
                0
            };
            let own = match prompt {
                None => 0int,
                Some(_) => if backend is QwenCode {
                    2
                } else {
                    1
                },
            };
            &&& line.args.len() == first + extra + own
            &&& model is Some ==> line.args[first] == "--model"@ && line.args[first + 1]
                == model->0
            &&& prompt is Some ==> line.args.last() == prompt->0
            &&& prompt is Some && backend is QwenCode ==> line.args[extra] == "-i"@
            &&& line.program == match backend {
                Backend::ClaudeCode => program,
                Backend::QwenCode => "qwen"@,
                Backend::Codex => match host {
                    HostView::Unix => "codex"@,
                    HostView::Windows { node, script } => node,
                },
            }
            &&& host matches HostView::Windows { node, script } ==> (backend is Codex
                ==> line.args[0] == script)
        }),
{
}

/// A backend is asked for its version and for nothing else.
pub proof fn law_version_is_asked_for(backend: Backend, program: Seq<char>, host: HostView)
    ensures
        version_line(backend, program, host).args.last() == "--version"@,
        version_line(backend, program, host).args.len() == if backend is Codex && host is Windows {
            2int
        } else {
            1
        },
        version_line(backend, program, host).program == command_line(
            backend,
            program,
            RunModeView::Interactive { prompt: None },
            None,
            host,
        ).program,
{
}

/// The server that serves an agent is told its role, its name and its number, each behind
/// its own flag, and is started by the executable that is given.
pub proof fn law_server_is_told_whom_it_serves(
    backend: Backend,
    program: Seq<char>,
    model: Option<Seq<char>>,
    role: Seq<char>,
    index: u32,
    exe: Seq<char>,
)
    ensures
        ({
            let entry = config_entry(backend, program, model, role, index, exe);
            &&& entry.command == exe
            &&& entry.model == model
            &&& entry.args.len() == 7
            &&& entry.args[0] == "serve"@
            &&& entry.args[1] == "--role"@ && entry.args[2] == role
            &&& entry.args[3] == "--agent-name"@ && entry.args[4] == match backend {
                Backend::ClaudeCode => program + "-code"@,
                Backend::Codex => "codex"@,
                Backend::QwenCode => "qwen-code"@,
            }
            &&& entry.args[5] == "--agent-index"@ && entry.args[6] == text::decimal(index as nat)
        }),
{
}

/// A model that is chosen is named without the white space around it, and a blank one is
/// none.
pub proof fn law_blank_model_is_none(model: Seq<char>)
    ensures
        model_choice(None) is None,
        model_choice(Some(model)) is None <==> text::is_blank(model),
        model_choice(Some(model)) is Some ==> model_choice(Some(model))->0 == text::trim(model),
{
    text::lemma_trim_empty(model);
}

/// A permission is added behind those that are there; they stay, and so does every other
/// setting. It is for every tool of the server and for those of no other.
pub proof fn law_permission_is_added_behind(
    root: JsonView,
    server: Seq<char>,
    other: Seq<char>,
)
    requires
        allow_outcome(root, tools_permission(server)) == Ok::<bool, AllowError>(true),
    ensures
        ({
            let permission = "mcp__"@ + server + "__*"@;
            let before = allowed(root)->Ok_0;
            let after = with_allowed(root, before.push(JsonView::Text(permission)));
            let permissions = json::field(after, "permissions"@);
            &&& tools_permission(server) == permission
            &&& permissions is Some
            &&& json::field(permissions->0, "allow"@) == Some(
                JsonView::List(before.push(JsonView::Text(permission))),
            )
            &&& other != "permissions"@ ==> json::field(after, other) == json::field(root, other)
            &&& other != "allow"@ && json::field(root, "permissions"@) is Some ==> json::field(
                permissions->0,
                other,
            ) == json::field(json::field(root, "permissions"@)->0, other)
        }),
{
    let permission = tools_permission(server);
    let items = allowed(root)->Ok_0.push(JsonView::Text(permission));
    let top = json::object_entries(Some(root));
    let inner = json::object_entries(json::field(root, "permissions"@));
    let section = JsonView::Object(json::set_key(inner, "allow"@, JsonView::List(items)));
    json::law_set_key_is_found(top, "permissions"@, section);
    json::law_set_key_is_found(inner, "allow"@, JsonView::List(items));
    if other != "permissions"@ {
        json::law_set_key_is_local(top, "permissions"@, section, other);
    }
    if other != "allow"@ {
        json::law_set_key_is_local(inner, "allow"@, JsonView::List(items), other);
    }
}

/// A permission is added exactly where the settings have a place for it and do not list it:
/// the settings are an object, what they say of permissions is one, and what is allowed is a
/// list of texts. A place that is missing is made.
pub proof fn law_permission_needs_a_place(
    root: JsonView,
    permission: Seq<char>,
    items: Seq<JsonView>,
    at: int,
)
    ensures
        ({
            let outcome = allow_outcome(root, permission);
            let permissions = json::field(root, "permissions"@);
            let allow = match permissions {
                Some(found) => json::field(found, "allow"@),
                None => None,
            };
            &&& !(root is Object) <==> outcome == Err::<bool, AllowError>(
                AllowError::RootNotObject,
            )
            &&& root is Object && permissions is Some && !(permissions->0 is Object) <==> outcome
                == Err::<bool, AllowError>(AllowError::PermissionsNotObject)
            &&& root is Object && allow is None && (permissions is None || permissions->0 is Object)
                ==> outcome == Ok::<bool, AllowError>(true)
            &&& root is Object && permissions is Some && permissions->0 is Object && allow is Some
                && !(allow->0 is List) ==> outcome == Err::<bool, AllowError>(
                AllowError::AllowNotList,
            )
            &&& root is Object && permissions is Some && allow == Some(JsonView::List(items)) && 0
                <= at < items.len() ==> {
                &&& items[at] == JsonView::Text(permission) ==> outcome == Ok::<bool, AllowError>(
                    false,
                )
                &&& outcome == Ok::<bool, AllowError>(true) ==> items[at] is Text && items[at]
                    != JsonView::Text(permission)
                &&& outcome == Err::<bool, AllowError>(AllowError::AllowNotStrings) ==> items[at]
                    != JsonView::Text(permission)
            }
            &&& root is Object && permissions is Some && allow == Some(JsonView::List(items))
                && only_texts(items) ==> outcome is Ok
        }),
{
    assert(!lists_text(Seq::<JsonView>::empty(), permission));
    assert(only_texts(Seq::<JsonView>::empty()));
}

/// What allowing a permission gives back: the settings with the permission behind those
/// that are allowed, where it was not among them, and the settings as they were where it
/// was; and it says which of the two. Settings without a place for it are refused for
/// that reason.
pub proof fn law_allowed_settings_are_written(
    root: JsonView,
    permission: Seq<char>,
    out: Result<AllowedTools, SettingsError>,
)
    requires
        allowed_tools(root, permission, out),
    ensures
        out is Ok <==> allow_outcome(root, permission) is Ok,
        out matches Ok(tools) ==> {
            &&& tools.permission@ == permission
            &&& tools.added <==> allow_outcome(root, permission) == Ok::<bool, AllowError>(true)
            &&& !tools.added ==> tools.content@ == json::json_text(root)
            &&& tools.added ==> {
                let before = allowed(root)->Ok_0;
                let after = with_allowed(root, before.push(JsonView::Text(permission)));
                &&& tools.content@ == json::json_text(after)
                &&& json::reads_back(after) ==> json::json_document(tools.content@) == Some(after)
            }
        },
        out matches Err(error) ==> error == SettingsError::Allow(
            allow_outcome(root, permission)->Err_0,
        ),
{
}

} // verus!
