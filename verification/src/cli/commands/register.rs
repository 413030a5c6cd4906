//! Registration of agents: the MCP server entries that agent clients read, the
//! ignored files and the instructions that go with them.
use vstd::prelude::*;
use vstd::string::*;

use crate::agent_id;
use crate::agents;
use crate::agents::{Backend, EntryView, McpConfigEntry};
use crate::json;
use crate::json::{Format, Json, JsonView};
use crate::text;

verus! {

/// The agents that can be registered.
#[derive(Clone, Copy, Debug, PartialEq, Eq, Structural)]
pub enum Agent {
    ClaudeCode,
    Codex,
    QwenCode,
}

/// The backend of an agent.
pub open spec fn agent_backend(agent: Agent) -> Backend {
    match agent {
        Agent::ClaudeCode => Backend::ClaudeCode,
        Agent::Codex => Backend::Codex,
        Agent::QwenCode => Backend::QwenCode,
    }
}

impl Agent {
    /// The name of the agent in arguments and in `claimed_by` identifiers, where
    /// the program of the first is called `program`.
    pub fn name(&self, program: &str) -> (out: String)
        ensures
            out@ == agents::backend_name(agent_backend(*self), program@),
    {
        match self {
            Agent::ClaudeCode => agents::claude::name_of(program),
            Agent::Codex => agents::codex::NAME.to_owned(),
            Agent::QwenCode => agents::qwen::NAME.to_owned(),
        }
    }
}

/// The agent with a name; none where no agent has it.
pub open spec fn agent_named(name: Seq<char>, program: Seq<char>) -> Option<Agent> {
    match agents::named_backend(name, program) {
        Some(Backend::ClaudeCode) => Some(Agent::ClaudeCode),
        Some(Backend::Codex) => Some(Agent::Codex),
        Some(Backend::QwenCode) => Some(Agent::QwenCode),
        None => None,
    }
}

/// The agent with a name; none where no agent has it.
pub fn parse_agent(name: &str, program: &str) -> (out: Option<Agent>)
    ensures
        out == agent_named(name@, program@),
{
    match agents::find_backend(name, program) {
        Some(Backend::ClaudeCode) => Some(Agent::ClaudeCode),
        Some(Backend::Codex) => Some(Agent::Codex),
        Some(Backend::QwenCode) => Some(Agent::QwenCode),
        None => None,
    }
}

// ------------------------------------------------------------------ models

/// A model override without the white space around it; none where nothing is
/// left.
pub fn normalize_model(model: Option<&str>) -> (out: Option<String>)
    ensures
        text::opt_view(out) == agents::model_choice(text::opt_str_view(model)),
{
    agents::normalized_model(model)
}

/// What a model argument does to the kept override: nothing where it is not
/// given, clear it where it is blank, replace it otherwise.
pub open spec fn model_update(model: Option<Seq<char>>) -> Option<Option<Seq<char>>> {
    match model {
        Some(m) => if text::trim(m).len() == 0 {
            Some(None)
        } else {
            Some(Some(m))
        },
        None => None,
    }
}

/// The contents of a change of an override.
pub open spec fn update_view(update: Option<Option<&str>>) -> Option<Option<Seq<char>>> {
    match update {
        Some(model) => Some(text::opt_str_view(model)),
        None => None,
    }
}

/// What a model argument does to the kept override.
pub fn normalize_model_update(model: Option<&str>) -> (out: Option<Option<&str>>)
    ensures
        update_view(out) == model_update(text::opt_str_view(model)),
{
    match model {
        Some(m) => {
            if text::blank(m) {
                Some(None)
            } else {
                Some(Some(m))
            }
        },
        None => None,
    }
}

// ------------------------------------------------------------------ what to register

/// One role to be registered with an agent.
#[derive(Debug, Clone, PartialEq, Eq)]
pub struct RoleRegistration {
    pub role: String,
    pub agent: Agent,
    pub model: Option<String>,
}

/// The contents of a role's registration.
#[verifier::ext_equal]
pub struct RoleView {
    pub role: Seq<char>,
    pub agent: Agent,
    pub model: Option<Seq<char>>,
}

impl View for RoleRegistration {
    type V = RoleView;

    open spec fn view(&self) -> RoleView {
        RoleView { role: self.role@, agent: self.agent, model: text::opt_view(self.model) }
    }
}

/// The contents of a list of registrations.
pub open spec fn role_views(list: Seq<RoleRegistration>) -> Seq<RoleView> {
    list.map_values(|r: RoleRegistration| r@)
}

/// The arguments of a registration.
#[derive(Debug, Clone, PartialEq, Eq)]
pub struct RegisterArgs {
    pub supervisor: Option<Agent>,
    pub supervisor_model: Option<String>,
    pub executor: Option<Agent>,
    pub executor_model: Option<String>,
}

/// What keeps a registration from being carried out.
#[derive(Debug, Clone, Copy, PartialEq, Eq, Structural)]
pub enum ArgsError {
    NoAgent,
    SupervisorModelAlone,
    ExecutorModelAlone,
}

impl ArgsError {
    /// The message for the user.
    pub fn message(&self) -> (out: &'static str)
        ensures
            out@ == match *self {
                ArgsError::NoAgent => "At least one of --supervisor or --executor must be specified"@,
                ArgsError::SupervisorModelAlone => "--supervisor-model requires --supervisor"@,
                ArgsError::ExecutorModelAlone => "--executor-model requires --executor"@,
            },
    {
        match self {
            ArgsError::NoAgent => "At least one of --supervisor or --executor must be specified",
            ArgsError::SupervisorModelAlone => "--supervisor-model requires --supervisor",
            ArgsError::ExecutorModelAlone => "--executor-model requires --executor",
        }
    }
}

/// The registration of one role; none where no agent is named.
pub open spec fn role_registration(
    role: Seq<char>,
    agent: Option<Agent>,
    model: Option<Seq<char>>,
) -> Seq<RoleView> {
    match agent {
        Some(agent) => seq![RoleView { role, agent, model }],
        None => Seq::empty(),
    }
}

/// What is to be registered: the supervisor, then the executor. A model needs
/// its agent.
pub open spec fn registrations(
    supervisor: Option<Agent>,
    supervisor_model: Option<Seq<char>>,
    executor: Option<Agent>,
    executor_model: Option<Seq<char>>,
) -> Result<Seq<RoleView>, ArgsError> {
    if supervisor is None && supervisor_model is Some {
        Err(ArgsError::SupervisorModelAlone)
    } else if executor is None && executor_model is Some {
        Err(ArgsError::ExecutorModelAlone)
    } else {
        Ok(
            role_registration(agent_id::ROLE_SUPERVISOR@, supervisor, supervisor_model)
                + role_registration(agent_id::ROLE_EXECUTOR@, executor, executor_model),
        )
    }
}

/// What is to be registered.
pub fn run(args: &RegisterArgs) -> (out: Result<Vec<RoleRegistration>, ArgsError>)
    ensures
        match (
            out,
            registrations(
                args.supervisor,
                text::opt_view(args.supervisor_model),
                args.executor,
                text::opt_view(args.executor_model),
            ),
        ) {
            (Ok(list), Ok(expected)) => role_views(list@) == expected,
            (Err(error), Err(expected)) => error == expected,
            _ => false,
        },
{
    if args.supervisor.is_none() && args.supervisor_model.is_some() {
        return Err(ArgsError::SupervisorModelAlone);
    }
    if args.executor.is_none() && args.executor_model.is_some() {
        return Err(ArgsError::ExecutorModelAlone);
    }
    let mut list: Vec<RoleRegistration> = Vec::new();
    if let Some(agent) = args.supervisor {
        list.push(
            RoleRegistration {
                role: agent_id::ROLE_SUPERVISOR.to_owned(),
                agent,
                model: text::opt_clone(&args.supervisor_model),
            },
        );
    }
    if let Some(agent) = args.executor {
        list.push(
            RoleRegistration {
                role: agent_id::ROLE_EXECUTOR.to_owned(),
                agent,
                model: text::opt_clone(&args.executor_model),
            },
        );
    }
    assert(role_views(list@) =~= registrations(
        args.supervisor,
        text::opt_view(args.supervisor_model),
        args.executor,
        text::opt_view(args.executor_model),
    )->Ok_0);
    Ok(list)
}

// ------------------------------------------------------------------ counting entries

/// Whether a flag stands directly before a value.
pub open spec fn flag_pair(args: Seq<Seq<char>>, flag: Seq<char>, value: Seq<char>) -> bool {
    exists|i: int| 0 <= i < args.len() - 1 && pair_at(args, flag, value, i)
}

/// Whether a flag stands directly before a value at a position.
pub open spec fn pair_at(
    args: Seq<Seq<char>>,
    flag: Seq<char>,
    value: Seq<char>,
    at: int,
) -> bool {
    args[at] == flag && args[at + 1] == value
}

/// Whether a flag stands directly before a value.
pub fn has_flag_pair(args: &Vec<String>, flag: &str, value: &str) -> (out: bool)
    ensures
        out == flag_pair(text::views(args@), flag@, value@),
{
    let ghost all = text::views(args@);
    let mut i: usize = 0;
    while i < args.len() && i + 1 < args.len()
        invariant
            i <= args@.len(),
            all == text::views(args@),
            forall|k: int| 0 <= k < i ==> !#[trigger] pair_at(all, flag@, value@, k),
        decreases args@.len() - i,
    {
        if text::same(args[i].as_str(), flag) && text::same(args[i + 1].as_str(), value) {
            assert(pair_at(all, flag@, value@, i as int));
            return true;
        }
        i = i + 1;
    }
    false
}

/// The texts among the items of a list.
pub open spec fn texts_of(items: Seq<JsonView>) -> Seq<Seq<char>>
    decreases items.len(),
{
    if items.len() == 0 {
        Seq::empty()
    } else {
        match items.last() {
            JsonView::Text(s) => texts_of(items.drop_last()).push(s),
            _ => texts_of(items.drop_last()),
        }
    }
}

/// The texts among the items of a list.
fn list_texts(items: &Vec<Json>) -> (out: Vec<String>)
    ensures
        text::views(out@) == texts_of(json::list_view(items@)),
{
    let ghost all = json::list_view(items@);
    let mut out: Vec<String> = Vec::new();
    assert(text::views(out@) =~= Seq::empty());
    let mut i: usize = 0;
    while i < items.len()
        invariant
            i <= items@.len(),
            all == json::list_view(items@),
            text::views(out@) == texts_of(all.take(i as int)),
        decreases items@.len() - i,
    {
        assert(all.take(i + 1).drop_last() =~= all.take(i as int));
        assert(all.take(i + 1).last() == items@[i as int]@);
        if let Json::Text(s) = &items[i] {
            text::add_text(&mut out, s.as_str());
        }
        i = i + 1;
    }
    assert(all.take(i as int) =~= all);
    out
}

/// Whether a server entry serves an agent in a role.
pub open spec fn entry_serves(entry: JsonView, role: Seq<char>, agent: Seq<char>) -> bool {
    match json::field(entry, "args"@) {
        Some(JsonView::List(items)) => {
            let args = texts_of(items);
            flag_pair(args, "--role"@, role) && flag_pair(args, "--agent-name"@, agent)
        },
        _ => false,
    }
}

/// How many of the server entries serve an agent in a role.
pub open spec fn serving_entries(
    servers: Seq<(Seq<char>, JsonView)>,
    role: Seq<char>,
    agent: Seq<char>,
) -> nat
    decreases servers.len(),
{
    if servers.len() == 0 {
        0
    } else {
        serving_entries(servers.drop_last(), role, agent) + if entry_serves(
            servers.last().1,
            role,
            agent,
        ) {
            1nat
        } else {
            0nat
        }
    }
}

/// How many of the server entries serve an agent in a role.
pub fn count_mcp_entries(servers: &Vec<(String, Json)>, role: &str, agent_name: &str) -> (out:
    usize)
    ensures
        out == serving_entries(json::entries_view(servers@), role@, agent_name@),
        out <= servers@.len(),
{
    let ghost all = json::entries_view(servers@);
    let mut count: usize = 0;
    let mut i: usize = 0;
    while i < servers.len()
        invariant
            i <= servers@.len(),
            all == json::entries_view(servers@),
            count <= i,
            count == serving_entries(all.take(i as int), role@, agent_name@),
        decreases servers@.len() - i,
    {
        assert(all.take(i + 1).drop_last() =~= all.take(i as int));
        assert(all.take(i + 1).last() == (servers@[i as int].0@, servers@[i as int].1@));
        let serves: bool = match servers[i].1.get("args") {
            Some(Json::List(items)) => {
                let args: Vec<String> = list_texts(items);
                has_flag_pair(&args, "--role", role) && has_flag_pair(
                    &args,
                    "--agent-name",
                    agent_name,
                )
            },
            _ => false,
        };
        if serves {
            count = count + 1;
        }
        i = i + 1;
    }
    assert(all.take(i as int) =~= all);
    count
}

// ------------------------------------------------------------------ server entries

/// Why an agent cannot be registered.
#[derive(Debug, Clone, PartialEq, Eq)]
pub enum RegisterError {
    Unreadable,
    RootNotObject,
    SectionNotObject,
    TooManyServers,
    UnsupportedRole(String),
    Unprintable,
}

/// The file that holds the server entries of an agent's client in a role: the
/// first agent has one for each role, among the files of its program.
pub open spec fn settings_file(agent: Agent, role: Seq<char>, program: Seq<char>) -> Seq<char> {
    match agent {
        Agent::ClaudeCode => "."@ + program + "/mcp-"@ + role + ".json"@,
        Agent::Codex => ".codex/config.toml"@,
        Agent::QwenCode => ".qwen/settings.json"@,
    }
}

/// The key under which that file holds the server entries.
pub open spec fn settings_section(agent: Agent) -> Seq<char> {
    match agent {
        Agent::Codex => "mcp_servers"@,
        _ => "mcpServers"@,
    }
}

/// The format of that file.
pub open spec fn settings_format(agent: Agent) -> Format {
    match agent {
        Agent::Codex => Format::Toml,
        _ => Format::Json,
    }
}

impl Agent {
    /// The file that holds the server entries of the agent's client in a role.
    pub fn file(&self, role: &str, program: &str) -> (out: String)
        ensures
            out@ == settings_file(*self, role@, program@),
    {
        match self {
            Agent::ClaudeCode => {
                let mut out: String = ".".to_owned();
                out.append(program);
                out.append("/mcp-");
                out.append(role);
                out.append(".json");
                out
            },
            Agent::Codex => ".codex/config.toml".to_owned(),
            Agent::QwenCode => ".qwen/settings.json".to_owned(),
        }
    }

    /// The key under which that file holds the server entries.
    pub fn section(&self) -> (out: &'static str)
        ensures
            out@ == settings_section(*self),
    {
        match self {
            Agent::Codex => "mcp_servers",
            _ => "mcpServers",
        }
    }
}

/// The message about a registration that failed.
pub open spec fn register_problem(
    error: RegisterError,
    agent: Agent,
    role: Seq<char>,
    program: Seq<char>,
) -> Seq<char> {
    let file = settings_file(agent, role, program);
    match error {
        RegisterError::Unreadable => "Failed to parse "@ + file,
        RegisterError::RootNotObject => file + " root is not a JSON object"@,
        RegisterError::SectionNotObject => file + " "@ + settings_section(agent)
            + if agent is Codex {
            " is not a table"@
        } else {
            " is not a JSON object"@
        },
        RegisterError::TooManyServers => file + " has too many server entries"@,
        RegisterError::UnsupportedRole(unknown) => "Unsupported role '"@ + unknown@ + "'"@,
        RegisterError::Unprintable => "Failed to write "@ + file,
    }
}

impl RegisterError {
    /// The message for the user.
    pub fn message(&self, agent: Agent, role: &str, program: &str) -> (out: String)
        ensures
            out@ == register_problem(*self, agent, role@, program@),
    {
        let file: String = agent.file(role, program);
        match self {
            RegisterError::Unreadable => {
                let mut out: String = "Failed to parse ".to_owned();
                out.append(file.as_str());
                out
            },
            RegisterError::RootNotObject => {
                let mut out: String = file;
                out.append(" root is not a JSON object");
                out
            },
            RegisterError::SectionNotObject => {
                let mut out: String = file;
                out.append(" ");
                out.append(agent.section());
                match agent {
                    Agent::Codex => out.append(" is not a table"),
                    _ => out.append(" is not a JSON object"),
                }
                out
            },
            RegisterError::TooManyServers => {
                let mut out: String = file;
                out.append(" has too many server entries");
                out
            },
            RegisterError::UnsupportedRole(unknown) => {
                let mut out: String = "Unsupported role '".to_owned();
                out.append(unknown.as_str());
                out.append("'");
                out
            },
            RegisterError::Unprintable => {
                let mut out: String = "Failed to write ".to_owned();
                out.append(file.as_str());
                out
            },
        }
    }
}

/// The server entry of an agent in a role.
pub fn config_entry(
    role: &str,
    agent: Agent,
    index: u32,
    model: Option<&str>,
    exe: &str,
    program: &str,
) -> (out: Result<McpConfigEntry, RegisterError>)
    ensures
        if role_is_known(role@) {
            out matches Ok(entry) && entry@ == agents::config_entry(
                agent_backend(agent),
                program@,
                agents::model_choice(text::opt_str_view(model)),
                role@,
                index,
                exe@,
            )
        } else {
            out matches Err(RegisterError::UnsupportedRole(r)) && r@ == role@
        },
{
    if !text::same(role, agent_id::ROLE_SUPERVISOR) && !text::same(role, agent_id::ROLE_EXECUTOR) {
        return Err(RegisterError::UnsupportedRole(role.to_owned()));
    }
    Ok(
        McpConfigEntry {
            command: exe.to_owned(),
            args: agents::serve_args(role, agent.name(program).as_str(), index),
            model: agents::normalized_model(model),
        },
    )
}

/// Whether a role is one that agents have.
pub open spec fn role_is_known(role: Seq<char>) -> bool {
    role == agent_id::ROLE_SUPERVISOR@ || role == agent_id::ROLE_EXECUTOR@
}

/// A server entry as it stands in a settings file.
pub open spec fn entry_json(entry: EntryView) -> Seq<(Seq<char>, JsonView)> {
    let base = json::set_key(
        json::set_key(Seq::empty(), "command"@, JsonView::Text(entry.command)),
        "args"@,
        json::texts_json(entry.args),
    );
    match entry.model {
        Some(model) => json::set_key(base, "model"@, JsonView::Text(model)),
        None => base,
    }
}

/// A server entry as it stands in an agent's settings file: for Codex, with the
/// tools of the role approved.
pub open spec fn agent_entry(agent: Agent, entry: EntryView, role: Seq<char>) -> Seq<
    (Seq<char>, JsonView),
> {
    if agent is Codex {
        agents::codex::with_approvals(entry_json(entry), role)
    } else {
        entry_json(entry)
    }
}

/// A server entry is a document of either format, and has no tool settings.
proof fn lemma_entry_json(entry: EntryView, format: Format)
    ensures
        json::is_of(JsonView::Object(entry_json(entry)), format),
        json::field(JsonView::Object(entry_json(entry)), "tools"@) is None,
{
    let none: Seq<(Seq<char>, JsonView)> = Seq::empty();
    let one = json::set_key(none, "command"@, JsonView::Text(entry.command));
    let two = json::set_key(one, "args"@, json::texts_json(entry.args));
    let items = entry.args.map_values(|s: Seq<char>| JsonView::Text(s));
    assert(json::is_of(JsonView::List(items), format)) by {
        assert(JsonView::List(items)->List_0 == items);
        assert forall|i: int| 0 <= i < items.len() implies json::is_of(
            #[trigger] items[i],
            format,
        ) by {
            assert(items[i] is Text);
        }
    }
    assert(json::is_of(JsonView::Object(none), format));
    json::lemma_set_key_format(none, "command"@, JsonView::Text(entry.command), format);
    json::lemma_set_key_format(one, "args"@, json::texts_json(entry.args), format);
    reveal_strlit("command");
    reveal_strlit("args");
    reveal_strlit("model");
    reveal_strlit("tools");
    assert("command"@.len() == 7);
    assert("args"@.len() == 4);
    assert("model"@[0] == 'm');
    assert("tools"@[0] == 't');
    assert("tools"@.len() == 5);
    json::law_set_key_is_local(none, "command"@, JsonView::Text(entry.command), "tools"@);
    json::law_set_key_is_local(one, "args"@, json::texts_json(entry.args), "tools"@);
    if let Some(model) = entry.model {
        json::lemma_set_key_format(two, "model"@, JsonView::Text(model), format);
        json::law_set_key_is_local(two, "model"@, JsonView::Text(model), "tools"@);
    }
}

/// Puts a server entry together.
fn build_entry(agent: Agent, entry: McpConfigEntry, role: &str) -> (out: Vec<(String, Json)>)
    ensures
        json::entries_view(out@) == agent_entry(agent, entry@, role@),
{
    let ghost shown = entry@;
    proof {
        lemma_entry_json(shown, Format::Toml);
    }
    let mut out: Vec<(String, Json)> = Vec::new();
    assert(json::entries_view(out@) =~= Seq::empty());
    let args: Json = json::json_texts(&entry.args);
    json::put_key(&mut out, "command", Json::Text(entry.command));
    json::put_key(&mut out, "args", args);
    if let Some(model) = entry.model {
        json::put_key(&mut out, "model", Json::Text(model));
    }
    assert(json::entries_view(out@) == entry_json(shown));
    match agent {
        Agent::Codex => {
            agents::codex::apply_tool_approval_overrides(role, &mut out);
        },
        _ => {},
    }
    out
}

/// A server entry of an agent is a document of the agent's format.
proof fn lemma_agent_entry_format(agent: Agent, entry: EntryView, role: Seq<char>)
    ensures
        json::is_of(JsonView::Object(agent_entry(agent, entry, role)), settings_format(agent)),
{
    lemma_entry_json(entry, settings_format(agent));
    if agent is Codex {
        let tools: Seq<(Seq<char>, JsonView)> = Seq::empty();
        assert(json::is_of(JsonView::Object(tools), Format::Toml));
        agents::codex::lemma_approve_all_format(tools, agents::codex::approved_tools(role));
        json::lemma_set_key_format(
            entry_json(entry),
            "tools"@,
            JsonView::Object(
                agents::codex::approve_all(tools, agents::codex::approved_tools(role)),
            ),
            Format::Toml,
        );
    }
}

/// The server entries of a settings document.
pub open spec fn servers(root: JsonView, agent: Agent) -> Result<
    Seq<(Seq<char>, JsonView)>,
    RegisterError,
> {
    if root is Object {
        match json::field(root, settings_section(agent)) {
            None => Ok(Seq::empty()),
            Some(JsonView::Object(entries)) => Ok(entries),
            Some(_) => Err(RegisterError::SectionNotObject),
        }
    } else {
        Err(RegisterError::RootNotObject)
    }
}

/// The number of the next server that serves an agent in a role: one more than
/// there are.
pub open spec fn next_index(
    entries: Seq<(Seq<char>, JsonView)>,
    role: Seq<char>,
    agent: Agent,
    program: Seq<char>,
) -> nat {
    serving_entries(entries, role, agents::backend_name(agent_backend(agent), program)) + 1
}

/// The settings document with one more server.
pub open spec fn with_server(
    root: JsonView,
    agent: Agent,
    role: Seq<char>,
    index: u32,
    entry: EntryView,
) -> JsonView {
    JsonView::Object(
        json::set_key(
            root->Object_0,
            settings_section(agent),
            JsonView::Object(
                json::set_key(
                    servers(root, agent)->Ok_0,
                    agent_id::server_name(role, index),
                    JsonView::Object(agent_entry(agent, entry, role)),
                ),
            ),
        ),
    )
}

/// A settings file with one more server.
#[derive(Debug, Clone, PartialEq, Eq)]
pub struct Registered {
    pub key: String,
    pub index: u32,
    pub content: String,
    pub message: String,
}

/// The message about a registration.
pub open spec fn registered_text(
    agent: Agent,
    role: Seq<char>,
    index: u32,
    program: Seq<char>,
) -> Seq<char> {
    "Registered "@ + agent_id::server_name(role, index) + " in "@ + settings_file(
        agent,
        role,
        program,
    )
        + " (agent_id will be \""@ + agent_id::agent_name(
        role,
        agents::backend_name(agent_backend(agent), program),
        index,
    ) + "\")"@
}

/// What registering an agent in a settings document comes to.
pub open spec fn registration(
    root: JsonView,
    agent: Agent,
    role: Seq<char>,
    model: Option<Seq<char>>,
    exe: Seq<char>,
    program: Seq<char>,
    out: Result<Registered, RegisterError>,
) -> bool {
    match servers(root, agent) {
        Err(error) => out == Err::<Registered, RegisterError>(error),
        Ok(entries) => {
            let index = next_index(entries, role, agent, program);
            if index > u32::MAX {
                out == Err::<Registered, RegisterError>(RegisterError::TooManyServers)
            } else if !role_is_known(role) {
                out matches Err(RegisterError::UnsupportedRole(r)) && r@ == role
            } else {
                let document = with_server(
                    root,
                    agent,
                    role,
                    index as u32,
                    agents::config_entry(
                        agent_backend(agent),
                        program,
                        agents::model_choice(model),
                        role,
                        index as u32,
                        exe,
                    ),
                );
                let content = if agent is Codex {
                    json::toml_text(document)
                } else {
                    Some(json::json_text(document))
                };
                match content {
                    None => out == Err::<Registered, RegisterError>(RegisterError::Unprintable),
                    Some(content) => out matches Ok(registered) && registered.index == index
                        && registered.key@ == agent_id::server_name(role, index as u32)
                        && registered.content@ == content && registered.message@
                        == registered_text(agent, role, index as u32, program) && (!(agent is Codex)
                        && json::reads_back(document) ==> json_settings(Some(content))
                        == document),
                }
            }
        },
    }
}

/// Registers an agent in a settings document.
fn register_in(
    root: Json,
    agent: Agent,
    role: &str,
    model: Option<&str>,
    exe: &str,
    program: &str,
) -> (out: Result<Registered, RegisterError>)
    requires
        json::is_of(root@, settings_format(agent)),
    ensures
        registration(root@, agent, role@, text::opt_str_view(model), exe@, program@, out),
{
    let ghost before = root@;
    let mut entries: Vec<(String, Json)> = match root {
        Json::Object(entries) => entries,
        _ => {
            return Err(RegisterError::RootNotObject);
        },
    };
    let ghost top = json::entries_view(entries@);
    assert(before == JsonView::Object(top));
    let at: usize = json::find_key(&entries, agent.section());
    if at < entries.len() {
        match &entries[at].1 {
            Json::Object(_) => {},
            _ => {
                return Err(RegisterError::SectionNotObject);
            },
        }
    }
    let mut listed: Vec<(String, Json)> = json::take_object(&mut entries, agent.section());
    let ghost inner = json::entries_view(listed@);
    assert(servers(before, agent) == Ok::<Seq<(Seq<char>, JsonView)>, RegisterError>(inner));
    proof {
        lemma_section_format(before, agent);
    }
    let name: String = agent.name(program);
    let count: usize = count_mcp_entries(&listed, role, name.as_str());
    if count >= 0xffff_ffff {
        return Err(RegisterError::TooManyServers);
    }
    let index: u32 = count as u32 + 1;
    let entry: McpConfigEntry = match config_entry(role, agent, index, model, exe, program) {
        Ok(entry) => entry,
        Err(error) => {
            return Err(error);
        },
    };
    let ghost shown = entry@;
    let key: String = agent_id::mcp_server_name(role, index);
    let built: Vec<(String, Json)> = build_entry(agent, entry, role);
    proof {
        lemma_agent_entry_format(agent, shown, role@);
        let value = JsonView::Object(agent_entry(agent, shown, role@));
        json::lemma_set_key_format(inner, key@, value, settings_format(agent));
        json::lemma_set_key_format(
            top,
            settings_section(agent),
            JsonView::Object(json::set_key(inner, key@, value)),
            settings_format(agent),
        );
    }
    json::put_key(&mut listed, key.as_str(), Json::Object(built));
    json::put_key(&mut entries, agent.section(), Json::Object(listed));
    let document: Json = Json::Object(entries);
    assert(document@ == with_server(before, agent, role@, index, shown));
    let content: String = match agent {
        Agent::Codex => match json::print_toml(document) {
            Some(content) => content,
            None => {
                return Err(RegisterError::Unprintable);
            },
        },
        _ => json::print_json(document),
    };
    let mut message: String = "Registered ".to_owned();
    message.append(key.as_str());
    message.append(" in ");
    message.append(agent.file(role, program).as_str());
    message.append(" (agent_id will be \"");
    message.append(agent_id::agent_id(role, name.as_str(), index).as_str());
    message.append("\")");
    Ok(Registered { key, index, content, message })
}

/// The section of a settings document is of the document's format.
proof fn lemma_section_format(root: JsonView, agent: Agent)
    requires
        json::is_of(root, settings_format(agent)),
        servers(root, agent) is Ok,
    ensures
        json::is_of(JsonView::Object(servers(root, agent)->Ok_0), settings_format(agent)),
{
    let entries = root->Object_0;
    let key = settings_section(agent);
    json::lemma_key_index(entries, key);
    let at = json::key_index(entries, key);
    if at < entries.len() {
        assert(json::is_of(entries[at].1, settings_format(agent)));
        assert(json::field(root, key) == Some(entries[at].1));
    } else {
        assert(json::is_of(
            JsonView::Object(Seq::<(Seq<char>, JsonView)>::empty()),
            settings_format(agent),
        ));
    }
}

/// The document of a JSON settings file: an empty object where there is no
/// file, or one that is not JSON.
pub open spec fn json_settings(content: Option<Seq<char>>) -> JsonView {
    match content {
        Some(text) => match json::json_document(text) {
            Some(root) => root,
            None => JsonView::Object(Seq::empty()),
        },
        None => JsonView::Object(Seq::empty()),
    }
}

/// The document of a JSON settings file.
fn read_json_settings(content: Option<&str>) -> (out: Json)
    ensures
        out@ == json_settings(text::opt_str_view(content)),
        json::is_of(out@, Format::Json),
{
    match content {
        Some(text) => match json::parse_json(text) {
            Some(root) => root,
            None => json::empty_object(),
        },
        None => json::empty_object(),
    }
}

/// Registers the first agent in the settings file of `content`.
pub fn register_claude_code(
    content: Option<&str>,
    role: &str,
    model: Option<&str>,
    exe: &str,
    program: &str,
) -> (out: Result<Registered, RegisterError>)
    ensures
        registration(
            json_settings(text::opt_str_view(content)),
            Agent::ClaudeCode,
            role@,
            text::opt_str_view(model),
            exe@,
            program@,
            out,
        ),
{
    register_in(read_json_settings(content), Agent::ClaudeCode, role, model, exe, program)
}

/// Registers Qwen Code in the settings file of `content`.
pub fn register_qwen_code(
    content: Option<&str>,
    role: &str,
    model: Option<&str>,
    exe: &str,
    program: &str,
) -> (out: Result<Registered, RegisterError>)
    ensures
        registration(
            json_settings(text::opt_str_view(content)),
            Agent::QwenCode,
            role@,
            text::opt_str_view(model),
            exe@,
            program@,
            out,
        ),
{
    register_in(read_json_settings(content), Agent::QwenCode, role, model, exe, program)
}

/// The document of a TOML settings file; an empty table where there is no file.
pub open spec fn toml_settings(content: Option<Seq<char>>) -> Option<JsonView> {
    match content {
        Some(text) => json::toml_document(text),
        None => Some(JsonView::Object(Seq::empty())),
    }
}

/// Registers Codex in the settings file of `content`.
pub fn register_codex(
    content: Option<&str>,
    role: &str,
    model: Option<&str>,
    exe: &str,
    program: &str,
) -> (out: Result<Registered, RegisterError>)
    ensures
        match toml_settings(text::opt_str_view(content)) {
            None => out == Err::<Registered, RegisterError>(RegisterError::Unreadable),
            Some(root) => registration(
                root,
                Agent::Codex,
                role@,
                text::opt_str_view(model),
                exe@,
                program@,
                out,
            ),
        },
{
    let root: Json = match content {
        Some(text) => match json::parse_toml(text) {
            Some(root) => root,
            None => {
                return Err(RegisterError::Unreadable);
            },
        },
        None => json::empty_object(),
    };
    register_in(root, Agent::Codex, role, model, exe, program)
}

/// Registers an agent in the settings file of `content`.
pub fn register_role(
    agent: Agent,
    content: Option<&str>,
    role: &str,
    model: Option<&str>,
    exe: &str,
    program: &str,
) -> (out: Result<Registered, RegisterError>)
    ensures
        match agent {
            Agent::Codex => match toml_settings(text::opt_str_view(content)) {
                None => out == Err::<Registered, RegisterError>(RegisterError::Unreadable),
                Some(root) => registration(
                    root,
                    agent,
                    role@,
                    text::opt_str_view(model),
                    exe@,
                    program@,
                    out,
                ),
            },
            _ => registration(
                json_settings(text::opt_str_view(content)),
                agent,
                role@,
                text::opt_str_view(model),
                exe@,
                program@,
                out,
            ),
        },
{
    match agent {
        Agent::ClaudeCode => register_claude_code(content, role, model, exe, program),
        Agent::Codex => register_codex(content, role, model, exe, program),
        Agent::QwenCode => register_qwen_code(content, role, model, exe, program),
    }
}

/// Registering an agent leaves the other servers and the other settings as they
/// were, and its own entry serves it.
pub proof fn law_registration_is_local(
    root: JsonView,
    agent: Agent,
    role: Seq<char>,
    index: u32,
    entry: EntryView,
    other: Seq<char>,
)
    requires
        servers(root, agent) is Ok,
    ensures
        other != settings_section(agent) ==> json::field(
            with_server(root, agent, role, index, entry),
            other,
        ) == json::field(root, other),
        other != agent_id::server_name(role, index) ==> json::field(
            JsonView::Object(servers(with_server(root, agent, role, index, entry), agent)->Ok_0),
            other,
        ) == json::field(JsonView::Object(servers(root, agent)->Ok_0), other),
        json::field(
            JsonView::Object(servers(with_server(root, agent, role, index, entry), agent)->Ok_0),
            agent_id::server_name(role, index),
        ) == Some(JsonView::Object(agent_entry(agent, entry, role))),
{
    let top = root->Object_0;
    let inner = servers(root, agent)->Ok_0;
    let key = agent_id::server_name(role, index);
    let value = JsonView::Object(agent_entry(agent, entry, role));
    let section = JsonView::Object(json::set_key(inner, key, value));
    assert(root == JsonView::Object(top));
    json::law_set_key_is_found(top, settings_section(agent), section);
    json::law_set_key_is_found(inner, key, value);
    if other != settings_section(agent) {
        json::law_set_key_is_local(top, settings_section(agent), section, other);
    }
    if other != key {
        json::law_set_key_is_local(inner, key, value, other);
    }
}

/// A list of texts holds those texts.
proof fn lemma_texts_of(list: Seq<Seq<char>>)
    ensures
        texts_of(list.map_values(|t: Seq<char>| JsonView::Text(t))) == list,
    decreases list.len(),
{
    let items = list.map_values(|t: Seq<char>| JsonView::Text(t));
    if list.len() > 0 {
        let front = list.drop_last();
        lemma_texts_of(front);
        assert(items.drop_last() =~= front.map_values(|t: Seq<char>| JsonView::Text(t)));
        assert(front.push(list.last()) =~= list);
    }
}

/// An entry that serves an agent counts once, wherever it is put in.
proof fn lemma_serving_insert(
    entries: Seq<(Seq<char>, JsonView)>,
    at: int,
    entry: (Seq<char>, JsonView),
    role: Seq<char>,
    agent: Seq<char>,
)
    requires
        0 <= at <= entries.len(),
        entry_serves(entry.1, role, agent),
    ensures
        serving_entries(entries.insert(at, entry), role, agent) == serving_entries(
            entries,
            role,
            agent,
        ) + 1,
    decreases entries.len(),
{
    let after = entries.insert(at, entry);
    if at == entries.len() {
        assert(after.drop_last() =~= entries);
    } else {
        lemma_serving_insert(entries.drop_last(), at, entry, role, agent);
        assert(after.drop_last() =~= entries.drop_last().insert(at, entry));
        assert(after.last() == entries.last());
    }
}

/// The entry with which an agent is registered serves it in its role.
proof fn lemma_entry_serves(
    agent: Agent,
    role: Seq<char>,
    name: Seq<char>,
    index: u32,
    entry: EntryView,
)
    requires
        entry.args == agents::serve_arguments(role, name, index),
    ensures
        entry_serves(JsonView::Object(agent_entry(agent, entry, role)), role, name),
{
    let args = entry.args;
    let list = json::texts_json(args);
    let one = json::set_key(Seq::empty(), "command"@, JsonView::Text(entry.command));
    let two = json::set_key(one, "args"@, list);
    json::law_set_key_is_found(one, "args"@, list);
    lemma_keys_differ();
    if let Some(model) = entry.model {
        json::law_set_key_is_local(two, "model"@, JsonView::Text(model), "args"@);
    }
    if agent is Codex {
        let base = entry_json(entry);
        let tools = json::object_entries(json::field(JsonView::Object(base), "tools"@));
        json::law_set_key_is_local(
            base,
            "tools"@,
            JsonView::Object(
                agents::codex::approve_all(tools, agents::codex::approved_tools(role)),
            ),
            "args"@,
        );
    }
    lemma_texts_of(args);
    assert(pair_at(args, "--role"@, role, 1));
    assert(pair_at(args, "--agent-name"@, name, 3));
}

/// The keys of a server entry are different ones.
proof fn lemma_keys_differ()
    ensures
        "args"@ != "model"@,
        "args"@ != "tools"@,
{
    reveal_strlit("args");
    reveal_strlit("model");
    reveal_strlit("tools");
    assert("args"@[0] == 'a');
    assert("model"@[0] == 'm');
    assert("tools"@[0] == 't');
}

/// Registrations count on: where the key of a new server was free, the next
/// agent of the same kind in the same role gets the next number.
pub proof fn law_registrations_count_on(
    root: JsonView,
    agent: Agent,
    role: Seq<char>,
    model: Option<Seq<char>>,
    index: u32,
    exe: Seq<char>,
    program: Seq<char>,
)
    requires
        servers(root, agent) is Ok,
        index == next_index(servers(root, agent)->Ok_0, role, agent, program),
        json::field(
            JsonView::Object(servers(root, agent)->Ok_0),
            agent_id::server_name(role, index),
        ) is None,
    ensures
        ({
            let entry = agents::config_entry(
                agent_backend(agent),
                program,
                model,
                role,
                index,
                exe,
            );
            let after = with_server(root, agent, role, index, entry);
            &&& servers(after, agent) is Ok
            &&& next_index(servers(after, agent)->Ok_0, role, agent, program) == index + 1
        }),
{
    let name = agents::backend_name(agent_backend(agent), program);
    let entry = agents::config_entry(agent_backend(agent), program, model, role, index, exe);
    let inner = servers(root, agent)->Ok_0;
    let key = agent_id::server_name(role, index);
    let value = JsonView::Object(agent_entry(agent, entry, role));
    let top = root->Object_0;
    json::law_set_key_is_found(
        top,
        settings_section(agent),
        JsonView::Object(json::set_key(inner, key, value)),
    );
    lemma_entry_serves(agent, role, name, index, entry);
    json::lemma_key_index(inner, key);
    json::lemma_slot(inner, key);
    lemma_serving_insert(inner, json::slot(inner, key), (key, value), role, name);
}

// ------------------------------------------------------------------ ignored files

/// The text so far, ready for a line to follow it.
pub open spec fn line_start(contents: Seq<char>) -> Seq<char> {
    if contents.len() > 0 && contents.last() != '\n' {
        contents.push('\n')
    } else {
        contents
    }
}

/// A list of ignored files with one more entry at its end.
pub open spec fn with_ignored(contents: Seq<char>, entry: Seq<char>) -> Seq<char> {
    (line_start(contents) + entry).push('\n')
}

/// A list of ignored files with the entries that it lacks, and those.
pub open spec fn ignore_all(contents: Seq<char>, entries: Seq<Seq<char>>) -> (
    Seq<char>,
    Seq<Seq<char>>,
)
    decreases entries.len(),
{
    if entries.len() == 0 {
        (contents, Seq::empty())
    } else {
        let before = ignore_all(contents, entries.drop_last());
        if text::lines(before.0).contains(entries.last()) {
            before
        } else {
            (with_ignored(before.0, entries.last()), before.1.push(entries.last()))
        }
    }
}

/// A list of ignored files after an update.
#[derive(Debug, Clone, PartialEq, Eq)]
pub struct IgnoreUpdate {
    pub contents: String,
    pub added: Vec<String>,
}

/// Adds the entries that a list of ignored files lacks.
pub fn update_gitignore(contents: &str, entries: &Vec<String>) -> (out: IgnoreUpdate)
    ensures
        (out.contents@, text::views(out.added@)) == ignore_all(
            contents@,
            text::views(entries@),
        ),
{
    let ghost all = text::views(entries@);
    let mut now: String = contents.to_owned();
    let mut added: Vec<String> = Vec::new();
    assert(text::views(added@) =~= Seq::empty());
    let mut i: usize = 0;
    while i < entries.len()
        invariant
            i <= entries@.len(),
            all == text::views(entries@),
            (now@, text::views(added@)) == ignore_all(contents@, all.take(i as int)),
        decreases entries@.len() - i,
    {
        assert(all.take(i + 1).drop_last() =~= all.take(i as int));
        assert(all.take(i + 1).last() == entries@[i as int]@);
        let lines: Vec<String> = text::line_strings(now.as_str());
        if !text::list_contains(&lines, entries[i].as_str()) {
            let ghost before = now@;
            if ends_open(now.as_str()) {
                now.push('\n');
            }
            now.append(entries[i].as_str());
            now.push('\n');
            assert(now@ =~= with_ignored(before, entries@[i as int]@));
            text::add_text(&mut added, entries[i].as_str());
        }
        i = i + 1;
    }
    assert(all.take(i as int) =~= all);
    IgnoreUpdate { contents: now, added }
}

/// Whether a text has a last line without a line feed.
fn ends_open(contents: &str) -> (out: bool)
    ensures
        out == (contents@.len() > 0 && contents@.last() != '\n'),
{
    let chars: Vec<char> = text::chars_of(contents);
    chars.len() > 0 && chars[chars.len() - 1] != '\n'
}

/// Whether an entry can stand on a line of its own.
pub open spec fn is_line(entry: Seq<char>) -> bool {
    !entry.contains('\n') && (entry.len() > 0 ==> entry.last() != '\r')
}

/// Ending the last line of a text keeps its lines, but for a carriage return at
/// the end of the last.
proof fn lemma_ended_lines(contents: Seq<char>)
    ensures
        forall|line: Seq<char>|
            is_line(line) && #[trigger] text::lines(contents).contains(line) ==> text::lines(
                line_start(contents),
            ).contains(line),
        contents.len() == 0 || contents.last() != '\r' ==> text::lines(line_start(contents))
            == text::lines(contents),
{
    if contents.len() > 0 && contents.last() != '\n' {
        let start = line_start(contents);
        let pieces = text::split(contents, '\n');
        assert(start.drop_last() =~= contents);
        lemma_last_piece(contents);
        assert(text::split(start, '\n') == pieces.push(Seq::empty()));
        assert(pieces.push(Seq::empty()).drop_last() =~= pieces);
        let f = |l: Seq<char>| text::without_cr(l);
        let before = text::lines(contents);
        let after = text::lines(start);
        assert(after =~= pieces.map_values(f));
        assert(before =~= pieces.drop_last().map_values(f).push(pieces.last()));
        assert forall|line: Seq<char>| is_line(line) && #[trigger] before.contains(line) implies
            after.contains(line) by {
            let k = choose|k: int| 0 <= k < before.len() && before[k] == line;
            if k < pieces.len() - 1 {
                assert(before[k] == text::without_cr(pieces[k]));
            }
            assert(after[k] == line);
        }
        if contents.last() != '\r' {
            assert(after =~= before);
        }
    }
}

/// An entry at the end of a list of ignored files is its last line.
proof fn lemma_ignored_lines(contents: Seq<char>, entry: Seq<char>)
    requires
        is_line(entry),
    ensures
        text::lines(with_ignored(contents, entry)) == text::lines(line_start(contents)).push(entry),
        line_start(with_ignored(contents, entry)) == with_ignored(contents, entry),
        contents.is_prefix_of(with_ignored(contents, entry)),
{
    let start = line_start(contents);
    let after = with_ignored(contents, entry);
    let last: Seq<char> = Seq::empty();
    let f = |l: Seq<char>| text::without_cr(l);
    assert(after.drop_last() =~= start + entry);
    assert(contents =~= after.take(contents.len() as int));
    if start.len() == 0 {
        assert(start + entry =~= entry);
        text::lemma_split_plain(entry, '\n');
        assert(text::split(after, '\n') =~= seq![entry, last]);
        assert(text::split(after, '\n').drop_last() =~= seq![entry]);
        assert(text::split(start, '\n') =~= seq![last]);
        assert(text::lines(start) =~= Seq::empty());
        assert(text::lines(after) =~= seq![entry]);
        assert(text::lines(after) =~= text::lines(start).push(entry));
    } else {
        let a = start.drop_last();
        assert(start =~= a.push('\n'));
        text::lemma_split_after(a, entry, '\n');
        text::lemma_split_nonempty(a, '\n');
        let pieces = text::split(a, '\n');
        assert(text::split(start, '\n') == pieces.push(last));
        assert(pieces.push(last).drop_last() =~= pieces);
        assert(text::lines(start) =~= pieces.map_values(f));
        assert(text::split(after, '\n') == pieces.push(entry).push(last));
        assert(text::split(after, '\n').drop_last() =~= pieces.push(entry));
        assert(text::lines(after) =~= pieces.push(entry).map_values(f));
        assert(text::lines(after) =~= text::lines(start).push(entry));
    }
}

/// The last piece of a text that does not end a line ends as the text does.
proof fn lemma_last_piece(s: Seq<char>)
    requires
        s.len() > 0,
        s.last() != '\n',
    ensures
        text::split(s, '\n').len() > 0,
        text::split(s, '\n').last().len() > 0,
        text::split(s, '\n').last().last() == s.last(),
{
    text::lemma_split_nonempty(s.drop_last(), '\n');
}

/// What an update of a list of ignored files does to its lines.
proof fn lemma_ignore_all(contents: Seq<char>, entries: Seq<Seq<char>>)
    requires
        forall|i: int| 0 <= i < entries.len() ==> is_line(#[trigger] entries[i]),
    ensures
        ({
            let after = ignore_all(contents, entries);
            let ended = text::lines(line_start(contents));
            &&& contents.is_prefix_of(after.0)
            &&& after.1.len() == 0 ==> after.0 == contents
            &&& after.1.len() > 0 ==> text::lines(after.0) == ended + after.1 && line_start(after.0)
                == after.0
            &&& after.1.no_duplicates()
            &&& forall|i: int|
                0 <= i < after.1.len() ==> entries.contains(#[trigger] after.1[i])
                    && !text::lines(contents).contains(after.1[i])
            &&& forall|i: int|
                0 <= i < entries.len() ==> text::lines(after.0).contains(#[trigger] entries[i])
            &&& forall|i: int|
                0 <= i < entries.len() && !text::lines(contents).contains(entries[i])
                    && !ended.contains(entries[i]) ==> after.1.contains(#[trigger] entries[i])
        }),
    decreases entries.len(),
{
    lemma_ended_lines(contents);
    if entries.len() > 0 {
        let front = entries.drop_last();
        let entry = entries.last();
        assert forall|i: int| 0 <= i < front.len() implies is_line(#[trigger] front[i]) by {
            assert(front[i] == entries[i]);
        }
        lemma_ignore_all(contents, front);
        let before = ignore_all(contents, front);
        let after = ignore_all(contents, entries);
        let ended = text::lines(line_start(contents));
        assert(is_line(entries[entries.len() - 1]));
        lemma_ignored_lines(before.0, entry);
        lemma_ended_lines(before.0);
        let added = !text::lines(before.0).contains(entry);
        if added {
            assert(after.1 == before.1.push(entry));
            assert(after.1[after.1.len() - 1] == entry);
            assert(contents.is_prefix_of(after.0)) by {
                assert(after.0.take(contents.len() as int) =~= before.0.take(
                    contents.len() as int,
                ));
            }
            if before.1.len() == 0 {
                assert(text::lines(after.0) =~= ended + after.1);
            } else {
                assert(text::lines(after.0) =~= ended + after.1);
                assert forall|k: int| 0 <= k < before.1.len() implies before.1[k] != entry by {
                    assert((ended + before.1)[ended.len() + k] == before.1[k]);
                }
                assert(!ended.contains(entry)) by {
                    if ended.contains(entry) {
                        let k = choose|k: int| 0 <= k < ended.len() && ended[k] == entry;
                        assert((ended + before.1)[k] == entry);
                    }
                }
            }
            assert(text::lines(after.0)[text::lines(after.0).len() - 1] == entry);
        }
        assert forall|i: int| 0 <= i < after.1.len() implies entries.contains(
            #[trigger] after.1[i],
        ) && !text::lines(contents).contains(after.1[i]) by {
            if i < before.1.len() {
                assert(after.1[i] == before.1[i]);
                let k = choose|k: int| 0 <= k < front.len() && front[k] == before.1[i];
                assert(entries[k] == after.1[i]);
            } else {
                assert(entries[entries.len() - 1] == after.1[i]);
            }
        }
        assert forall|i: int| 0 <= i < entries.len() implies text::lines(after.0).contains(
            #[trigger] entries[i],
        ) by {
            if i < front.len() {
                let line = entries[i];
                assert(front[i] == line);
                assert(text::lines(before.0).contains(line));
                if added {
                    let open = text::lines(line_start(before.0));
                    assert(open.contains(line));
                    let k = choose|k: int| 0 <= k < open.len() && open[k] == line;
                    assert(open.push(entry)[k] == line);
                }
            }
        }
        assert forall|i: int|
            0 <= i < entries.len() && !text::lines(contents).contains(entries[i])
                && !ended.contains(entries[i]) implies after.1.contains(#[trigger] entries[i]) by {
            let line = entries[i];
            if i < front.len() {
                assert(front[i] == line);
                let k = choose|k: int| 0 <= k < before.1.len() && before.1[k] == line;
                assert(after.1[k] == line);
            } else if !added {
                if before.1.len() > 0 {
                    let k = choose|k: int|
                        0 <= k < (ended + before.1).len() && (ended + before.1)[k] == line;
                    if k < ended.len() {
                        assert(ended[k] == line);
                    }
                    assert(before.1[k - ended.len()] == line);
                }
            }
        }
    } else {
        assert(contents =~= contents.take(contents.len() as int));
    }
}

proof fn lemma_ignore_none(contents: Seq<char>, entries: Seq<Seq<char>>)
    requires
        forall|i: int|
            0 <= i < entries.len() ==> text::lines(contents).contains(#[trigger] entries[i]),
    ensures
        ignore_all(contents, entries) == (contents, Seq::<Seq<char>>::empty()),
    decreases entries.len(),
{
    if entries.len() > 0 {
        let front = entries.drop_last();
        assert forall|i: int| 0 <= i < front.len() implies text::lines(contents).contains(
            #[trigger] front[i],
        ) by {
            assert(front[i] == entries[i]);
        }
        lemma_ignore_none(contents, front);
        assert(text::lines(contents).contains(entries[entries.len() - 1]));
    }
}

/// An update of a list of ignored files keeps its contents in front, and every
/// entry is a line of the list after it. What is added follows the lines that
/// were there, each entry on a line of its own and no entry twice; no entry that
/// was a line is added. An entry that was not a line is added, unless ending the
/// last line made it one: that happens only to a last line with a carriage return
/// at its end. A second update with the same entries changes nothing.
pub proof fn law_ignored_once(contents: Seq<char>, entries: Seq<Seq<char>>)
    requires
        forall|i: int| 0 <= i < entries.len() ==> is_line(#[trigger] entries[i]),
    ensures
        ({
            let after = ignore_all(contents, entries);
            let ended = text::lines(line_start(contents));
            &&& contents.is_prefix_of(after.0)
            &&& forall|i: int|
                0 <= i < entries.len() ==> text::lines(after.0).contains(#[trigger] entries[i])
            &&& if after.1.len() == 0 {
                after.0 == contents
            } else {
                text::lines(after.0) == ended + after.1
            }
            &&& after.1.no_duplicates()
            &&& forall|i: int|
                0 <= i < after.1.len() ==> entries.contains(#[trigger] after.1[i])
                    && !text::lines(contents).contains(after.1[i])
            &&& forall|i: int|
                0 <= i < entries.len() && !text::lines(contents).contains(entries[i])
                    && !ended.contains(entries[i]) ==> after.1.contains(#[trigger] entries[i])
            &&& contents.len() == 0 || contents.last() != '\r' ==> ended == text::lines(contents)
            &&& ignore_all(after.0, entries) == (after.0, Seq::<Seq<char>>::empty())
        }),
{
    lemma_ignore_all(contents, entries);
    lemma_ended_lines(contents);
    lemma_ignore_none(ignore_all(contents, entries).0, entries);
}

/// The settings that the first agent keeps for one user.
pub open spec fn local_settings(program: Seq<char>) -> Seq<char> {
    "."@ + program + "/settings.local.json"@
}

/// The settings that the first agent keeps for one user.
pub fn local_settings_file(program: &str) -> (out: String)
    ensures
        out@ == local_settings(program@),
{
    let mut out: String = ".".to_owned();
    out.append(program);
    out.append("/settings.local.json");
    out
}

/// The files to be ignored once an agent is registered in a role.
pub open spec fn ignored_files(agent: Agent, role: Seq<char>, program: Seq<char>) -> Seq<
    Seq<char>,
> {
    match agent {
        Agent::ClaudeCode => seq![settings_file(agent, role, program), local_settings(program)],
        Agent::Codex => seq![settings_file(agent, role, program)],
        Agent::QwenCode => seq![".qwen/settings.local.json"@],
    }
}

impl Agent {
    /// The files to be ignored once the agent is registered in a role.
    pub fn ignored(&self, role: &str, program: &str) -> (out: Vec<String>)
        ensures
            text::views(out@) == ignored_files(*self, role@, program@),
    {
        let mut out: Vec<String> = Vec::new();
        match self {
            Agent::ClaudeCode => {
                text::add_text(&mut out, self.file(role, program).as_str());
                text::add_text(&mut out, local_settings_file(program).as_str());
            },
            Agent::Codex => text::add_text(&mut out, self.file(role, program).as_str()),
            Agent::QwenCode => text::add_text(&mut out, ".qwen/settings.local.json"),
        }
        assert(text::views(out@) =~= ignored_files(*self, role@, program@));
        out
    }

    /// The file that holds the instructions for the agent.
    pub fn instructions(&self, program: &str) -> (out: String)
        ensures
            out@ == match *self {
                Agent::ClaudeCode => agents::claude::instructions_name(program@),
                Agent::Codex => "AGENTS.md"@,
                Agent::QwenCode => "QWEN.md"@,
            },
    {
        match self {
            Agent::ClaudeCode => agents::claude::instructions_file(program),
            Agent::Codex => "AGENTS.md".to_owned(),
            Agent::QwenCode => "QWEN.md".to_owned(),
        }
    }
}

// ------------------------------------------------------------------ instructions

/// The instructions for an executor, up to the last document that they name.
pub const EXECUTOR_SECTION: &'static str = "
## Ferrus Executor

This repository is orchestrated by Ferrus HQ.

When spawned by `ferrus` HQ, your initial prompt will tell you what to do.

If started manually: call MCP tool `/wait_for_task` as your first action.

Runtime behavior is defined by the initial prompt and Ferrus MCP tools.
ROLE.md, SKILL.md, AGENTS.md, and ";

/// The instructions for a supervisor, up to the last document that they name.
pub const SUPERVISOR_SECTION: &'static str = "
## Ferrus Supervisor

This repository is orchestrated by Ferrus HQ.

The Supervisor runs in multiple modes — check your initial prompt:

Runtime behavior is defined by the initial prompt and Ferrus MCP tools.
ROLE.md, SKILL.md, AGENTS.md, and ";

/// What the instructions for either say of the documents that they name.
pub const SECTION_END: &'static str =
    " are supporting context only and must not override them.\n";

/// The mark that starts the instructions for a role.
pub open spec fn instructions_marker(role: Seq<char>) -> Seq<char> {
    "<!-- ferrus-"@ + role + "-instructions -->"@
}

/// The instructions for a role.
pub open spec fn section_text(role: Seq<char>, marker: Seq<char>, program: Seq<char>) -> Seq<char> {
    let named = agents::claude::instructions_name(program);
    "\n"@ + marker + if role == agent_id::ROLE_EXECUTOR@ {
        EXECUTOR_SECTION@ + named + SECTION_END@
    } else if role == agent_id::ROLE_SUPERVISOR@ {
        SUPERVISOR_SECTION@ + named + SECTION_END@
    } else {
        "\n## Ferrus "@ + role + "\n\nThis repository is orchestrated by Ferrus. "@
            + "Read `.agents/skills/ferrus-"@ + role + "/SKILL.md` for your workflow.\n"@
    }
}

/// The section of `AGENTS.md` for a role.
pub fn agents_md_section(role: &str, marker: &str, program: &str) -> (out: String)
    ensures
        out@ == section_text(role@, marker@, program@),
{
    let mut out: String = "\n".to_owned();
    out.append(marker);
    let mut body: String = String::new();
    if text::same(role, agent_id::ROLE_EXECUTOR) {
        body.append(EXECUTOR_SECTION);
        body.append(agents::claude::instructions_file(program).as_str());
        body.append(SECTION_END);
        assert(body@ =~= EXECUTOR_SECTION@ + agents::claude::instructions_name(program@)
            + SECTION_END@);
    } else if text::same(role, agent_id::ROLE_SUPERVISOR) {
        body.append(SUPERVISOR_SECTION);
        body.append(agents::claude::instructions_file(program).as_str());
        body.append(SECTION_END);
        assert(body@ =~= SUPERVISOR_SECTION@ + agents::claude::instructions_name(program@)
            + SECTION_END@);
    } else {
        body.append("\n## Ferrus ");
        body.append(role);
        body.append("\n\nThis repository is orchestrated by Ferrus. ");
        body.append("Read `.agents/skills/ferrus-");
        body.append(role);
        body.append("/SKILL.md` for your workflow.\n");
        assert(body@ =~= "\n## Ferrus "@ + role@
            + "\n\nThis repository is orchestrated by Ferrus. "@
            + "Read `.agents/skills/ferrus-"@ + role@ + "/SKILL.md` for your workflow.\n"@);
    }
    out.append(body.as_str());
    out
}

/// The section of the other files of instructions for a role.
pub fn claude_md_section(role: &str, marker: &str, program: &str) -> (out: String)
    ensures
        out@ == section_text(role@, marker@, program@),
{
    agents_md_section(role, marker, program)
}

/// A file of instructions with those for a role; none where it has them.
pub open spec fn with_instructions(
    existing: Seq<char>,
    role: Seq<char>,
    program: Seq<char>,
) -> Option<Seq<char>> {
    if text::occurs(existing, instructions_marker(role)) {
        None
    } else {
        Some(existing + section_text(role, instructions_marker(role), program))
    }
}

/// Appends the instructions for a role to a file that lacks them.
pub fn append_instructions(existing: &str, role: &str, program: &str) -> (out: Option<String>)
    ensures
        text::opt_view(out) == with_instructions(existing@, role@, program@),
{
    let mut marker: String = "<!-- ferrus-".to_owned();
    marker.append(role);
    marker.append("-instructions -->");
    if text::contains(existing, marker.as_str()) {
        return None;
    }
    let mut out: String = existing.to_owned();
    out.append(agents_md_section(role, marker.as_str(), program).as_str());
    Some(out)
}

/// Instructions that were appended are there: they are not appended again.
pub proof fn law_instructions_once(existing: Seq<char>, role: Seq<char>, program: Seq<char>)
    requires
        with_instructions(existing, role, program) is Some,
    ensures
        with_instructions(with_instructions(existing, role, program)->0, role, program) is None,
{
    let marker = instructions_marker(role);
    let after = with_instructions(existing, role, program)->0;
    reveal_strlit("\n");
    let at: int = existing.len() + 1int;
    assert(after.subrange(at, at + marker.len()) =~= marker);
    assert(text::occurs_at(after, marker, at));
}

// ------------------------------------------------------------------ laws of registering

/// What is registered: a role for each agent that is named, the supervisor before the
/// executor, each with its own model. A model without its agent is refused.
pub proof fn law_each_role_gets_its_agent(
    supervisor: Option<Agent>,
    supervisor_model: Option<Seq<char>>,
    executor: Option<Agent>,
    executor_model: Option<Seq<char>>,
)
    ensures
        ({
            let out = registrations(supervisor, supervisor_model, executor, executor_model);
            &&& supervisor is None && supervisor_model is Some ==> out == Err::<
                Seq<RoleView>,
                ArgsError,
            >(ArgsError::SupervisorModelAlone)
            &&& !(supervisor is None && supervisor_model is Some) && executor is None
                && executor_model is Some ==> out == Err::<Seq<RoleView>, ArgsError>(
                ArgsError::ExecutorModelAlone,
            )
            &&& out matches Ok(list) ==> {
                &&& list.len() == (if supervisor is Some {
                    1int
                } else {
                    0
                }) + (if executor is Some {
                    1int
                } else {
                    0
                })
                &&& supervisor is Some ==> list[0] == (RoleView {
                    role: "supervisor"@,
                    agent: supervisor->0,
                    model: supervisor_model,
                })
                &&& executor is Some ==> list.last() == (RoleView {
                    role: "executor"@,
                    agent: executor->0,
                    model: executor_model,
                })
            }
            &&& out is Err ==> (supervisor is None && supervisor_model is Some) || (executor is None
                && executor_model is Some)
        }),
{
}

/// Where the server entries of an agent stand, under which key, and what is ignored and read
/// besides: the first agent has a file for each role among those of its program.
pub proof fn law_agents_have_their_own_files(role: Seq<char>, program: Seq<char>)
    ensures
        settings_file(Agent::ClaudeCode, role, program) == "."@ + program + "/mcp-"@ + role
            + ".json"@,
        settings_file(Agent::Codex, role, program) == ".codex/config.toml"@,
        settings_file(Agent::QwenCode, role, program) == ".qwen/settings.json"@,
        settings_section(Agent::ClaudeCode) == "mcpServers"@,
        settings_section(Agent::Codex) == "mcp_servers"@,
        settings_section(Agent::QwenCode) == "mcpServers"@,
        local_settings(program) == "."@ + program + "/settings.local.json"@,
        ignored_files(Agent::ClaudeCode, role, program) == seq![
            "."@ + program + "/mcp-"@ + role + ".json"@,
            "."@ + program + "/settings.local.json"@,
        ],
        ignored_files(Agent::Codex, role, program) == seq![".codex/config.toml"@],
        ignored_files(Agent::QwenCode, role, program) == seq![".qwen/settings.local.json"@],
{
}

proof fn lemma_serving_counts(
    entries: Seq<(Seq<char>, JsonView)>,
    role: Seq<char>,
    agent: Seq<char>,
)
    ensures
        serving_entries(entries, role, agent) == entries.filter(
            |e: (Seq<char>, JsonView)| entry_serves(e.1, role, agent),
        ).len(),
    decreases entries.len(),
{
    reveal(Seq::filter);
    if entries.len() > 0 {
        lemma_serving_counts(entries.drop_last(), role, agent);
    }
}

/// The number of a new server is one more than there are entries that serve the same agent
/// in the same role. An entry does so if its arguments are a list in which the role and the
/// name of the agent each stand behind their flag.
pub proof fn law_servers_are_numbered(
    entries: Seq<(Seq<char>, JsonView)>,
    role: Seq<char>,
    agent: Agent,
    program: Seq<char>,
    args: Seq<Seq<char>>,
    entry: JsonView,
)
    ensures
        ({
            let name = match agent {
                Agent::ClaudeCode => program + "-code"@,
                Agent::Codex => "codex"@,
                Agent::QwenCode => "qwen-code"@,
            };
            &&& next_index(entries, role, agent, program) == 1 + entries.filter(
                |e: (Seq<char>, JsonView)| entry_serves(e.1, role, name),
            ).len()
            &&& json::field(entry, "args"@) == Some(
                JsonView::List(args.map_values(|t: Seq<char>| JsonView::Text(t))),
            ) ==> (entry_serves(entry, role, name) <==> (exists|i: int|
                0 <= i < args.len() - 1 && #[trigger] args[i] == "--role"@ && args[i + 1] == role)
                && (exists|i: int|
                0 <= i < args.len() - 1 && #[trigger] args[i] == "--agent-name"@ && args[i + 1]
                    == name))
            &&& !(json::field(entry, "args"@) matches Some(JsonView::List(_))) ==> !entry_serves(
                entry,
                role,
                name,
            )
        }),
{
    let name = agents::backend_name(agent_backend(agent), program);
    lemma_serving_counts(entries, role, name);
    lemma_texts_of(args);
    lemma_flag_pair(args, "--role"@, role);
    lemma_flag_pair(args, "--agent-name"@, name);
}

proof fn lemma_flag_pair(args: Seq<Seq<char>>, flag: Seq<char>, value: Seq<char>)
    ensures
        flag_pair(args, flag, value) <==> exists|i: int|
            0 <= i < args.len() - 1 && #[trigger] args[i] == flag && args[i + 1] == value,
{
    if flag_pair(args, flag, value) {
        let i = choose|i: int| 0 <= i < args.len() - 1 && pair_at(args, flag, value, i);
        assert(args[i] == flag && args[i + 1] == value);
    }
    if exists|i: int| 0 <= i < args.len() - 1 && #[trigger] args[i] == flag && args[i + 1] == value {
        let i = choose|i: int|
            0 <= i < args.len() - 1 && #[trigger] args[i] == flag && args[i + 1] == value;
        assert(pair_at(args, flag, value, i));
    }
}

/// What a new server entry says: which command to run with which arguments and, where one is
/// chosen, with which model. It stands under the name of the server, among the others.
pub proof fn law_server_entry_says_what_to_run(
    root: JsonView,
    agent: Agent,
    role: Seq<char>,
    index: u32,
    entry: EntryView,
)
    requires
        servers(root, agent) is Ok,
    ensures
        ({
            let after = with_server(root, agent, role, index, entry);
            let section = json::field(after, settings_section(agent));
            let found = json::field(
                section->0,
                "ferrus-"@ + role + "-"@ + text::decimal(index as nat),
            );
            &&& section is Some && found is Some
            &&& json::field(found->0, "command"@) == Some(JsonView::Text(entry.command))
            &&& json::field(found->0, "args"@) == Some(
                JsonView::List(entry.args.map_values(|t: Seq<char>| JsonView::Text(t))),
            )
            &&& json::field(found->0, "model"@) == match entry.model {
                Some(model) => Some(JsonView::Text(model)),
                None => None,
            }
        }),
{
    let top = root->Object_0;
    let inner = servers(root, agent)->Ok_0;
    let key = agent_id::server_name(role, index);
    let value = JsonView::Object(agent_entry(agent, entry, role));
    let section = JsonView::Object(json::set_key(inner, key, value));
    json::law_set_key_is_found(top, settings_section(agent), section);
    json::law_set_key_is_found(inner, key, value);
    reveal_strlit("command");
    reveal_strlit("args");
    reveal_strlit("model");
    reveal_strlit("tools");
    assert("command"@.len() == 7 && "args"@.len() == 4 && "model"@.len() == 5 && "tools"@.len()
        == 5);
    assert("model"@[0] == 'm' && "tools"@[0] == 't');
    let none: Seq<(Seq<char>, JsonView)> = Seq::empty();
    let command = JsonView::Text(entry.command);
    let args = json::texts_json(entry.args);
    let one = json::set_key(none, "command"@, command);
    let two = json::set_key(one, "args"@, args);
    json::law_set_key_is_found(none, "command"@, command);
    json::law_set_key_is_local(none, "command"@, command, "model"@);
    json::law_set_key_is_found(one, "args"@, args);
    json::law_set_key_is_local(one, "args"@, args, "command"@);
    json::law_set_key_is_local(one, "args"@, args, "model"@);
    if let Some(model) = entry.model {
        let shown = JsonView::Text(model);
        json::law_set_key_is_found(two, "model"@, shown);
        json::law_set_key_is_local(two, "model"@, shown, "command"@);
        json::law_set_key_is_local(two, "model"@, shown, "args"@);
    }
    if agent is Codex {
        let base = entry_json(entry);
        agents::codex::law_only_tools_of_the_role_are_approved(base, role, "check"@, "command"@);
        agents::codex::law_only_tools_of_the_role_are_approved(base, role, "check"@, "args"@);
        agents::codex::law_only_tools_of_the_role_are_approved(base, role, "check"@, "model"@);
    }
}

/// Settings of another shape are refused: what is no object, and what stands for the servers
/// and is none. Without servers there are none yet.
pub proof fn law_settings_of_another_shape_are_refused(root: JsonView, agent: Agent)
    ensures
        ({
            let section = json::field(
                root,
                if agent is Codex {
                    "mcp_servers"@
                } else {
                    "mcpServers"@
                },
            );
            match servers(root, agent) {
                Ok(entries) => root is Object && (section is None && entries.len() == 0 || section
                    == Some(JsonView::Object(entries))),
                Err(RegisterError::RootNotObject) => !(root is Object),
                Err(RegisterError::SectionNotObject) => root is Object && section is Some
                    && !(section->0 is Object),
                Err(_) => false,
            }
        }),
{
}

/// Instructions are put behind what a file holds, under the mark of their role.
pub proof fn law_instructions_stand_behind(
    existing: Seq<char>,
    role: Seq<char>,
    program: Seq<char>,
)
    ensures
        ({
            let mark = "<!-- ferrus-"@ + role + "-instructions -->"@;
            &&& with_instructions(existing, role, program) is None <==> text::occurs(existing, mark)
            &&& with_instructions(existing, role, program) matches Some(after)
                ==> existing.is_prefix_of(after) && text::occurs(after, mark)
        }),
{
    let mark = instructions_marker(role);
    if let Some(after) = with_instructions(existing, role, program) {
        reveal_strlit("\n");
        assert(existing =~= after.subrange(0, existing.len() as int));
        let at: int = existing.len() + 1int;
        assert(after.subrange(at, at + mark.len()) =~= mark);
        assert(text::occurs_at(after, mark, at));
    }
}

/// A model that is given replaces the one that was kept; a blank one clears it, and none
/// leaves it.
pub proof fn law_model_argument_is_kept_or_clears(model: Seq<char>)
    ensures
        model_update(None) is None,
        text::is_blank(model) ==> model_update(Some(model)) == Some(None::<Seq<char>>),
        !text::is_blank(model) ==> model_update(Some(model)) == Some(Some(model)),
{
    text::lemma_trim_empty(model);
}

/// The instructions for a role stand behind their marker, and are those of that role: an
/// executor is not given those of a supervisor.
pub proof fn law_instructions_are_of_the_role(
    role: Seq<char>,
    marker: Seq<char>,
    program: Seq<char>,
)
    ensures
        ("\n"@ + marker).is_prefix_of(section_text(role, marker, program)),
        role == "executor"@ ==> EXECUTOR_SECTION@.is_prefix_of(
            section_text(role, marker, program).skip(("\n"@ + marker).len() as int),
        ),
        role == "supervisor"@ ==> SUPERVISOR_SECTION@.is_prefix_of(
            section_text(role, marker, program).skip(("\n"@ + marker).len() as int),
        ),
        role != "executor"@ && role != "supervisor"@ ==> ("\n## Ferrus "@ + role).is_prefix_of(
            section_text(role, marker, program).skip(("\n"@ + marker).len() as int),
        ),
{
    reveal_strlit("executor");
    reveal_strlit("supervisor");
    assert("executor"@.len() == 8 && "supervisor"@.len() == 10);
    let whole = section_text(role, marker, program);
    let head = "\n"@ + marker;
    let rest = whole.skip(head.len() as int);
    assert(whole.subrange(0, head.len() as int) =~= head);
    if role == "executor"@ {
        assert(rest.subrange(0, EXECUTOR_SECTION@.len() as int) =~= EXECUTOR_SECTION@);
    } else if role == "supervisor"@ {
        assert(rest.subrange(0, SUPERVISOR_SECTION@.len() as int) =~= SUPERVISOR_SECTION@);
    } else {
        let title = "\n## Ferrus "@ + role;
        assert(rest.subrange(0, title.len() as int) =~= title);
    }
}

/// A registration that is done has written the server of the role under its own number,
/// behind those that were there, into the settings of the agent; one that is refused has a
/// reason: the settings have another shape, the role is not known, or there are too many
/// servers to count.
pub proof fn law_registration_is_written(
    root: JsonView,
    agent: Agent,
    role: Seq<char>,
    model: Option<Seq<char>>,
    exe: Seq<char>,
    program: Seq<char>,
    out: Result<Registered, RegisterError>,
)
    requires
        registration(root, agent, role, model, exe, program, out),
    ensures
        servers(root, agent) is Err ==> out is Err,
        role != "executor"@ && role != "supervisor"@ ==> out is Err,
        out matches Ok(registered) ==> {
            let entries = servers(root, agent)->Ok_0;
            let entry = agents::config_entry(
                agent_backend(agent),
                program,
                agents::model_choice(model),
                role,
                registered.index,
                exe,
            );
            let after = with_server(root, agent, role, registered.index, entry);
            &&& servers(root, agent) is Ok
            &&& registered.index == next_index(entries, role, agent, program)
            &&& registered.key@ == "ferrus-"@ + role + "-"@ + text::decimal(
                registered.index as nat,
            )
            &&& !(agent is Codex) ==> registered.content@ == json::json_text(after)
            &&& agent is Codex ==> json::toml_text(after) == Some(registered.content@)
        },
        out is Err ==> {
            ||| servers(root, agent) is Err
            ||| next_index(servers(root, agent)->Ok_0, role, agent, program) > u32::MAX
            ||| role != "executor"@ && role != "supervisor"@
            ||| agent is Codex
        },
{
}

} // verus!
