//! The configuration of a project: `ferrus.toml`.
use vstd::prelude::*;
use vstd::string::*;

use crate::agents;
use crate::agents::{AnyExecutor, AnySupervisor, Backend, ExecutorAgent, SupervisorAgent, UnknownAgent};
use crate::json;
use crate::json::{Json, JsonView};
use crate::text;

verus! {

/// The commands that work has to pass.
#[derive(Debug, Clone, PartialEq, Eq)]
pub struct ChecksConfig {
    pub commands: Vec<String>,
}

/// Limits of the workflow.
#[derive(Debug, Clone, Copy, PartialEq, Eq, Structural)]
pub struct LimitsConfig {
    pub max_check_retries: u32,
    pub max_review_cycles: u32,
    /// How many trailing lines are shown of each failing command.
    pub max_feedback_lines: usize,
    /// How long, in seconds, a wait polls before it gives up.
    pub wait_timeout_secs: u64,
    /// How many sessions of a role run side by side.
    pub max_parallel_tasks: usize,
}

/// The lease on a claimed task.
#[derive(Debug, Clone, Copy, PartialEq, Eq, Structural)]
pub struct LeaseConfig {
    /// How long, in seconds, a lease runs without renewal.
    pub ttl_secs: u64,
    /// How often, in seconds, agents are to renew it.
    pub heartbeat_interval_secs: u64,
}

/// Where specifications are kept.
#[derive(Debug, Clone, PartialEq, Eq)]
pub struct SpecConfig {
    pub directory: String,
}

/// The agents that HQ starts.
#[derive(Debug, Clone)]
pub struct HqConfig {
    pub supervisor: AnySupervisor,
    pub executor: AnyExecutor,
}

/// The configuration of a project.
#[derive(Debug, Clone)]
pub struct Config {
    pub checks: ChecksConfig,
    pub limits: LimitsConfig,
    pub lease: LeaseConfig,
    pub spec: SpecConfig,
    pub hq: Option<HqConfig>,
}

/// How often checks may fail in a row.
pub const DEFAULT_MAX_CHECK_RETRIES: u32 = 5;

/// How often a submission may be rejected.
pub const DEFAULT_MAX_REVIEW_CYCLES: u32 = 3;

/// How many trailing lines are shown of a failing command.
pub const DEFAULT_MAX_FEEDBACK_LINES: u64 = 30;

/// How long, in seconds, a wait polls.
pub const DEFAULT_WAIT_TIMEOUT_SECS: u64 = 3600;

/// How many sessions of a role run side by side.
pub const DEFAULT_MAX_PARALLEL_TASKS: u64 = 1;

/// How long, in seconds, a lease runs.
pub const DEFAULT_TTL_SECS: u64 = 90;

/// How often, in seconds, agents are to renew a lease.
pub const DEFAULT_HEARTBEAT_INTERVAL_SECS: u64 = 30;

/// Where specifications are kept.
pub const DEFAULT_SPEC_DIRECTORY: &'static str = "docs/specs";

impl Default for LeaseConfig {
    fn default() -> (out: Self)
        ensures
            out.ttl_secs == DEFAULT_TTL_SECS,
            out.heartbeat_interval_secs == DEFAULT_HEARTBEAT_INTERVAL_SECS,
    {
        LeaseConfig {
            ttl_secs: DEFAULT_TTL_SECS,
            heartbeat_interval_secs: DEFAULT_HEARTBEAT_INTERVAL_SECS,
        }
    }
}

impl HqConfig {
    /// The name of the supervisor's backend.
    pub fn supervisor_name(&self) -> (out: String)
        ensures
            out@ == agents::backend_name(self.supervisor.backend(), self.supervisor.program()),
    {
        self.supervisor.name()
    }

    /// The name of the executor's backend.
    pub fn executor_name(&self) -> (out: String)
        ensures
            out@ == agents::backend_name(self.executor.backend(), self.executor.program()),
    {
        self.executor.name()
    }
}

/// Why a configuration is refused.
#[derive(Debug, Clone, PartialEq, Eq)]
pub enum ConfigError {
    /// The text is not TOML.
    Syntax,
    /// A setting is missing.
    Missing(String),
    /// A setting has the wrong type or is out of its range.
    Invalid(String),
    /// An agent is not known.
    Unknown(UnknownAgent),
}

/// The contents of such an error.
#[verifier::ext_equal]
pub enum ConfigErrorView {
    Syntax,
    Missing(Seq<char>),
    Invalid(Seq<char>),
    Unknown { role: Seq<char>, name: Seq<char>, program: Seq<char> },
}

impl View for ConfigError {
    type V = ConfigErrorView;

    open spec fn view(&self) -> ConfigErrorView {
        match *self {
            ConfigError::Syntax => ConfigErrorView::Syntax,
            ConfigError::Missing(key) => ConfigErrorView::Missing(key@),
            ConfigError::Invalid(key) => ConfigErrorView::Invalid(key@),
            ConfigError::Unknown(unknown) => ConfigErrorView::Unknown {
                role: unknown.role@,
                name: unknown.name@,
                program: unknown.program@,
            },
        }
    }
}

/// The message about a configuration that is refused.
pub open spec fn config_problem(error: ConfigErrorView) -> Seq<char> {
    match error {
        ConfigErrorView::Syntax => "Failed to parse ferrus.toml"@,
        ConfigErrorView::Missing(key) => "Failed to parse ferrus.toml: missing "@ + key,
        ConfigErrorView::Invalid(key) => "Failed to parse ferrus.toml: invalid "@ + key,
        ConfigErrorView::Unknown { role, name, program } => agents::unknown_agent_text(
            role,
            name,
            program,
        ),
    }
}

impl ConfigError {
    /// The message for the user.
    pub fn message(&self) -> (out: String)
        ensures
            out@ == config_problem(self@),
    {
        match self {
            ConfigError::Syntax => "Failed to parse ferrus.toml".to_owned(),
            ConfigError::Missing(key) => {
                let mut out: String = "Failed to parse ferrus.toml: missing ".to_owned();
                out.append(key.as_str());
                out
            },
            ConfigError::Invalid(key) => {
                let mut out: String = "Failed to parse ferrus.toml: invalid ".to_owned();
                out.append(key.as_str());
                out
            },
            ConfigError::Unknown(unknown) => unknown.message(),
        }
    }
}

// ------------------------------------------------------------------ reading

/// A section that has to be there.
pub open spec fn section(document: JsonView, key: Seq<char>) -> Result<JsonView, ConfigErrorView> {
    match json::field(document, key) {
        Some(JsonView::Object(entries)) => Ok(JsonView::Object(entries)),
        Some(_) => Err(ConfigErrorView::Invalid(key)),
        None => Err(ConfigErrorView::Missing(key)),
    }
}

/// A section that has to be there.
fn read_section<'a>(document: &'a Json, key: &str) -> (out: Result<&'a Json, ConfigError>)
    ensures
        match (out, section(document@, key@)) {
            (Ok(found), Ok(expected)) => found@ == expected,
            (Err(error), Err(expected)) => error@ == expected,
            _ => false,
        },
{
    match document.get(key) {
        Some(found) => match found {
            Json::Object(_) => Ok(found),
            _ => Err(ConfigError::Invalid(key.to_owned())),
        },
        None => Err(ConfigError::Missing(key.to_owned())),
    }
}

/// A whole number between zero and a limit; a default where it is not set.
pub open spec fn number(table: JsonView, key: Seq<char>, default: u64, limit: u64) -> Result<
    u64,
    ConfigErrorView,
> {
    match json::field(table, key) {
        None => Ok(default),
        Some(JsonView::Integer(n)) => if 0 <= n <= limit {
            Ok(n as u64)
        } else {
            Err(ConfigErrorView::Invalid(key))
        },
        Some(_) => Err(ConfigErrorView::Invalid(key)),
    }
}

/// A whole number between zero and a limit; a default where it is not set.
fn read_number(table: &Json, key: &str, default: u64, limit: u64) -> (out: Result<
    u64,
    ConfigError,
>)
    requires
        default <= limit,
    ensures
        match (out, number(table@, key@, default, limit)) {
            (Ok(n), Ok(expected)) => n == expected && n <= limit,
            (Err(error), Err(expected)) => error@ == expected,
            _ => false,
        },
{
    match table.get(key) {
        None => Ok(default),
        Some(Json::Integer(n)) => {
            if *n >= 0 && *n as u64 <= limit {
                Ok(*n as u64)
            } else {
                Err(ConfigError::Invalid(key.to_owned()))
            }
        },
        Some(_) => Err(ConfigError::Invalid(key.to_owned())),
    }
}

/// The texts of a list of texts; nothing where an item is no text.
pub open spec fn all_texts(items: Seq<JsonView>) -> Option<Seq<Seq<char>>>
    decreases items.len(),
{
    if items.len() == 0 {
        Some(Seq::empty())
    } else {
        match (all_texts(items.drop_last()), items.last()) {
            (Some(front), JsonView::Text(s)) => Some(front.push(s)),
            _ => None,
        }
    }
}

/// The texts of a list of texts; nothing where an item is no text.
fn read_texts(items: &Vec<Json>) -> (out: Option<Vec<String>>)
    ensures
        match out {
            Some(list) => all_texts(json::list_view(items@)) == Some(text::views(list@)),
            None => all_texts(json::list_view(items@)) is None,
        },
{
    let ghost all = json::list_view(items@);
    let mut out: Vec<String> = Vec::new();
    assert(text::views(out@) =~= Seq::empty());
    let mut i: usize = 0;
    while i < items.len()
        invariant
            i <= items@.len(),
            all == json::list_view(items@),
            all_texts(all.take(i as int)) == Some(text::views(out@)),
        decreases items@.len() - i,
    {
        assert(all.take(i + 1).drop_last() =~= all.take(i as int));
        assert(all.take(i + 1).last() == items@[i as int]@);
        match &items[i] {
            Json::Text(s) => text::add_text(&mut out, s.as_str()),
            _ => {
                proof {
                    lemma_all_texts_prefix(all, i + 1);
                }
                return None;
            },
        }
        i = i + 1;
    }
    assert(all.take(i as int) =~= all);
    Some(out)
}

proof fn lemma_all_texts_prefix(items: Seq<JsonView>, n: int)
    requires
        0 <= n <= items.len(),
        all_texts(items.take(n)) is None,
    ensures
        all_texts(items) is None,
    decreases items.len() - n,
{
    if n < items.len() {
        assert(items.take(n + 1).drop_last() =~= items.take(n));
        lemma_all_texts_prefix(items, n + 1);
    } else {
        assert(items.take(n) =~= items);
    }
}

/// The commands that work has to pass.
pub open spec fn check_commands(document: JsonView) -> Result<Seq<Seq<char>>, ConfigErrorView> {
    match section(document, "checks"@) {
        Err(error) => Err(error),
        Ok(table) => match json::field(table, "commands"@) {
            None => Err(ConfigErrorView::Missing("commands"@)),
            Some(JsonView::List(items)) => match all_texts(items) {
                Some(list) => Ok(list),
                None => Err(ConfigErrorView::Invalid("commands"@)),
            },
            Some(_) => Err(ConfigErrorView::Invalid("commands"@)),
        },
    }
}

/// The commands that work has to pass.
fn read_checks(document: &Json) -> (out: Result<ChecksConfig, ConfigError>)
    ensures
        match (out, check_commands(document@)) {
            (Ok(checks), Ok(expected)) => text::views(checks.commands@) == expected,
            (Err(error), Err(expected)) => error@ == expected,
            _ => false,
        },
{
    let table: &Json = match read_section(document, "checks") {
        Ok(table) => table,
        Err(error) => {
            return Err(error);
        },
    };
    match table.get("commands") {
        None => Err(ConfigError::Missing("commands".to_owned())),
        Some(Json::List(items)) => match read_texts(items) {
            Some(commands) => Ok(ChecksConfig { commands }),
            None => Err(ConfigError::Invalid("commands".to_owned())),
        },
        Some(_) => Err(ConfigError::Invalid("commands".to_owned())),
    }
}

/// The limits of the workflow, read in the order of their fields.
pub open spec fn limits(document: JsonView) -> Result<LimitsConfig, ConfigErrorView> {
    match section(document, "limits"@) {
        Err(error) => Err(error),
        Ok(table) => {
            let retries = number(
                table,
                "max_check_retries"@,
                DEFAULT_MAX_CHECK_RETRIES as u64,
                u32::MAX as u64,
            );
            let cycles = number(
                table,
                "max_review_cycles"@,
                DEFAULT_MAX_REVIEW_CYCLES as u64,
                u32::MAX as u64,
            );
            let lines = number(
                table,
                "max_feedback_lines"@,
                DEFAULT_MAX_FEEDBACK_LINES,
                usize::MAX as u64,
            );
            let timeout = number(
                table,
                "wait_timeout_secs"@,
                DEFAULT_WAIT_TIMEOUT_SECS,
                u64::MAX,
            );
            let parallel = number(
                table,
                "max_parallel_tasks"@,
                DEFAULT_MAX_PARALLEL_TASKS,
                usize::MAX as u64,
            );
            if retries is Err {
                Err(retries->Err_0)
            } else if cycles is Err {
                Err(cycles->Err_0)
            } else if lines is Err {
                Err(lines->Err_0)
            } else if timeout is Err {
                Err(timeout->Err_0)
            } else if parallel is Err {
                Err(parallel->Err_0)
            } else {
                Ok(
                    LimitsConfig {
                        max_check_retries: retries->Ok_0 as u32,
                        max_review_cycles: cycles->Ok_0 as u32,
                        max_feedback_lines: lines->Ok_0 as usize,
                        wait_timeout_secs: timeout->Ok_0,
                        max_parallel_tasks: parallel->Ok_0 as usize,
                    },
                )
            }
        },
    }
}

/// The limits of the workflow.
fn read_limits(document: &Json) -> (out: Result<LimitsConfig, ConfigError>)
    ensures
        match (out, limits(document@)) {
            (Ok(found), Ok(expected)) => found == expected,
            (Err(error), Err(expected)) => error@ == expected,
            _ => false,
        },
{
    let table: &Json = match read_section(document, "limits") {
        Ok(table) => table,
        Err(error) => {
            return Err(error);
        },
    };
    let retries: u64 = match read_number(
        table,
        "max_check_retries",
        DEFAULT_MAX_CHECK_RETRIES as u64,
        u32::MAX as u64,
    ) {
        Ok(n) => n,
        Err(error) => {
            return Err(error);
        },
    };
    let cycles: u64 = match read_number(
        table,
        "max_review_cycles",
        DEFAULT_MAX_REVIEW_CYCLES as u64,
        u32::MAX as u64,
    ) {
        Ok(n) => n,
        Err(error) => {
            return Err(error);
        },
    };
    let lines: u64 = match read_number(
        table,
        "max_feedback_lines",
        DEFAULT_MAX_FEEDBACK_LINES,
        usize::MAX as u64,
    ) {
        Ok(n) => n,
        Err(error) => {
            return Err(error);
        },
    };
    let timeout: u64 = match read_number(
        table,
        "wait_timeout_secs",
        DEFAULT_WAIT_TIMEOUT_SECS,
        u64::MAX,
    ) {
        Ok(n) => n,
        Err(error) => {
            return Err(error);
        },
    };
    let parallel: u64 = match read_number(
        table,
        "max_parallel_tasks",
        DEFAULT_MAX_PARALLEL_TASKS,
        usize::MAX as u64,
    ) {
        Ok(n) => n,
        Err(error) => {
            return Err(error);
        },
    };
    Ok(
        LimitsConfig {
            max_check_retries: retries as u32,
            max_review_cycles: cycles as u32,
            max_feedback_lines: lines as usize,
            wait_timeout_secs: timeout,
            max_parallel_tasks: parallel as usize,
        },
    )
}

/// The lease; its defaults where the section is missing.
pub open spec fn lease(document: JsonView) -> Result<LeaseConfig, ConfigErrorView> {
    match json::field(document, "lease"@) {
        None => Ok(
            LeaseConfig {
                ttl_secs: DEFAULT_TTL_SECS,
                heartbeat_interval_secs: DEFAULT_HEARTBEAT_INTERVAL_SECS,
            },
        ),
        Some(JsonView::Object(entries)) => {
            let table = JsonView::Object(entries);
            let ttl = number(table, "ttl_secs"@, DEFAULT_TTL_SECS, u64::MAX);
            let beat = number(
                table,
                "heartbeat_interval_secs"@,
                DEFAULT_HEARTBEAT_INTERVAL_SECS,
                u64::MAX,
            );
            if ttl is Err {
                Err(ttl->Err_0)
            } else if beat is Err {
                Err(beat->Err_0)
            } else {
                Ok(LeaseConfig { ttl_secs: ttl->Ok_0, heartbeat_interval_secs: beat->Ok_0 })
            }
        },
        Some(_) => Err(ConfigErrorView::Invalid("lease"@)),
    }
}

/// The lease; its defaults where the section is missing.
fn read_lease(document: &Json) -> (out: Result<LeaseConfig, ConfigError>)
    ensures
        match (out, lease(document@)) {
            (Ok(found), Ok(expected)) => found == expected,
            (Err(error), Err(expected)) => error@ == expected,
            _ => false,
        },
{
    let table: &Json = match document.get("lease") {
        None => {
            return Ok(LeaseConfig::default());
        },
        Some(found) => match found {
            Json::Object(_) => found,
            _ => {
                return Err(ConfigError::Invalid("lease".to_owned()));
            },
        },
    };
    let ttl: u64 = match read_number(table, "ttl_secs", DEFAULT_TTL_SECS, u64::MAX) {
        Ok(n) => n,
        Err(error) => {
            return Err(error);
        },
    };
    let beat: u64 = match read_number(
        table,
        "heartbeat_interval_secs",
        DEFAULT_HEARTBEAT_INTERVAL_SECS,
        u64::MAX,
    ) {
        Ok(n) => n,
        Err(error) => {
            return Err(error);
        },
    };
    Ok(LeaseConfig { ttl_secs: ttl, heartbeat_interval_secs: beat })
}

/// Where specifications are kept; the default where it is not set.
pub open spec fn spec_directory(document: JsonView) -> Result<Seq<char>, ConfigErrorView> {
    match json::field(document, "spec"@) {
        None => Ok(DEFAULT_SPEC_DIRECTORY@),
        Some(JsonView::Object(entries)) => match json::field(
            JsonView::Object(entries),
            "directory"@,
        ) {
            None => Ok(DEFAULT_SPEC_DIRECTORY@),
            Some(JsonView::Text(directory)) => Ok(directory),
            Some(_) => Err(ConfigErrorView::Invalid("directory"@)),
        },
        Some(_) => Err(ConfigErrorView::Invalid("spec"@)),
    }
}

/// Where specifications are kept; the default where it is not set.
fn read_spec(document: &Json) -> (out: Result<SpecConfig, ConfigError>)
    ensures
        match (out, spec_directory(document@)) {
            (Ok(found), Ok(expected)) => found.directory@ == expected,
            (Err(error), Err(expected)) => error@ == expected,
            _ => false,
        },
{
    match document.get("spec") {
        None => Ok(SpecConfig { directory: DEFAULT_SPEC_DIRECTORY.to_owned() }),
        Some(found) => match found {
            Json::Object(_) => match found.get("directory") {
                None => Ok(SpecConfig { directory: DEFAULT_SPEC_DIRECTORY.to_owned() }),
                Some(Json::Text(directory)) => Ok(SpecConfig { directory: directory.clone() }),
                Some(_) => Err(ConfigError::Invalid("directory".to_owned())),
            },
            _ => Err(ConfigError::Invalid("spec".to_owned())),
        },
    }
}

/// The agent of a role and its model: a name, or a table of both.
pub open spec fn role_agent(table: JsonView, role: Seq<char>) -> Result<
    (Seq<char>, Option<Seq<char>>),
    ConfigErrorView,
> {
    match json::field(table, role) {
        None => Err(ConfigErrorView::Missing(role)),
        Some(JsonView::Text(name)) => Ok((name, None)),
        Some(JsonView::Object(entries)) => {
            let inner = JsonView::Object(entries);
            match (json::field(inner, "agent"@), json::field(inner, "model"@)) {
                (None, _) => Err(ConfigErrorView::Missing("agent"@)),
                (Some(JsonView::Text(name)), None) => Ok((name, None)),
                (Some(JsonView::Text(name)), Some(JsonView::Text(model))) => Ok(
                    (name, Some(model)),
                ),
                (Some(JsonView::Text(_)), Some(_)) => Err(ConfigErrorView::Invalid("model"@)),
                (Some(_), _) => Err(ConfigErrorView::Invalid("agent"@)),
            }
        },
        Some(_) => Err(ConfigErrorView::Invalid(role)),
    }
}

/// The agent of a role and its model.
fn read_role_agent(table: &Json, role: &str) -> (out: Result<
    (String, Option<String>),
    ConfigError,
>)
    ensures
        match (out, role_agent(table@, role@)) {
            (Ok(found), Ok(expected)) => found.0@ == expected.0 && text::opt_view(found.1)
                == expected.1,
            (Err(error), Err(expected)) => error@ == expected,
            _ => false,
        },
{
    match table.get(role) {
        None => Err(ConfigError::Missing(role.to_owned())),
        Some(found) => match found {
            Json::Text(name) => Ok((name.clone(), None)),
            Json::Object(_) => {
                let name: String = match found.get("agent") {
                    None => {
                        return Err(ConfigError::Missing("agent".to_owned()));
                    },
                    Some(Json::Text(name)) => name.clone(),
                    Some(_) => {
                        return Err(ConfigError::Invalid("agent".to_owned()));
                    },
                };
                match found.get("model") {
                    None => Ok((name, None)),
                    Some(Json::Text(model)) => Ok((name, Some(model.clone()))),
                    Some(_) => Err(ConfigError::Invalid("model".to_owned())),
                }
            },
            _ => Err(ConfigError::Invalid(role.to_owned())),
        },
    }
}

/// The backend of an agent of HQ, with its model.
pub struct AgentChoice {
    pub backend: Backend,
    pub model: Option<Seq<char>>,
}

/// The choice of an agent by name and model, where the program of the first
/// backend is called `program`.
pub open spec fn choice(
    role: Seq<char>,
    named: (Seq<char>, Option<Seq<char>>),
    program: Seq<char>,
) -> Result<AgentChoice, ConfigErrorView> {
    match agents::named_backend(named.0, program) {
        Some(backend) => Ok(AgentChoice { backend, model: agents::model_choice(named.1) }),
        None => Err(ConfigErrorView::Unknown { role, name: named.0, program }),
    }
}

/// The agents that HQ starts; none where there is no such section.
pub open spec fn hq_agents(document: JsonView, program: Seq<char>) -> Result<
    Option<(AgentChoice, AgentChoice)>,
    ConfigErrorView,
> {
    match json::field(document, "hq"@) {
        None => Ok(None),
        Some(JsonView::Object(entries)) => {
            let table = JsonView::Object(entries);
            let supervisor = role_agent(table, "supervisor"@);
            let executor = role_agent(table, "executor"@);
            if supervisor is Err {
                Err(supervisor->Err_0)
            } else if executor is Err {
                Err(executor->Err_0)
            } else {
                let first = choice("supervisor"@, supervisor->Ok_0, program);
                let second = choice("executor"@, executor->Ok_0, program);
                if first is Err {
                    Err(first->Err_0)
                } else if second is Err {
                    Err(second->Err_0)
                } else {
                    Ok(Some((first->Ok_0, second->Ok_0)))
                }
            }
        },
        Some(_) => Err(ConfigErrorView::Invalid("hq"@)),
    }
}

/// Whether the agents of HQ are those chosen.
pub open spec fn hq_is(
    hq: Option<HqConfig>,
    chosen: Option<(AgentChoice, AgentChoice)>,
    program: Seq<char>,
) -> bool {
    match (hq, chosen) {
        (Some(hq), Some((supervisor, executor))) => {
            &&& hq.supervisor.backend() == supervisor.backend
            &&& hq.supervisor.chosen_model() == supervisor.model
            &&& hq.executor.backend() == executor.backend
            &&& hq.executor.chosen_model() == executor.model
            &&& supervisor.backend is ClaudeCode ==> hq.supervisor.program() == program
            &&& executor.backend is ClaudeCode ==> hq.executor.program() == program
        },
        (None, None) => true,
        _ => false,
    }
}

/// The text of an optional string.
fn opt_str(value: &Option<String>) -> (out: Option<&str>)
    ensures
        text::opt_str_view(out) == text::opt_view(*value),
{
    match value {
        Some(s) => Some(s.as_str()),
        None => None,
    }
}

/// The agents that HQ starts.
fn read_hq(document: &Json, program: &str) -> (out: Result<Option<HqConfig>, ConfigError>)
    ensures
        match (out, hq_agents(document@, program@)) {
            (Ok(hq), Ok(chosen)) => hq_is(hq, chosen, program@),
            (Err(error), Err(expected)) => error@ == expected,
            _ => false,
        },
{
    let table: &Json = match document.get("hq") {
        None => {
            return Ok(None);
        },
        Some(found) => match found {
            Json::Object(_) => found,
            _ => {
                return Err(ConfigError::Invalid("hq".to_owned()));
            },
        },
    };
    let (supervisor, supervisor_model): (String, Option<String>) = match read_role_agent(
        table,
        "supervisor",
    ) {
        Ok(found) => found,
        Err(error) => {
            return Err(error);
        },
    };
    let (executor, executor_model): (String, Option<String>) = match read_role_agent(
        table,
        "executor",
    ) {
        Ok(found) => found,
        Err(error) => {
            return Err(error);
        },
    };
    let first: AnySupervisor = match agents::parse_supervisor_agent(
        supervisor.as_str(),
        opt_str(&supervisor_model),
        program,
    ) {
        Ok(agent) => agent,
        Err(unknown) => {
            return Err(ConfigError::Unknown(unknown));
        },
    };
    let second: AnyExecutor = match agents::parse_executor_agent(
        executor.as_str(),
        opt_str(&executor_model),
        program,
    ) {
        Ok(agent) => agent,
        Err(unknown) => {
            return Err(ConfigError::Unknown(unknown));
        },
    };
    Ok(Some(HqConfig { supervisor: first, executor: second }))
}

/// What reading a configuration comes to. Of several faults the first counts:
/// checks, limits, lease, specifications, agents.
pub open spec fn reads_as(
    document: JsonView,
    program: Seq<char>,
    out: Result<Config, ConfigError>,
) -> bool {
    let commands = check_commands(document);
    let found_limits = limits(document);
    let found_lease = lease(document);
    let directory = spec_directory(document);
    let chosen = hq_agents(document, program);
    if commands is Err {
        out matches Err(error) && error@ == commands->Err_0
    } else if found_limits is Err {
        out matches Err(error) && error@ == found_limits->Err_0
    } else if found_lease is Err {
        out matches Err(error) && error@ == found_lease->Err_0
    } else if directory is Err {
        out matches Err(error) && error@ == directory->Err_0
    } else if chosen is Err {
        out matches Err(error) && error@ == chosen->Err_0
    } else {
        out matches Ok(config) && text::views(config.checks.commands@) == commands->Ok_0
            && config.limits == found_limits->Ok_0 && config.lease == found_lease->Ok_0
            && config.spec.directory@ == directory->Ok_0 && hq_is(
            config.hq,
            chosen->Ok_0,
            program,
        )
    }
}

impl Config {
    /// The configuration that a document holds, where the program of the first
    /// backend is called `program`.
    pub fn from_document(document: &Json, program: &str) -> (out: Result<Config, ConfigError>)
        ensures
            reads_as(document@, program@, out),
    {
        let checks: ChecksConfig = match read_checks(document) {
            Ok(checks) => checks,
            Err(error) => {
                return Err(error);
            },
        };
        let limits: LimitsConfig = match read_limits(document) {
            Ok(limits) => limits,
            Err(error) => {
                return Err(error);
            },
        };
        let lease: LeaseConfig = match read_lease(document) {
            Ok(lease) => lease,
            Err(error) => {
                return Err(error);
            },
        };
        let spec: SpecConfig = match read_spec(document) {
            Ok(spec) => spec,
            Err(error) => {
                return Err(error);
            },
        };
        let hq: Option<HqConfig> = match read_hq(document, program) {
            Ok(hq) => hq,
            Err(error) => {
                return Err(error);
            },
        };
        Ok(Config { checks, limits, lease, spec, hq })
    }

    /// The configuration that a text holds, where the program of the first
    /// backend is called `program`.
    pub fn from_toml(contents: &str, program: &str) -> (out: Result<Config, ConfigError>)
        ensures
            match json::toml_document(contents@) {
                None => out matches Err(error) && error@ == ConfigErrorView::Syntax,
                Some(document) => reads_as(document, program@, out),
            },
    {
        match json::parse_toml(contents) {
            None => Err(ConfigError::Syntax),
            Some(document) => Config::from_document(&document, program),
        }
    }
}

// ------------------------------------------------------------------ updating

/// The roles that HQ starts agents in.
#[derive(Debug, Clone, Copy, PartialEq, Eq, Structural)]
pub enum HqRole {
    Supervisor,
    Executor,
}

/// The key of a role's section.
pub open spec fn role_key(role: HqRole) -> Seq<char> {
    match role {
        HqRole::Supervisor => "supervisor"@,
        HqRole::Executor => "executor"@,
    }
}

impl HqRole {
    /// The key of the role's section.
    pub fn key(&self) -> (out: &'static str)
        ensures
            out@ == role_key(*self),
    {
        match self {
            HqRole::Supervisor => "supervisor",
            HqRole::Executor => "executor",
        }
    }
}

/// The settings of a role: its table, or a table with the name that stands in
/// the place of one.
pub open spec fn role_settings(value: Option<JsonView>) -> Seq<(Seq<char>, JsonView)> {
    match value {
        Some(JsonView::Object(entries)) => entries,
        Some(JsonView::Text(name)) => json::set_key(
            Seq::empty(),
            "agent"@,
            JsonView::Text(name),
        ),
        _ => Seq::empty(),
    }
}

/// The settings of a role with an agent and a change of its model.
pub open spec fn changed_settings(
    settings: Seq<(Seq<char>, JsonView)>,
    agent: Option<Seq<char>>,
    model: Option<Option<Seq<char>>>,
) -> Seq<(Seq<char>, JsonView)> {
    let named = match agent {
        Some(name) => json::set_key(settings, "agent"@, JsonView::Text(name)),
        None => settings,
    };
    match model {
        Some(Some(m)) => json::set_key(named, "model"@, JsonView::Text(m)),
        Some(None) => json::set_key(named, "model"@, JsonView::Text(""@)),
        None => named,
    }
}

/// The configuration with changed settings of a role.
pub open spec fn with_role(
    document: JsonView,
    role: HqRole,
    agent: Option<Seq<char>>,
    model: Option<Option<Seq<char>>>,
) -> JsonView {
    let hq = json::object_entries(json::field(document, "hq"@));
    let settings = role_settings(json::field(JsonView::Object(hq), role_key(role)));
    JsonView::Object(
        json::set_key(
            json::object_entries(Some(document)),
            "hq"@,
            JsonView::Object(
                json::set_key(
                    hq,
                    role_key(role),
                    JsonView::Object(changed_settings(settings, agent, model)),
                ),
            ),
        ),
    )
}

/// The contents of a change of a model.
pub open spec fn change_view(model: Option<Option<&str>>) -> Option<Option<Seq<char>>> {
    match model {
        Some(m) => Some(text::opt_str_view(m)),
        None => None,
    }
}

proof fn lemma_inner_table(document: JsonView, key: Seq<char>)
    requires
        json::is_of(document, json::Format::Toml),
        document is Object,
    ensures
        json::is_of(
            JsonView::Object(json::object_entries(json::field(document, key))),
            json::Format::Toml,
        ),
{
    let entries = document->Object_0;
    json::lemma_key_index(entries, key);
    let at = json::key_index(entries, key);
    if at < entries.len() {
        assert(json::is_of(entries[at].1, json::Format::Toml));
        assert(json::field(document, key) == Some(entries[at].1));
    }
    assert(json::is_of(
        JsonView::Object(Seq::<(Seq<char>, JsonView)>::empty()),
        json::Format::Toml,
    ));
}

proof fn lemma_settings_table(
    hq: Seq<(Seq<char>, JsonView)>,
    key: Seq<char>,
    agent: Option<Seq<char>>,
    model: Option<Option<Seq<char>>>,
)
    requires
        json::is_of(JsonView::Object(hq), json::Format::Toml),
    ensures
        json::is_of(
            JsonView::Object(
                role_settings(json::field(JsonView::Object(hq), key)),
            ),
            json::Format::Toml,
        ),
        json::is_of(
            JsonView::Object(
                changed_settings(
                    role_settings(json::field(JsonView::Object(hq), key)),
                    agent,
                    model,
                ),
            ),
            json::Format::Toml,
        ),
{
    let toml = json::Format::Toml;
    let found = json::field(JsonView::Object(hq), key);
    let none: Seq<(Seq<char>, JsonView)> = Seq::empty();
    assert(json::is_of(JsonView::Object(none), toml));
    lemma_inner_table(JsonView::Object(hq), key);
    if let Some(JsonView::Text(name)) = found {
        json::lemma_set_key_format(none, "agent"@, JsonView::Text(name), toml);
    }
    let settings = role_settings(found);
    if let Some(name) = agent {
        json::lemma_set_key_format(settings, "agent"@, JsonView::Text(name), toml);
    }
    let named = match agent {
        Some(name) => json::set_key(settings, "agent"@, JsonView::Text(name)),
        None => settings,
    };
    match model {
        Some(Some(m)) => json::lemma_set_key_format(named, "model"@, JsonView::Text(m), toml),
        Some(None) => json::lemma_set_key_format(named, "model"@, JsonView::Text(""@), toml),
        None => {},
    }
}

/// The settings of a role, taken out of the section of HQ.
fn take_settings(hq: &mut Vec<(String, Json)>, key: &str) -> (out: Vec<(String, Json)>)
    requires
        json::sorted_keys(json::entries_view(old(hq)@)),
    ensures
        json::entries_view(out@) == role_settings(
            json::field(JsonView::Object(json::entries_view(old(hq)@)), key@),
        ),
        forall|value: JsonView|
            #[trigger] json::set_key(json::entries_view(final(hq)@), key@, value)
                == json::set_key(json::entries_view(old(hq)@), key@, value),
{
    let ghost before = json::entries_view(hq@);
    let taken: Option<Json> = json::take_key(hq, key);
    proof {
        assert forall|value: JsonView|
            #[trigger] json::set_key(json::entries_view(hq@), key@, value) == json::set_key(
                before,
                key@,
                value,
            ) by {
            if taken is Some {
                json::lemma_take_then_set(before, key@, value);
            }
        }
    }
    let mut fresh: Vec<(String, Json)> = Vec::new();
    assert(json::entries_view(fresh@) =~= Seq::empty());
    match taken {
        Some(Json::Object(settings)) => settings,
        Some(Json::Text(name)) => {
            json::put_key(&mut fresh, "agent", Json::Text(name));
            fresh
        },
        _ => fresh,
    }
}

/// The text of a configuration with changed settings of a role: the agent where
/// one is given, and the model set or cleared where a change is given.
pub fn update_hq_agent_config(
    contents: &str,
    role: HqRole,
    agent: Option<&str>,
    model: Option<Option<&str>>,
) -> (out: Result<String, ConfigError>)
    ensures
        match json::toml_document(contents@) {
            None => out matches Err(error) && error@ == ConfigErrorView::Syntax,
            Some(document) => {
                let found = json::field(document, "hq"@);
                if !(document is Object) || (found is Some && !(found->0 is Object)) {
                    out matches Err(error) && error@ == ConfigErrorView::Invalid("hq"@)
                } else {
                    match json::toml_text(
                        with_role(document, role, text::opt_str_view(agent), change_view(model)),
                    ) {
                        Some(content) => out matches Ok(written) && written@ == content,
                        None => out matches Err(error) && error@ == ConfigErrorView::Syntax,
                    }
                }
            },
        },
{
    let document: Json = match json::parse_toml(contents) {
        Some(document) => document,
        None => {
            return Err(ConfigError::Syntax);
        },
    };
    let ghost before = document@;
    let mut entries: Vec<(String, Json)> = match document {
        Json::Object(entries) => entries,
        _ => {
            return Err(ConfigError::Invalid("hq".to_owned()));
        },
    };
    let ghost top = json::entries_view(entries@);
    assert(before == JsonView::Object(top));
    let at: usize = json::find_key(&entries, "hq");
    if at < entries.len() {
        match &entries[at].1 {
            Json::Object(_) => {},
            _ => {
                return Err(ConfigError::Invalid("hq".to_owned()));
            },
        }
    }
    let mut hq: Vec<(String, Json)> = json::take_object(&mut entries, "hq");
    let ghost inner = json::entries_view(hq@);
    proof {
        lemma_inner_table(before, "hq"@);
        lemma_settings_table(
            inner,
            role_key(role),
            text::opt_str_view(agent),
            change_view(model),
        );
    }
    let mut settings: Vec<(String, Json)> = take_settings(&mut hq, role.key());
    if let Some(name) = agent {
        json::put_key(&mut settings, "agent", Json::Text(name.to_owned()));
    }
    match model {
        Some(Some(m)) => json::put_key(&mut settings, "model", Json::Text(m.to_owned())),
        Some(None) => json::put_key(&mut settings, "model", Json::Text("".to_owned())),
        None => {},
    }
    proof {
        let changed = JsonView::Object(json::entries_view(settings@));
        json::lemma_set_key_format(inner, role_key(role), changed, json::Format::Toml);
        json::lemma_set_key_format(
            top,
            "hq"@,
            JsonView::Object(json::set_key(inner, role_key(role), changed)),
            json::Format::Toml,
        );
    }
    json::put_key(&mut hq, role.key(), Json::Object(settings));
    json::put_key(&mut entries, "hq", Json::Object(hq));
    match json::print_toml(Json::Object(entries)) {
        Some(content) => Ok(content),
        None => Err(ConfigError::Syntax),
    }
}

/// Changing a role's settings leaves every other section as it was, and the
/// role's agent is the one that was given.
pub proof fn law_role_update(
    document: JsonView,
    role: HqRole,
    agent: Seq<char>,
    model: Seq<char>,
    other: Seq<char>,
)
    requires
        document is Object,
    ensures
        other != "hq"@ ==> json::field(
            with_role(document, role, Some(agent), Some(Some(model))),
            other,
        ) == json::field(document, other),
        role_agent(
            json::field(with_role(document, role, Some(agent), Some(Some(model))), "hq"@)->0,
            role_key(role),
        ) == Ok::<(Seq<char>, Option<Seq<char>>), ConfigErrorView>((agent, Some(model))),
{
    let top = document->Object_0;
    assert(document == JsonView::Object(top));
    let hq = json::object_entries(json::field(document, "hq"@));
    let settings = role_settings(json::field(JsonView::Object(hq), role_key(role)));
    let named = json::set_key(settings, "agent"@, JsonView::Text(agent));
    let changed = json::set_key(named, "model"@, JsonView::Text(model));
    let section = JsonView::Object(json::set_key(hq, role_key(role), JsonView::Object(changed)));
    json::law_set_key_is_found(top, "hq"@, section);
    json::law_set_key_is_found(hq, role_key(role), JsonView::Object(changed));
    json::law_set_key_is_found(named, "model"@, JsonView::Text(model));
    json::law_set_key_is_found(settings, "agent"@, JsonView::Text(agent));
    reveal_strlit("agent");
    reveal_strlit("model");
    assert("agent"@[0] == 'a');
    assert("model"@[0] == 'm');
    json::law_set_key_is_local(named, "model"@, JsonView::Text(model), "agent"@);
    if other != "hq"@ {
        json::law_set_key_is_local(top, "hq"@, section, other);
    }
}

// ------------------------------------------------------------------ laws of the configuration

/// A number that is set counts where it is whole and in its range, and the default counts
/// where none is; everything else is refused.
pub open spec fn sets(table: JsonView, key: Seq<char>, default: int, limit: int, value: int) -> bool {
    match json::field(table, key) {
        None => value == default,
        Some(JsonView::Integer(n)) => 0 <= n <= limit && value == n,
        Some(_) => false,
    }
}

/// The limits are those that are set, each under its own key, and the defaults where none
/// is: five checks, three rejections, thirty lines, an hour and one task at a time. The
/// section has to be there.
pub proof fn law_limits_are_those_that_are_set(document: JsonView)
    ensures
        limits(document) matches Ok(l) ==> (json::field(document, "limits"@) matches Some(table) && {
            &&& table is Object
            &&& sets(table, "max_check_retries"@, 5, u32::MAX as int, l.max_check_retries as int)
            &&& sets(table, "max_review_cycles"@, 3, u32::MAX as int, l.max_review_cycles as int)
            &&& sets(
                table,
                "max_feedback_lines"@,
                30,
                usize::MAX as int,
                l.max_feedback_lines as int,
            )
            &&& sets(table, "wait_timeout_secs"@, 3600, u64::MAX as int, l.wait_timeout_secs as int)
            &&& sets(
                table,
                "max_parallel_tasks"@,
                1,
                usize::MAX as int,
                l.max_parallel_tasks as int,
            )
        }),
        !(json::field(document, "limits"@) matches Some(JsonView::Object(_))) ==> limits(document)
            is Err,
{
}

/// A lease is as long as is set, or ninety seconds with a renewal each thirty; specifications
/// are kept where is set, or in `docs/specs`. Neither section has to be there.
pub proof fn law_lease_and_specs_have_defaults(document: JsonView)
    ensures
        lease(document) matches Ok(l) ==> match json::field(document, "lease"@) {
            None => l.ttl_secs == 90 && l.heartbeat_interval_secs == 30,
            Some(table) => table is Object && sets(
                table,
                "ttl_secs"@,
                90,
                u64::MAX as int,
                l.ttl_secs as int,
            ) && sets(
                table,
                "heartbeat_interval_secs"@,
                30,
                u64::MAX as int,
                l.heartbeat_interval_secs as int,
            ),
        },
        json::field(document, "lease"@) is None ==> lease(document) is Ok,
        spec_directory(document) matches Ok(directory) ==> match json::field(document, "spec"@) {
            None => directory == "docs/specs"@,
            Some(table) => table is Object && match json::field(table, "directory"@) {
                None => directory == "docs/specs"@,
                Some(value) => value == JsonView::Text(directory),
            },
        },
        json::field(document, "spec"@) is None ==> spec_directory(document) is Ok,
{
}

proof fn lemma_all_texts(items: Seq<JsonView>)
    ensures
        match all_texts(items) {
            Some(list) => list.len() == items.len() && forall|i: int|
                0 <= i < items.len() ==> #[trigger] items[i] == JsonView::Text(list[i]),
            None => exists|i: int| 0 <= i < items.len() && !((#[trigger] items[i]) is Text),
        },
    decreases items.len(),
{
    if items.len() > 0 {
        let front = items.drop_last();
        lemma_all_texts(front);
        match all_texts(front) {
            None => {
                let i = choose|i: int| 0 <= i < front.len() && !((#[trigger] front[i]) is Text);
                assert(items[i] == front[i]);
            },
            Some(before) => {
                if let JsonView::Text(s) = items.last() {
                    let list = before.push(s);
                    assert forall|i: int| 0 <= i < items.len() implies #[trigger] items[i]
                        == JsonView::Text(list[i]) by {
                        if i < front.len() {
                            assert(items[i] == front[i]);
                        }
                    }
                } else {
                    assert(!(items[items.len() - 1] is Text));
                }
            },
        }
    }
}

/// The checks are the texts of the list of commands, all of them and in their order; a list
/// with anything else, or none, is refused.
pub proof fn law_checks_are_listed(document: JsonView, i: int)
    ensures
        match check_commands(document) {
            Ok(commands) => json::field(document, "checks"@) matches Some(table) && (json::field(
                table,
                "commands"@,
            ) matches Some(JsonView::List(items)) && commands.len() == items.len() && (0 <= i
                < items.len() ==> items[i] == JsonView::Text(commands[i]))),
            Err(_) => !(json::field(document, "checks"@) matches Some(JsonView::Object(entries))
                && (json::field(JsonView::Object(entries), "commands"@) matches Some(
                JsonView::List(items),
            ) && forall|k: int| 0 <= k < items.len() ==> (#[trigger] items[k]) is Text)),
        },
{
    if let Some(JsonView::Object(entries)) = json::field(document, "checks"@) {
        if let Some(JsonView::List(items)) = json::field(JsonView::Object(entries), "commands"@) {
            lemma_all_texts(items);
        }
    }
}

/// The agents of HQ: each role has the one that its own setting names, by a text or under
/// `agent`, with the model that stands beside it, if any. An agent that nobody knows is
/// refused, and without the section there are none.
pub proof fn law_roles_have_their_own_agents(document: JsonView, program: Seq<char>)
    ensures
        json::field(document, "hq"@) is None ==> hq_agents(document, program) == Ok::<
            Option<(AgentChoice, AgentChoice)>,
            ConfigErrorView,
        >(None),
        hq_agents(document, program) matches Ok(Some((supervisor, executor))) ==> (json::field(
            document,
            "hq"@,
        ) matches Some(table) && names_agent(
            json::field(table, "supervisor"@),
            supervisor,
            program,
        ) && names_agent(json::field(table, "executor"@), executor, program)),
{
}

/// Whether a setting names an agent with a model.
pub open spec fn names_agent(
    setting: Option<JsonView>,
    chosen: AgentChoice,
    program: Seq<char>,
) -> bool {
    let name = match chosen.backend {
        Backend::ClaudeCode => program + "-code"@,
        Backend::Codex => "codex"@,
        Backend::QwenCode => "qwen-code"@,
    };
    match setting {
        Some(JsonView::Text(given)) => given == name && chosen.model is None,
        Some(JsonView::Object(entries)) => {
            let table = JsonView::Object(entries);
            &&& json::field(table, "agent"@) == Some(JsonView::Text(name))
            &&& match json::field(table, "model"@) {
                None => chosen.model is None,
                Some(JsonView::Text(model)) => if text::trim(model).len() == 0 {
                    chosen.model is None
                } else {
                    chosen.model == Some(text::trim(model))
                },
                Some(_) => false,
            }
        },
        _ => false,
    }
}

/// A change of one role leaves the other as it is, and of the role it changes what is given
/// and nothing else: an agent only where one is named, a model only where one is set or
/// cleared.
pub proof fn law_one_role_changes(
    document: JsonView,
    role: HqRole,
    agent: Option<Seq<char>>,
    model: Option<Option<Seq<char>>>,
    other: HqRole,
    key: Seq<char>,
)
    requires
        document is Object,
        other != role,
    ensures
        ({
            let before = JsonView::Object(json::object_entries(json::field(document, "hq"@)));
            let after = json::field(with_role(document, role, agent, model), "hq"@);
            let name = |r: HqRole|
                if r is Supervisor {
                    "supervisor"@
                } else {
                    "executor"@
                };
            let kept = JsonView::Object(role_settings(json::field(before, name(role))));
            let changed = json::field(after->0, name(role));
            &&& after is Some && changed is Some
            &&& json::field(after->0, name(other)) == json::field(before, name(other))
            &&& json::field(changed->0, "agent"@) == match agent {
                Some(given) => Some(JsonView::Text(given)),
                None => json::field(kept, "agent"@),
            }
            &&& json::field(changed->0, "model"@) == match model {
                Some(Some(given)) => Some(JsonView::Text(given)),
                Some(None) => Some(JsonView::Text(""@)),
                None => json::field(kept, "model"@),
            }
            &&& key != "agent"@ && key != "model"@ ==> json::field(changed->0, key) == json::field(
                kept,
                key,
            )
        }),
{
    let top = document->Object_0;
    assert(document == JsonView::Object(top));
    let hq = json::object_entries(json::field(document, "hq"@));
    let settings = role_settings(json::field(JsonView::Object(hq), role_key(role)));
    let after = JsonView::Object(changed_settings(settings, agent, model));
    let section = JsonView::Object(json::set_key(hq, role_key(role), after));
    json::law_set_key_is_found(top, "hq"@, section);
    json::law_set_key_is_found(hq, role_key(role), after);
    reveal_strlit("supervisor");
    reveal_strlit("executor");
    assert("supervisor"@.len() == 10 && "executor"@.len() == 8);
    json::law_set_key_is_local(hq, role_key(role), after, role_key(other));
    reveal_strlit("agent");
    reveal_strlit("model");
    assert("agent"@[0] == 'a' && "model"@[0] == 'm');
    let named = match agent {
        Some(name) => json::set_key(settings, "agent"@, JsonView::Text(name)),
        None => settings,
    };
    if let Some(name) = agent {
        json::law_set_key_is_found(settings, "agent"@, JsonView::Text(name));
        json::law_set_key_is_local(settings, "agent"@, JsonView::Text(name), "model"@);
        if key != "agent"@ {
            json::law_set_key_is_local(settings, "agent"@, JsonView::Text(name), key);
        }
    }
    if let Some(change) = model {
        let value = match change {
            Some(m) => JsonView::Text(m),
            None => JsonView::Text(""@),
        };
        json::law_set_key_is_found(named, "model"@, value);
        json::law_set_key_is_local(named, "model"@, value, "agent"@);
        if key != "model"@ {
            json::law_set_key_is_local(named, "model"@, value, key);
        }
    }
}

/// A configuration is read exactly where each of its parts can be, and holds what each of
/// them says: each role of HQ has the backend, the model and the program that were chosen
/// for it, and not those of the other.
pub proof fn law_configuration_holds_its_parts(
    document: JsonView,
    program: Seq<char>,
    out: Result<Config, ConfigError>,
)
    requires
        reads_as(document, program, out),
    ensures
        out is Ok <==> check_commands(document) is Ok && limits(document) is Ok && lease(document)
            is Ok && spec_directory(document) is Ok && hq_agents(document, program) is Ok,
        out matches Ok(config) ==> {
            let chosen = hq_agents(document, program)->Ok_0;
            &&& text::views(config.checks.commands@) == check_commands(document)->Ok_0
            &&& limits(document)->Ok_0 == config.limits
            &&& lease(document)->Ok_0 == config.lease
            &&& config.spec.directory@ == spec_directory(document)->Ok_0
            &&& config.hq is Some <==> chosen is Some
            &&& config.hq is Some ==> {
                let hq = config.hq->0;
                let both = chosen->0;
                &&& hq.supervisor.backend() == both.0.backend
                &&& hq.supervisor.chosen_model() == both.0.model
                &&& hq.executor.backend() == both.1.backend
                &&& hq.executor.chosen_model() == both.1.model
                &&& both.0.backend is ClaudeCode ==> hq.supervisor.program() == program
                &&& both.1.backend is ClaudeCode ==> hq.executor.program() == program
            }
        },
        out matches Err(error) ==> {
            ||| check_commands(document) == Err::<Seq<Seq<char>>, ConfigErrorView>(error@)
            ||| limits(document) == Err::<LimitsConfig, ConfigErrorView>(error@)
            ||| lease(document) == Err::<LeaseConfig, ConfigErrorView>(error@)
            ||| spec_directory(document) == Err::<Seq<char>, ConfigErrorView>(error@)
            ||| hq_agents(document, program) == Err::<
                Option<(AgentChoice, AgentChoice)>,
                ConfigErrorView,
            >(error@)
        },
{
}

} // verus!
