//! Codex-backed supervisor and executor adapters.
use vstd::prelude::*;
use vstd::string::*;

use crate::agent_id;
use crate::agents;
use crate::agents::{
    AgentRunMode, Backend, CommandLine, CommandView, ExecutorAgent, Host, HostView, McpConfigEntry,
    PromptTransport, RunModeView, SupervisorAgent,
};
use crate::json;
use crate::json::{Json, JsonView};
use crate::text;

verus! {

/// The name by which the backend is configured.
pub const NAME: &'static str = "codex";

/// The executable that launches Codex.
pub const EXECUTABLE: &'static str = "codex";

/// Interactive and headless supervisor launcher for Codex.
#[derive(Debug, Clone)]
pub struct Supervisor {
    pub model: Option<String>,
}

/// Interactive and headless executor launcher for Codex.
#[derive(Debug, Clone)]
pub struct Executor {
    pub model: Option<String>,
}

/// The program that launches Codex, and the arguments that it always gets.
pub open spec fn launcher(host: HostView) -> (Seq<char>, Seq<Seq<char>>) {
    match host {
        HostView::Unix => (EXECUTABLE@, Seq::empty()),
        HostView::Windows { node, script } => (node, seq![script]),
    }
}

/// The command line that runs Codex: `exec` runs a single prompt and exits; on
/// Windows the prompt then comes on standard input.
pub open spec fn command(
    mode: RunModeView,
    model: Option<Seq<char>>,
    host: HostView,
) -> CommandView {
    CommandView {
        program: launcher(host).0,
        args: launcher(host).1 + match mode {
            RunModeView::Interactive { prompt: Some(prompt) } => agents::model_args(model).push(
                prompt,
            ),
            RunModeView::Interactive { prompt: None } => agents::model_args(model),
            RunModeView::Headless { prompt } => (seq!["exec"@] + agents::model_args(model)).push(
                if host is Windows {
                    "-"@
                } else {
                    prompt
                },
            ),
        },
    }
}

/// The start of a Codex command line.
fn start_command(host: &Host) -> (out: CommandLine)
    ensures
        out@.program == launcher(host@).0,
        out@.args == launcher(host@).1,
{
    match host {
        Host::Unix => {
            let args: Vec<String> = Vec::new();
            assert(text::views(args@) =~= Seq::empty());
            CommandLine { program: EXECUTABLE.to_owned(), args }
        },
        Host::Windows { node, script } => CommandLine {
            program: node.clone(),
            args: text::one_text(script.as_str()),
        },
    }
}

/// The command line that runs Codex.
fn build_command(mode: AgentRunMode<'_>, model: Option<&str>, host: &Host) -> (out: CommandLine)
    ensures
        out@ == command(mode@, text::opt_str_view(model), host@),
{
    let start: CommandLine = start_command(host);
    let mut args: Vec<String> = start.args;
    match mode {
        AgentRunMode::Interactive { prompt } => {
            agents::add_model_args(&mut args, model);
            if let Some(line) = prompt {
                text::add_text(&mut args, line);
            }
        },
        AgentRunMode::Headless { prompt } => {
            text::add_text(&mut args, "exec");
            agents::add_model_args(&mut args, model);
            match host {
                Host::Windows { .. } => text::add_text(&mut args, "-"),
                Host::Unix => text::add_text(&mut args, prompt),
            }
        },
    }
    assert(text::views(args@) =~= command(mode@, text::opt_str_view(model), host@).args);
    CommandLine { program: start.program, args }
}

impl Supervisor {
    /// The launcher with a model override.
    pub fn new(model: Option<&str>) -> (out: Self)
        ensures
            text::opt_view(out.model) == agents::model_choice(text::opt_str_view(model)),
    {
        Supervisor { model: agents::normalized_model(model) }
    }
}

impl SupervisorAgent for Supervisor {
    open spec fn backend(&self) -> Backend {
        Backend::Codex
    }

    open spec fn program(&self) -> Seq<char> {
        EXECUTABLE@
    }

    open spec fn chosen_model(&self) -> Option<Seq<char>> {
        text::opt_view(self.model)
    }

    fn name(&self) -> (out: String) {
        NAME.to_owned()
    }

    fn spawn(&self, mode: AgentRunMode<'_>, host: &Host) -> (out: CommandLine) {
        build_command(mode, self.model(), host)
    }

    fn version_command(&self, host: &Host) -> (out: CommandLine) {
        let start: CommandLine = start_command(host);
        let mut args: Vec<String> = start.args;
        text::add_text(&mut args, "--version");
        CommandLine { program: start.program, args }
    }

    fn mcp_config_entry(&self, role: &str, index: u32, exe: &str) -> (out: McpConfigEntry) {
        McpConfigEntry {
            command: exe.to_owned(),
            args: agents::serve_args(role, NAME, index),
            model: text::opt_clone(&self.model),
        }
    }

    fn model(&self) -> (out: Option<&str>) {
        match &self.model {
            Some(m) => Some(m.as_str()),
            None => None,
        }
    }

    fn prompt_transport(&self, host: &Host) -> (out: PromptTransport) {
        match host {
            Host::Windows { .. } => PromptTransport::Stdin,
            Host::Unix => PromptTransport::Argv,
        }
    }
}

impl Executor {
    /// The launcher with a model override.
    pub fn new(model: Option<&str>) -> (out: Self)
        ensures
            text::opt_view(out.model) == agents::model_choice(text::opt_str_view(model)),
    {
        Executor { model: agents::normalized_model(model) }
    }
}

impl ExecutorAgent for Executor {
    open spec fn backend(&self) -> Backend {
        Backend::Codex
    }

    open spec fn program(&self) -> Seq<char> {
        EXECUTABLE@
    }

    open spec fn chosen_model(&self) -> Option<Seq<char>> {
        text::opt_view(self.model)
    }

    fn name(&self) -> (out: String) {
        NAME.to_owned()
    }

    fn spawn(&self, mode: AgentRunMode<'_>, host: &Host) -> (out: CommandLine) {
        build_command(mode, self.model(), host)
    }

    fn version_command(&self, host: &Host) -> (out: CommandLine) {
        let start: CommandLine = start_command(host);
        let mut args: Vec<String> = start.args;
        text::add_text(&mut args, "--version");
        CommandLine { program: start.program, args }
    }

    fn mcp_config_entry(&self, role: &str, index: u32, exe: &str) -> (out: McpConfigEntry) {
        McpConfigEntry {
            command: exe.to_owned(),
            args: agents::serve_args(role, NAME, index),
            model: text::opt_clone(&self.model),
        }
    }

    fn model(&self) -> (out: Option<&str>) {
        match &self.model {
            Some(m) => Some(m.as_str()),
            None => None,
        }
    }

    fn prompt_transport(&self, host: &Host) -> (out: PromptTransport) {
        match host {
            Host::Windows { .. } => PromptTransport::Stdin,
            Host::Unix => PromptTransport::Argv,
        }
    }
}

/// The tools that a role may use without asking.
pub open spec fn approved_tools(role: Seq<char>) -> Seq<Seq<char>> {
    if role == agent_id::ROLE_EXECUTOR@ {
        seq![
            "wait_for_task"@,
            "check"@,
            "consult"@,
            "submit"@,
            "wait_for_consult"@,
            "wait_for_answer"@,
            "ask_human"@,
            "answer"@,
            "status"@,
            "reset"@,
            "heartbeat"@,
        ]
    } else if role == agent_id::ROLE_SUPERVISOR@ {
        seq![
            "create_task"@,
            "create_spec"@,
            "wait_for_review"@,
            "review_pending"@,
            "approve"@,
            "reject"@,
            "respond_consult"@,
            "ask_human"@,
            "answer"@,
            "status"@,
            "reset"@,
            "heartbeat"@,
        ]
    } else {
        Seq::empty()
    }
}

/// The tools that a role may use without asking.
pub fn auto_approved_tools(role: &str) -> (out: Vec<String>)
    ensures
        text::views(out@) == approved_tools(role@),
{
    let mut out: Vec<String> = Vec::new();
    if text::same(role, agent_id::ROLE_EXECUTOR) {
        text::add_text(&mut out, "wait_for_task");
        text::add_text(&mut out, "check");
        text::add_text(&mut out, "consult");
        text::add_text(&mut out, "submit");
        text::add_text(&mut out, "wait_for_consult");
        text::add_text(&mut out, "wait_for_answer");
        text::add_text(&mut out, "ask_human");
        text::add_text(&mut out, "answer");
        text::add_text(&mut out, "status");
        text::add_text(&mut out, "reset");
        text::add_text(&mut out, "heartbeat");
    } else if text::same(role, agent_id::ROLE_SUPERVISOR) {
        text::add_text(&mut out, "create_task");
        text::add_text(&mut out, "create_spec");
        text::add_text(&mut out, "wait_for_review");
        text::add_text(&mut out, "review_pending");
        text::add_text(&mut out, "approve");
        text::add_text(&mut out, "reject");
        text::add_text(&mut out, "respond_consult");
        text::add_text(&mut out, "ask_human");
        text::add_text(&mut out, "answer");
        text::add_text(&mut out, "status");
        text::add_text(&mut out, "reset");
        text::add_text(&mut out, "heartbeat");
    }
    assert(text::views(out@) =~= approved_tools(role@));
    out
}

/// The settings of a tool that needs no approval.
pub open spec fn approval() -> JsonView {
    JsonView::Object(seq![("approval_mode"@, JsonView::Text("approve"@))])
}

/// A tool table with the given tools approved.
pub open spec fn approve_all(
    tools: Seq<(Seq<char>, JsonView)>,
    names: Seq<Seq<char>>,
) -> Seq<(Seq<char>, JsonView)>
    decreases names.len(),
{
    if names.len() == 0 {
        tools
    } else {
        json::set_key(approve_all(tools, names.drop_last()), names.last(), approval())
    }
}

/// Approving tools keeps a tool table a TOML table.
pub proof fn lemma_approve_all_format(tools: Seq<(Seq<char>, JsonView)>, names: Seq<Seq<char>>)
    requires
        json::is_of(JsonView::Object(tools), json::Format::Toml),
    ensures
        json::is_of(JsonView::Object(approve_all(tools, names)), json::Format::Toml),
    decreases names.len(),
{
    if names.len() > 0 {
        lemma_approve_all_format(tools, names.drop_last());
        assert(json::is_of(approval(), json::Format::Toml)) by {
            reveal_with_fuel(json::is_of, 2);
        }
        json::lemma_set_key_format(
            approve_all(tools, names.drop_last()),
            names.last(),
            approval(),
            json::Format::Toml,
        );
    }
}

/// A server entry with the tools of its role approved.
pub open spec fn with_approvals(
    entry: Seq<(Seq<char>, JsonView)>,
    role: Seq<char>,
) -> Seq<(Seq<char>, JsonView)> {
    json::set_key(
        entry,
        "tools"@,
        JsonView::Object(
            approve_all(
                json::object_entries(json::field(JsonView::Object(entry), "tools"@)),
                approved_tools(role),
            ),
        ),
    )
}

/// Approves the tools of a role in a server entry. What stands under `tools`
/// must be a table.
pub fn apply_tool_approval_overrides(role: &str, entry: &mut Vec<(String, Json)>)
    requires
        json::sorted_keys(json::entries_view(old(entry)@)),
        match json::field(JsonView::Object(json::entries_view(old(entry)@)), "tools"@) {
            None => true,
            Some(tools) => tools is Object,
        },
    ensures
        json::entries_view(final(entry)@) == with_approvals(
            json::entries_view(old(entry)@),
            role@,
        ),
{
    let names: Vec<String> = auto_approved_tools(role);
    let mut tools: Vec<(String, Json)> = json::take_object(entry, "tools");
    let ghost start = json::entries_view(tools@);
    let ghost all = text::views(names@);
    let mut i: usize = 0;
    while i < names.len()
        invariant
            i <= names@.len(),
            all == text::views(names@),
            json::entries_view(tools@) == approve_all(start, all.take(i as int)),
        decreases names@.len() - i,
    {
        let mut settings: Vec<(String, Json)> = Vec::new();
        settings.push(("approval_mode".to_owned(), Json::Text("approve".to_owned())));
        assert(json::entries_view(settings@) =~= seq![
            ("approval_mode"@, JsonView::Text("approve"@)),
        ]);
        json::put_key(&mut tools, names[i].as_str(), Json::Object(settings));
        assert(all.take(i + 1).drop_last() =~= all.take(i as int));
        assert(all.take(i + 1).last() == all[i as int]);
        i = i + 1;
    }
    assert(all.take(i as int) =~= all);
    json::put_key(entry, "tools", Json::Object(tools));
}

// ------------------------------------------------------------------ Windows

/// Whether a name can follow a Windows directory as it is: the directory is
/// empty, ends in a separator, or is a drive alone.
pub open spec fn ends_open(dir: Seq<char>) -> bool {
    ||| dir.len() == 0
    ||| dir.last() == '\\'
    ||| dir.last() == '/'
    ||| dir.len() == 2 && dir[1] == ':' && ('a' <= dir[0] <= 'z' || 'A' <= dir[0] <= 'Z')
}

/// A name below a Windows directory.
pub open spec fn windows_join(dir: Seq<char>, name: Seq<char>) -> Seq<char> {
    if ends_open(dir) {
        dir + name
    } else {
        dir + "\\"@ + name
    }
}

/// A name below a Windows directory.
pub fn join_windows(dir: &str, name: &str) -> (out: String)
    ensures
        out@ == windows_join(dir@, name@),
{
    let chars: Vec<char> = text::chars_of(dir);
    let n: usize = chars.len();
    let open: bool = n == 0 || chars[n - 1] == '\\' || chars[n - 1] == '/' || (n == 2 && chars[1]
        == ':' && (('a' <= chars[0] && chars[0] <= 'z') || ('A' <= chars[0] && chars[0] <= 'Z')));
    let mut out: String = dir.to_owned();
    if !open {
        out.append("\\");
    }
    out.append(name);
    out
}

/// Where the npm launchers of Codex may stand: in each directory of the search
/// path, the command script before the PowerShell script.
pub open spec fn shim_candidates(directories: Seq<Seq<char>>) -> Seq<Seq<char>>
    decreases directories.len(),
{
    if directories.len() == 0 {
        Seq::empty()
    } else {
        shim_candidates(directories.drop_last()).push(
            windows_join(directories.last(), "codex.cmd"@),
        ).push(windows_join(directories.last(), "codex.ps1"@))
    }
}

/// Where the npm launchers of Codex may stand, in the order of the search.
pub fn npm_shim_candidates(directories: &Vec<String>) -> (out: Vec<String>)
    ensures
        text::views(out@) == shim_candidates(text::views(directories@)),
{
    let ghost all = text::views(directories@);
    let mut out: Vec<String> = Vec::new();
    assert(text::views(out@) =~= Seq::empty());
    let mut i: usize = 0;
    while i < directories.len()
        invariant
            i <= directories@.len(),
            all == text::views(directories@),
            text::views(out@) == shim_candidates(all.take(i as int)),
        decreases directories@.len() - i,
    {
        let command: String = join_windows(directories[i].as_str(), "codex.cmd");
        let script: String = join_windows(directories[i].as_str(), "codex.ps1");
        text::add_text(&mut out, command.as_str());
        text::add_text(&mut out, script.as_str());
        assert(all.take(i + 1).drop_last() =~= all.take(i as int));
        assert(all.take(i + 1).last() == all[i as int]);
        i = i + 1;
    }
    assert(all.take(i as int) =~= all);
    out
}

/// The script that runs Codex, below the directory of its npm launcher.
pub open spec fn codex_script(base: Seq<char>) -> Seq<char> {
    windows_join(base, "node_modules\\@openai\\codex\\bin\\codex.js"@)
}

/// The script that runs Codex, below the directory of its npm launcher.
pub fn codex_script_path(base: &str) -> (out: String)
    ensures
        out@ == codex_script(base@),
{
    join_windows(base, "node_modules\\@openai\\codex\\bin\\codex.js")
}

/// The Windows host whose Codex launcher stands in `base`: the script below
/// it, run by the Node executable beside the launcher where there is one.
pub fn windows_codex_invocation(base: &str, script_found: bool, node_found: bool) -> (out: Result<
    Host,
    String,
>)
    ensures
        match out {
            Ok(host) => script_found && host@ == (HostView::Windows {
                node: if node_found {
                    windows_join(base@, "node.exe"@)
                } else {
                    "node.exe"@
                },
                script: codex_script(base@),
            }),
            Err(message) => !script_found && message@
                == "Failed to resolve direct Codex launcher script at "@ + codex_script(base@),
        },
{
    let script: String = codex_script_path(base);
    if !script_found {
        let mut message: String = "Failed to resolve direct Codex launcher script at ".to_owned();
        message.append(script.as_str());
        return Err(message);
    }
    let node: String = if node_found {
        join_windows(base, "node.exe")
    } else {
        "node.exe".to_owned()
    };
    Ok(Host::Windows { node, script })
}

/// The tools that need no approval are those of the role: an executor waits, checks,
/// consults and submits; a supervisor creates, reviews and answers; both ask, answer, see
/// the status, reset and renew. Nobody else has any.
pub proof fn law_tools_are_those_of_the_role(tool: Seq<char>, role: Seq<char>)
    ensures
        ({
            let both = tool == "ask_human"@ || tool == "answer"@ || tool == "status"@ || tool
                == "reset"@ || tool == "heartbeat"@;
            &&& approved_tools("executor"@).contains(tool) <==> both || tool == "wait_for_task"@
                || tool == "check"@ || tool == "consult"@ || tool == "submit"@ || tool
                == "wait_for_consult"@ || tool == "wait_for_answer"@
            &&& approved_tools("supervisor"@).contains(tool) <==> both || tool == "create_task"@
                || tool == "create_spec"@ || tool == "wait_for_review"@ || tool
                == "review_pending"@ || tool == "approve"@ || tool == "reject"@ || tool
                == "respond_consult"@
            &&& role != "executor"@ && role != "supervisor"@ ==> approved_tools(role).len() == 0
        }),
{
    reveal_strlit("executor");
    reveal_strlit("supervisor");
    assert("executor"@.len() == 8 && "supervisor"@.len() == 10);
    let e = approved_tools("executor"@);
    assert(e[0] == "wait_for_task"@ && e[1] == "check"@ && e[2] == "consult"@ && e[3]
        == "submit"@ && e[4] == "wait_for_consult"@ && e[5] == "wait_for_answer"@ && e[6]
        == "ask_human"@ && e[7] == "answer"@ && e[8] == "status"@ && e[9] == "reset"@ && e[10]
        == "heartbeat"@);
    let s = approved_tools("supervisor"@);
    assert(s[0] == "create_task"@ && s[1] == "create_spec"@ && s[2] == "wait_for_review"@ && s[3]
        == "review_pending"@ && s[4] == "approve"@ && s[5] == "reject"@ && s[6]
        == "respond_consult"@ && s[7] == "ask_human"@ && s[8] == "answer"@ && s[9] == "status"@
        && s[10] == "reset"@ && s[11] == "heartbeat"@);
}

proof fn lemma_approve_all(
    tools: Seq<(Seq<char>, JsonView)>,
    names: Seq<Seq<char>>,
    tool: Seq<char>,
)
    ensures
        json::field(JsonView::Object(approve_all(tools, names)), tool) == if names.contains(tool) {
            Some(approval())
        } else {
            json::field(JsonView::Object(tools), tool)
        },
    decreases names.len(),
{
    if names.len() > 0 {
        let front = names.drop_last();
        let before = approve_all(tools, front);
        lemma_approve_all(tools, front, tool);
        json::law_set_key_is_found(before, names.last(), approval());
        assert(names[names.len() - 1] == names.last());
        if front.contains(tool) {
            let k = choose|k: int| 0 <= k < front.len() && front[k] == tool;
            assert(names[k] == tool);
        }
        if tool != names.last() {
            json::law_set_key_is_local(before, names.last(), approval(), tool);
            if names.contains(tool) {
                let k = choose|k: int| 0 <= k < names.len() && names[k] == tool;
                assert(front[k] == tool);
            }
        }
    }
}

/// Exactly the tools of the role become approved in a server entry; every other tool and
/// every other setting stays as it was.
pub proof fn law_only_tools_of_the_role_are_approved(
    entry: Seq<(Seq<char>, JsonView)>,
    role: Seq<char>,
    tool: Seq<char>,
    other: Seq<char>,
)
    ensures
        ({
            let after = JsonView::Object(with_approvals(entry, role));
            let tools = json::field(after, "tools"@);
            &&& tools is Some && tools->0 is Object
            &&& approved_tools(role).contains(tool) ==> json::field(tools->0, tool) == Some(
                JsonView::Object(seq![("approval_mode"@, JsonView::Text("approve"@))]),
            )
            &&& !approved_tools(role).contains(tool) ==> json::field(tools->0, tool)
                == json::field(
                JsonView::Object(
                    json::object_entries(json::field(JsonView::Object(entry), "tools"@)),
                ),
                tool,
            )
            &&& other != "tools"@ ==> json::field(after, other) == json::field(
                JsonView::Object(entry),
                other,
            )
        }),
{
    let before = json::object_entries(json::field(JsonView::Object(entry), "tools"@));
    let names = approved_tools(role);
    let value = JsonView::Object(approve_all(before, names));
    json::law_set_key_is_found(entry, "tools"@, value);
    if other != "tools"@ {
        json::law_set_key_is_local(entry, "tools"@, value, other);
    }
    lemma_approve_all(before, names, tool);
}

/// On Windows a name stands below a directory with one separator between: none is added
/// after an empty directory, after one that ends in a separator, or after a drive alone.
pub proof fn law_windows_paths_have_one_separator(dir: Seq<char>, name: Seq<char>)
    ensures
        windows_join(Seq::empty(), name) == name,
        windows_join(dir.push('\\'), name) == dir.push('\\') + name,
        windows_join(dir.push('/'), name) == dir.push('/') + name,
        dir.len() > 2 && dir.last() != '\\' && dir.last() != '/' ==> windows_join(dir, name)
            == dir.push('\\') + name,
        windows_join(seq!['C', ':'], name) == seq!['C', ':'] + name,
{
    reveal_strlit("\\");
    assert(Seq::<char>::empty() + name =~= name);
    assert(dir + "\\"@ =~= dir.push('\\'));
}

/// The launchers are looked for in the order of the search path, the command script of a
/// directory before its other script, and nowhere else.
pub proof fn law_launchers_follow_the_search_path(directories: Seq<Seq<char>>, i: int)
    requires
        0 <= i < directories.len(),
    ensures
        shim_candidates(directories).len() == 2 * directories.len(),
        shim_candidates(directories)[2 * i] == windows_join(directories[i], "codex.cmd"@),
        shim_candidates(directories)[2 * i + 1] == windows_join(directories[i], "codex.ps1"@),
    decreases directories.len(),
{
    let front = directories.drop_last();
    if i < front.len() {
        law_launchers_follow_the_search_path(front, i);
        assert(front[i] == directories[i]);
    } else if front.len() > 0 {
        law_launchers_follow_the_search_path(front, 0);
    } else {
        assert(shim_candidates(front).len() == 0);
    }
}

} // verus!
