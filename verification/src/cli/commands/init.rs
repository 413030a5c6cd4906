//! The files that a new project starts with.
use vstd::prelude::*;
use vstd::string::*;

use crate::agents::claude;
use crate::cli::commands::register;
use crate::config;
use crate::text;

verus! {

/// The start of a new `ferrus.toml`.
pub const TOML_HEAD: &'static str = r#"[checks]
commands = []

[limits]
max_check_retries = 20  # consecutive check failures before state → Failed
max_review_cycles = 3   # reject→fix cycles before state → Failed
max_feedback_lines = 30 # trailing lines per failing command shown in /check and /submit output (full output always in .ferrus/logs/)
wait_timeout_secs = 60 # max duration of a single wait_* tool call before it returns timeout so the agent can poll again

[agents]
"#;

/// The end of a new `ferrus.toml`, to be filled with the name of the first
/// agent.
pub const TOML_TAIL: &'static str = r#" # root directory for agent skill files

[lease]
ttl_secs = 90              # how long a claimed lease is valid without renewal
heartbeat_interval_secs = 30 # how often agents should call /heartbeat

[hq.supervisor]
agent = "§"  # agent to use for supervisor role: § | codex
model = ""             # optional override; empty = agent default

[hq.executor]
agent = "codex"        # agent to use for executor role: § | codex
model = ""             # optional override; empty = agent default
"#;

/// The working guide of supervisors.
pub const SUPERVISOR_SKILL: &'static str = r#"---
name: ferrus-supervisor
description: "Advisory Supervisor playbook for task drafting, review, and consultation quality"
---

# Supervisor Operating Playbook

This file is advisory only.
Runtime workflow is defined by the initial prompt and Ferrus MCP tools.

## Task drafting

- Define the expected outcome clearly
- State relevant constraints and acceptance criteria
- Keep task scope explicit and bounded
- Draft task text that the user can review directly

## Review quality

- Judge correctness against the task, not personal preference
- Focus on regressions, missing requirements, and verification gaps
- Write rejection feedback that is concrete and actionable

## Consultation quality

- Answer the Executor's actual blocker
- Prefer concrete direction over abstract discussion
- Clarify tradeoffs when there is no single obvious answer

## Human interaction

- Confirm task wording with the user before task creation
- Use `/ask_human` only when the answer cannot be reliably derived from the repository or current context

## Useful Ferrus tools

- `/create_task`
- `/wait_for_review`
- `/review_pending`
- `/approve`
- `/reject`
- `/respond_consult`
- `/ask_human`

## Useful Ferrus resources

- `ferrus://task`
- `ferrus://submission`
- `ferrus://review`
- `ferrus://consult_request`
"#;

/// The description of the supervisor role.
pub const SUPERVISOR_ROLE: &'static str = r#"---
name: ferrus-supervisor-role
description: "High-level Supervisor role description and boundaries"
---

# Supervisor Role

High-level description of the Supervisor role.

## Responsibilities

- Define clear, executable tasks
- Review submitted work
- Provide consultation when the Executor is blocked

## Boundaries

- Does not implement Executor work in task-definition or review mode
- Does not bypass Ferrus tools or state transitions
- Does not manipulate `.ferrus/` files to force progress

## Notes

This file is descriptive only.
Runtime behavior is defined by the initial prompt and Ferrus MCP tools.
If this file conflicts with them, follow the prompt and tools.
"#;

/// The working guide of executors.
pub const EXECUTOR_SKILL: &'static str = r#"---
name: ferrus-executor
description: "Advisory Executor playbook for implementation, code navigation, and submission quality"
---

# Executor Operating Playbook

This file is advisory only.
Runtime workflow is defined by the initial prompt and Ferrus MCP tools.

## Implementation guidelines

- Prefer minimal, targeted diffs
- Avoid unrelated refactoring
- Preserve existing project patterns unless the task requires otherwise

## Code navigation

- Start from entrypoints and public interfaces
- Trace dependencies before changing behavior
- Inspect surrounding code before modifying shared logic

## Common pitfalls

- Hidden side effects
- Implicit contracts between modules
- Test coupling and fixture assumptions
- State transitions that depend on tool behavior

## Ferrus guidance

- Use Ferrus tools rather than reconstructing state from `.ferrus/`
- Use `/check` freely during development; prefer TDD where it fits the task
- Run `/check` again immediately before the final `/submit`
- Read Ferrus resources when they help clarify task context
- Use the consultation template when escalating technical uncertainty

## Submission quality

- Provide a clear summary of what changed
- Include concrete manual verification steps
- Mention limitations or follow-up work explicitly when relevant

## Useful Ferrus tools

- `/wait_for_task`
- `/check`
- `/consult`
- `/wait_for_consult`
- `/ask_human`
- `/wait_for_answer`
- `/submit`

## Useful Ferrus resources

- `ferrus://task`
- `ferrus://review`
- `ferrus://consult_template`
- `ferrus://question`
- `ferrus://answer`
"#;

/// The description of the executor role.
pub const EXECUTOR_ROLE: &'static str = r#"---
name: ferrus-executor-role
description: "High-level Executor role description and boundaries"
---

# Executor Role

High-level description of the Executor role.

## Responsibilities

- Implement assigned tasks
- Verify work via `/check`
- Submit completed results via `/submit`

## Boundaries

- Does not approve own work
- Does not redefine the task
- Does not bypass Ferrus tools or state transitions
- Does not emulate Ferrus tool effects by editing `.ferrus/` directly

## Notes

This file is descriptive only.
Runtime behavior is defined by the initial prompt and Ferrus MCP tools.
If this file conflicts with them, follow the prompt and tools.
"#;

/// The form of a consultation request.
pub const CONSULT_TEMPLATE: &'static str = r#"## Problem
...

## What I tried
...

## Options (if any)
...

## Question
...
"#;

/// The overview of the workflow, to be filled with the name of the first agent.
pub const FERRUS_SKILL: &'static str = r#"---
name: ferrus
description: "Use when working on a project that uses ferrus for AI agent orchestration — full tool reference, state machine, resources, prompts, and config"
---

# Ferrus

ferrus is an MCP server that coordinates AI agents in a **Supervisor–Executor** workflow.

This file is supporting context only.
Runtime behavior is defined by the active initial prompt and Ferrus MCP tools.
If this file conflicts with them, follow the prompt and tools.

## Roles

| Role | Responsibility |
|---|---|
| Supervisor | Writes tasks, reviews Executor submissions, approves or rejects |
| Executor | Implements tasks, runs checks during development, and submits when ready |

Two separate `ferrus serve` processes run side-by-side (one per role), coordinating through `.ferrus/` on disk.

Under HQ, agents are usually **one-shot sessions**:
- Executor starts on `Idle → Executing`, claims work via `wait_for_task`, implements, uses `/check` as needed during development, runs `/check` again immediately before final handoff, then calls `/submit` for the final review gate
- HQ then terminates that Executor session and starts the Supervisor in review mode
- If review is rejected, HQ terminates the Supervisor and starts a fresh Executor session for `Addressing`
- That new Executor begins again with `wait_for_task` and receives the latest review context

## State machine

```
Idle
 └─► Executing      ← /create_task (Supervisor)
       ├─► Addressing ← /reject (Supervisor) → work loop
       ├─► Consultation ← /consult (Executor)
       │     └─► (restore previous state) ← /wait_for_consult
       ├─► Reviewing ← /submit final gate pass (Executor)
       │     ├─► [REJECT] Addressing → work loop
       │     └─► Complete ← /approve (Supervisor)
       └─► Failed   ← /check or /submit hits retry limit
```

Any active Executor work state can pause to `Consultation` via `/consult` (executor then calls `/wait_for_consult`
to block until the Supervisor responds via `/respond_consult`, which records `CONSULT_RESPONSE.md`).
Any active state, including `Consultation`, can pause to `AwaitingHuman` via `/ask_human` (executor then calls `/wait_for_answer`
to block until the human responds). The human types their answer in the HQ terminal.
`/reset` moves `Failed → Idle`.

## CLI

```sh
ferrus init [--agents-path <path>]              # scaffold project files and skill files
ferrus serve [--role supervisor|executor]       # start MCP server on stdio
ferrus register --supervisor <a> --supervisor-model <m> --executor <a> --executor-model <m> # write MCP config for agents
```

Set `RUST_LOG=ferrus=debug` (or `info`/`warn`) for verbose logs to stderr.

## HQ (run `ferrus` with no arguments)

| Command | Description |
|---|---|
| `/plan` | Free-form planning session with the supervisor (no task created) |
| `/task` | Define a task with the supervisor, then run executor→review loop |
| `/supervisor` | Open an interactive supervisor session (no initial prompt) |
| `/executor` | Open an interactive executor session (no initial prompt) |
| `/review` | Manually spawn supervisor in review mode (escape hatch) |
| `/resume` | Resume the executor headlessly; also recovers Consultation by relaunching both consultant and executor |
| `/status` | Show task state, agent list, and session log paths |
| `/attach <name>` | Show log path for a running headless agent |
| `/stop` | Stop all running agent sessions |
| `/reset` | Reset state to Idle (clears task files) |
| `/init` | Initialize ferrus in the current directory |
| `/register` | Register agent configs |
| `/model` | Update the supervisor or executor model override |
| `/quit` | Exit HQ |

## MCP tools

### Supervisor
| Tool | From state | Description |
|---|---|---|
| `create_task` | Idle | Write task description; moves to Executing |
| `wait_for_review` | — | Long-poll until state is Reviewing |
| `review_pending` | Reviewing | Read task + submission context |
| `approve` | Reviewing | Accept; moves to Complete |
| `reject` | Reviewing | Reject with notes; moves to Addressing |
| `respond_consult` | Consultation | Record the consultation response and let the Executor resume via `/wait_for_consult` |

### Executor
| Tool | From state | Description |
|---|---|---|
| `wait_for_task` | — | Long-poll until Executing or Addressing |
| `check` | Executing, Addressing | Run all configured checks; use it freely during development and again immediately before final `/submit` |
| `consult` | Executing, Addressing | Ask the Supervisor for guidance; moves to Consultation |
| `wait_for_consult` | Consultation | Block until the Supervisor responds; restores previous state |
| `submit` | Executing, Addressing | Run the final review gate and, on success, write submission notes and move to Reviewing |
| `ask_human` | Executing, Addressing, Consultation, Reviewing | Last-resort human fallback. Write question to QUESTION.md; moves to AwaitingHuman. Call `/wait_for_answer` immediately after. |
| `wait_for_answer` | AwaitingHuman | Block until the human answers; restores previous state and returns the answer |

### Shared
| Tool | From state | Description |
|---|---|---|
| `status` | any | Print current state and counters |
| `reset` | Failed | Return to Idle |
| `heartbeat` | any claimed | Renew lease; returns `{"status":"renewed"}` or `{"status":"error","code":"..."}` |

## MCP resources

| URI | Contents |
|---|---|
| `ferrus://task` | Current task description (`TASK.md`) |
| `ferrus://review` | Supervisor rejection notes (`REVIEW.md`) |
| `ferrus://submission` | Executor submission notes (`SUBMISSION.md`) |
| `ferrus://question` | Pending human question (`QUESTION.md`) |
| `ferrus://answer` | Human answer (`ANSWER.md`) |
| `ferrus://consult_template` | Consultation request template (`CONSULT_TEMPLATE.md`) |
| `ferrus://consult_request` | Pending supervisor consultation request (`CONSULT_REQUEST.md`) |
| `ferrus://consult_response` | Supervisor consultation response (`CONSULT_RESPONSE.md`) |
| `ferrus://state` | Current task state as JSON (`STATE.json`) |

## MCP prompts

| Prompt | Description |
|---|---|
| `executor-context` | State + task + review notes bundled for the Executor |
| `supervisor-review` | State + task + submission notes bundled for the Supervisor |

## ferrus.toml

```toml
[checks]
commands = ["cargo clippy -- -D warnings", "cargo fmt --check", "cargo test"]

[limits]
max_check_retries = 20   # check failures before Failed
max_review_cycles = 3    # reject→fix cycles before Failed
max_feedback_lines = 30  # lines per command shown in /check and /submit output
wait_timeout_secs = 60   # max duration of one wait_* tool call; agents should call again after timeout

[lease]
ttl_secs = 90            # lease validity without renewal
heartbeat_interval_secs = 30  # how often to call /heartbeat

[hq.supervisor]
agent = "§"   # agent for supervisor role: § | codex
model = ""              # optional override; empty = agent default

[hq.executor]
agent = "codex"         # agent for executor role: § | codex
model = ""              # optional override; empty = agent default
```

## Runtime files (`.ferrus/`)

| File | Contents |
|---|---|
| `STATE.json` | State, counters, schema version, timestamp, PID |
| `STATE.lock` | Advisory lock file for atomic claiming |
| `TASK.md` | Task description |
| `REVIEW.md` | Rejection notes |
| `SUBMISSION.md` | Submission notes |
| `QUESTION.md` | Pending human question |
| `ANSWER.md` | Human answer |
| `CONSULT_TEMPLATE.md` | Read-only consultation request template |
| `CONSULT_REQUEST.md` | Pending supervisor consultation request |
| `CONSULT_RESPONSE.md` | Supervisor consultation response |
| `logs/check_<n>_<ts>.txt` | Full check output |
"#;

/// A new `ferrus.toml`.
pub open spec fn default_toml(agents_path: Seq<char>, program: Seq<char>) -> Seq<char> {
    TOML_HEAD@ + "path = \""@ + agents_path + "\""@ + text::filled(
        TOML_TAIL@,
        claude::configured_name(program),
    )
}

/// A new `ferrus.toml`.
pub fn default_ferrus_toml(agents_path: &str, program: &str) -> (out: String)
    ensures
        out@ == default_toml(agents_path@, program@),
{
    let mut out: String = TOML_HEAD.to_owned();
    out.append("path = \"");
    out.append(agents_path);
    out.append("\"");
    out.append(text::fill(TOML_TAIL, claude::name_of(program).as_str()).as_str());
    out
}

/// What a file starts with.
#[derive(Debug, Clone, PartialEq, Eq)]
pub enum Start {
    /// A text.
    Text(String),
    /// The state before any task.
    IdleState,
    /// A registry without agents.
    EmptyRegistry,
}

/// One step of setting a project up. A file that exists is left as it is.
#[derive(Debug, Clone, PartialEq, Eq)]
pub enum InitStep {
    Directory { path: String },
    File { path: String, start: Start },
}

/// The contents of what a file starts with.
pub enum StartView {
    Text(Seq<char>),
    IdleState,
    EmptyRegistry,
}

/// The contents of a step.
pub enum InitView {
    Directory { path: Seq<char> },
    File { path: Seq<char>, start: StartView },
}

impl View for Start {
    type V = StartView;

    open spec fn view(&self) -> StartView {
        match *self {
            Start::Text(s) => StartView::Text(s@),
            Start::IdleState => StartView::IdleState,
            Start::EmptyRegistry => StartView::EmptyRegistry,
        }
    }
}

impl View for InitStep {
    type V = InitView;

    open spec fn view(&self) -> InitView {
        match *self {
            InitStep::Directory { path } => InitView::Directory { path: path@ },
            InitStep::File { path, start } => InitView::File { path: path@, start: start@ },
        }
    }
}

/// The contents of a list of steps.
pub open spec fn init_views(list: Seq<InitStep>) -> Seq<InitView> {
    list.map_values(|s: InitStep| s@)
}

/// The step that makes a directory.
pub open spec fn directory(path: Seq<char>) -> InitView {
    InitView::Directory { path }
}

/// The step that makes a file with a text.
pub open spec fn text_file(path: Seq<char>, content: Seq<char>) -> InitView {
    InitView::File { path, start: StartView::Text(content) }
}

/// A name below a directory.
pub open spec fn below(dir: Seq<char>, name: Seq<char>) -> Seq<char> {
    if dir.len() == 0 {
        name
    } else if dir.last() == '/' {
        dir + name
    } else {
        dir + "/"@ + name
    }
}

/// A name below a directory.
fn below_string(dir: &str, name: &str) -> (out: String)
    ensures
        out@ == below(dir@, name@),
{
    let chars: Vec<char> = text::chars_of(dir);
    if chars.len() == 0 {
        return name.to_owned();
    }
    let mut out: String = dir.to_owned();
    if chars[chars.len() - 1] != '/' {
        out.append("/");
    }
    out.append(name);
    out
}

/// The steps that set up the runtime directory and the one of specifications.
pub open spec fn runtime_steps() -> Seq<InitView> {
    seq![
        directory(".ferrus/logs"@),
        text_file(".ferrus/CONSULT_TEMPLATE.md"@, CONSULT_TEMPLATE@),
        InitView::File { path: ".ferrus/STATE.json"@, start: StartView::IdleState },
        text_file(".ferrus/TASK.md"@, ""@),
        text_file(".ferrus/REVIEW.md"@, ""@),
        text_file(".ferrus/SUBMISSION.md"@, ""@),
        text_file(".ferrus/QUESTION.md"@, ""@),
        text_file(".ferrus/ANSWER.md"@, ""@),
        text_file(".ferrus/CONSULT_REQUEST.md"@, ""@),
        text_file(".ferrus/CONSULT_RESPONSE.md"@, ""@),
        text_file(".ferrus/STATE.lock"@, ""@),
        InitView::File { path: ".ferrus/agents.json"@, start: StartView::EmptyRegistry },
        directory(config::DEFAULT_SPEC_DIRECTORY@),
    ]
}

/// The steps that set up the guides of agents.
pub open spec fn skill_steps(agents_path: Seq<char>, program: Seq<char>) -> Seq<InitView> {
    let root = below(agents_path, "skills"@);
    let general = root + "/ferrus"@;
    let supervisor = root + "/ferrus-supervisor"@;
    let executor = root + "/ferrus-executor"@;
    seq![
        directory(general),
        text_file(
            general + "/SKILL.md"@,
            text::filled(FERRUS_SKILL@, claude::configured_name(program)),
        ),
        directory(supervisor),
        text_file(supervisor + "/SKILL.md"@, SUPERVISOR_SKILL@),
        text_file(supervisor + "/ROLE.md"@, SUPERVISOR_ROLE@),
        directory(executor),
        text_file(executor + "/SKILL.md"@, EXECUTOR_SKILL@),
        text_file(executor + "/ROLE.md"@, EXECUTOR_ROLE@),
    ]
}

/// The steps that set a project up.
pub open spec fn init_steps(agents_path: Seq<char>, program: Seq<char>) -> Seq<InitView> {
    seq![text_file("ferrus.toml"@, default_toml(agents_path, program))] + runtime_steps()
        + skill_steps(agents_path, program)
}

/// Adds the step that makes a directory.
fn add_directory(list: &mut Vec<InitStep>, path: &str)
    ensures
        init_views(final(list)@) == init_views(old(list)@).push(directory(path@)),
{
    let ghost before = list@;
    list.push(InitStep::Directory { path: path.to_owned() });
    assert(init_views(list@) =~= init_views(before).push(directory(path@)));
}

/// Adds the step that makes a file.
fn add_file(list: &mut Vec<InitStep>, path: &str, start: Start)
    ensures
        init_views(final(list)@) == init_views(old(list)@).push(
            InitView::File { path: path@, start: start@ },
        ),
{
    let ghost before = list@;
    let ghost shown = start@;
    list.push(InitStep::File { path: path.to_owned(), start });
    assert(init_views(list@) =~= init_views(before).push(
        InitView::File { path: path@, start: shown },
    ));
}

/// Adds the step that makes a file with a text.
fn add_text_file(list: &mut Vec<InitStep>, path: &str, content: &str)
    ensures
        init_views(final(list)@) == init_views(old(list)@).push(text_file(path@, content@)),
{
    add_file(list, path, Start::Text(content.to_owned()));
}

/// Adds the steps that set up the runtime directory and the one of
/// specifications.
fn create_ferrus_dir(list: &mut Vec<InitStep>)
    ensures
        init_views(final(list)@) == init_views(old(list)@) + runtime_steps(),
{
    let ghost before = init_views(list@);
    add_directory(list, ".ferrus/logs");
    add_text_file(list, ".ferrus/CONSULT_TEMPLATE.md", CONSULT_TEMPLATE);
    add_file(list, ".ferrus/STATE.json", Start::IdleState);
    add_text_file(list, ".ferrus/TASK.md", "");
    add_text_file(list, ".ferrus/REVIEW.md", "");
    add_text_file(list, ".ferrus/SUBMISSION.md", "");
    add_text_file(list, ".ferrus/QUESTION.md", "");
    add_text_file(list, ".ferrus/ANSWER.md", "");
    add_text_file(list, ".ferrus/CONSULT_REQUEST.md", "");
    add_text_file(list, ".ferrus/CONSULT_RESPONSE.md", "");
    add_text_file(list, ".ferrus/STATE.lock", "");
    add_file(list, ".ferrus/agents.json", Start::EmptyRegistry);
    add_directory(list, config::DEFAULT_SPEC_DIRECTORY);
    assert(init_views(list@) =~= before + runtime_steps());
}

/// Adds the steps that set up the guides of one role.
fn add_role_files(list: &mut Vec<InitStep>, dir: &str, skill: &str, role: &str)
    ensures
        init_views(final(list)@) == init_views(old(list)@).push(directory(dir@)).push(
            text_file(dir@ + "/SKILL.md"@, skill@),
        ).push(text_file(dir@ + "/ROLE.md"@, role@)),
{
    let mut skill_path: String = dir.to_owned();
    skill_path.append("/SKILL.md");
    let mut role_path: String = dir.to_owned();
    role_path.append("/ROLE.md");
    add_directory(list, dir);
    add_text_file(list, skill_path.as_str(), skill);
    add_text_file(list, role_path.as_str(), role);
}

/// Adds the steps that set up the guides of agents.
fn create_skill_files(list: &mut Vec<InitStep>, agents_path: &str, program: &str)
    ensures
        init_views(final(list)@) == init_views(old(list)@) + skill_steps(agents_path@, program@),
{
    let ghost before = init_views(list@);
    let root: String = below_string(agents_path, "skills");
    let mut general: String = root.clone();
    general.append("/ferrus");
    let mut skill_path: String = general.clone();
    skill_path.append("/SKILL.md");
    add_directory(list, general.as_str());
    let guide: String = text::fill(FERRUS_SKILL, claude::name_of(program).as_str());
    add_text_file(list, skill_path.as_str(), guide.as_str());
    let mut supervisor: String = root.clone();
    supervisor.append("/ferrus-supervisor");
    add_role_files(list, supervisor.as_str(), SUPERVISOR_SKILL, SUPERVISOR_ROLE);
    let mut executor: String = root;
    executor.append("/ferrus-executor");
    add_role_files(list, executor.as_str(), EXECUTOR_SKILL, EXECUTOR_ROLE);
    assert(init_views(list@) =~= before + skill_steps(agents_path@, program@));
}

/// The steps that set a project up, where the program of the first agent is
/// called `program`.
pub fn run(agents_path: &str, program: &str) -> (out: Vec<InitStep>)
    ensures
        init_views(out@) == init_steps(agents_path@, program@),
{
    let mut out: Vec<InitStep> = Vec::new();
    let toml: String = default_ferrus_toml(agents_path, program);
    add_text_file(&mut out, "ferrus.toml", toml.as_str());
    create_ferrus_dir(&mut out);
    create_skill_files(&mut out, agents_path, program);
    assert(init_views(out@) =~= init_steps(agents_path@, program@));
    out
}

/// The files that a new project ignores.
pub open spec fn ignored(program: Seq<char>) -> Seq<Seq<char>> {
    seq![
        ".ferrus/"@,
        register::local_settings(program),
        "."@ + program + "/.mcp.json"@,
        ".mcp.json"@,
        ".codex/config.toml"@,
    ]
}

/// The list of ignored files of a new project: what is there with the entries
/// that it lacks, or those entries alone.
pub open spec fn ignore_text(existing: Option<Seq<char>>, program: Seq<char>) -> Seq<char> {
    match existing {
        Some(contents) => register::ignore_all(contents, ignored(program)).0,
        None => text::join(ignored(program), "\n"@) + "\n"@,
    }
}

/// The list of ignored files of a new project, and the entries that were added
/// to an existing one.
pub fn update_gitignore(existing: Option<&str>, program: &str) -> (out: register::IgnoreUpdate)
    ensures
        out.contents@ == ignore_text(text::opt_str_view(existing), program@),
        text::views(out.added@) == match existing {
            Some(contents) => register::ignore_all(contents@, ignored(program@)).1,
            None => ignored(program@),
        },
{
    let mut entries: Vec<String> = Vec::new();
    text::add_text(&mut entries, ".ferrus/");
    text::add_text(&mut entries, register::local_settings_file(program).as_str());
    let mut servers: String = ".".to_owned();
    servers.append(program);
    servers.append("/.mcp.json");
    text::add_text(&mut entries, servers.as_str());
    text::add_text(&mut entries, ".mcp.json");
    text::add_text(&mut entries, ".codex/config.toml");
    assert(text::views(entries@) =~= ignored(program@));
    match existing {
        Some(contents) => register::update_gitignore(contents, &entries),
        None => {
            let mut contents: String = text::join_strings(&entries, "\n");
            contents.append("\n");
            register::IgnoreUpdate { contents, added: entries }
        },
    }
}

/// A name below a directory starts with the directory and ends with the name, with
/// one separator between them.
pub proof fn law_name_stands_below(dir: Seq<char>, name: Seq<char>)
    requires
        dir.len() > 0,
    ensures
        dir.is_prefix_of(below(dir, name)),
        name.is_suffix_of(below(dir, name)),
        below(dir, name)[below(dir, name).len() - name.len() - 1] == '/',
        below(dir, name).len() == dir.len() + name.len() + if dir.last() == '/' {
            0int
        } else {
            1
        },
{
    reveal_strlit("/");
    let path = below(dir, name);
    assert(path.subrange(path.len() - name.len(), path.len() as int) =~= name);
    assert(path.subrange(0, dir.len() as int) =~= dir);
}

/// A new project starts without a task: its state is idle, no agent is registered,
/// and the files of a task are there and empty.
pub proof fn law_new_project_is_idle(agents_path: Seq<char>, program: Seq<char>)
    ensures
        init_steps(agents_path, program).contains(
            InitView::File { path: ".ferrus/STATE.json"@, start: StartView::IdleState },
        ),
        init_steps(agents_path, program).contains(
            InitView::File { path: ".ferrus/agents.json"@, start: StartView::EmptyRegistry },
        ),
        forall|path: Seq<char>|
            path == ".ferrus/TASK.md"@ || path == ".ferrus/REVIEW.md"@ || path
                == ".ferrus/SUBMISSION.md"@ || path == ".ferrus/QUESTION.md"@ || path
                == ".ferrus/ANSWER.md"@ || path == ".ferrus/CONSULT_REQUEST.md"@ || path
                == ".ferrus/CONSULT_RESPONSE.md"@ || path == ".ferrus/STATE.lock"@
                ==> #[trigger] init_steps(agents_path, program).contains(
                InitView::File { path, start: StartView::Text(""@) },
            ),
        init_steps(agents_path, program).contains(InitView::Directory { path: ".ferrus/logs"@ }),
        init_steps(agents_path, program).contains(InitView::Directory { path: "docs/specs"@ }),
{
    let steps = init_steps(agents_path, program);
    let empty = StartView::Text(""@);
    assert(steps[1] == InitView::Directory { path: ".ferrus/logs"@ });
    assert(steps[3] == InitView::File { path: ".ferrus/STATE.json"@, start: StartView::IdleState });
    assert(steps[4] == InitView::File { path: ".ferrus/TASK.md"@, start: empty });
    assert(steps[5] == InitView::File { path: ".ferrus/REVIEW.md"@, start: empty });
    assert(steps[6] == InitView::File { path: ".ferrus/SUBMISSION.md"@, start: empty });
    assert(steps[7] == InitView::File { path: ".ferrus/QUESTION.md"@, start: empty });
    assert(steps[8] == InitView::File { path: ".ferrus/ANSWER.md"@, start: empty });
    assert(steps[9] == InitView::File { path: ".ferrus/CONSULT_REQUEST.md"@, start: empty });
    assert(steps[10] == InitView::File { path: ".ferrus/CONSULT_RESPONSE.md"@, start: empty });
    assert(steps[11] == InitView::File { path: ".ferrus/STATE.lock"@, start: empty });
    assert(steps[12] == InitView::File {
        path: ".ferrus/agents.json"@,
        start: StartView::EmptyRegistry,
    });
    assert(steps[13] == InitView::Directory { path: "docs/specs"@ });
}

/// Every role has its guides, below the directory of agents that the user chose, and
/// the directory of each is made before what it holds; the settings name that
/// directory.
pub proof fn law_roles_have_their_guides(agents_path: Seq<char>, program: Seq<char>)
    ensures
        init_steps(agents_path, program).len() == 22,
        forall|i: int|
            14 <= i < 22 ==> below(agents_path, "skills"@).is_prefix_of(
                match #[trigger] init_steps(agents_path, program)[i] {
                    InitView::Directory { path } => path,
                    InitView::File { path, start: _ } => path,
                },
            ),
        init_steps(agents_path, program)[16] == (InitView::Directory {
            path: below(agents_path, "skills"@) + "/ferrus-supervisor"@,
        }),
        init_steps(agents_path, program)[17] == (InitView::File {
            path: below(agents_path, "skills"@) + "/ferrus-supervisor"@ + "/SKILL.md"@,
            start: StartView::Text(SUPERVISOR_SKILL@),
        }),
        init_steps(agents_path, program)[18] == (InitView::File {
            path: below(agents_path, "skills"@) + "/ferrus-supervisor"@ + "/ROLE.md"@,
            start: StartView::Text(SUPERVISOR_ROLE@),
        }),
        init_steps(agents_path, program)[19] == (InitView::Directory {
            path: below(agents_path, "skills"@) + "/ferrus-executor"@,
        }),
        init_steps(agents_path, program)[20] == (InitView::File {
            path: below(agents_path, "skills"@) + "/ferrus-executor"@ + "/SKILL.md"@,
            start: StartView::Text(EXECUTOR_SKILL@),
        }),
        init_steps(agents_path, program)[21] == (InitView::File {
            path: below(agents_path, "skills"@) + "/ferrus-executor"@ + "/ROLE.md"@,
            start: StartView::Text(EXECUTOR_ROLE@),
        }),
        (TOML_HEAD@ + "path = \""@ + agents_path + "\""@).is_prefix_of(
            default_toml(agents_path, program),
        ),
{
}

/// A new project ignores its runtime directory and the settings of every agent,
/// which stand on lines of their own.
pub proof fn law_local_files_are_ignored(program: Seq<char>)
    ensures
        ignored(program).contains(".ferrus/"@),
        ignored(program).contains("."@ + program + "/.mcp.json"@),
        ignored(program).contains(".mcp.json"@),
        ignored(program).contains(".codex/config.toml"@),
        ignored(program).contains(register::local_settings(program)),
        ignore_text(None, program) == ignored(program)[0] + "\n"@ + ignored(program)[1] + "\n"@
            + ignored(program)[2] + "\n"@ + ignored(program)[3] + "\n"@ + ignored(program)[4]
            + "\n"@,
{
    let list = ignored(program);
    assert(list[0] == ".ferrus/"@);
    assert(list[1] == register::local_settings(program));
    assert(list[2] == "."@ + program + "/.mcp.json"@);
    assert(list[3] == ".mcp.json"@);
    assert(list[4] == ".codex/config.toml"@);
    reveal_with_fuel(text::join, 6);
    assert(ignore_text(None, program) =~= list[0] + "\n"@ + list[1] + "\n"@ + list[2] + "\n"@
        + list[3] + "\n"@ + list[4] + "\n"@);
}

} // verus!
