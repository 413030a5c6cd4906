//! Sessions and what becomes of them: how an interactive one ends, answers to
//! questions, giving a task up, and the workspace that an executor gets.
use vstd::prelude::*;
use vstd::string::*;

use crate::agent_id;
use crate::agents::claude;
use crate::checks::runner;
use crate::checks::runner::{CheckResult, CommandResult};
use crate::clock::Instant;
use crate::config::HqRole;
use crate::hq::agent_manager;
use crate::hq::agent_manager::{AgentEntry, AgentStatus, AgentView, AgentsRegistry};
use crate::hq::schedule;
use crate::hq::schedule::{Session, SessionView};
use crate::project::store;
use crate::project::store::{Payload, Store, StoreView};
use crate::project::tasks;
use crate::project::{HumanQuestion, TaskHumanAnswerRestore, TaskView};
use crate::state;
use crate::state::{StateData, StateView, TaskState};
use crate::text;

verus! {

// ------------------------------------------------------------------ interactive sessions

/// How much of what a session writes as errors is kept.
pub const STDERR_LIMIT: usize = 8192;

/// The end of some bytes.
pub open spec fn tail(bytes: Seq<u8>, limit: nat) -> Seq<u8> {
    if bytes.len() <= limit {
        bytes
    } else {
        bytes.skip(bytes.len() - limit)
    }
}

/// Adds what a session wrote, and keeps only the end of it all.
pub fn tee_interactive_stderr(captured: &mut Vec<u8>, chunk: &Vec<u8>)
    ensures
        final(captured)@ == tail(old(captured)@ + chunk@, STDERR_LIMIT as nat),
{
    let ghost before = captured@;
    let mut i: usize = 0;
    while i < chunk.len()
        invariant
            i <= chunk@.len(),
            captured@ == before + chunk@.take(i as int),
        decreases chunk@.len() - i,
    {
        captured.push(chunk[i]);
        assert(captured@ =~= before + chunk@.take(i + 1));
        i = i + 1;
    }
    assert(captured@ =~= before + chunk@);
    if captured.len() > STDERR_LIMIT {
        let extra: usize = captured.len() - STDERR_LIMIT;
        let kept: Vec<u8> = captured.split_off(extra);
        *captured = kept;
        assert(captured@ =~= tail(before + chunk@, STDERR_LIMIT as nat));
    }
}

/// What is kept does not depend on the pieces in which it was written.
pub proof fn law_tail_ignores_pieces(first: Seq<u8>, second: Seq<u8>, limit: nat)
    ensures
        tail(tail(first, limit) + second, limit) == tail(first + second, limit),
        tail(first, limit).len() <= limit,
{
    assert(tail(tail(first, limit) + second, limit) =~= tail(first + second, limit));
}

/// What a session wrote as errors, as text.
pub fn finish_interactive_stderr(captured: &Vec<u8>) -> (out: String)
    ensures
        out@ == text::trim(runner::lossy_text(captured@)),
{
    text::trim_string(runner::text_of_bytes(captured).as_str())
}

/// What is said of an interactive session that ended with a fault.
pub open spec fn exit_text(
    role: Seq<char>,
    agent_type: Seq<char>,
    status: Seq<char>,
    stderr: Seq<char>,
) -> Seq<char> {
    let head = role + " agent ("@ + agent_type + ") exited with "@ + status;
    if text::trim(stderr).len() == 0 {
        head
    } else {
        head + "\n\nstderr:\n"@ + text::trim(stderr)
    }
}

/// What is said of an interactive session that ended with a fault.
pub fn interactive_exit_error(role: &str, agent_type: &str, status: &str, stderr: &str) -> (out:
    String)
    ensures
        out@ == exit_text(role@, agent_type@, status@, stderr@),
{
    let mut out: String = role.to_owned();
    out.append(" agent (");
    out.append(agent_type);
    out.append(") exited with ");
    out.append(status);
    let trimmed: String = text::trim_string(stderr);
    let chars: Vec<char> = text::chars_of(trimmed.as_str());
    if chars.len() > 0 {
        out.append("\n\nstderr:\n");
        out.append(trimmed.as_str());
    }
    out
}

/// What is done to let an interactive session end.
#[derive(Debug, Clone, Copy, PartialEq, Eq, Structural)]
pub enum StopStep {
    /// Wait so many milliseconds for it to end by itself.
    Wait(u64),
    /// Ask it to end.
    Terminate,
    /// End it.
    Kill,
    /// Wait for it, however long that takes.
    Reap,
    /// Pause, so that the terminal settles.
    Pause(u64),
}

/// The first wait for a session to end by itself.
pub const FIRST_WAIT_MILLIS: u64 = 1500;

/// The wait for a session that was asked to end.
pub const SECOND_WAIT_MILLIS: u64 = 800;

/// The pause after a session that had to be asked.
pub const SETTLE_MILLIS: u64 = 100;

/// The step after a step; `ended` tells whether the session has ended.
pub open spec fn next_stop(last: Option<StopStep>, ended: bool) -> Option<StopStep> {
    match last {
        None => Some(StopStep::Wait(FIRST_WAIT_MILLIS)),
        Some(StopStep::Wait(millis)) => if millis == FIRST_WAIT_MILLIS {
            if ended {
                None
            } else {
                Some(StopStep::Terminate)
            }
        } else if ended {
            Some(StopStep::Pause(SETTLE_MILLIS))
        } else {
            Some(StopStep::Kill)
        },
        Some(StopStep::Terminate) => Some(StopStep::Wait(SECOND_WAIT_MILLIS)),
        Some(StopStep::Kill) => Some(StopStep::Reap),
        Some(StopStep::Reap) => Some(StopStep::Pause(SETTLE_MILLIS)),
        Some(StopStep::Pause(_)) => None,
    }
}

/// The step after some steps; `ended` tells whether the session has ended.
pub fn stop_interactive_child(last: Option<StopStep>, ended: bool) -> (out: Option<StopStep>)
    ensures
        out == next_stop(last, ended),
{
    match last {
        None => Some(StopStep::Wait(FIRST_WAIT_MILLIS)),
        Some(StopStep::Wait(millis)) => {
            if millis == FIRST_WAIT_MILLIS {
                if ended {
                    None
                } else {
                    Some(StopStep::Terminate)
                }
            } else if ended {
                Some(StopStep::Pause(SETTLE_MILLIS))
            } else {
                Some(StopStep::Kill)
            }
        },
        Some(StopStep::Terminate) => Some(StopStep::Wait(SECOND_WAIT_MILLIS)),
        Some(StopStep::Kill) => Some(StopStep::Reap),
        Some(StopStep::Reap) => Some(StopStep::Pause(SETTLE_MILLIS)),
        Some(StopStep::Pause(_)) => None,
    }
}

/// How many steps can follow a step.
pub open spec fn stop_rank(last: Option<StopStep>) -> nat {
    match last {
        None => 7,
        Some(StopStep::Wait(millis)) => if millis == FIRST_WAIT_MILLIS {
            6
        } else {
            4
        },
        Some(StopStep::Terminate) => 5,
        Some(StopStep::Kill) => 3,
        Some(StopStep::Reap) => 2,
        Some(StopStep::Pause(_)) => 1,
    }
}

/// Stopping a session comes to an end, and a session that has not ended by then
/// was killed and waited for.
pub proof fn law_stopping_ends(last: Option<StopStep>, ended: bool)
    ensures
        next_stop(last, ended) is Some ==> stop_rank(next_stop(last, ended)) < stop_rank(last),
        next_stop(last, ended) is None ==> ended || last matches Some(StopStep::Pause(_)),
        next_stop(last, ended) matches Some(StopStep::Pause(_)) ==> ended || last == Some(
            StopStep::Reap,
        ),
        next_stop(last, ended) == Some(StopStep::Reap) ==> last == Some(StopStep::Kill),
{
}

/// The name of a role as it is shown.
pub open spec fn role_title(role: HqRole) -> Seq<char> {
    match role {
        HqRole::Supervisor => "Supervisor"@,
        HqRole::Executor => "Executor"@,
    }
}

/// The name of a role in the ids of agents.
pub open spec fn role_word(role: HqRole) -> Seq<char> {
    match role {
        HqRole::Supervisor => agent_id::ROLE_SUPERVISOR@,
        HqRole::Executor => agent_id::ROLE_EXECUTOR@,
    }
}

impl HqRole {
    /// The name of the role as it is shown.
    pub fn display_name(&self) -> (out: &'static str)
        ensures
            out@ == role_title(*self),
    {
        match self {
            HqRole::Supervisor => "Supervisor",
            HqRole::Executor => "Executor",
        }
    }

    /// The name of the role in the ids of agents.
    pub fn word(&self) -> (out: &'static str)
        ensures
            out@ == role_word(*self),
    {
        match self {
            HqRole::Supervisor => agent_id::ROLE_SUPERVISOR,
            HqRole::Executor => agent_id::ROLE_EXECUTOR,
        }
    }
}

/// The id of the agent of a role; its name is missing where it is not
/// configured.
pub fn role_agent_id(role: HqRole, vendor: Option<&str>) -> (out: Result<String, String>)
    ensures
        match out {
            Ok(id) => vendor is Some && id@ == agent_id::agent_name(
                role_word(role),
                vendor->0@,
                agent_id::DEFAULT_AGENT_INDEX,
            ),
            Err(message) => vendor is None && message@ == role_title(role)
                + " agent is not configured"@,
        },
{
    match vendor {
        Some(name) => Ok(agent_id::agent_id(role.word(), name, agent_id::DEFAULT_AGENT_INDEX)),
        None => {
            let mut message: String = role.display_name().to_owned();
            message.append(" agent is not configured");
            Err(message)
        },
    }
}

/// What an interactive session is for.
#[derive(Debug, Clone, Copy, PartialEq, Eq, Structural)]
pub enum Purpose {
    Planning,
    TaskDefinition,
    BatchPreparation,
    SpecDrafting,
    Open,
}

/// What is said of the purpose of a session.
pub open spec fn purpose_text(purpose: Purpose) -> Seq<char> {
    match purpose {
        Purpose::Planning => " for free-form planning…"@,
        Purpose::TaskDefinition => "…"@,
        Purpose::BatchPreparation => " for batch task preparation…"@,
        Purpose::SpecDrafting => " for specification drafting…"@,
        Purpose::Open => " interactively…"@,
    }
}

/// What is said when an interactive session starts.
pub fn spawning_message(role: HqRole, vendor: &str, purpose: Purpose) -> (out: String)
    ensures
        out@ == "Spawning "@ + role_word(role) + " ("@ + vendor@ + ")"@ + purpose_text(purpose),
{
    let mut out: String = "Spawning ".to_owned();
    out.append(role.word());
    out.append(" (");
    out.append(vendor);
    out.append(")");
    out.append(
        match purpose {
            Purpose::Planning => " for free-form planning…",
            Purpose::TaskDefinition => "…",
            Purpose::BatchPreparation => " for batch task preparation…",
            Purpose::SpecDrafting => " for specification drafting…",
            Purpose::Open => " interactively…",
        },
    );
    out
}

/// What is said when the configuration names no agents.
pub const NO_AGENTS: &'static str = "No [hq.supervisor] / [hq.executor] sections in ferrus.toml.";

/// What is said when the configuration names no agents and has to, to be filled
/// with the name of the first agent.
pub const NO_AGENTS_HELP: &'static str =
    "No [hq.supervisor] / [hq.executor] sections in ferrus.toml. Add:\n[hq.supervisor]\nagent = \"§\"\nmodel = \"\"\n\n[hq.executor]\nagent = \"codex\"\nmodel = \"\"";

/// What is said when the configuration names no agents and has to.
pub fn no_agents_help(program: &str) -> (out: String)
    ensures
        out@ == text::filled(NO_AGENTS_HELP@, claude::configured_name(program@)),
{
    text::fill(NO_AGENTS_HELP, claude::name_of(program).as_str())
}

/// What is said of a new model of a role.
pub open spec fn model_text(role: HqRole, model: Option<Seq<char>>) -> Seq<char> {
    match model {
        Some(name) => role_title(role) + " model set to \""@ + name + "\""@,
        None => role_title(role) + " model cleared"@,
    }
}

/// What is said of a new model of a role.
pub fn update_model(role: HqRole, model: Option<&str>) -> (out: String)
    ensures
        out@ == model_text(role, text::opt_str_view(model)),
{
    let mut out: String = role.display_name().to_owned();
    match model {
        Some(name) => {
            out.append(" model set to \"");
            out.append(name);
            out.append("\"");
        },
        None => {
            out.append(" model cleared");
        },
    }
    out
}

// ------------------------------------------------------------------ headless sessions

/// What becomes of the place of a session before a new one starts.
#[derive(Debug, Clone, PartialEq, Eq)]
pub enum Slot {
    /// It is free.
    Free,
    /// Its session has ended: take its outcome, then it is free.
    Reap,
    /// Its session runs: start none, and say so.
    Busy(String),
}

/// The position of the first session with a name; the number of sessions where
/// there is none.
pub open spec fn session_at(sessions: Seq<SessionView>, name: Seq<char>) -> int {
    text::index_of(sessions.map_values(|s: SessionView| s.name), name)
}

/// The position of the first session with a name.
fn find_session(sessions: &Vec<Session>, name: &str) -> (out: Option<usize>)
    ensures
        match out {
            Some(i) => i < sessions@.len() && i == session_at(
                schedule::session_views(sessions@),
                name@,
            ) && sessions@[i as int].name@ == name@,
            None => session_at(schedule::session_views(sessions@), name@) == sessions@.len(),
        },
{
    let ghost names = schedule::session_views(sessions@).map_values(|s: SessionView| s.name);
    let mut i: usize = 0;
    while i < sessions.len()
        invariant
            i <= sessions@.len(),
            names == schedule::session_views(sessions@).map_values(|s: SessionView| s.name),
            forall|k: int| 0 <= k < i ==> #[trigger] names[k] != name@,
        decreases sessions@.len() - i,
    {
        assert(names[i as int] == sessions@[i as int].name@);
        if text::same(sessions[i].name.as_str(), name) {
            proof {
                text::lemma_index_of_unique(names, name@, i as int);
            }
            return Some(i);
        }
        i = i + 1;
    }
    proof {
        text::lemma_index_of_unique(names, name@, i as int);
    }
    None
}

/// What becomes of the place of a session before a new one starts.
pub fn prepare_headless_slot(sessions: &Vec<Session>, name: &str) -> (out: Slot)
    ensures
        ({
            let all = schedule::session_views(sessions@);
            let at = session_at(all, name@);
            if at == all.len() {
                out == Slot::Free
            } else if all[at].alive {
                out matches Slot::Busy(message) && message@ == name@ + " is already running."@
            } else {
                out == Slot::Reap
            }
        }),
{
    match find_session(sessions, name) {
        None => Slot::Free,
        Some(i) => {
            assert(schedule::session_views(sessions@)[i as int] == sessions@[i as int]@);
            if sessions[i].alive {
                let mut message: String = name.to_owned();
                message.append(" is already running.");
                Slot::Busy(message)
            } else {
                Slot::Reap
            }
        },
    }
}

/// What is said when a headless session starts.
pub fn headless_message(name: &str, log_path: &str) -> (out: String)
    ensures
        out@ == "  • Spawning "@ + name@ + "…\n  ╰─ Logs: "@ + log_path@ + "\n\n"@,
{
    let mut out: String = "  • Spawning ".to_owned();
    out.append(name);
    out.append("…\n  ╰─ Logs: ");
    out.append(log_path);
    out.append("\n\n");
    out
}

/// The line of a session in a status report.
pub open spec fn session_line(session: SessionView) -> Seq<char> {
    "  "@ + session.name + " ("@ + (if session.alive {
        "running"@
    } else {
        "exited"@
    }) + ") — tail logs: "@ + session.log_path
}

/// The headless sessions in a status report; nothing where there are none.
pub fn headless_lines(sessions: &Vec<Session>) -> (out: Option<Vec<String>>)
    ensures
        match out {
            None => sessions@.len() == 0,
            Some(lines) => sessions@.len() > 0 && text::views(lines@) == seq!["Headless agents:"@]
                + schedule::session_views(sessions@).map_values(|s: SessionView| session_line(s)),
        },
{
    if sessions.len() == 0 {
        return None;
    }
    let ghost shown = schedule::session_views(sessions@);
    let ghost all = shown.map_values(|s: SessionView| session_line(s));
    let mut lines: Vec<String> = text::one_text("Headless agents:");
    let ghost start = text::views(lines@);
    assert(start + all.take(0) =~= start);
    let mut i: usize = 0;
    while i < sessions.len()
        invariant
            i <= sessions@.len(),
            shown == schedule::session_views(sessions@),
            all == shown.map_values(|s: SessionView| session_line(s)),
            text::views(lines@) == start + all.take(i as int),
        decreases sessions@.len() - i,
    {
        assert(shown[i as int] == sessions@[i as int]@);
        let mut line: String = "  ".to_owned();
        line.append(sessions[i].name.as_str());
        line.append(" (");
        line.append(
            if sessions[i].alive {
                "running"
            } else {
                "exited"
            },
        );
        line.append(") — tail logs: ");
        line.append(sessions[i].log_path.as_str());
        text::add_text(&mut lines, line.as_str());
        assert(text::views(lines@) =~= start + all.take(i + 1));
        i = i + 1;
    }
    assert(all.take(i as int) =~= all);
    Some(lines)
}

/// Where the log of a session is, or that there is no such session.
pub fn attach(sessions: &Vec<Session>, name: &str) -> (out: Result<String, String>)
    ensures
        ({
            let all = schedule::session_views(sessions@);
            let at = session_at(all, name@);
            match out {
                Ok(message) => at < all.len() && message@ == name@
                    + " runs headlessly — no terminal to attach.\nTail its log to observe: tail -f "@
                    + all[at].log_path,
                Err(message) => at == all.len() && message@ == "No agent named '"@ + name@
                    + "'. Run /status to see active agents."@,
            }
        }),
{
    match find_session(sessions, name) {
        Some(i) => {
            assert(schedule::session_views(sessions@)[i as int] == sessions@[i as int]@);
            let mut out: String = name.to_owned();
            out.append(
                " runs headlessly — no terminal to attach.\nTail its log to observe: tail -f ",
            );
            out.append(sessions[i].log_path.as_str());
            Ok(out)
        },
        None => {
            let mut out: String = "No agent named '".to_owned();
            out.append(name);
            out.append("'. Run /status to see active agents.");
            Err(out)
        },
    }
}

// ------------------------------------------------------------------ the registry

/// The agents, none of which runs any more.
pub open spec fn all_suspended(agents: Seq<AgentView>) -> Seq<AgentView> {
    agents.map_values(|a: AgentView| agent_manager::suspended(a))
}

/// An agent as it is once the processes that are alive are known.
pub open spec fn reconciled(agent: AgentView, alive: Seq<u32>) -> AgentView {
    if agent.status == AgentStatus::Running && !(agent.pid is Some && alive.contains(
        agent.pid->0,
    )) {
        agent_manager::suspended(agent)
    } else {
        agent
    }
}

/// The entry of an agent that no longer runs.
fn suspended_entry(entry: &AgentEntry) -> (out: AgentEntry)
    ensures
        out@ == agent_manager::suspended(entry@),
{
    AgentEntry {
        role: entry.role.clone(),
        agent_type: entry.agent_type.clone(),
        name: entry.name.clone(),
        pid: None,
        status: AgentStatus::Suspended,
        started_at: entry.started_at,
    }
}

/// Whether a process is among those that are alive.
fn pid_among(alive: &Vec<u32>, pid: u32) -> (out: bool)
    ensures
        out == alive@.contains(pid),
{
    let mut i: usize = 0;
    while i < alive.len()
        invariant
            i <= alive@.len(),
            forall|k: int| 0 <= k < i ==> #[trigger] alive@[k] != pid,
        decreases alive@.len() - i,
    {
        if alive[i] == pid {
            assert(alive@[i as int] == pid);
            return true;
        }
        i = i + 1;
    }
    false
}

impl AgentsRegistry {
    /// Notes that no agent runs any more.
    pub fn suspend_all(&mut self)
        ensures
            final(self)@ == all_suspended(old(self)@),
    {
        let ghost before = self@;
        let ghost goal = all_suspended(before);
        let len: usize = self.agents.len();
        let mut i: usize = 0;
        while i < len
            invariant
                i <= len == self.agents@.len() == before.len(),
                goal == all_suspended(before),
                forall|k: int| 0 <= k < i ==> #[trigger] self.agents@[k]@ == goal[k],
                forall|k: int| i <= k < len ==> #[trigger] self.agents@[k]@ == before[k],
            decreases len - i,
        {
            let entry: AgentEntry = suspended_entry(&self.agents[i]);
            self.agents.set(i, entry);
            i = i + 1;
        }
        assert(self@ =~= goal);
    }
}

/// Notes which of the agents that were running are gone. The result tells
/// whether there were any.
pub fn reconcile_agent_pids(registry: &mut AgentsRegistry, alive: &Vec<u32>) -> (out: bool)
    ensures
        final(registry)@ == old(registry)@.map_values(|a: AgentView| reconciled(a, alive@)),
        out == (exists|i: int|
            0 <= i < old(registry)@.len() && reconciled(
                #[trigger] old(registry)@[i],
                alive@,
            ) != old(registry)@[i]),
{
    let ghost before = registry@;
    let ghost goal = before.map_values(|a: AgentView| reconciled(a, alive@));
    let len: usize = registry.agents.len();
    let mut changed: bool = false;
    let mut i: usize = 0;
    while i < len
        invariant
            i <= len == registry.agents@.len() == before.len(),
            goal == before.map_values(|a: AgentView| reconciled(a, alive@)),
            forall|k: int| 0 <= k < i ==> #[trigger] registry.agents@[k]@ == goal[k],
            forall|k: int| i <= k < len ==> #[trigger] registry.agents@[k]@ == before[k],
            changed == (exists|k: int|
                0 <= k < i && reconciled(#[trigger] before[k], alive@) != before[k]),
        decreases len - i,
    {
        assert(registry.agents@[i as int]@ == before[i as int]);
        let running: bool = match registry.agents[i].status {
            AgentStatus::Running => true,
            _ => false,
        };
        let found: bool = match registry.agents[i].pid {
            Some(pid) => pid_among(alive, pid),
            None => false,
        };
        if running && !found {
            let entry: AgentEntry = suspended_entry(&registry.agents[i]);
            registry.agents.set(i, entry);
            changed = true;
            assert(reconciled(before[i as int], alive@) != before[i as int]);
        }
        i = i + 1;
    }
    assert(registry@ =~= goal);
    changed
}

// ------------------------------------------------------------------ answers

/// Where an answer goes.
#[derive(Debug, Clone, Copy, PartialEq, Eq, Structural)]
pub enum AnswerRoute {
    /// To the agent that paused the task under way.
    CurrentTask,
    /// To the first queued task that waits for an answer.
    QueuedTask,
}

/// What is said of a blank answer.
pub const EMPTY_ANSWER: &'static str = "Answer cannot be empty.";

/// What is said of an answer that nothing waits for.
pub const NOTHING_WAITS: &'static str = "No task is currently waiting for a human answer.";

/// What is said of an answer to the agent of the task under way.
pub const ANSWER_RECORDED: &'static str = "Answer recorded. Waiting for agent to resume…";

/// Where an answer goes.
pub fn answer(response: &str, state: TaskState) -> (out: Result<AnswerRoute, &'static str>)
    ensures
        match out {
            Err(message) => text::trim(response@).len() == 0 && message@ == EMPTY_ANSWER@,
            Ok(route) => text::trim(response@).len() > 0 && (route == AnswerRoute::CurrentTask
                <==> state == TaskState::AwaitingHuman),
        },
{
    let trimmed: String = text::trim_string(response);
    let chars: Vec<char> = text::chars_of(trimmed.as_str());
    if chars.len() == 0 {
        return Err(EMPTY_ANSWER);
    }
    if state == TaskState::AwaitingHuman {
        Ok(AnswerRoute::CurrentTask)
    } else {
        Ok(AnswerRoute::QueuedTask)
    }
}

/// Whether the agent that waits for an answer is alive: the one that asked, or
/// where that is not known one of the two that work on the task under way.
pub open spec fn waiter_alive(
    asked_by: Option<Seq<char>>,
    executor: Option<Seq<char>>,
    supervisor: Option<Seq<char>>,
    sessions: Seq<SessionView>,
) -> bool {
    match asked_by {
        Some(name) => schedule::is_alive(sessions, name),
        None => (executor is Some && schedule::is_alive(sessions, executor->0)) || (supervisor
            is Some && schedule::is_alive(sessions, supervisor->0)),
    }
}

/// Whether a session that may have a name is alive.
fn some_session_alive(sessions: &Vec<Session>, name: Option<&str>) -> (out: bool)
    ensures
        out == (name is Some && schedule::is_alive(
            schedule::session_views(sessions@),
            name->0@,
        )),
{
    match name {
        Some(name) => schedule::session_alive(sessions, name),
        None => false,
    }
}

/// Whether the agent that waits for an answer is alive.
pub fn agent_alive(
    state: &StateData,
    executor: Option<&str>,
    supervisor: Option<&str>,
    sessions: &Vec<Session>,
) -> (out: bool)
    ensures
        out == waiter_alive(
            state@.awaiting_human_by,
            text::opt_str_view(executor),
            text::opt_str_view(supervisor),
            schedule::session_views(sessions@),
        ),
{
    match &state.awaiting_human_by {
        Some(name) => schedule::session_alive(sessions, name.as_str()),
        None => some_session_alive(sessions, executor) || some_session_alive(
            sessions,
            supervisor,
        ),
    }
}

/// How the user takes a restored state up again.
pub open spec fn relaunch_hint(state: TaskState) -> Seq<char> {
    match state {
        TaskState::Reviewing => "Use /review to relaunch the review supervisor."@,
        TaskState::Consultation => "Use /resume to relaunch the consultation workflow."@,
        _ => "Use /resume to relaunch — it will read ANSWER.md and continue."@,
    }
}

/// Takes the paused state up again where no agent is alive to do so, and says
/// so. The state stays as it is where an agent is alive or nothing waits.
pub fn restore_after_answer(state: &mut StateData, agent_alive: bool, now: Instant) -> (out: Option<
    String,
>)
    ensures
        match (agent_alive, state::resumed_state(old(state)@)) {
            (false, Some(resumed)) => out is Some && out->0@
                == "Agent is not running. State restored to "@ + state::state_name(resumed) + ". "@
                + relaunch_hint(resumed) && final(state)@ == (StateView {
                state: resumed,
                paused_state: None,
                awaiting_human_by: None,
                updated_at: now,
                ..old(state)@
            }),
            _ => out is None && final(state)@ == old(state)@,
        },
{
    if agent_alive {
        return None;
    }
    match state.answer(now) {
        Some(resumed) => {
            let mut message: String = "Agent is not running. State restored to ".to_owned();
            message.append(resumed.name());
            message.append(". ");
            message.append(
                match resumed {
                    TaskState::Reviewing => "Use /review to relaunch the review supervisor.",
                    TaskState::Consultation => "Use /resume to relaunch the consultation workflow.",
                    _ => "Use /resume to relaunch — it will read ANSWER.md and continue.",
                },
            );
            Some(message)
        },
        None => None,
    }
}

/// Whether input without a slash is an answer.
pub fn has_pending_human_question(state: TaskState, questions: &Vec<HumanQuestion>) -> (out: bool)
    ensures
        out == (state == TaskState::AwaitingHuman || questions@.len() > 0),
{
    state == TaskState::AwaitingHuman || questions.len() > 0
}

/// An answer to a queued task.
#[derive(Debug, Clone, PartialEq, Eq)]
pub struct ScopedAnswer {
    /// Where the answer is written.
    pub run_dir: String,
    /// What is said of it.
    pub recorded: String,
    /// What is said where the task was put back to work; its question is then
    /// cleared.
    pub restored: Option<String>,
}

/// Whether the agent that holds a task is alive.
pub open spec fn holder_alive(task: Option<TaskView>, sessions: Seq<SessionView>) -> bool {
    match task {
        Some(t) => t.claimed_by is Some && schedule::is_alive(sessions, t.claimed_by->0),
        None => false,
    }
}

/// The tables after an answer to a queued task.
pub open spec fn answered(
    s: StoreView,
    task_id: Seq<char>,
    sessions: Seq<SessionView>,
    now: Instant,
) -> StoreView {
    if holder_alive(store::find_task(s.tasks, task_id), sessions) {
        s
    } else {
        tasks::pause_ended(s, task_id, "awaiting_human"@, "task_human_answered"@, now)
    }
}

/// Answers the first queued task that waits. Where the agent that holds it is
/// not alive, the task is put back to work.
pub fn answer_scoped_human_question(
    tables: &mut Store,
    questions: &Vec<HumanQuestion>,
    sessions: &Vec<Session>,
    now: Instant,
) -> (out: Result<ScopedAnswer, &'static str>)
    requires
        now.wf(),
    ensures
        match out {
            Err(message) => questions@.len() == 0 && message@ == NOTHING_WAITS@ && final(tables)@
                == old(tables)@,
            Ok(answer) => {
                let id = questions@[0].task_id@;
                let task = store::find_task(old(tables)@.tasks, id);
                let alive = holder_alive(task, schedule::session_views(sessions@));
                &&& questions@.len() > 0
                &&& answer.run_dir@ == questions@[0].run_dir@
                &&& answer.recorded@ == "Answer recorded for "@ + id
                    + ". Waiting for agent to resume…"@
                &&& final(tables)@ == answered(
                    old(tables)@,
                    id,
                    schedule::session_views(sessions@),
                    now,
                )
                &&& answer.restored is Some <==> !alive && tasks::stands_in(
                    old(tables)@,
                    id,
                    "awaiting_human"@,
                )
                &&& answer.restored is Some ==> answer.restored->0@
                    == "Agent is not running. Task "@ + id + " restored to "@
                    + tasks::resumed_status(task->0)
                    + ". Use /resume or wait for HQ scheduling to relaunch it."@
            },
        },
{
    if questions.len() == 0 {
        return Err(NOTHING_WAITS);
    }
    let question: &HumanQuestion = &questions[0];
    let id: &str = question.task_id.as_str();
    let mut recorded: String = "Answer recorded for ".to_owned();
    recorded.append(id);
    recorded.append(". Waiting for agent to resume…");
    let alive: bool = match tables.task_position(id) {
        Some(i) => {
            assert(tables@.tasks[i as int] == tables.tasks@[i as int]@);
            match &tables.tasks[i].claimed_by {
                Some(holder) => schedule::session_alive(sessions, holder.as_str()),
                None => false,
            }
        },
        None => false,
    };
    let mut restored: Option<String> = None;
    if !alive {
        match tasks::restore_task_from_human_answer(tables, id, now) {
            TaskHumanAnswerRestore::Restored { status } => {
                let mut message: String = "Agent is not running. Task ".to_owned();
                message.append(id);
                message.append(" restored to ");
                message.append(status.as_str());
                message.append(". Use /resume or wait for HQ scheduling to relaunch it.");
                restored = Some(message);
            },
            TaskHumanAnswerRestore::NotAwaitingHuman => {},
        }
    }
    Ok(ScopedAnswer { run_dir: question.run_dir.clone(), recorded, restored })
}

// ------------------------------------------------------------------ giving up, going on

/// Whether an agent is at work: a session of HQ is alive, or the process of a
/// registered agent is.
pub open spec fn agent_at_work(
    sessions: Seq<SessionView>,
    agents: Seq<AgentView>,
    alive: Seq<u32>,
) -> bool {
    ||| exists|i: int| 0 <= i < sessions.len() && (#[trigger] sessions[i]).alive
    ||| exists|i: int|
        0 <= i < agents.len() && (#[trigger] agents[i]).pid is Some && alive.contains(
            agents[i].pid->0,
        )
}

/// Whether an agent is at work, where these processes are alive.
pub fn agents_at_work(
    sessions: &Vec<Session>,
    registry: &AgentsRegistry,
    alive: &Vec<u32>,
) -> (out: bool)
    ensures
        out == agent_at_work(schedule::session_views(sessions@), registry@, alive@),
{
    let ghost all = schedule::session_views(sessions@);
    let ghost agents = registry@;
    let mut i: usize = 0;
    while i < sessions.len()
        invariant
            i <= sessions@.len(),
            all == schedule::session_views(sessions@),
            forall|k: int| 0 <= k < i ==> !(#[trigger] all[k]).alive,
        decreases sessions@.len() - i,
    {
        assert(all[i as int] == sessions@[i as int]@);
        if sessions[i].alive {
            assert(all[i as int].alive);
            return true;
        }
        i = i + 1;
    }
    let mut j: usize = 0;
    while j < registry.agents.len()
        invariant
            j <= registry.agents@.len(),
            agents == registry@,
            forall|k: int|
                0 <= k < j ==> !((#[trigger] agents[k]).pid is Some && alive@.contains(
                    agents[k].pid->0,
                )),
        decreases registry.agents@.len() - j,
    {
        assert(agents[j as int] == registry.agents@[j as int]@);
        if let Some(pid) = registry.agents[j].pid {
            if pid_among(alive, pid) {
                assert(agents[j as int].pid == Some(pid));
                return true;
            }
        }
        j = j + 1;
    }
    false
}

/// Whether a reset is to be confirmed: in the states in which an agent works, and
/// whenever one is at work.
pub open spec fn reset_asks(state: TaskState, agents_alive: bool) -> bool {
    ||| state == TaskState::Executing
    ||| state == TaskState::Reviewing
    ||| state == TaskState::Addressing
    ||| agents_alive
}

/// What the user is asked before a reset.
pub open spec fn reset_question_text(state: TaskState) -> Seq<char> {
    "Reset while state is "@ + state::state_name(state) + " — agents may be running. Continue?"@
}

/// What the user is asked before a reset; nothing where it goes ahead at once.
pub fn reset_question(state: TaskState, agents_alive: bool) -> (out: Option<String>)
    ensures
        out is Some <==> (state == TaskState::Executing || state == TaskState::Reviewing || state
            == TaskState::Addressing || agents_alive),
        out matches Some(asked) ==> asked@ == "Reset while state is "@ + state::state_name(state)
            + " — agents may be running. Continue?"@,
{
    if state == TaskState::Executing || state == TaskState::Reviewing || state
        == TaskState::Addressing || agents_alive {
        let mut asked: String = "Reset while state is ".to_owned();
        asked.append(state.name());
        asked.append(" — agents may be running. Continue?");
        Some(asked)
    } else {
        None
    }
}

/// Where a command that may have to be confirmed stands.
#[derive(Debug, Clone, PartialEq, Eq)]
pub enum Confirmation {
    /// The user is to be asked, and nothing was done.
    Ask { question: String },
    /// The user said no, and nothing was done.
    Cancelled { message: &'static str },
    /// It was done.
    Done { message: &'static str },
}

/// What is said after a reset.
pub const RESET_DONE: &'static str = "State reset to Idle. All task files cleared.";

/// The state once its task was given up.
pub open spec fn given_up(state: StateView, now: Instant) -> StateView {
    StateView {
        selected_spec: state.selected_spec,
        selected_milestone: state.selected_milestone,
        ..state::idle_state(now)
    }
}

/// The tables once the task under way was given up.
pub open spec fn tables_reset(s: StoreView, state: StateView, now: Instant) -> StoreView {
    let dropped = match (state.active_task_id, state.active_task_path) {
        (Some(id), Some(path)) => tasks::status_recorded(s, id, path, "reset"@, None, None, now),
        _ => s,
    };
    let idle = given_up(state, now);
    store::with_event(
        tasks::status_recorded(
            dropped,
            tasks::current_id(Some(idle)),
            tasks::current_path(Some(idle)),
            "idle"@,
            None,
            None,
            now,
        ),
        store::draft(None, "hq_reset"@, Seq::empty(), now),
    )
}

/// Gives the task under way up: no agent runs, the state is idle, and the
/// tables say so.
pub fn do_reset(
    state: &mut StateData,
    tables: &mut Store,
    registry: &mut AgentsRegistry,
    now: Instant,
)
    requires
        now.wf(),
    ensures
        final(registry)@ == all_suspended(old(registry)@),
        final(state)@ == given_up(old(state)@, now),
        final(tables)@ == tables_reset(old(tables)@, old(state)@, now),
{
    let ghost before = state@;
    registry.suspend_all();
    match (&state.active_task_id, &state.active_task_path) {
        (Some(id), Some(path)) => {
            tasks::record_task_status(tables, id.as_str(), path.as_str(), "reset", now);
        },
        _ => {},
    }
    state.force_reset(now);
    assert(state@ =~= given_up(before, now));
    tasks::record_current_task_status(tables, Some(&*state), "idle", now);
    let payload: Vec<(String, Payload)> = Vec::new();
    assert(store::payload_view(payload@) =~= Seq::empty());
    tables.record(None, "hq_reset", payload, now);
}

/// Gives the task under way up, once the user has said yes where that is needed.
/// Nothing changes before the reply, nor where it is no.
pub fn reset(
    state: &mut StateData,
    tables: &mut Store,
    registry: &mut AgentsRegistry,
    agents_alive: bool,
    reply: Option<bool>,
    now: Instant,
) -> (out: Confirmation)
    requires
        now.wf(),
    ensures
        if reset_asks(old(state)@.state, agents_alive) && reply != Some(true) {
            &&& final(state)@ == old(state)@
            &&& final(tables)@ == old(tables)@
            &&& final(registry)@ == old(registry)@
            &&& match reply {
                None => out matches Confirmation::Ask { question } && question@
                    == reset_question_text(old(state)@.state),
                Some(_) => out matches Confirmation::Cancelled { message } && message@
                    == "Reset cancelled."@,
            }
        } else {
            &&& final(registry)@ == all_suspended(old(registry)@)
            &&& final(state)@ == given_up(old(state)@, now)
            &&& final(tables)@ == tables_reset(old(tables)@, old(state)@, now)
            &&& out matches Confirmation::Done { message } && message@ == RESET_DONE@
        },
{
    if let Some(question) = reset_question(state.state, agents_alive) {
        match reply {
            None => return Confirmation::Ask { question },
            Some(false) => return Confirmation::Cancelled { message: "Reset cancelled." },
            Some(true) => {},
        }
    }
    do_reset(state, tables, registry, now);
    Confirmation::Done { message: RESET_DONE }
}

/// Notes that no agent runs any more, once the user has said yes. Nothing changes
/// before the reply, nor where it is no.
pub fn stop(registry: &mut AgentsRegistry, reply: Option<bool>) -> (out: Confirmation)
    ensures
        match reply {
            None => {
                &&& final(registry)@ == old(registry)@
                &&& out matches Confirmation::Ask { question } && question@
                    == "Stop all running agents?"@
            },
            Some(false) => {
                &&& final(registry)@ == old(registry)@
                &&& out matches Confirmation::Cancelled { message } && message@
                    == "Stop cancelled."@
            },
            Some(true) => {
                &&& final(registry)@ == all_suspended(old(registry)@)
                &&& out matches Confirmation::Done { message } && message@
                    == "All agent sessions stopped."@
            },
        },
{
    match reply {
        None => Confirmation::Ask { question: "Stop all running agents?".to_owned() },
        Some(false) => Confirmation::Cancelled { message: "Stop cancelled." },
        Some(true) => {
            registry.suspend_all();
            Confirmation::Done { message: "All agent sessions stopped." }
        },
    }
}

/// Ends the task that is complete, so that the next one can start. The tables
/// keep what they know of it.
pub fn prepare_next_task_after_complete(
    state: &mut StateData,
    tables: &mut Store,
    registry: &mut AgentsRegistry,
    now: Instant,
) -> (out: Result<(), String>)
    requires
        now.wf(),
    ensures
        match out {
            Err(message) => old(state)@.state != TaskState::Complete && message@
                == "Cannot prepare next task from state "@ + state::state_name(old(state)@.state)
                + ". Previous task must be Complete."@ && final(state)@ == old(state)@
                && final(tables)@ == old(tables)@ && final(registry)@ == old(registry)@,
            Ok(()) => old(state)@.state == TaskState::Complete && final(registry)@
                == all_suspended(old(registry)@) && final(state)@ == given_up(old(state)@, now)
                && final(tables)@ == store::with_event(
                old(tables)@,
                store::draft(None, "hq_prepare_next_task"@, Seq::empty(), now),
            ),
        },
{
    if state.state != TaskState::Complete {
        let mut message: String = "Cannot prepare next task from state ".to_owned();
        message.append(state.state.name());
        message.append(". Previous task must be Complete.");
        return Err(message);
    }
    let ghost before = state@;
    registry.suspend_all();
    state.force_reset(now);
    assert(state@ =~= given_up(before, now));
    let payload: Vec<(String, Payload)> = Vec::new();
    assert(store::payload_view(payload@) =~= Seq::empty());
    tables.record(None, "hq_prepare_next_task", payload, now);
    Ok(())
}

/// After a reset no agent runs, the state is that before any task but for what
/// is selected, and the task that was under way is on record as reset, with
/// nobody holding it.
pub proof fn law_reset_ends_task(
    s: StoreView,
    state: StateView,
    agents: Seq<AgentView>,
    now: Instant,
)
    requires
        store::keyed(s),
        state.active_task_id is Some,
        state.active_task_path is Some,
        state.active_task_id->0 != crate::project::CURRENT_TASK_ID@,
    ensures
        given_up(state, now).state == TaskState::Idle,
        given_up(state, now).claimed_by is None,
        given_up(state, now).selected_spec == state.selected_spec,
        forall|i: int|
            0 <= i < agents.len() ==> (#[trigger] all_suspended(agents)[i]).status
                == AgentStatus::Suspended && all_suspended(agents)[i].pid is None,
        ({
            let row = store::find_task(
                tables_reset(s, state, now).tasks,
                state.active_task_id->0,
            );
            row is Some && row->0.status == "reset"@ && row->0.claimed_by is None
                && row->0.lease_until is None
        }),
{
    let id = state.active_task_id->0;
    let path = state.active_task_path->0;
    let dropped = tasks::status_recorded(s, id, path, "reset"@, None, None, now);
    let idle = given_up(state, now);
    tasks::law_status_is_recorded(s, id, path, "reset"@, None, None, now);
    tasks::law_handoff_ends_lease(s, id, path, "reset"@, None, None, now);
    tasks::law_status_is_recorded(
        dropped,
        tasks::current_id(Some(idle)),
        tasks::current_path(Some(idle)),
        "idle"@,
        None,
        None,
        now,
    );
}

/// An answer puts back to work exactly the task it is for, and only where
/// nobody is there to take it.
pub proof fn law_answer_is_local(
    s: StoreView,
    task_id: Seq<char>,
    other: Seq<char>,
    sessions: Seq<SessionView>,
    now: Instant,
)
    requires
        store::keyed(s),
        other != task_id,
    ensures
        store::find_task(answered(s, task_id, sessions, now).tasks, other) == store::find_task(
            s.tasks,
            other,
        ),
        holder_alive(store::find_task(s.tasks, task_id), sessions) ==> answered(
            s,
            task_id,
            sessions,
            now,
        ) == s,
{
    tasks::law_row_change_is_local(s, task_id, tasks::resumed());
}

// ------------------------------------------------------------------ forced checks

/// What is said after checks that were run without regard to the state.
#[derive(Debug, Clone, PartialEq, Eq)]
pub enum CheckReport {
    Info(String),
    Error(String),
}

/// The commands that failed, each on a line of its own.
pub open spec fn failed_lines(commands: Seq<CommandResult>) -> Seq<Seq<char>>
    decreases commands.len(),
{
    if commands.len() == 0 {
        Seq::empty()
    } else {
        let before = failed_lines(commands.drop_last());
        if commands.last().passed {
            before
        } else {
            before.push("- `"@ + commands.last().command@ + "`"@)
        }
    }
}

/// What is said after checks that were run without regard to the state.
pub fn check(result: &CheckResult) -> (out: CheckReport)
    ensures
        if result.commands@.len() == 0 {
            out matches CheckReport::Info(s) && s@
                == "Checks passed. Warning: no check commands are configured in ferrus.toml."@
        } else if result.passed {
            out matches CheckReport::Info(s) && s@
                == "All configured checks passed. State was not modified."@
        } else {
            out matches CheckReport::Error(s) && s@
                == "Forced HQ checks failed. State was not modified.\n\nFailed commands:\n"@
                + text::join(failed_lines(result.commands@), "\n"@)
        },
{
    if result.commands.len() == 0 {
        return CheckReport::Info(
            "Checks passed. Warning: no check commands are configured in ferrus.toml.".to_owned(),
        );
    }
    if result.passed {
        return CheckReport::Info(
            "All configured checks passed. State was not modified.".to_owned(),
        );
    }
    let mut failed: Vec<String> = Vec::new();
    assert(text::views(failed@) =~= failed_lines(result.commands@.take(0)));
    let mut i: usize = 0;
    while i < result.commands.len()
        invariant
            i <= result.commands@.len(),
            text::views(failed@) == failed_lines(result.commands@.take(i as int)),
        decreases result.commands@.len() - i,
    {
        assert(result.commands@.take(i + 1).drop_last() =~= result.commands@.take(i as int));
        assert(result.commands@.take(i + 1).last() == result.commands@[i as int]);
        if !result.commands[i].passed {
            let mut line: String = "- `".to_owned();
            line.append(result.commands[i].command.as_str());
            line.append("`");
            text::add_text(&mut failed, line.as_str());
        }
        i = i + 1;
    }
    assert(result.commands@.take(i as int) =~= result.commands@);
    let mut out: String =
        "Forced HQ checks failed. State was not modified.\n\nFailed commands:\n".to_owned();
    out.append(text::join_strings(&failed, "\n").as_str());
    CheckReport::Error(out)
}

// ------------------------------------------------------------------ workspaces

/// What is done for the workspace of an executor.
#[derive(Debug, Clone, PartialEq, Eq)]
pub enum WorkspaceStep {
    /// It is there.
    Use,
    /// Make it, by git with these arguments.
    Create(Vec<String>),
    /// It cannot be had.
    Refuse(String),
}

/// Whether git says that a directory is in a work tree.
pub open spec fn says_work_tree(success: bool, stdout: Seq<u8>) -> bool {
    success && text::trim(runner::lossy_text(stdout)) == "true"@
}

/// Whether git says that a directory is in a work tree.
pub fn git_is_work_tree(success: bool, stdout: &Vec<u8>) -> (out: bool)
    ensures
        out == says_work_tree(success, stdout@),
{
    success && text::same(
        text::trim_string(runner::text_of_bytes(stdout).as_str()).as_str(),
        "true",
    )
}

/// What is done for the workspace of an executor in a directory: it is used
/// where it is a work tree, made where there is nothing yet, and refused where
/// something else is there or the project is in no work tree.
pub fn prepare_executor_workspace(
    root: &str,
    root_is_tree: bool,
    dir: &str,
    exists_on_disk: bool,
    dir_is_tree: bool,
) -> (out: WorkspaceStep)
    ensures
        if !root_is_tree {
            out matches WorkspaceStep::Refuse(message) && message@
                == "Cannot start isolated executor workspace: "@ + root@
                + " is not a git worktree."@
        } else if exists_on_disk && dir_is_tree {
            out == WorkspaceStep::Use
        } else if exists_on_disk {
            out matches WorkspaceStep::Refuse(message) && message@
                == "Cannot start isolated executor workspace: "@ + dir@
                + " already exists and is not a git worktree."@
        } else {
            out matches WorkspaceStep::Create(args) && text::views(args@) == seq![
                "-C"@,
                root@,
                "worktree"@,
                "add"@,
                "--detach"@,
                dir@,
                "HEAD"@,
            ]
        },
{
    if !root_is_tree {
        let mut message: String = "Cannot start isolated executor workspace: ".to_owned();
        message.append(root);
        message.append(" is not a git worktree.");
        return WorkspaceStep::Refuse(message);
    }
    if exists_on_disk {
        if dir_is_tree {
            return WorkspaceStep::Use;
        }
        let mut message: String = "Cannot start isolated executor workspace: ".to_owned();
        message.append(dir);
        message.append(" already exists and is not a git worktree.");
        return WorkspaceStep::Refuse(message);
    }
    let mut args: Vec<String> = text::one_text("-C");
    text::add_text(&mut args, root);
    text::add_text(&mut args, "worktree");
    text::add_text(&mut args, "add");
    text::add_text(&mut args, "--detach");
    text::add_text(&mut args, dir);
    text::add_text(&mut args, "HEAD");
    WorkspaceStep::Create(args)
}

/// What is said of a workspace that git did not make.
pub open spec fn workspace_problem(dir: Seq<char>, stderr: Seq<char>, status: Seq<char>) -> Seq<
    char,
> {
    "Failed to create isolated executor workspace at "@ + dir + ": "@ + (if text::trim(
        stderr,
    ).len() == 0 {
        status
    } else {
        text::trim(stderr)
    })
}

/// What is said of a workspace that git did not make.
pub fn workspace_failure(dir: &str, stderr: &Vec<u8>, status: &str) -> (out: String)
    ensures
        out@ == workspace_problem(dir@, runner::lossy_text(stderr@), status@),
{
    let mut out: String = "Failed to create isolated executor workspace at ".to_owned();
    out.append(dir);
    out.append(": ");
    let told: String = text::trim_string(runner::text_of_bytes(stderr).as_str());
    let chars: Vec<char> = text::chars_of(told.as_str());
    if chars.len() == 0 {
        out.append(status);
    } else {
        out.append(told.as_str());
    }
    out
}

// ------------------------------------------------------------------ what sessions are for

/// What is kept of what a session wrote is its end, as much of it as fits.
pub proof fn law_tail_is_the_end(bytes: Seq<u8>, limit: nat, i: int)
    ensures
        tail(bytes, limit).len() == if bytes.len() < limit {
            bytes.len()
        } else {
            limit
        },
        0 <= i < tail(bytes, limit).len() ==> tail(bytes, limit)[i] == bytes[bytes.len() - tail(
            bytes,
            limit,
        ).len() + i],
{
}

/// A session is let end before it is asked to, asked before it is killed, and waited for
/// after that. One that ends in the first second and a half is left alone; one that ends
/// in the eight tenths after it was asked is not killed.
pub proof fn law_session_is_asked_before_it_is_killed(ended: bool)
    ensures
        next_stop(None, ended) == Some(StopStep::Wait(1500)),
        next_stop(Some(StopStep::Wait(1500)), true) is None,
        next_stop(Some(StopStep::Wait(1500)), false) == Some(StopStep::Terminate),
        next_stop(Some(StopStep::Terminate), ended) == Some(StopStep::Wait(800)),
        next_stop(Some(StopStep::Wait(800)), true) == Some(StopStep::Pause(100)),
        next_stop(Some(StopStep::Wait(800)), false) == Some(StopStep::Kill),
        next_stop(Some(StopStep::Kill), ended) == Some(StopStep::Reap),
        next_stop(Some(StopStep::Reap), ended) == Some(StopStep::Pause(100)),
        next_stop(Some(StopStep::Pause(100)), ended) is None,
{
}

/// Whether a session with a name is alive.
pub open spec fn lives(sessions: Seq<SessionView>, name: Seq<char>) -> bool {
    exists|i: int| 0 <= i < sessions.len() && (#[trigger] sessions[i]).name == name && sessions[i].alive
}

proof fn lemma_lives(sessions: Seq<SessionView>, name: Seq<char>)
    ensures
        schedule::is_alive(sessions, name) == lives(sessions, name),
{
    if schedule::is_alive(sessions, name) {
        let i = choose|i: int|
            0 <= i < sessions.len() && schedule::alive_at(sessions, name, i);
        assert(sessions[i].name == name && sessions[i].alive);
    }
    if lives(sessions, name) {
        let i = choose|i: int|
            0 <= i < sessions.len() && (#[trigger] sessions[i]).name == name && sessions[i].alive;
        assert(schedule::alive_at(sessions, name, i));
    }
}

/// Who takes an answer: the agent that asked, where that is known, and nobody else; else
/// either agent of the task under way. A queued task's answer is taken by the agent that
/// holds the task.
pub proof fn law_the_asker_takes_the_answer(
    asked_by: Option<Seq<char>>,
    executor: Option<Seq<char>>,
    supervisor: Option<Seq<char>>,
    sessions: Seq<SessionView>,
    task: Option<TaskView>,
)
    ensures
        asked_by matches Some(name) ==> waiter_alive(asked_by, executor, supervisor, sessions)
            == lives(sessions, name),
        asked_by is None ==> waiter_alive(asked_by, executor, supervisor, sessions) == ((executor
            is Some && lives(sessions, executor->0)) || (supervisor is Some && lives(
            sessions,
            supervisor->0,
        ))),
        holder_alive(task, sessions) <==> task is Some && task->0.claimed_by is Some && lives(
            sessions,
            task->0.claimed_by->0,
        ),
{
    if asked_by is Some {
        lemma_lives(sessions, asked_by->0);
    }
    if executor is Some {
        lemma_lives(sessions, executor->0);
    }
    if supervisor is Some {
        lemma_lives(sessions, supervisor->0);
    }
    if task is Some && task->0.claimed_by is Some {
        lemma_lives(sessions, task->0.claimed_by->0);
    }
}

/// An answer to a queued task puts the task back where it stood, where it waits for a
/// human and the agent that holds it is not alive; otherwise nothing changes.
pub proof fn law_answered_task_goes_on(
    s: StoreView,
    i: int,
    sessions: Seq<SessionView>,
    now: Instant,
)
    requires
        store::keyed(s),
        0 <= i < s.tasks.len(),
    ensures
        ({
            let t = s.tasks[i];
            let after = answered(s, t.id, sessions, now);
            let alive = t.claimed_by is Some && lives(sessions, t.claimed_by->0);
            if t.status == "awaiting_human"@ && !alive {
                crate::project::claims::row_alone(
                    s,
                    after,
                    i,
                    TaskView {
                        status: if t.paused_status is Some {
                            t.paused_status->0
                        } else {
                            "executing"@
                        },
                        paused_status: None,
                        ..t
                    },
                )
            } else {
                after == s
            }
        }),
{
    let t = s.tasks[i];
    store::law_rows_are_found_by_id(s, t.id, i);
    law_the_asker_takes_the_answer(None, None, None, sessions, Some(t));
    tasks::law_pause_keeps_the_place(
        s,
        i,
        "awaiting_human"@,
        t.status,
        "task_human_answered"@,
        now,
    );
}

/// An agent that is suspended has no process, and all else of it is kept. When nobody runs
/// any more, every agent is suspended; when the processes are looked at, exactly those are
/// that are noted as running without a process that lives.
pub proof fn law_agents_without_process_are_suspended(
    agents: Seq<AgentView>,
    alive: Seq<u32>,
    i: int,
)
    requires
        0 <= i < agents.len(),
    ensures
        ({
            let a = agents[i];
            let still = AgentView { pid: None, status: AgentStatus::Suspended, ..a };
            &&& all_suspended(agents).len() == agents.len()
            &&& all_suspended(agents)[i] == still
            &&& reconciled(a, alive) == if a.status == AgentStatus::Running && !(
            a.pid matches Some(pid) && alive.contains(pid)) {
                still
            } else {
                a
            }
        }),
{
}

/// The first session with a name is the one that counts.
pub proof fn law_first_session_counts(sessions: Seq<SessionView>, name: Seq<char>, i: int)
    ensures
        ({
            let at = session_at(sessions, name);
            &&& 0 <= at <= sessions.len()
            &&& at < sessions.len() ==> sessions[at].name == name
            &&& 0 <= i < at ==> sessions[i].name != name
        }),
{
    let names = sessions.map_values(|s: SessionView| s.name);
    text::lemma_index_of(names, name);
    let at = session_at(sessions, name);
    if at < sessions.len() {
        assert(names[at] == sessions[at].name);
    }
    if 0 <= i < at {
        assert(names[i] == sessions[i].name);
        assert(names[i] != name);
    }
}

/// A reset asks first in the states in which an agent works and whenever one is at work, and
/// only then.
pub proof fn law_reset_asks_while_work_goes_on(state: TaskState, agents_alive: bool)
    ensures
        reset_asks(state, agents_alive) <==> agents_alive || !(state is Idle || state is Complete
            || state is Failed || state is Consultation || state is AwaitingHuman),
        reset_question_text(state) == "Reset while state is "@ + state::state_name(state)
            + " — agents may be running. Continue?"@,
{
}

/// What a reset leaves in the tables. The task that was under way is reset and nobody holds
/// it; the row of a project without task artifacts is idle; every other row stays, and so
/// do the runs. Of the state only what is selected is kept.
pub proof fn law_reset_gives_up_one_task(
    s: StoreView,
    state: StateView,
    now: Instant,
    i: int,
)
    requires
        store::keyed(s),
        0 <= i < s.tasks.len(),
    ensures
        ({
            let t = s.tasks[i];
            let after = tables_reset(s, state, now);
            let kept = given_up(state, now);
            let named = state.active_task_id == Some(t.id) && state.active_task_path is Some;
            &&& kept.state is Idle && kept.active_task_id is None && kept.claimed_by is None
            &&& kept.check_retries == 0 && kept.review_cycles == 0 && kept.paused_state is None
            &&& kept.selected_spec == state.selected_spec
            &&& kept.selected_milestone == state.selected_milestone
            &&& kept.updated_at == now
            &&& after.runs == s.runs
            &&& store::find_task(after.tasks, "current"@) matches Some(row) && row.status
                == "idle"@ && row.claimed_by is None
            &&& t.id != "current"@ && !named ==> store::find_task(after.tasks, t.id) == Some(t)
            &&& t.id != "current"@ && named ==> store::find_task(after.tasks, t.id) == Some(
                TaskView {
                    path: state.active_task_path->0,
                    status: "reset"@,
                    claimed_by: None,
                    lease_until: None,
                    last_heartbeat: None,
                    ..t
                },
            )
        }),
{
    let t = s.tasks[i];
    store::law_rows_are_found_by_id(s, t.id, i);
    let dropped = match (state.active_task_id, state.active_task_path) {
        (Some(id), Some(path)) => tasks::status_recorded(s, id, path, "reset"@, None, None, now),
        _ => s,
    };
    if state.active_task_id is Some && state.active_task_path is Some {
        let id = state.active_task_id->0;
        let path = state.active_task_path->0;
        tasks::law_status_is_recorded(s, id, path, "reset"@, None, None, now);
        if id == t.id {
            tasks::law_status_changes_little(s, i, path, "reset"@, None, None, now);
            store::law_rows_are_found_by_id(dropped, t.id, i);
        }
    }
    let path = crate::project::CURRENT_TASK_PATH@;
    tasks::law_status_is_recorded(dropped, "current"@, path, "idle"@, None, None, now);
    tasks::law_handoff_ends_lease(dropped, "current"@, path, "idle"@, None, None, now);
}

proof fn lemma_failed_lines(commands: Seq<CommandResult>)
    ensures
        failed_lines(commands) == commands.filter(|c: CommandResult| !c.passed).map_values(
            |c: CommandResult| "- `"@ + c.command@ + "`"@,
        ),
    decreases commands.len(),
{
    reveal(Seq::filter);
    if commands.len() > 0 {
        lemma_failed_lines(commands.drop_last());
        assert(failed_lines(commands) =~= commands.filter(
            |c: CommandResult| !c.passed,
        ).map_values(|c: CommandResult| "- `"@ + c.command@ + "`"@));
    } else {
        assert(failed_lines(commands) =~= commands.filter(
            |c: CommandResult| !c.passed,
        ).map_values(|c: CommandResult| "- `"@ + c.command@ + "`"@));
    }
}

/// Exactly the commands that failed are named, in their order.
pub proof fn law_failed_commands_are_named(commands: Seq<CommandResult>)
    ensures
        failed_lines(commands) == commands.filter(|c: CommandResult| !c.passed).map_values(
            |c: CommandResult| "- `"@ + c.command@ + "`"@,
        ),
{
    lemma_failed_lines(commands);
}

/// The two roles are told apart: the executor carries out, the supervisor plans, reviews and
/// advises.
pub proof fn law_roles_have_their_words()
    ensures
        role_word(HqRole::Executor) == "executor"@,
        role_word(HqRole::Supervisor) == "supervisor"@,
        role_title(HqRole::Executor) == "Executor"@,
        role_title(HqRole::Supervisor) == "Supervisor"@,
{
}

/// Where a session ended with a fault, what it wrote about it is told, unless that is
/// blank; and so it is with a workspace that git did not make, of which the status is
/// told then.
pub proof fn law_faults_are_told(
    role: Seq<char>,
    agent_type: Seq<char>,
    status: Seq<char>,
    stderr: Seq<char>,
    dir: Seq<char>,
)
    ensures
        (role + " agent ("@ + agent_type + ") exited with "@ + status).is_prefix_of(
            exit_text(role, agent_type, status, stderr),
        ),
        text::trim(stderr).is_suffix_of(exit_text(role, agent_type, status, stderr)),
        text::trim(stderr).len() == 0 ==> exit_text(role, agent_type, status, stderr) == role
            + " agent ("@ + agent_type + ") exited with "@ + status,
        text::trim(stderr).len() > 0 ==> text::trim(stderr).is_suffix_of(
            workspace_problem(dir, stderr, status),
        ),
        text::trim(stderr).len() == 0 ==> status.is_suffix_of(
            workspace_problem(dir, stderr, status),
        ),
{
    let told = exit_text(role, agent_type, status, stderr);
    let head = role + " agent ("@ + agent_type + ") exited with "@ + status;
    let why = text::trim(stderr);
    assert(told.subrange(0, head.len() as int) =~= head);
    assert(told.subrange(told.len() - why.len(), told.len() as int) =~= why);
    let problem = workspace_problem(dir, stderr, status);
    let end = if why.len() == 0 {
        status
    } else {
        why
    };
    assert(problem.subrange(problem.len() - end.len(), problem.len() as int) =~= end);
}

/// An agent is at work as soon as a session of HQ is alive or the process of a registered
/// agent is, and sessions that ended and agents without a process do not count.
pub proof fn law_living_agents_are_at_work(
    sessions: Seq<SessionView>,
    agents: Seq<AgentView>,
    alive: Seq<u32>,
    i: int,
)
    ensures
        0 <= i < sessions.len() && sessions[i].alive ==> agent_at_work(sessions, agents, alive),
        0 <= i < agents.len() && (agents[i].pid matches Some(pid) && alive.contains(pid))
            ==> agent_at_work(sessions, agents, alive),
        (forall|k: int| 0 <= k < sessions.len() ==> !(#[trigger] sessions[k]).alive) && (forall|
            k: int,
        |
            0 <= k < agents.len() ==> (#[trigger] agents[k]).pid is None || !alive.contains(
                agents[k].pid->0,
            )) ==> !agent_at_work(sessions, agents, alive),
{
}

/// A directory is taken for a work tree only where git says so and did not fail.
pub proof fn law_git_is_believed(success: bool, stdout: Seq<u8>)
    ensures
        !success ==> !says_work_tree(success, stdout),
        says_work_tree(success, stdout) ==> text::trim(runner::lossy_text(stdout)) == "true"@,
        success && text::trim(runner::lossy_text(stdout)) == "true"@ ==> says_work_tree(
            success,
            stdout,
        ),
{
}

/// The line of a session names it, says whether it runs, and ends with its log.
pub proof fn law_session_line_tells_the_log(session: SessionView)
    ensures
        ("  "@ + session.name + " ("@).is_prefix_of(session_line(session)),
        session.log_path.is_suffix_of(session_line(session)),
        session.alive ==> ("  "@ + session.name + " (running)"@).is_prefix_of(
            session_line(session),
        ),
        !session.alive ==> ("  "@ + session.name + " (exited)"@).is_prefix_of(
            session_line(session),
        ),
{
    reveal_strlit(" (");
    reveal_strlit("running");
    reveal_strlit("exited");
    reveal_strlit(" (running)");
    reveal_strlit(" (exited)");
    reveal_strlit(") — tail logs: ");
    let line = session_line(session);
    let head = "  "@ + session.name + " ("@;
    assert(line.subrange(0, head.len() as int) =~= head);
    assert(line.subrange(line.len() - session.log_path.len(), line.len() as int)
        =~= session.log_path);
    if session.alive {
        let shown = "  "@ + session.name + " (running)"@;
        assert(line.subrange(0, shown.len() as int) =~= shown);
    } else {
        let shown = "  "@ + session.name + " (exited)"@;
        assert(line.subrange(0, shown.len() as int) =~= shown);
    }
}

/// A restored task is taken up by the command that its state needs: a review by one of
/// its own, everything else by another.
pub proof fn law_restored_task_is_taken_up(state: TaskState)
    ensures
        "Use /review"@.is_prefix_of(relaunch_hint(state)) <==> state is Reviewing,
        "Use /resume"@.is_prefix_of(relaunch_hint(state)) <==> !(state is Reviewing),
{
    reveal_strlit("Use /review");
    reveal_strlit("Use /resume");
    reveal_strlit("Use /review to relaunch the review supervisor.");
    reveal_strlit("Use /resume to relaunch the consultation workflow.");
    reveal_strlit("Use /resume to relaunch — it will read ANSWER.md and continue.");
    let review = "Use /review to relaunch the review supervisor."@;
    let consult = "Use /resume to relaunch the consultation workflow."@;
    let answer = "Use /resume to relaunch — it will read ANSWER.md and continue."@;
    assert(review.subrange(0, 11) =~= "Use /review"@);
    assert(consult.subrange(0, 11) =~= "Use /resume"@);
    assert(answer.subrange(0, 11) =~= "Use /resume"@);
    assert("Use /review"@[7] == 'v' && "Use /resume"@[7] == 's');
    assert(review[7] == 'v' && consult[7] == 's' && answer[7] == 's');
}

} // verus!
