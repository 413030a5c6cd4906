//! What HQ does about a line that the user enters, and about everything else
//! that reaches its loop.
use vstd::prelude::*;
use vstd::string::*;

use crate::agents::claude;
use crate::cli::commands::register::Agent;
use crate::config::HqRole;
use crate::hq::commands;
use crate::hq::commands::{CommandView, ShellCommand};
use crate::hq::schedule;
use crate::hq::schedule::{Session, SessionView};
use crate::hq::session;
use crate::hq::state_watcher::WatchedState;
use crate::text;

verus! {

/// All commands, for the user.
pub const HELP: &'static str = "ferrus HQ commands:
  /plan              Free-form planning session with the supervisor
  /task              Queue one task from the next ready milestone, then run the scheduler
  /task --manual     Queue one free-form task without spec context
  /milestones        Select the current spec
  /reset-spec        Clear the selected spec
  /spec              Draft, approve, and save a feature specification
  /check             Run the Ferrus check gate deterministically from HQ
  /check --force     Run configured checks from HQ without state requirements
  /supervisor        Open an interactive supervisor session
  /executor          Open an interactive executor session
  /resume            Resume the executor headlessly; recovers Consultation too
  /review            Manually spawn supervisor in review mode
  /status            Show task state, agent list, and session log paths
  /tasks             List SQLite task runtime rows
  /run [--limit N]   Plan a batch run from ready milestones
  /runs [--limit N]  List SQLite run attempts
  /events [--limit N]
                     List SQLite runtime events
  /events --run <id> List SQLite runtime events for one run
  /attach <name>     Show log path for a running headless agent
  /stop              Stop all running agent sessions
  /reset             Reset state to Idle (clears task files)
  /init              Initialize ferrus in the current directory
  /register          Register agent configs and permissions
  /model <role> <model>
                     Update the configured model override
  /model <role> --clear
                     Clear the configured model override
  /quit              Exit HQ

When an agent asks a question (state = AwaitingHuman):
  Type your answer and press Enter (no slash prefix needed).";

/// The farewell.
pub const BYE: &'static str = "Bye.";

/// What is said of input that is neither a command nor an answer.
pub const NOT_A_COMMAND: &'static str =
    "Commands must start with '/' — try /status, /task, /quit";

/// What is said of a registration without an agent.
pub const AGENT_REQUIRED: &'static str = "At least one of --supervisor or --executor required";

/// How the model command is used.
pub const MODEL_USAGE: &'static str =
    "Usage: /model <supervisor|executor> <model> | /model <supervisor|executor> --clear";

/// What HQ does about a line.
#[derive(Debug, Clone, PartialEq, Eq)]
pub enum Action {
    /// The line is an answer.
    Answer,
    Info(String),
    Muted(String),
    Error(String),
    /// The command is not carried out.
    Refuse(String),
    ShowStatus,
    ListTasks,
    RunBatch { limit: Option<usize> },
    ListRuns { limit: usize },
    ListEvents { limit: usize, run_id: Option<String> },
    Check { force: bool },
    Reset,
    Stop,
    Plan,
    Task { manual: bool },
    Milestones,
    ResetSpec,
    Spec,
    Supervisor,
    Executor,
    Resume,
    Review,
    Init { agents_path: String },
    /// Register agents, then read the configuration again.
    Register {
        supervisor: Option<Agent>,
        supervisor_model: Option<String>,
        executor: Option<Agent>,
        executor_model: Option<String>,
    },
    /// Write the model of a role, then read the configuration again.
    SetModel { target: HqRole, model: Option<String> },
}

/// The contents of an action.
#[verifier::ext_equal]
pub enum ActionView {
    Answer,
    Info(Seq<char>),
    Muted(Seq<char>),
    Error(Seq<char>),
    Refuse(Seq<char>),
    ShowStatus,
    ListTasks,
    RunBatch { limit: Option<usize> },
    ListRuns { limit: usize },
    ListEvents { limit: usize, run_id: Option<Seq<char>> },
    Check { force: bool },
    Reset,
    Stop,
    Plan,
    Task { manual: bool },
    Milestones,
    ResetSpec,
    Spec,
    Supervisor,
    Executor,
    Resume,
    Review,
    Init { agents_path: Seq<char> },
    Register {
        supervisor: Option<Agent>,
        supervisor_model: Option<Seq<char>>,
        executor: Option<Agent>,
        executor_model: Option<Seq<char>>,
    },
    SetModel { target: HqRole, model: Option<Seq<char>> },
}

impl View for Action {
    type V = ActionView;

    open spec fn view(&self) -> ActionView {
        match *self {
            Action::Answer => ActionView::Answer,
            Action::Info(s) => ActionView::Info(s@),
            Action::Muted(s) => ActionView::Muted(s@),
            Action::Error(s) => ActionView::Error(s@),
            Action::Refuse(s) => ActionView::Refuse(s@),
            Action::ShowStatus => ActionView::ShowStatus,
            Action::ListTasks => ActionView::ListTasks,
            Action::RunBatch { limit } => ActionView::RunBatch { limit },
            Action::ListRuns { limit } => ActionView::ListRuns { limit },
            Action::ListEvents { limit, run_id } => ActionView::ListEvents {
                limit,
                run_id: text::opt_view(run_id),
            },
            Action::Check { force } => ActionView::Check { force },
            Action::Reset => ActionView::Reset,
            Action::Stop => ActionView::Stop,
            Action::Plan => ActionView::Plan,
            Action::Task { manual } => ActionView::Task { manual },
            Action::Milestones => ActionView::Milestones,
            Action::ResetSpec => ActionView::ResetSpec,
            Action::Spec => ActionView::Spec,
            Action::Supervisor => ActionView::Supervisor,
            Action::Executor => ActionView::Executor,
            Action::Resume => ActionView::Resume,
            Action::Review => ActionView::Review,
            Action::Init { agents_path } => ActionView::Init { agents_path: agents_path@ },
            Action::Register { supervisor, supervisor_model, executor, executor_model } =>
                ActionView::Register {
                supervisor,
                supervisor_model: text::opt_view(supervisor_model),
                executor,
                executor_model: text::opt_view(executor_model),
            },
            Action::SetModel { target, model } => ActionView::SetModel {
                target,
                model: text::opt_view(model),
            },
        }
    }
}

/// The agent that a name stands for in the shell.
pub open spec fn shell_agent(name: Seq<char>, program: Seq<char>) -> Option<Agent> {
    if name == claude::configured_name(program) {
        Some(Agent::ClaudeCode)
    } else if name == "codex"@ {
        Some(Agent::Codex)
    } else {
        None
    }
}

/// The agent that a name stands for, where there is a name.
pub open spec fn some_agent(name: Option<Seq<char>>, program: Seq<char>) -> Option<Agent> {
    match name {
        Some(name) => shell_agent(name, program),
        None => None,
    }
}

/// The agent that a name stands for in the shell, where the program of the first
/// is called `program`.
pub fn parse_agent_type(s: &str, program: &str) -> (out: Option<Agent>)
    ensures
        out == shell_agent(s@, program@),
{
    if text::same(s, claude::name_of(program).as_str()) {
        Some(Agent::ClaudeCode)
    } else if text::same(s, "codex") {
        Some(Agent::Codex)
    } else {
        None
    }
}

/// The agent that a name stands for, where there is a name.
fn parse_some_agent(name: &Option<String>, program: &str) -> (out: Option<Agent>)
    ensures
        out == some_agent(text::opt_view(*name), program@),
{
    match name {
        Some(name) => parse_agent_type(name.as_str(), program),
        None => None,
    }
}

/// What HQ does about a command, where these headless sessions are known.
pub open spec fn action_for(
    command: CommandView,
    sessions: Seq<SessionView>,
    program: Seq<char>,
) -> ActionView {
    match command {
        CommandView::Quit => ActionView::Muted(BYE@),
        CommandView::Status => ActionView::ShowStatus,
        CommandView::Tasks => ActionView::ListTasks,
        CommandView::Run { limit } => ActionView::RunBatch { limit },
        CommandView::Runs { limit } => ActionView::ListRuns { limit },
        CommandView::Events { limit, run_id } => ActionView::ListEvents { limit, run_id },
        CommandView::Check { force } => ActionView::Check { force },
        CommandView::Help => ActionView::Info(HELP@),
        CommandView::Reset => ActionView::Reset,
        CommandView::Stop => ActionView::Stop,
        CommandView::Plan => ActionView::Plan,
        CommandView::Task { manual } => ActionView::Task { manual },
        CommandView::Milestones => ActionView::Milestones,
        CommandView::ResetSpec => ActionView::ResetSpec,
        CommandView::Spec => ActionView::Spec,
        CommandView::Supervisor => ActionView::Supervisor,
        CommandView::Executor => ActionView::Executor,
        CommandView::Resume => ActionView::Resume,
        CommandView::Review => ActionView::Review,
        CommandView::Attach { name } => {
            let at = session::session_at(sessions, name);
            if at < sessions.len() {
                ActionView::Info(
                    name
                        + " runs headlessly — no terminal to attach.\nTail its log to observe: tail -f "@
                        + sessions[at].log_path,
                )
            } else {
                ActionView::Error(
                    "No agent named '"@ + name + "'. Run /status to see active agents."@,
                )
            }
        },
        CommandView::Init { agents_path } => ActionView::Init { agents_path },
        CommandView::Register { supervisor, supervisor_model, executor, executor_model } => if some_agent(
            supervisor,
            program,
        ) is None && some_agent(executor, program) is None {
            ActionView::Error(AGENT_REQUIRED@)
        } else {
            ActionView::Register {
                supervisor: some_agent(supervisor, program),
                supervisor_model,
                executor: some_agent(executor, program),
                executor_model,
            }
        },
        CommandView::Model { target, model, clear } => if model is Some != clear {
            ActionView::SetModel { target, model }
        } else {
            ActionView::Refuse(MODEL_USAGE@)
        },
    }
}

/// What HQ does about a command, where these headless sessions are known.
pub fn dispatch_command(command: ShellCommand, sessions: &Vec<Session>, program: &str) -> (out: Action)
    ensures
        out@ == action_for(command@, schedule::session_views(sessions@), program@),
{
    proof {
        let name = command@->name;
        text::lemma_index_of(
            schedule::session_views(sessions@).map_values(|s: SessionView| s.name),
            name,
        );
    }
    match command {
        ShellCommand::Quit => Action::Muted(BYE.to_owned()),
        ShellCommand::Status => Action::ShowStatus,
        ShellCommand::Tasks => Action::ListTasks,
        ShellCommand::Run { limit } => Action::RunBatch { limit },
        ShellCommand::Runs { limit } => Action::ListRuns { limit },
        ShellCommand::Events { limit, run_id } => Action::ListEvents { limit, run_id },
        ShellCommand::Check { force } => Action::Check { force },
        ShellCommand::Help => Action::Info(HELP.to_owned()),
        ShellCommand::Reset => Action::Reset,
        ShellCommand::Stop => Action::Stop,
        ShellCommand::Plan => Action::Plan,
        ShellCommand::Task { manual } => Action::Task { manual },
        ShellCommand::Milestones => Action::Milestones,
        ShellCommand::ResetSpec => Action::ResetSpec,
        ShellCommand::Spec => Action::Spec,
        ShellCommand::Supervisor => Action::Supervisor,
        ShellCommand::Executor => Action::Executor,
        ShellCommand::Resume => Action::Resume,
        ShellCommand::Review => Action::Review,
        ShellCommand::Attach { name } => match session::attach(sessions, name.as_str()) {
            Ok(message) => Action::Info(message),
            Err(message) => Action::Error(message),
        },
        ShellCommand::Init { agents_path } => Action::Init { agents_path },
        ShellCommand::Register { supervisor, supervisor_model, executor, executor_model } => {
            let sup: Option<Agent> = parse_some_agent(&supervisor, program);
            let exe: Option<Agent> = parse_some_agent(&executor, program);
            if sup.is_none() && exe.is_none() {
                Action::Error(AGENT_REQUIRED.to_owned())
            } else {
                Action::Register { supervisor: sup, supervisor_model, executor: exe, executor_model }
            }
        },
        ShellCommand::Model { target, model, clear } => {
            if model.is_some() != clear {
                Action::SetModel { target, model }
            } else {
                Action::Refuse(MODEL_USAGE.to_owned())
            }
        },
    }
}

/// What HQ does about what a line was read as.
pub open spec fn action_for_parsed(
    parsed: Result<CommandView, commands::ErrorView>,
    sessions: Seq<SessionView>,
    program: Seq<char>,
) -> ActionView {
    match parsed {
        Ok(command) => action_for(command, sessions, program),
        Err(error) => ActionView::Refuse(commands::command_problem(error)),
    }
}

/// What HQ does about a line: input without a slash is an answer where one is
/// waited for.
pub open spec fn action_for_line(
    line: Seq<char>,
    pending_question: bool,
    sessions: Seq<SessionView>,
    program: Seq<char>,
) -> ActionView {
    if !"/"@.is_prefix_of(line) {
        if pending_question {
            ActionView::Answer
        } else {
            ActionView::Refuse(NOT_A_COMMAND@)
        }
    } else {
        action_for_parsed(commands::command_of_line(line), sessions, program)
    }
}

/// What HQ does about a line.
pub fn dispatch(
    line: &str,
    pending_question: bool,
    sessions: &Vec<Session>,
    program: &str,
) -> (out: Action)
    ensures
        out@ == action_for_line(
            line@,
            pending_question,
            schedule::session_views(sessions@),
            program@,
        ),
{
    if !text::starts_with(line, "/") {
        if pending_question {
            return Action::Answer;
        }
        return Action::Refuse(NOT_A_COMMAND.to_owned());
    }
    match commands::parse_command(line) {
        Ok(command) => dispatch_command(command, sessions, program),
        Err(error) => Action::Refuse(error.message()),
    }
}

/// While an answer is waited for, input without a slash is one, and commands
/// are carried out as ever.
pub proof fn law_answers_need_no_slash(
    line: Seq<char>,
    sessions: Seq<SessionView>,
    program: Seq<char>,
)
    ensures
        "/"@.is_prefix_of(line) ==> action_for_line(line, true, sessions, program)
            == action_for_line(line, false, sessions, program),
        "/"@.is_prefix_of(line) ==> !(action_for_line(line, true, sessions, program) is Answer),
        !"/"@.is_prefix_of(line) ==> action_for_line(line, true, sessions, program) is Answer,
        !(action_for_line(line, false, sessions, program) is Answer),
{
}

// ------------------------------------------------------------------ the loop

/// What reaches the loop of HQ.
#[derive(Debug, Clone, PartialEq, Eq)]
pub enum LoopEvent {
    /// It is time to look at the queue.
    Tick,
    /// A state was watched, or there is none yet.
    Watched(Option<WatchedState>),
    /// The watcher is gone.
    WatcherEnded,
    /// The user entered a line.
    Line(String),
    /// The shell is gone.
    ShellEnded,
}

/// What the loop of HQ does next.
#[derive(Debug, Clone, Copy, PartialEq, Eq, Structural)]
pub enum LoopStep {
    /// Start the sessions that are due.
    Schedule,
    /// Act on the watched state.
    Change,
    /// Do nothing.
    Nothing,
    /// Do what the line says.
    Dispatch,
    /// Say goodbye and end.
    Quit,
    /// End.
    End,
}

/// What the loop of HQ does about a line.
pub open spec fn line_step(line: Seq<char>) -> LoopStep {
    if text::trim(line).len() == 0 {
        LoopStep::Nothing
    } else if text::trim(line) == "/quit"@ {
        LoopStep::Quit
    } else {
        LoopStep::Dispatch
    }
}

/// Every how many seconds the loop looks at the queue.
pub const SCHEDULE_SECS: u64 = 2;

/// What the loop of HQ does about an event.
pub fn run(event: &LoopEvent) -> (out: LoopStep)
    ensures
        match *event {
            LoopEvent::Tick => out == LoopStep::Schedule,
            LoopEvent::Watched(Some(_)) => out == LoopStep::Change,
            LoopEvent::Watched(None) => out == LoopStep::Nothing,
            LoopEvent::WatcherEnded => out == LoopStep::End,
            LoopEvent::Line(line) => out == line_step(line@),
            LoopEvent::ShellEnded => out == LoopStep::End,
        },
{
    match event {
        LoopEvent::Tick => LoopStep::Schedule,
        LoopEvent::Watched(watched) => match watched {
            Some(_) => LoopStep::Change,
            None => LoopStep::Nothing,
        },
        LoopEvent::WatcherEnded => LoopStep::End,
        LoopEvent::Line(line) => {
            let trimmed: String = text::trim_string(line.as_str());
            let chars: Vec<char> = text::chars_of(trimmed.as_str());
            if chars.len() == 0 {
                LoopStep::Nothing
            } else if text::same(trimmed.as_str(), "/quit") {
                LoopStep::Quit
            } else {
                LoopStep::Dispatch
            }
        },
        LoopEvent::ShellEnded => LoopStep::End,
    }
}

/// Each command is carried out as itself, and by nothing else: what is done tells which
/// command it was.
pub proof fn law_commands_are_carried_out(
    command: CommandView,
    sessions: Seq<SessionView>,
    program: Seq<char>,
)
    ensures
        ({
            let action = action_for(command, sessions, program);
            &&& command is Status <==> action is ShowStatus
            &&& command is Tasks <==> action is ListTasks
            &&& command is Reset <==> action is Reset
            &&& command is Stop <==> action is Stop
            &&& command is Plan <==> action is Plan
            &&& command is Milestones <==> action is Milestones
            &&& command is ResetSpec <==> action is ResetSpec
            &&& command is Spec <==> action is Spec
            &&& command is Supervisor <==> action is Supervisor
            &&& command is Executor <==> action is Executor
            &&& command is Resume <==> action is Resume
            &&& command is Review <==> action is Review
            &&& command is Quit <==> action is Muted
            &&& command is Help ==> action == ActionView::Info(HELP@)
            &&& command matches CommandView::Run { limit } ==> action == ActionView::RunBatch {
                limit,
            }
            &&& command matches CommandView::Runs { limit } ==> action == ActionView::ListRuns {
                limit,
            }
            &&& command matches CommandView::Events { limit, run_id } ==> action
                == ActionView::ListEvents { limit, run_id }
            &&& command matches CommandView::Check { force } ==> action == ActionView::Check {
                force,
            }
            &&& command matches CommandView::Task { manual } ==> action == ActionView::Task {
                manual,
            }
            &&& command matches CommandView::Init { agents_path } ==> action == ActionView::Init {
                agents_path,
            }
            &&& action is RunBatch ==> command is Run
            &&& action is Check ==> command is Check
            &&& action is Task ==> command is Task
            &&& action is Init ==> command is Init
            &&& action is Register ==> command is Register
            &&& action is SetModel ==> command is Model
            &&& !(action is Answer)
        }),
{
}

/// Who is attached to: the first session with the name, by its log; a name without a session
/// is an error.
pub proof fn law_attach_names_the_log(
    name: Seq<char>,
    sessions: Seq<SessionView>,
    program: Seq<char>,
    i: int,
)
    ensures
        ({
            let action = action_for(CommandView::Attach { name }, sessions, program);
            &&& 0 <= i < sessions.len() && sessions[i].name == name && (forall|j: int|
                0 <= j < i ==> (#[trigger] sessions[j]).name != name) ==> action
                == ActionView::Info(
                name
                    + " runs headlessly — no terminal to attach.\nTail its log to observe: tail -f "@
                    + sessions[i].log_path,
            )
            &&& (forall|j: int| 0 <= j < sessions.len() ==> (#[trigger] sessions[j]).name != name)
                ==> action is Error
        }),
{
    let at = session::session_at(sessions, name);
    session::law_first_session_counts(sessions, name, i);
    if 0 <= i < sessions.len() && sessions[i].name == name && (forall|j: int|
        0 <= j < i ==> (#[trigger] sessions[j]).name != name) {
        if at < i {
            assert(sessions[at].name != name);
        }
    }
}

/// Registering from the shell knows two agents; a name that is neither counts as none, and
/// without any nothing is registered. Each role gets its own agent and model.
pub proof fn law_shell_registers_two_agents(
    supervisor: Option<Seq<char>>,
    supervisor_model: Option<Seq<char>>,
    executor: Option<Seq<char>>,
    executor_model: Option<Seq<char>>,
    sessions: Seq<SessionView>,
    program: Seq<char>,
)
    ensures
        ({
            let known = |name: Option<Seq<char>>|
                if name == Some(program + "-code"@) {
                    Some(Agent::ClaudeCode)
                } else if name == Some("codex"@) {
                    Some(Agent::Codex)
                } else {
                    None
                };
            let action = action_for(
                CommandView::Register { supervisor, supervisor_model, executor, executor_model },
                sessions,
                program,
            );
            if known(supervisor) is None && known(executor) is None {
                action is Error
            } else {
                action == ActionView::Register {
                    supervisor: known(supervisor),
                    supervisor_model,
                    executor: known(executor),
                    executor_model,
                }
            }
        }),
{
}

/// A model is either named or cleared: with both or neither nothing is changed.
pub proof fn law_model_is_named_or_cleared(
    target: HqRole,
    model: Option<Seq<char>>,
    clear: bool,
    sessions: Seq<SessionView>,
    program: Seq<char>,
)
    ensures
        ({
            let action = action_for(
                CommandView::Model { target, model, clear },
                sessions,
                program,
            );
            &&& model is Some && !clear ==> action == ActionView::SetModel { target, model }
            &&& model is None && clear ==> action == ActionView::SetModel { target, model: None }
            &&& model is Some && clear ==> action is Refuse
            &&& model is None && !clear ==> action is Refuse
        }),
{
}

/// A blank line is passed over, `/quit` ends the shell, and every other line is carried out,
/// whatever white space stands around it.
pub proof fn law_lines_are_carried_out(line: Seq<char>)
    ensures
        line_step(line) is Nothing <==> text::is_blank(line),
        line_step(line) is Quit <==> text::trim(line) == "/quit"@,
        line_step(line) is Dispatch <==> !text::is_blank(line) && text::trim(line) != "/quit"@,
{
    text::lemma_trim_empty(line);
    reveal_strlit("/quit");
}

} // verus!
