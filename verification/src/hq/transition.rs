//! What HQ does when the state of a task changes, and when the user resumes or
//! reviews by hand.
use vstd::prelude::*;
use vstd::string::*;

use crate::config::HqRole;
use crate::hq::agent_manager;
use crate::hq::state_watcher::WatchedState;
use crate::state;
use crate::state::TaskState;
use crate::text;

verus! {

/// What a change of state asks for.
#[derive(Debug, Clone, Copy, PartialEq, Eq, Structural)]
pub enum TransitionAction {
    SpawnExecutor,
    SpawnReviewer,
    SpawnConsultant,
    KillReviewerSpawnExecutor,
    TaskComplete,
    TaskFailed,
    /// An agent asked a question; show it and wait for the user.
    PauseForHuman,
    NoOp,
}

/// Whether an agent is at work in a state.
pub open spec fn at_work(state: TaskState) -> bool {
    state is Executing || state is Addressing
}

/// What a change of state asks for.
pub open spec fn action_of(from: TaskState, to: TaskState) -> TransitionAction {
    if from is Idle && to is Executing {
        TransitionAction::SpawnExecutor
    } else if at_work(from) && to is Reviewing {
        TransitionAction::SpawnReviewer
    } else if at_work(from) && to is Consultation {
        TransitionAction::SpawnConsultant
    } else if from is Reviewing && to is Addressing {
        TransitionAction::KillReviewerSpawnExecutor
    } else if from is Reviewing && to is Complete {
        TransitionAction::TaskComplete
    } else if to is Failed {
        TransitionAction::TaskFailed
    } else if (at_work(from) || from is Consultation || from is Reviewing)
        && to is AwaitingHuman {
        TransitionAction::PauseForHuman
    } else {
        TransitionAction::NoOp
    }
}

/// What a change of state asks for.
pub fn transition_action(from: &TaskState, to: &TaskState) -> (out: TransitionAction)
    ensures
        out == action_of(*from, *to),
{
    match (*from, *to) {
        (TaskState::Idle, TaskState::Executing) => TransitionAction::SpawnExecutor,
        (TaskState::Executing, TaskState::Reviewing) => TransitionAction::SpawnReviewer,
        (TaskState::Addressing, TaskState::Reviewing) => TransitionAction::SpawnReviewer,
        (TaskState::Executing, TaskState::Consultation) => TransitionAction::SpawnConsultant,
        (TaskState::Addressing, TaskState::Consultation) => TransitionAction::SpawnConsultant,
        (TaskState::Reviewing, TaskState::Addressing) =>
            TransitionAction::KillReviewerSpawnExecutor,
        (TaskState::Reviewing, TaskState::Complete) => TransitionAction::TaskComplete,
        (_, TaskState::Failed) => TransitionAction::TaskFailed,
        (TaskState::Executing, TaskState::AwaitingHuman) => TransitionAction::PauseForHuman,
        (TaskState::Addressing, TaskState::AwaitingHuman) => TransitionAction::PauseForHuman,
        (TaskState::Consultation, TaskState::AwaitingHuman) => TransitionAction::PauseForHuman,
        (TaskState::Reviewing, TaskState::AwaitingHuman) => TransitionAction::PauseForHuman,
        _ => TransitionAction::NoOp,
    }
}

// ------------------------------------------------------------------ steps

/// The prompts that sessions start with.
#[derive(Debug, Clone, Copy, PartialEq, Eq, Structural)]
pub enum Prompt {
    Executor,
    ExecutorResume,
    ExecutorWaitForConsult,
    Consultant,
    ConsultantResume,
    Reviewer,
}

/// The text of a prompt.
pub open spec fn prompt_text(prompt: Prompt, program: Seq<char>) -> Seq<char> {
    let start = match prompt {
        Prompt::Executor => agent_manager::EXECUTOR_START@,
        Prompt::ExecutorResume => agent_manager::EXECUTOR_RESUME_START@,
        Prompt::ExecutorWaitForConsult => agent_manager::EXECUTOR_WAIT_FOR_CONSULT_START@,
        Prompt::Consultant => agent_manager::CONSULTANT_START@,
        Prompt::ConsultantResume => agent_manager::CONSULTANT_RESUME_START@,
        Prompt::Reviewer => agent_manager::REVIEWER_START@,
    };
    agent_manager::prompt(start, program)
}

impl Prompt {
    /// The text of the prompt, where the program of the first agent is called
    /// `program`.
    pub fn text(&self, program: &str) -> (out: String)
        ensures
            out@ == prompt_text(*self, program@),
    {
        match self {
            Prompt::Executor => agent_manager::executor_prompt(program),
            Prompt::ExecutorResume => agent_manager::executor_resume_prompt(program),
            Prompt::ExecutorWaitForConsult => agent_manager::executor_wait_for_consult_prompt(program),
            Prompt::Consultant => agent_manager::consultant_prompt(program),
            Prompt::ConsultantResume => agent_manager::consultant_resume_prompt(program),
            Prompt::Reviewer => agent_manager::reviewer_prompt(program),
        }
    }
}

/// One step of what HQ does. The first step that fails ends the series, with
/// the step's own words about the failure where it has any.
#[derive(Debug, Clone, Copy, PartialEq, Eq)]
pub enum Step {
    /// The agent of a role has to be configured.
    Require(HqRole),
    /// Read the configuration, unless both agents are known.
    LoadConfig(&'static str),
    /// Stop the session of a role, where it has one.
    Stop(HqRole),
    /// Start a headless session of a role.
    Start(HqRole, Prompt, &'static str),
    /// Tell the user.
    Info(&'static str),
    Tip(&'static str),
    /// Show the question that waits for an answer.
    ShowQuestion,
}

/// The contents of a step.
#[verifier::ext_equal]
pub enum StepView {
    Require(HqRole),
    LoadConfig(Seq<char>),
    Stop(HqRole),
    Start(HqRole, Prompt, Seq<char>),
    Info(Seq<char>),
    Tip(Seq<char>),
    ShowQuestion,
}

impl View for Step {
    type V = StepView;

    open spec fn view(&self) -> StepView {
        match *self {
            Step::Require(role) => StepView::Require(role),
            Step::LoadConfig(context) => StepView::LoadConfig(context@),
            Step::Stop(role) => StepView::Stop(role),
            Step::Start(role, prompt, context) => StepView::Start(role, prompt, context@),
            Step::Info(s) => StepView::Info(s@),
            Step::Tip(s) => StepView::Tip(s@),
            Step::ShowQuestion => StepView::ShowQuestion,
        }
    }
}

/// The contents of a series of steps.
pub open spec fn step_views(list: Seq<Step>) -> Seq<StepView> {
    list.map_values(|s: Step| s@)
}

/// The tip when a task is complete.
pub const COMPLETE_TIP: &'static str =
    "Tip: Use /spec to create a new spec or /task to start a new task.";

/// The tip when a task failed.
pub const FAILED_TIP: &'static str = "Tip: Use /status for details, /reset to try again.";

/// The steps that an action takes.
pub open spec fn action_steps(action: TransitionAction) -> Seq<StepView> {
    let executor = HqRole::Executor;
    let supervisor = HqRole::Supervisor;
    match action {
        TransitionAction::SpawnExecutor => seq![
            StepView::LoadConfig("Failed to load executor config"@),
            StepView::Start(executor, Prompt::Executor, "Failed to spawn executor"@),
        ],
        TransitionAction::SpawnReviewer => seq![
            StepView::Require(executor),
            StepView::Stop(executor),
            StepView::LoadConfig("Failed to load supervisor config"@),
            StepView::Start(supervisor, Prompt::Reviewer, "Failed to spawn review supervisor"@),
        ],
        TransitionAction::SpawnConsultant => seq![
            StepView::LoadConfig("Failed to load supervisor config"@),
            StepView::Start(
                supervisor,
                Prompt::Consultant,
                "Failed to spawn consultation supervisor"@,
            ),
        ],
        TransitionAction::KillReviewerSpawnExecutor => seq![
            StepView::Require(supervisor),
            StepView::Stop(supervisor),
            StepView::LoadConfig("Failed to load executor config"@),
            StepView::Start(executor, Prompt::Executor, "Failed to spawn executor"@),
        ],
        TransitionAction::TaskComplete => seq![
            StepView::Stop(executor),
            StepView::Stop(supervisor),
            StepView::Tip(COMPLETE_TIP@),
        ],
        TransitionAction::TaskFailed => seq![
            StepView::Stop(executor),
            StepView::Stop(supervisor),
            StepView::Tip(FAILED_TIP@),
        ],
        TransitionAction::PauseForHuman => seq![StepView::ShowQuestion],
        TransitionAction::NoOp => Seq::empty(),
    }
}

/// The steps that an action takes.
pub fn steps_for(action: TransitionAction) -> (out: Vec<Step>)
    ensures
        step_views(out@) == action_steps(action),
{
    let mut out: Vec<Step> = Vec::new();
    match action {
        TransitionAction::SpawnExecutor => {
            out.push(Step::LoadConfig("Failed to load executor config"));
            out.push(Step::Start(HqRole::Executor, Prompt::Executor, "Failed to spawn executor"));
        },
        TransitionAction::SpawnReviewer => {
            out.push(Step::Require(HqRole::Executor));
            out.push(Step::Stop(HqRole::Executor));
            out.push(Step::LoadConfig("Failed to load supervisor config"));
            out.push(
                Step::Start(HqRole::Supervisor, Prompt::Reviewer, "Failed to spawn review supervisor"),
            );
        },
        TransitionAction::SpawnConsultant => {
            out.push(Step::LoadConfig("Failed to load supervisor config"));
            out.push(
                Step::Start(
                    HqRole::Supervisor,
                    Prompt::Consultant,
                    "Failed to spawn consultation supervisor",
                ),
            );
        },
        TransitionAction::KillReviewerSpawnExecutor => {
            out.push(Step::Require(HqRole::Supervisor));
            out.push(Step::Stop(HqRole::Supervisor));
            out.push(Step::LoadConfig("Failed to load executor config"));
            out.push(Step::Start(HqRole::Executor, Prompt::Executor, "Failed to spawn executor"));
        },
        TransitionAction::TaskComplete => {
            out.push(Step::Stop(HqRole::Executor));
            out.push(Step::Stop(HqRole::Supervisor));
            out.push(Step::Tip(COMPLETE_TIP));
        },
        TransitionAction::TaskFailed => {
            out.push(Step::Stop(HqRole::Executor));
            out.push(Step::Stop(HqRole::Supervisor));
            out.push(Step::Tip(FAILED_TIP));
        },
        TransitionAction::PauseForHuman => {
            out.push(Step::ShowQuestion);
        },
        TransitionAction::NoOp => {},
    }
    assert(step_views(out@) =~= action_steps(action));
    out
}

/// The steps that a seen state takes, after the state that was seen before; the
/// first state that is seen takes none.
pub open spec fn change_steps(before: Option<TaskState>, now: TaskState) -> Seq<StepView> {
    match before {
        None => Seq::empty(),
        Some(state) => if state == now {
            Seq::empty()
        } else {
            action_steps(action_of(state, now))
        },
    }
}

/// What HQ does about a watched state.
pub struct StateChange {
    /// Show the change.
    pub show: bool,
    pub steps: Vec<Step>,
}

/// What HQ does about a watched state.
pub fn on_state_change(before: Option<TaskState>, watched: &WatchedState) -> (out: StateChange)
    ensures
        out.show == (before != Some(watched.state.state) && watched.transition is Some),
        step_views(out.steps@) == change_steps(before, watched.state.state),
{
    let now: TaskState = watched.state.state;
    match before {
        None => {
            let none: Vec<Step> = Vec::new();
            assert(step_views(none@) =~= Seq::empty());
            StateChange { show: watched.transition.is_some(), steps: none }
        },
        Some(state) => {
            if state == now {
                let none: Vec<Step> = Vec::new();
                assert(step_views(none@) =~= Seq::empty());
                return StateChange { show: false, steps: none };
            }
            StateChange {
                show: watched.transition.is_some(),
                steps: steps_for(transition_action(&state, &now)),
            }
        },
    }
}

/// Where a step starts a session of a role.
pub open spec fn starts(step: StepView, role: HqRole) -> bool {
    step matches StepView::Start(r, _, _) && r == role
}

/// Where a step stops a session.
pub open spec fn stops(step: StepView) -> bool {
    step is Stop
}

/// Whether some step starts a session of a role.
pub open spec fn some_starts(steps: Seq<StepView>, role: HqRole) -> bool {
    exists|i: int| 0 <= i < steps.len() && starts(#[trigger] steps[i], role)
}

/// The right agent starts at the right time: an executor exactly when a task
/// begins or its submission is rejected, a supervisor exactly when an executor
/// submits its work or asks for advice.
pub proof fn law_right_agent_starts(from: TaskState, to: TaskState)
    ensures
        some_starts(action_steps(action_of(from, to)), HqRole::Executor) <==> (from is Idle
            && to is Executing) || (from is Reviewing && to is Addressing),
        some_starts(action_steps(action_of(from, to)), HqRole::Supervisor) <==> at_work(from) && (
        to is Reviewing || to is Consultation),
{
    let steps = action_steps(action_of(from, to));
    if steps.len() > 0 {
        let last = steps[steps.len() - 1];
        assert(starts(last, HqRole::Executor) || starts(last, HqRole::Supervisor) || last is Tip
            || last is ShowQuestion);
    }
}

/// A pause stops nobody and starts no executor: the agent that waits goes on
/// when it has its answer. Advice is given by a supervisor, who starts for it.
pub proof fn law_pause_stops_nobody(from: TaskState, to: TaskState)
    requires
        to is Consultation || to is AwaitingHuman,
    ensures
        ({
            let steps = action_steps(action_of(from, to));
            &&& forall|i: int|
                0 <= i < steps.len() ==> !stops(#[trigger] steps[i]) && !starts(
                    steps[i],
                    HqRole::Executor,
                )
            &&& at_work(from) && to is Consultation ==> starts(steps.last(), HqRole::Supervisor)
        }),
{
}

/// At a hand-over the session that is done stops before the next one starts: an
/// executor before the supervisor who judges its work, and that one before the
/// next executor.
pub proof fn law_hand_over_stops_first(from: TaskState, to: TaskState)
    ensures
        at_work(from) && to is Reviewing ==> ({
            let steps = action_steps(action_of(from, to));
            &&& steps[1] == StepView::Stop(HqRole::Executor)
            &&& starts(steps[3], HqRole::Supervisor)
            &&& forall|i: int|
                0 <= i < steps.len() ==> !starts(#[trigger] steps[i], HqRole::Executor)
        }),
        from is Reviewing && to is Addressing ==> ({
            let steps = action_steps(action_of(from, to));
            &&& steps[1] == StepView::Stop(HqRole::Supervisor)
            &&& starts(steps[3], HqRole::Executor)
            &&& forall|i: int|
                0 <= i < steps.len() ==> !starts(#[trigger] steps[i], HqRole::Supervisor)
        }),
{
}

/// Nothing is started when a task ends, nor while a human is waited for.
pub proof fn law_nothing_starts_at_the_end(from: TaskState, to: TaskState, role: HqRole)
    requires
        to is Complete || to is Failed || to is AwaitingHuman || to is Idle,
    ensures
        forall|i: int|
            0 <= i < action_steps(action_of(from, to)).len() ==> !starts(
                #[trigger] action_steps(action_of(from, to))[i],
                role,
            ),
{
}

// ------------------------------------------------------------------ by hand

/// The steps that resume the work by hand.
pub open spec fn resume_steps(executor_running: bool, state: TaskState) -> Seq<StepView> {
    if executor_running {
        seq![
            StepView::Info(
                "An executor is already running — work is in progress. Plan a new task first with /plan."@,
            ),
        ]
    } else {
        match state {
            TaskState::Complete => seq![
                StepView::Info("Task is already complete. Use /task to start a new task."@),
            ],
            TaskState::Reviewing => seq![
                StepView::Info(
                    "Execution is done and submission is pending review. Use /review to review it."@,
                ),
            ],
            TaskState::Consultation => seq![
                StepView::LoadConfig(""@),
                StepView::Require(HqRole::Supervisor),
                StepView::Stop(HqRole::Supervisor),
                StepView::Start(HqRole::Supervisor, Prompt::ConsultantResume, ""@),
                StepView::Start(HqRole::Executor, Prompt::ExecutorWaitForConsult, ""@),
            ],
            TaskState::AwaitingHuman => seq![
                StepView::LoadConfig(""@),
                StepView::Start(HqRole::Executor, Prompt::ExecutorResume, ""@),
            ],
            _ => seq![
                StepView::LoadConfig(""@),
                StepView::Start(HqRole::Executor, Prompt::Executor, ""@),
            ],
        }
    }
}

/// The steps that resume the work by hand.
pub fn resume(executor_running: bool, state: TaskState) -> (out: Vec<Step>)
    ensures
        step_views(out@) == resume_steps(executor_running, state),
{
    let mut out: Vec<Step> = Vec::new();
    if executor_running {
        out.push(
            Step::Info(
                "An executor is already running — work is in progress. Plan a new task first with /plan.",
            ),
        );
    } else {
        match state {
            TaskState::Complete => {
                out.push(
                    Step::Info("Task is already complete. Use /task to start a new task."),
                );
            },
            TaskState::Reviewing => {
                out.push(
                    Step::Info(
                        "Execution is done and submission is pending review. Use /review to review it.",
                    ),
                );
            },
            TaskState::Consultation => {
                out.push(Step::LoadConfig(""));
                out.push(Step::Require(HqRole::Supervisor));
                out.push(Step::Stop(HqRole::Supervisor));
                out.push(Step::Start(HqRole::Supervisor, Prompt::ConsultantResume, ""));
                out.push(Step::Start(HqRole::Executor, Prompt::ExecutorWaitForConsult, ""));
            },
            TaskState::AwaitingHuman => {
                out.push(Step::LoadConfig(""));
                out.push(Step::Start(HqRole::Executor, Prompt::ExecutorResume, ""));
            },
            _ => {
                out.push(Step::LoadConfig(""));
                out.push(Step::Start(HqRole::Executor, Prompt::Executor, ""));
            },
        }
    }
    assert(step_views(out@) =~= resume_steps(executor_running, state));
    out
}

/// Resuming by hand never starts a second executor beside a running one.
pub proof fn law_resume_starts_no_second_executor(state: TaskState)
    ensures
        forall|i: int|
            0 <= i < resume_steps(true, state).len() ==> !starts(
                #[trigger] resume_steps(true, state)[i],
                HqRole::Executor,
            ),
{
}

/// The steps that start a review by hand, which needs a submission.
pub fn review(state: TaskState) -> (out: Result<Vec<Step>, String>)
    ensures
        match out {
            Ok(steps) => state is Reviewing && step_views(steps@) == seq![
                StepView::LoadConfig(""@),
                StepView::Start(HqRole::Supervisor, Prompt::Reviewer, ""@),
            ],
            Err(message) => !(state is Reviewing) && message@ == "State is "@
                + state::state_name(state) + " — /review requires Reviewing. Use /status."@,
        },
{
    if state != TaskState::Reviewing {
        let mut message: String = "State is ".to_owned();
        message.append(state.name());
        message.append(" — /review requires Reviewing. Use /status.");
        return Err(message);
    }
    let mut steps: Vec<Step> = Vec::new();
    steps.push(Step::LoadConfig(""));
    steps.push(Step::Start(HqRole::Supervisor, Prompt::Reviewer, ""));
    assert(step_views(steps@) =~= seq![
        StepView::LoadConfig(""@),
        StepView::Start(HqRole::Supervisor, Prompt::Reviewer, ""@),
    ]);
    Ok(steps)
}

// ------------------------------------------------------------------ questions

/// What is shown when a human is asked.
pub open spec fn question_text(question: Option<Seq<char>>) -> Seq<char> {
    match question {
        Some(q) if !text::is_blank(q) => "\n[AWAITING YOUR ANSWER]\n"@ + q
            + "\n\nType your answer and press Enter."@,
        _ => "[AWAITING YOUR ANSWER] Type your response and press Enter."@,
    }
}

/// What is shown when a human is asked; the question may be missing.
pub fn handle_pause_for_human(question: Option<&str>) -> (out: String)
    ensures
        out@ == question_text(text::opt_str_view(question)),
{
    if let Some(q) = question {
        if !text::blank(q) {
            let mut out: String = "\n[AWAITING YOUR ANSWER]\n".to_owned();
            out.append(q);
            out.append("\n\nType your answer and press Enter.");
            return out;
        }
    }
    "[AWAITING YOUR ANSWER] Type your response and press Enter.".to_owned()
}

// ------------------------------------------------------------------ what a change is for

/// The step starts a session of a role with a prompt.
pub open spec fn starts_with_prompt(step: StepView, role: HqRole, prompt: Prompt) -> bool {
    step matches StepView::Start(r, p, _) && r == role && p == prompt
}

/// Some step starts a session of a role with a prompt.
pub open spec fn some_starts_with(steps: Seq<StepView>, role: HqRole, prompt: Prompt) -> bool {
    exists|i: int| 0 <= i < steps.len() && starts_with_prompt(#[trigger] steps[i], role, prompt)
}

/// Some step stops the session of a role.
pub open spec fn some_stops(steps: Seq<StepView>, role: HqRole) -> bool {
    exists|i: int| 0 <= i < steps.len() && #[trigger] steps[i] == StepView::Stop(role)
}

proof fn lemma_step_at(steps: Seq<StepView>)
    ensures
        forall|role: HqRole, prompt: Prompt|
            #![trigger some_starts_with(steps, role, prompt)]
            steps.len() > 0 && starts_with_prompt(steps[0], role, prompt) || steps.len() > 1
                && starts_with_prompt(steps[1], role, prompt) || steps.len() > 2
                && starts_with_prompt(steps[2], role, prompt) || steps.len() > 3
                && starts_with_prompt(steps[3], role, prompt) || steps.len() > 4
                && starts_with_prompt(steps[4], role, prompt) ==> some_starts_with(
                steps,
                role,
                prompt,
            ),
        forall|role: HqRole|
            #![trigger some_stops(steps, role)]
            steps.len() > 0 && steps[0] == StepView::Stop(role) || steps.len() > 1 && steps[1]
                == StepView::Stop(role) || steps.len() > 2 && steps[2] == StepView::Stop(role)
                ==> some_stops(steps, role),
{
}

/// The prompt fits the cause, whatever the change of state. On a change to
/// consultation a session is started, if any, by a supervisor who is told to answer;
/// on one to review, by a supervisor who is told to review; on any other, by an
/// executor who is told to carry the task out.
pub proof fn law_prompt_fits_the_cause(from: TaskState, to: TaskState, at: int)
    requires
        0 <= at < change_steps(Some(from), to).len(),
        change_steps(Some(from), to)[at] is Start,
    ensures
        ({
            let step = change_steps(Some(from), to)[at];
            match to {
                TaskState::Consultation => starts_with_prompt(
                    step,
                    HqRole::Supervisor,
                    Prompt::Consultant,
                ),
                TaskState::Reviewing => starts_with_prompt(
                    step,
                    HqRole::Supervisor,
                    Prompt::Reviewer,
                ),
                _ => starts_with_prompt(step, HqRole::Executor, Prompt::Executor),
            }
        }),
{
}

/// A change of state starts at most one session.
pub proof fn law_one_session_per_change(from: TaskState, to: TaskState, i: int, j: int)
    requires
        0 <= i < change_steps(Some(from), to).len(),
        0 <= j < change_steps(Some(from), to).len(),
        change_steps(Some(from), to)[i] is Start,
        change_steps(Some(from), to)[j] is Start,
    ensures
        i == j,
{
}

/// Who is started on a change of state, and for what. An executor starts with a new
/// task and when its work was rejected; a supervisor reviews what an executor at work
/// submits and advises one that asks. Nothing else starts anybody, and neither does a
/// state that was there before or is the first to be seen.
pub proof fn law_sessions_follow_the_task(from: TaskState, to: TaskState)
    ensures
        some_starts_with(change_steps(Some(from), to), HqRole::Executor, Prompt::Executor) <==> (
        from is Idle && to is Executing) || (from is Reviewing && to is Addressing),
        some_starts_with(change_steps(Some(from), to), HqRole::Supervisor, Prompt::Reviewer) <==> (
        from is Executing || from is Addressing) && to is Reviewing,
        some_starts_with(change_steps(Some(from), to), HqRole::Supervisor, Prompt::Consultant)
            <==> (from is Executing || from is Addressing) && to is Consultation,
        from == to ==> change_steps(Some(from), to).len() == 0,
        change_steps(None, to).len() == 0,
{
    lemma_step_at(change_steps(Some(from), to));
}

/// Who is stopped on a change of state. The executor stops when its work goes to
/// review, the reviewing supervisor when it has rejected it, and both when the task
/// is complete or has failed. Nobody else is stopped.
pub proof fn law_sessions_end_with_their_part(from: TaskState, to: TaskState)
    ensures
        ({
            let over = from is Reviewing && to is Complete || (to is Failed && !(from is Failed));
            &&& some_stops(change_steps(Some(from), to), HqRole::Executor) <==> over || ((
            from is Executing || from is Addressing) && to is Reviewing)
            &&& some_stops(change_steps(Some(from), to), HqRole::Supervisor) <==> over || (
            from is Reviewing && to is Addressing)
        }),
{
    lemma_step_at(change_steps(Some(from), to));
}

/// The user is told what a change needs from them: a question when an agent at work,
/// a consultation or a review waits for a human, and how to go on when the task is
/// complete or has failed.
pub proof fn law_user_is_told(from: TaskState, to: TaskState, at: int)
    requires
        0 <= at < change_steps(Some(from), to).len(),
    ensures
        ({
            let step = change_steps(Some(from), to)[at];
            let asked = (from is Executing || from is Addressing || from is Consultation
                || from is Reviewing) && to is AwaitingHuman;
            &&& step is ShowQuestion <==> asked
            &&& step is Tip ==> step == StepView::Tip(
                if to is Failed {
                    "Tip: Use /status for details, /reset to try again."@
                } else {
                    "Tip: Use /spec to create a new spec or /task to start a new task."@
                },
            )
            &&& step is Tip ==> to is Failed || to is Complete
            &&& (to is Failed || from is Reviewing && to is Complete) ==> change_steps(
                Some(from),
                to,
            ).last() is Tip
        }),
{
}

/// A question is shown whenever a human is waited for.
pub proof fn law_question_is_shown(from: TaskState)
    requires
        from is Executing || from is Addressing || from is Consultation || from is Reviewing,
    ensures
        change_steps(Some(from), TaskState::AwaitingHuman) == seq![StepView::ShowQuestion],
{
}

/// What resuming by hand starts, where no executor runs: nothing for a task that is
/// complete or in review; in a consultation the advising supervisor, who is stopped
/// first, and an executor who waits for the advice; after a question an executor who
/// reads the answer; and an executor who carries the task out in every other state.
pub proof fn law_resume_fits_the_state(state: TaskState, role: HqRole, prompt: Prompt)
    ensures
        some_starts_with(resume_steps(false, state), role, prompt) <==> match state {
            TaskState::Complete => false,
            TaskState::Reviewing => false,
            TaskState::Consultation => (role is Supervisor && prompt is ConsultantResume) || (
            role is Executor && prompt is ExecutorWaitForConsult),
            TaskState::AwaitingHuman => role is Executor && prompt is ExecutorResume,
            _ => role is Executor && prompt is Executor,
        },
        some_stops(resume_steps(false, state), role) <==> state is Consultation
            && role is Supervisor,
        state is Consultation ==> resume_steps(false, state)[2] == StepView::Stop(
            HqRole::Supervisor,
        ) && starts_with_prompt(
            resume_steps(false, state)[3],
            HqRole::Supervisor,
            Prompt::ConsultantResume,
        ),
        !some_starts_with(resume_steps(true, state), role, prompt),
        !some_stops(resume_steps(true, state), role),
{
    lemma_step_at(resume_steps(false, state));
}

/// Each prompt is the text for its own part, with the same end.
pub proof fn law_prompts_are_their_own(program: Seq<char>)
    ensures
        ({
            let named = crate::agents::claude::instructions_name(program)
                + agent_manager::DOCUMENTS_YIELD@;
            &&& prompt_text(Prompt::Executor, program) == agent_manager::EXECUTOR_START@ + named
            &&& prompt_text(Prompt::ExecutorResume, program)
                == agent_manager::EXECUTOR_RESUME_START@ + named
            &&& prompt_text(Prompt::ExecutorWaitForConsult, program)
                == agent_manager::EXECUTOR_WAIT_FOR_CONSULT_START@ + named
            &&& prompt_text(Prompt::Consultant, program) == agent_manager::CONSULTANT_START@ + named
            &&& prompt_text(Prompt::ConsultantResume, program)
                == agent_manager::CONSULTANT_RESUME_START@ + named
            &&& prompt_text(Prompt::Reviewer, program) == agent_manager::REVIEWER_START@ + named
        }),
{
    let named = crate::agents::claude::instructions_name(program)
        + agent_manager::DOCUMENTS_YIELD@;
    assert forall|start: Seq<char>| #[trigger] agent_manager::prompt(start, program) == start
        + named by {
        assert(agent_manager::prompt(start, program) =~= start + named);
    }
}

} // verus!
