//! The state machine of one task and the state that is kept of it.
use vstd::prelude::*;

use crate::clock::Instant;
use crate::text;

verus! {

/// The states of a task.
#[derive(Debug, Clone, Copy, PartialEq, Eq, Structural)]
pub enum TaskState {
    Idle,
    Executing,
    Consultation,
    Reviewing,
    Addressing,
    Complete,
    Failed,
    AwaitingHuman,
}

/// The name of a state as it is shown.
pub open spec fn state_name(state: TaskState) -> Seq<char> {
    match state {
        TaskState::Idle => "Idle"@,
        TaskState::Executing => "Executing"@,
        TaskState::Consultation => "Consultation"@,
        TaskState::Reviewing => "Reviewing"@,
        TaskState::Addressing => "Addressing"@,
        TaskState::Complete => "Complete"@,
        TaskState::Failed => "Failed"@,
        TaskState::AwaitingHuman => "AwaitingHuman"@,
    }
}

impl TaskState {
    /// The name of the state as it is shown.
    pub fn name(&self) -> (out: &'static str)
        ensures
            out@ == state_name(*self),
    {
        match self {
            TaskState::Idle => "Idle",
            TaskState::Executing => "Executing",
            TaskState::Consultation => "Consultation",
            TaskState::Reviewing => "Reviewing",
            TaskState::Addressing => "Addressing",
            TaskState::Complete => "Complete",
            TaskState::Failed => "Failed",
            TaskState::AwaitingHuman => "AwaitingHuman",
        }
    }
}

/// What is kept of the task under way.
#[derive(Debug, Clone, PartialEq, Eq)]
pub struct StateData {
    pub state: TaskState,
    pub paused_state: Option<TaskState>,
    pub awaiting_human_by: Option<String>,
    pub claimed_by: Option<String>,
    pub lease_until: Option<Instant>,
    pub last_heartbeat: Option<Instant>,
    pub check_retries: u32,
    pub review_cycles: u32,
    pub active_task_id: Option<String>,
    pub active_task_path: Option<String>,
    pub active_run_dir: Option<String>,
    pub task_spec: Option<String>,
    pub task_milestone: Option<String>,
    pub selected_spec: Option<String>,
    pub selected_milestone: Option<String>,
    pub updated_at: Instant,
}

/// The contents of the kept state.
#[verifier::ext_equal]
pub struct StateView {
    pub state: TaskState,
    pub paused_state: Option<TaskState>,
    pub awaiting_human_by: Option<Seq<char>>,
    pub claimed_by: Option<Seq<char>>,
    pub lease_until: Option<Instant>,
    pub last_heartbeat: Option<Instant>,
    pub check_retries: u32,
    pub review_cycles: u32,
    pub active_task_id: Option<Seq<char>>,
    pub active_task_path: Option<Seq<char>>,
    pub active_run_dir: Option<Seq<char>>,
    pub task_spec: Option<Seq<char>>,
    pub task_milestone: Option<Seq<char>>,
    pub selected_spec: Option<Seq<char>>,
    pub selected_milestone: Option<Seq<char>>,
    pub updated_at: Instant,
}

impl View for StateData {
    type V = StateView;

    open spec fn view(&self) -> StateView {
        StateView {
            state: self.state,
            paused_state: self.paused_state,
            awaiting_human_by: text::opt_view(self.awaiting_human_by),
            claimed_by: text::opt_view(self.claimed_by),
            lease_until: self.lease_until,
            last_heartbeat: self.last_heartbeat,
            check_retries: self.check_retries,
            review_cycles: self.review_cycles,
            active_task_id: text::opt_view(self.active_task_id),
            active_task_path: text::opt_view(self.active_task_path),
            active_run_dir: text::opt_view(self.active_run_dir),
            task_spec: text::opt_view(self.task_spec),
            task_milestone: text::opt_view(self.task_milestone),
            selected_spec: text::opt_view(self.selected_spec),
            selected_milestone: text::opt_view(self.selected_milestone),
            updated_at: self.updated_at,
        }
    }
}

/// The state before any task.
pub open spec fn idle_state(updated_at: Instant) -> StateView {
    StateView {
        state: TaskState::Idle,
        paused_state: None,
        awaiting_human_by: None,
        claimed_by: None,
        lease_until: None,
        last_heartbeat: None,
        check_retries: 0,
        review_cycles: 0,
        active_task_id: None,
        active_task_path: None,
        active_run_dir: None,
        task_spec: None,
        task_milestone: None,
        selected_spec: None,
        selected_milestone: None,
        updated_at,
    }
}

impl StateData {
    /// The state before any task.
    pub fn new(updated_at: Instant) -> (out: StateData)
        ensures
            out@ == idle_state(updated_at),
    {
        StateData {
            state: TaskState::Idle,
            paused_state: None,
            awaiting_human_by: None,
            claimed_by: None,
            lease_until: None,
            last_heartbeat: None,
            check_retries: 0,
            review_cycles: 0,
            active_task_id: None,
            active_task_path: None,
            active_run_dir: None,
            task_spec: None,
            task_milestone: None,
            selected_spec: None,
            selected_milestone: None,
            updated_at,
        }
    }

    /// Notes the files of the task under way.
    pub fn set_active_task_artifacts(&mut self, id: String, path: String, run_dir: String)
        ensures
            final(self)@ == (StateView {
                active_task_id: Some(id@),
                active_task_path: Some(path@),
                active_run_dir: Some(run_dir@),
                ..old(self)@
            }),
    {
        self.active_task_id = Some(id);
        self.active_task_path = Some(path);
        self.active_run_dir = Some(run_dir);
    }

    /// Gives up the lease.
    pub fn clear_lease(&mut self)
        ensures
            final(self)@ == (StateView {
                claimed_by: None,
                lease_until: None,
                last_heartbeat: None,
                ..old(self)@
            }),
    {
        self.claimed_by = None;
        self.lease_until = None;
        self.last_heartbeat = None;
    }

    /// Gives the task up: back to idle, with nothing left of it but the
    /// selection that the next task may start from.
    pub fn force_reset(&mut self, now: Instant)
        ensures
            final(self)@ == (StateView {
                selected_spec: old(self)@.selected_spec,
                selected_milestone: old(self)@.selected_milestone,
                ..idle_state(now)
            }),
    {
        self.state = TaskState::Idle;
        self.paused_state = None;
        self.awaiting_human_by = None;
        self.claimed_by = None;
        self.lease_until = None;
        self.last_heartbeat = None;
        self.check_retries = 0;
        self.review_cycles = 0;
        self.active_task_id = None;
        self.active_task_path = None;
        self.active_run_dir = None;
        self.task_spec = None;
        self.task_milestone = None;
        self.updated_at = now;
    }

    /// Takes up the state that was paused for a human answer; nothing where no
    /// answer is waited for.
    pub fn answer(&mut self, now: Instant) -> (out: Option<TaskState>)
        ensures
            out == resumed_state(old(self)@),
            match out {
                Some(resumed) => final(self)@ == (StateView {
                    state: resumed,
                    paused_state: None,
                    awaiting_human_by: None,
                    updated_at: now,
                    ..old(self)@
                }),
                None => final(self)@ == old(self)@,
            },
    {
        if self.state != TaskState::AwaitingHuman {
            return None;
        }
        let resumed: TaskState = match self.paused_state {
            Some(state) => state,
            None => TaskState::Executing,
        };
        self.state = resumed;
        self.paused_state = None;
        self.awaiting_human_by = None;
        self.updated_at = now;
        Some(resumed)
    }
}

/// The state that a human answer takes up again.
pub open spec fn resumed_state(state: StateView) -> Option<TaskState> {
    if state.state != TaskState::AwaitingHuman {
        None
    } else {
        match state.paused_state {
            Some(paused) => Some(paused),
            None => Some(TaskState::Executing),
        }
    }
}

/// Before any task nothing is known, nobody holds anything, nothing is counted and nothing
/// is selected. An answer takes up what was paused, or the execution where that is not
/// known, and only while a human is waited for.
pub proof fn law_idle_knows_nothing(at: Instant, kept: StateView)
    ensures
        ({
            let s = idle_state(at);
            &&& s.state is Idle && s.paused_state is None && s.awaiting_human_by is None
            &&& s.claimed_by is None && s.lease_until is None && s.last_heartbeat is None
            &&& s.check_retries == 0 && s.review_cycles == 0
            &&& s.active_task_id is None && s.active_task_path is None && s.active_run_dir is None
            &&& s.task_spec is None && s.task_milestone is None
            &&& s.selected_spec is None && s.selected_milestone is None
            &&& s.updated_at == at
        }),
        resumed_state(kept) is Some <==> kept.state is AwaitingHuman,
        kept.state is AwaitingHuman && kept.paused_state is Some ==> resumed_state(kept)
            == kept.paused_state,
        kept.state is AwaitingHuman && kept.paused_state is None ==> resumed_state(kept) == Some(
            TaskState::Executing,
        ),
{
}

/// States are shown by their own names.
pub proof fn law_states_have_their_own_names(a: TaskState, b: TaskState)
    ensures
        state_name(a) == state_name(b) ==> a == b,
        state_name(TaskState::Executing) == "Executing"@,
        state_name(TaskState::Reviewing) == "Reviewing"@,
        state_name(TaskState::Addressing) == "Addressing"@,
        state_name(TaskState::Consultation) == "Consultation"@,
        state_name(TaskState::AwaitingHuman) == "AwaitingHuman"@,
        state_name(TaskState::Complete) == "Complete"@,
        state_name(TaskState::Failed) == "Failed"@,
        state_name(TaskState::Idle) == "Idle"@,
{
    reveal_strlit("Idle");
    reveal_strlit("Executing");
    reveal_strlit("Reviewing");
    reveal_strlit("Addressing");
    reveal_strlit("Consultation");
    reveal_strlit("AwaitingHuman");
    reveal_strlit("Complete");
    reveal_strlit("Failed");
    assert("Idle"@[0] == 'I' && "Executing"@[0] == 'E' && "Reviewing"@[0] == 'R');
    assert("Addressing"@[1] == 'd' && "AwaitingHuman"@[1] == 'w' && "Failed"@[0] == 'F');
    assert("Addressing"@[0] == 'A' && "AwaitingHuman"@[0] == 'A');
    assert("Consultation"@[2] == 'n' && "Complete"@[2] == 'm');
    assert("Consultation"@[0] == 'C' && "Complete"@[0] == 'C');
}

} // verus!
