//! The state file of projects that predate the runtime tables.
use vstd::prelude::*;

use crate::clock::Instant;
use crate::runtime_status::TaskStatus;

verus! {

/// The states that such a file can hold.
#[derive(Debug, Clone, Copy, PartialEq, Eq, Structural)]
pub enum LegacyTaskState {
    Idle,
    Executing,
    Consultation,
    Reviewing,
    Addressing,
    Complete,
    Failed,
    AwaitingHuman,
}

/// What such a file holds.
#[derive(Debug, Clone, PartialEq, Eq)]
pub struct LegacyStateData {
    pub state: Option<LegacyTaskState>,
    pub task_spec: Option<String>,
    pub task_milestone: Option<String>,
    pub selected_spec: Option<String>,
    pub selected_milestone: Option<String>,
    pub updated_at: Option<Instant>,
}

impl LegacyStateData {
    /// The state; idle where the file names none.
    pub fn state(&self) -> (out: LegacyTaskState)
        ensures
            out == match self.state {
                Some(state) => state,
                None => LegacyTaskState::Idle,
            },
    {
        match self.state {
            Some(state) => state,
            None => LegacyTaskState::Idle,
        }
    }
}

/// The status of a task that such a file left in a state.
pub open spec fn legacy_status(state: LegacyTaskState) -> TaskStatus {
    match state {
        LegacyTaskState::Idle => TaskStatus::Reset,
        LegacyTaskState::Executing => TaskStatus::Executing,
        LegacyTaskState::Consultation => TaskStatus::Consultation,
        LegacyTaskState::Reviewing => TaskStatus::Reviewing,
        LegacyTaskState::Addressing => TaskStatus::Addressing,
        LegacyTaskState::Complete => TaskStatus::Complete,
        LegacyTaskState::Failed => TaskStatus::Failed,
        LegacyTaskState::AwaitingHuman => TaskStatus::AwaitingHuman,
    }
}

/// The status of a task that such a file left in a state.
pub fn task_status_for_legacy_state(state: &LegacyTaskState) -> (out: TaskStatus)
    ensures
        out == legacy_status(*state),
{
    match state {
        LegacyTaskState::Idle => TaskStatus::Reset,
        LegacyTaskState::Executing => TaskStatus::Executing,
        LegacyTaskState::Consultation => TaskStatus::Consultation,
        LegacyTaskState::Reviewing => TaskStatus::Reviewing,
        LegacyTaskState::Addressing => TaskStatus::Addressing,
        LegacyTaskState::Complete => TaskStatus::Complete,
        LegacyTaskState::Failed => TaskStatus::Failed,
        LegacyTaskState::AwaitingHuman => TaskStatus::AwaitingHuman,
    }
}

/// A task that such a file holds goes on where it was, and no two states give one
/// status. Where the file holds no task, what was there is given up, and nothing is
/// taken for a task that has not been started.
pub proof fn law_older_state_is_kept(a: LegacyTaskState, b: LegacyTaskState)
    ensures
        legacy_status(a) == legacy_status(b) ==> a == b,
        legacy_status(a) is Reset <==> a is Idle,
        legacy_status(a) is Executing <==> a is Executing,
        legacy_status(a) is Consultation <==> a is Consultation,
        legacy_status(a) is Reviewing <==> a is Reviewing,
        legacy_status(a) is Addressing <==> a is Addressing,
        legacy_status(a) is Complete <==> a is Complete,
        legacy_status(a) is Failed <==> a is Failed,
        legacy_status(a) is AwaitingHuman <==> a is AwaitingHuman,
{
}

} // verus!
