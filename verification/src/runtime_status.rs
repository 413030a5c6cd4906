//! The status of a task in the tasks table.
use vstd::prelude::*;

verus! {

/// The statuses of a task.
#[derive(Debug, Clone, Copy, PartialEq, Eq, Structural)]
pub enum TaskStatus {
    Pending,
    Executing,
    Consultation,
    Reviewing,
    Addressing,
    Complete,
    Failed,
    AwaitingHuman,
    Reset,
}

/// The text of a status in the tasks table.
pub open spec fn status_text(status: TaskStatus) -> Seq<char> {
    match status {
        TaskStatus::Pending => "pending"@,
        TaskStatus::Executing => "executing"@,
        TaskStatus::Consultation => "consultation"@,
        TaskStatus::Reviewing => "reviewing"@,
        TaskStatus::Addressing => "addressing"@,
        TaskStatus::Complete => "complete"@,
        TaskStatus::Failed => "failed"@,
        TaskStatus::AwaitingHuman => "awaiting_human"@,
        TaskStatus::Reset => "reset"@,
    }
}

impl TaskStatus {
    /// The text of the status in the tasks table.
    pub fn as_str(&self) -> (out: &'static str)
        ensures
            out@ == status_text(*self),
    {
        match self {
            TaskStatus::Pending => "pending",
            TaskStatus::Executing => "executing",
            TaskStatus::Consultation => "consultation",
            TaskStatus::Reviewing => "reviewing",
            TaskStatus::Addressing => "addressing",
            TaskStatus::Complete => "complete",
            TaskStatus::Failed => "failed",
            TaskStatus::AwaitingHuman => "awaiting_human",
            TaskStatus::Reset => "reset",
        }
    }
}

/// Every status has a text of its own.
pub proof fn law_statuses_have_their_own_text(a: TaskStatus, b: TaskStatus)
    ensures
        status_text(a) == status_text(b) ==> a == b,
{
    reveal_strlit("pending");
    reveal_strlit("executing");
    reveal_strlit("consultation");
    reveal_strlit("reviewing");
    reveal_strlit("addressing");
    reveal_strlit("complete");
    reveal_strlit("failed");
    reveal_strlit("awaiting_human");
    reveal_strlit("reset");
    assert("pending"@.len() == 7);
    assert("executing"@.len() == 9 && "executing"@[0] == 'e');
    assert("consultation"@.len() == 12);
    assert("reviewing"@.len() == 9 && "reviewing"@[0] == 'r');
    assert("addressing"@.len() == 10);
    assert("complete"@.len() == 8);
    assert("failed"@.len() == 6);
    assert("awaiting_human"@.len() == 14);
    assert("reset"@.len() == 5);
}

} // verus!
