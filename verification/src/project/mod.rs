//! Projects and their runtime tables: tasks, runs and events.
pub mod claims;
pub mod doctor;
pub mod ids;
pub mod listing;
pub mod order;
pub mod recovery;
pub mod registry;
pub mod runs;
pub mod store;
pub mod tasks;

use vstd::prelude::*;

use crate::clock::Instant;
use crate::text;

verus! {

/// The version of the project metadata format.
pub const PROJECT_VERSION: u32 = 1;

/// The task that a project without task artifacts works on.
pub const CURRENT_TASK_ID: &'static str = "current";

/// The task file of a project without task artifacts.
pub const CURRENT_TASK_PATH: &'static str = ".ferrus/TASK.md";

/// The workspace's reference to its registered project.
#[derive(Debug, Clone, PartialEq, Eq)]
pub struct LocalProjectRef {
    pub project_id: String,
    pub name: String,
    pub data_dir: String,
}

/// What is registered of a project.
#[derive(Debug, Clone, PartialEq, Eq)]
pub struct ProjectMetadata {
    pub id: String,
    pub name: String,
    pub workspace_dir: String,
    pub ferrus_dir: String,
    pub vcs: Option<String>,
    pub origin_repo: Option<String>,
    pub default_branch: Option<String>,
    pub current_head: Option<String>,
    pub created_at: String,
    pub last_opened_at: String,
    pub version: u32,
}

/// A registered project with the places of its files.
#[derive(Debug, Clone, PartialEq, Eq)]
pub struct ProjectRegistration {
    pub local_ref: LocalProjectRef,
    pub metadata: ProjectMetadata,
    pub data_dir: String,
    pub database_path: String,
}

/// One row of the list of registered projects.
#[derive(Debug, Clone, PartialEq, Eq)]
pub struct ProjectListEntry {
    pub id: String,
    pub name: Option<String>,
    pub workspace_dir: Option<String>,
    pub data_dir: String,
    pub database_exists: bool,
    pub last_opened_at: Option<String>,
    pub error: Option<String>,
}

/// What a recovery repaired, or would repair.
#[derive(Debug, Clone, Copy, PartialEq, Eq, Structural)]
pub struct RuntimeRecovery {
    pub interrupted_runs: usize,
    pub expired_task_leases: usize,
    pub state_lease_mirrors_cleared: usize,
}

/// A row of the runs table.
#[derive(Debug, Clone, PartialEq, Eq)]
pub struct RunRecord {
    pub id: String,
    pub task_id: String,
    pub role: String,
    pub agent: String,
    pub status: String,
    pub started_at: String,
    pub updated_at: String,
    pub pid: Option<u32>,
    pub workspace_path: String,
}

/// The contents of a run.
#[verifier::ext_equal]
pub struct RunView {
    pub id: Seq<char>,
    pub task_id: Seq<char>,
    pub role: Seq<char>,
    pub agent: Seq<char>,
    pub status: Seq<char>,
    pub started_at: Seq<char>,
    pub updated_at: Seq<char>,
    pub pid: Option<u32>,
    pub workspace_path: Seq<char>,
}

impl View for RunRecord {
    type V = RunView;

    open spec fn view(&self) -> RunView {
        RunView {
            id: self.id@,
            task_id: self.task_id@,
            role: self.role@,
            agent: self.agent@,
            status: self.status@,
            started_at: self.started_at@,
            updated_at: self.updated_at@,
            pid: self.pid,
            workspace_path: self.workspace_path@,
        }
    }
}

/// A row of the events table.
#[derive(Debug, Clone, PartialEq, Eq)]
pub struct EventRecord {
    pub id: i64,
    pub run_id: Option<String>,
    pub event_type: String,
    pub payload_json: String,
    pub created_at: String,
}

/// The files of a task.
#[derive(Debug, Clone, PartialEq, Eq)]
pub struct TaskArtifact {
    pub id: String,
    pub path: String,
    pub run_dir: String,
}

/// A row of the tasks table.
#[derive(Debug, Clone, PartialEq, Eq)]
pub struct TaskRecord {
    pub id: String,
    pub path: String,
    pub spec_path: Option<String>,
    pub milestone_id: Option<String>,
    pub status: String,
    pub paused_status: Option<String>,
    pub claimed_by: Option<String>,
    pub lease_until: Option<String>,
    pub last_heartbeat: Option<String>,
    pub check_retries: u32,
    pub review_cycles: u32,
    pub failure_reason: Option<String>,
}

/// The contents of a task.
#[verifier::ext_equal]
pub struct TaskView {
    pub id: Seq<char>,
    pub path: Seq<char>,
    pub spec_path: Option<Seq<char>>,
    pub milestone_id: Option<Seq<char>>,
    pub status: Seq<char>,
    pub paused_status: Option<Seq<char>>,
    pub claimed_by: Option<Seq<char>>,
    pub lease_until: Option<Seq<char>>,
    pub last_heartbeat: Option<Seq<char>>,
    pub check_retries: u32,
    pub review_cycles: u32,
    pub failure_reason: Option<Seq<char>>,
}

impl View for TaskRecord {
    type V = TaskView;

    open spec fn view(&self) -> TaskView {
        TaskView {
            id: self.id@,
            path: self.path@,
            spec_path: text::opt_view(self.spec_path),
            milestone_id: text::opt_view(self.milestone_id),
            status: self.status@,
            paused_status: text::opt_view(self.paused_status),
            claimed_by: text::opt_view(self.claimed_by),
            lease_until: text::opt_view(self.lease_until),
            last_heartbeat: text::opt_view(self.last_heartbeat),
            check_retries: self.check_retries,
            review_cycles: self.review_cycles,
            failure_reason: text::opt_view(self.failure_reason),
        }
    }
}

impl TaskRecord {
    /// A copy of the row.
    pub fn copy(&self) -> (out: TaskRecord)
        ensures
            out == *self,
    {
        TaskRecord {
            id: self.id.clone(),
            path: self.path.clone(),
            spec_path: text::opt_clone(&self.spec_path),
            milestone_id: text::opt_clone(&self.milestone_id),
            status: self.status.clone(),
            paused_status: text::opt_clone(&self.paused_status),
            claimed_by: text::opt_clone(&self.claimed_by),
            lease_until: text::opt_clone(&self.lease_until),
            last_heartbeat: text::opt_clone(&self.last_heartbeat),
            check_retries: self.check_retries,
            review_cycles: self.review_cycles,
            failure_reason: text::opt_clone(&self.failure_reason),
        }
    }
}

impl RunRecord {
    /// A copy of the row.
    pub fn copy(&self) -> (out: RunRecord)
        ensures
            out == *self,
    {
        RunRecord {
            id: self.id.clone(),
            task_id: self.task_id.clone(),
            role: self.role.clone(),
            agent: self.agent.clone(),
            status: self.status.clone(),
            started_at: self.started_at.clone(),
            updated_at: self.updated_at.clone(),
            pid: self.pid,
            workspace_path: self.workspace_path.clone(),
        }
    }
}

/// A question that a task waits for a human to answer.
#[derive(Debug, Clone, PartialEq, Eq)]
pub struct HumanQuestion {
    pub task_id: String,
    pub task_path: String,
    pub run_dir: String,
    pub question: String,
}

/// What an agent works on.
#[derive(Debug, Clone, PartialEq, Eq)]
pub struct RuntimeTaskContext {
    pub task_id: String,
    pub task_path: String,
    pub run_dir: String,
    pub status: String,
    pub paused_status: Option<String>,
    pub check_retries: u32,
    pub review_cycles: u32,
    pub failure_reason: Option<String>,
    pub run_id: Option<String>,
    pub workspace_path: Option<String>,
}

/// The contents of a task context.
#[verifier::ext_equal]
pub struct ContextView {
    pub task_id: Seq<char>,
    pub task_path: Seq<char>,
    pub run_dir: Seq<char>,
    pub status: Seq<char>,
    pub paused_status: Option<Seq<char>>,
    pub check_retries: u32,
    pub review_cycles: u32,
    pub failure_reason: Option<Seq<char>>,
    pub run_id: Option<Seq<char>>,
    pub workspace_path: Option<Seq<char>>,
}

impl View for RuntimeTaskContext {
    type V = ContextView;

    open spec fn view(&self) -> ContextView {
        ContextView {
            task_id: self.task_id@,
            task_path: self.task_path@,
            run_dir: self.run_dir@,
            status: self.status@,
            paused_status: text::opt_view(self.paused_status),
            check_retries: self.check_retries,
            review_cycles: self.review_cycles,
            failure_reason: text::opt_view(self.failure_reason),
            run_id: text::opt_view(self.run_id),
            workspace_path: text::opt_view(self.workspace_path),
        }
    }
}

/// The outcome of claiming one task.
#[derive(Debug, Clone, PartialEq, Eq)]
pub enum TaskClaim {
    Claimed { claimed_by: String, lease_until: Instant },
    AlreadyClaimed { claimed_by: String, lease_until: Instant },
    ClaimedByOther { claimed_by: String },
}

/// The contents of a claim's outcome.
pub enum TaskClaimView {
    Claimed { claimed_by: Seq<char>, lease_until: Instant },
    AlreadyClaimed { claimed_by: Seq<char>, lease_until: Instant },
    ClaimedByOther { claimed_by: Seq<char> },
}

impl View for TaskClaim {
    type V = TaskClaimView;

    open spec fn view(&self) -> TaskClaimView {
        match *self {
            TaskClaim::Claimed { claimed_by, lease_until } => TaskClaimView::Claimed {
                claimed_by: claimed_by@,
                lease_until,
            },
            TaskClaim::AlreadyClaimed { claimed_by, lease_until } => TaskClaimView::AlreadyClaimed {
                claimed_by: claimed_by@,
                lease_until,
            },
            TaskClaim::ClaimedByOther { claimed_by } => TaskClaimView::ClaimedByOther {
                claimed_by: claimed_by@,
            },
        }
    }
}

/// A task together with the lease on it.
#[derive(Debug, Clone, PartialEq, Eq)]
pub struct TaskLease {
    pub task_id: String,
    pub task_path: String,
    pub status: String,
    pub paused_status: Option<String>,
    pub check_retries: u32,
    pub review_cycles: u32,
    pub failure_reason: Option<String>,
    pub claimed_by: String,
    pub lease_until: Instant,
}

/// The contents of a leased task.
#[verifier::ext_equal]
pub struct LeaseView {
    pub task_id: Seq<char>,
    pub task_path: Seq<char>,
    pub status: Seq<char>,
    pub paused_status: Option<Seq<char>>,
    pub check_retries: u32,
    pub review_cycles: u32,
    pub failure_reason: Option<Seq<char>>,
    pub claimed_by: Seq<char>,
    pub lease_until: Instant,
}

impl View for TaskLease {
    type V = LeaseView;

    open spec fn view(&self) -> LeaseView {
        LeaseView {
            task_id: self.task_id@,
            task_path: self.task_path@,
            status: self.status@,
            paused_status: text::opt_view(self.paused_status),
            check_retries: self.check_retries,
            review_cycles: self.review_cycles,
            failure_reason: text::opt_view(self.failure_reason),
            claimed_by: self.claimed_by@,
            lease_until: self.lease_until,
        }
    }
}

/// The outcome of looking for a task to claim.
#[derive(Debug, Clone, PartialEq, Eq)]
pub enum ReadyTaskClaim {
    Claimed(TaskLease),
    AlreadyClaimed(TaskLease),
    NoAvailable,
}

/// The contents of such an outcome.
pub enum ReadyClaimView {
    Claimed(LeaseView),
    AlreadyClaimed(LeaseView),
    NoAvailable,
}

impl View for ReadyTaskClaim {
    type V = ReadyClaimView;

    open spec fn view(&self) -> ReadyClaimView {
        match *self {
            ReadyTaskClaim::Claimed(lease) => ReadyClaimView::Claimed(lease@),
            ReadyTaskClaim::AlreadyClaimed(lease) => ReadyClaimView::AlreadyClaimed(lease@),
            ReadyTaskClaim::NoAvailable => ReadyClaimView::NoAvailable,
        }
    }
}

/// The outcome of renewing a lease.
#[derive(Debug, Clone, PartialEq, Eq)]
pub enum LeaseRenewal {
    Renewed { task_id: String, task_path: String, claimed_by: String, lease_until: Instant },
    NotClaimed,
    ClaimedByOther { claimed_by: String },
    Expired,
}

/// The contents of a renewal's outcome.
pub enum RenewalView {
    Renewed {
        task_id: Seq<char>,
        task_path: Seq<char>,
        claimed_by: Seq<char>,
        lease_until: Instant,
    },
    NotClaimed,
    ClaimedByOther { claimed_by: Seq<char> },
    Expired,
}

impl View for LeaseRenewal {
    type V = RenewalView;

    open spec fn view(&self) -> RenewalView {
        match *self {
            LeaseRenewal::Renewed {
                task_id,
                task_path,
                claimed_by,
                lease_until,
            } => RenewalView::Renewed {
                task_id: task_id@,
                task_path: task_path@,
                claimed_by: claimed_by@,
                lease_until,
            },
            LeaseRenewal::NotClaimed => RenewalView::NotClaimed,
            LeaseRenewal::ClaimedByOther { claimed_by } => RenewalView::ClaimedByOther {
                claimed_by: claimed_by@,
            },
            LeaseRenewal::Expired => RenewalView::Expired,
        }
    }
}

/// The outcome of a failed check.
#[derive(Debug, Clone, Copy, PartialEq, Eq, Structural)]
pub enum TaskCheckFailure {
    Failed { retries: u32 },
    LimitExceeded { retries: u32 },
}

/// The outcome of a rejected review.
#[derive(Debug, Clone, Copy, PartialEq, Eq, Structural)]
pub enum TaskReviewRejection {
    Addressing { cycles: u32 },
    LimitExceeded { cycles: u32 },
}

/// The outcome of ending a consultation.
#[derive(Debug, Clone, PartialEq, Eq)]
pub enum TaskConsultRestore {
    Restored { status: String },
    NotInConsultation,
}

/// The outcome of answering a human question.
#[derive(Debug, Clone, PartialEq, Eq)]
pub enum TaskHumanAnswerRestore {
    Restored { status: String },
    NotAwaitingHuman,
}

} // verus!
