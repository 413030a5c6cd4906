use ferrus::clock::Instant;
use ferrus::project::claims::{
    claim_current_task, claim_next_ready_task, claim_next_review_task, claim_ready_task_by_id,
    claim_review_task_by_id, claim_task, renew_claimed_task_lease, renew_current_task_lease,
    runtime_task_context_for_agent,
};
use ferrus::project::doctor::{
    add_recovery_doctor_checks, add_runtime_doctor_checks, doctor_current_project,
    ActiveTaskFindings, DoctorCheck, RegistrationFindings,
};
use ferrus::project::ids::{
    allocate_run_id, allocate_task_artifact, generate_project_id, max_task_number,
    parse_task_number, validate_project_id,
};
use ferrus::project::listing::{
    find_non_terminal_task_by_origin, human_question, list_entry, list_events,
    list_registered_projects, list_runs, list_tasks, tasks_awaiting_human,
};
use ferrus::project::recovery::{
    orphaned_worktrees, preview_runtime_recovery, protected_worktree_paths,
    protected_worktree_task_ids, recover_expired_task_leases, recover_interrupted_runs,
    recover_runtime_state, worktree_failure, Worktree,
};
use ferrus::project::registry::{
    default_branch, git_output, git_value, inside_work_tree, populate_legacy_active_artifacts, project_path,
    register_project, registration_id, should_copy_artifact, touch_project,
    validate_database_schema, GitMetadata, TouchError, Workspace,
};
use ferrus::project::runs::{
    attach_running_run_to_consultation, attach_running_run_to_next_consultation,
    attach_running_run_to_task, record_run_finished, record_run_started_with_workspace,
};
use ferrus::project::store::{payload_text, payload_value, EventDraft, Payload, Store};
use ferrus::project::tasks::{
    record_current_task_status, record_runtime_event, record_task_check_failed,
    record_task_check_passed, record_task_consultation_requested,
    record_task_human_question_requested, record_task_integration_failed,
    record_task_review_rejected, record_task_status, record_task_status_with_origin,
    restore_task_from_consultation, restore_task_from_human_answer, task_status_for_state,
};
use ferrus::project::{
    EventRecord, LeaseRenewal, LocalProjectRef, ProjectListEntry, ProjectMetadata, ReadyTaskClaim,
    RunRecord, TaskCheckFailure, TaskClaim, TaskConsultRestore, TaskHumanAnswerRestore, TaskRecord,
    TaskReviewRejection, PROJECT_VERSION,
};
use ferrus::state::{StateData, TaskState};

const NOW: Instant = Instant { secs: 1_700_049_600, nanos: 0 };

const PID: u32 = 4242;

fn later(secs: i64) -> Instant {
    Instant { secs: NOW.secs + secs, nanos: 0 }
}

fn setup_project() -> (Store, StateData) {
    let mut state = StateData::new(NOW);
    state.state = TaskState::Executing;
    state.set_active_task_artifacts(
        "t-001".to_string(),
        ".ferrus/tasks/t-001.md".to_string(),
        ".ferrus/runs/t-001".to_string(),
    );
    let mut tables = Store { tasks: Vec::new(), runs: Vec::new(), events: Vec::new() };
    record_task_status(&mut tables, "t-001", ".ferrus/tasks/t-001.md", "executing", NOW);
    (tables, state)
}

fn add(tables: &mut Store, id: &str, status: &str) {
    record_task_status(tables, id, &format!(".ferrus/tasks/{id}.md"), status, NOW);
}

fn row<'a>(tables: &'a Store, id: &str) -> &'a TaskRecord {
    tables.tasks.iter().find(|task| task.id == id).unwrap()
}

fn has_event(tables: &Store, event_type: &str) -> bool {
    tables.events.iter().any(|event| event.event_type == event_type)
}

fn metadata(id: &str) -> ProjectMetadata {
    ProjectMetadata {
        id: id.to_string(),
        name: "old-name".to_string(),
        workspace_dir: "/old/workspace".to_string(),
        ferrus_dir: "/old/workspace/.ferrus".to_string(),
        vcs: None,
        origin_repo: None,
        default_branch: None,
        current_head: None,
        created_at: "2026-05-16T10:00:00Z".to_string(),
        last_opened_at: "2026-05-16T11:00:00Z".to_string(),
        version: PROJECT_VERSION,
    }
}

#[test]
fn legacy_non_idle_state_gets_default_active_artifacts_for_migration() {
    let mut state = StateData::new(NOW);
    state.state = TaskState::Executing;

    assert!(populate_legacy_active_artifacts(&mut state));
    assert_eq!(state.active_task_id.as_deref(), Some("t-001"));
    assert_eq!(state.active_task_path.as_deref(), Some(".ferrus/tasks/t-001.md"));
    assert_eq!(state.active_run_dir.as_deref(), Some(".ferrus/runs/t-001"));
}

#[test]
fn legacy_artifact_population_leaves_idle_and_existing_artifacts_unchanged() {
    let mut idle = StateData::new(NOW);
    assert!(!populate_legacy_active_artifacts(&mut idle));
    assert!(idle.active_task_id.is_none());

    let mut migrated = StateData::new(NOW);
    migrated.state = TaskState::Addressing;
    migrated.set_active_task_artifacts(
        "t-009".to_string(),
        ".ferrus/tasks/t-009.md".to_string(),
        ".ferrus/runs/t-009".to_string(),
    );

    assert!(!populate_legacy_active_artifacts(&mut migrated));
    assert_eq!(migrated.active_task_id.as_deref(), Some("t-009"));
    assert_eq!(migrated.active_task_path.as_deref(), Some(".ferrus/tasks/t-009.md"));
    assert_eq!(migrated.active_run_dir.as_deref(), Some(".ferrus/runs/t-009"));
}

#[test]
fn sqlite_task_claim_is_exclusive_and_renewable() {
    let (mut tables, state) = setup_project();

    let first = claim_current_task(&mut tables, Some(&state), "executor:codex:1", 60, NOW);
    assert!(matches!(first, TaskClaim::Claimed { .. }));

    let second = claim_current_task(&mut tables, Some(&state), "executor:codex:1", 60, NOW);
    assert!(matches!(second, TaskClaim::AlreadyClaimed { .. }));

    let other = claim_current_task(&mut tables, Some(&state), "executor:codex:2", 60, NOW);
    match other {
        TaskClaim::ClaimedByOther { claimed_by } => assert_eq!(claimed_by, "executor:codex:1"),
        _ => panic!("expected claimed_by_other"),
    }

    let renewed = renew_current_task_lease(&mut tables, Some(&state), "executor:codex:1", 60, NOW);
    assert!(matches!(renewed, LeaseRenewal::Renewed { .. }));
}

#[test]
fn a_lease_that_ran_out_can_be_taken_over() {
    let (mut tables, state) = setup_project();
    claim_current_task(&mut tables, Some(&state), "executor:codex:1", 60, NOW);
    let expired =
        renew_current_task_lease(&mut tables, Some(&state), "executor:codex:1", 60, later(61));
    assert_eq!(expired, LeaseRenewal::Expired);
    let taken = claim_current_task(&mut tables, Some(&state), "executor:codex:2", 60, later(61));
    assert_eq!(
        taken,
        TaskClaim::Claimed {
            claimed_by: "executor:codex:2".to_string(),
            lease_until: later(121)
        }
    );
    assert_eq!(row(&tables, "t-001").lease_until.as_deref(), Some("2023-11-15T12:02:01Z"));
    let refused =
        renew_current_task_lease(&mut tables, Some(&state), "executor:codex:1", 60, later(62));
    assert_eq!(
        refused,
        LeaseRenewal::ClaimedByOther { claimed_by: "executor:codex:2".to_string() }
    );
}

#[test]
fn sqlite_task_claim_can_target_non_current_task() {
    let (mut tables, _) = setup_project();
    let path = ".ferrus/tasks/t-002.md";

    let first = claim_task(&mut tables, "t-002", path, "executor:codex:2", 60, NOW);
    assert!(matches!(first, TaskClaim::Claimed { .. }));

    let second = claim_task(&mut tables, "t-002", path, "executor:codex:3", 60, NOW);
    match second {
        TaskClaim::ClaimedByOther { claimed_by } => assert_eq!(claimed_by, "executor:codex:2"),
        _ => panic!("expected claimed_by_other"),
    }

    let current = row(&tables, "t-001");
    let targeted = row(&tables, "t-002");
    assert_eq!(current.claimed_by, None);
    assert_eq!(targeted.path, ".ferrus/tasks/t-002.md");
    assert_eq!(targeted.status, "unknown");
    assert_eq!(targeted.claimed_by.as_deref(), Some("executor:codex:2"));
}

#[test]
fn sqlite_task_lease_can_be_renewed_by_claiming_agent() {
    let (mut tables, _) = setup_project();
    let path = ".ferrus/tasks/t-002.md";

    let first = claim_task(&mut tables, "t-002", path, "executor:codex:2", 60, NOW);
    assert!(matches!(first, TaskClaim::Claimed { .. }));

    match renew_claimed_task_lease(&mut tables, "executor:codex:2", 60, NOW) {
        LeaseRenewal::Renewed { task_id, task_path, claimed_by, .. } => {
            assert_eq!(task_id, "t-002");
            assert_eq!(task_path, ".ferrus/tasks/t-002.md");
            assert_eq!(claimed_by, "executor:codex:2");
        }
        _ => panic!("expected claimed task lease to renew"),
    }

    let missing = renew_claimed_task_lease(&mut tables, "executor:codex:3", 60, NOW);
    assert!(matches!(missing, LeaseRenewal::NotClaimed));
}

#[test]
fn runtime_task_context_resolves_claimed_task_by_agent() {
    let (mut tables, _) = setup_project();
    add(&mut tables, "t-002", "executing");
    claim_task(&mut tables, "t-002", ".ferrus/tasks/t-002.md", "executor:codex:2", 60, NOW);

    let context = runtime_task_context_for_agent(&tables, "executor:codex:2").unwrap();

    assert_eq!(context.task_id, "t-002");
    assert_eq!(context.task_path, ".ferrus/tasks/t-002.md");
    assert_eq!(context.run_dir, ".ferrus/runs/t-002");
    assert_eq!(context.status, "executing");
    assert!(context.run_id.is_none());
}

#[test]
fn an_agent_that_starts_again_finds_its_task() {
    let (mut tables, _) = setup_project();
    add(&mut tables, "t-002", "executing");
    claim_task(&mut tables, "t-001", ".ferrus/tasks/t-001.md", "executor:codex:1", 60, NOW);
    record_task_check_failed(&mut tables, "t-001", "fmt failed", 5, NOW);
    let context = runtime_task_context_for_agent(&tables, "executor:codex:1").unwrap();
    assert_eq!(context.task_id, "t-001");
    assert_eq!(context.check_retries, 1);
    assert_eq!(context.failure_reason.as_deref(), Some("fmt failed"));
    claim_task(&mut tables, "t-002", ".ferrus/tasks/t-002.md", "executor:codex:1", 90, NOW);
    let context = runtime_task_context_for_agent(&tables, "executor:codex:1").unwrap();
    assert_eq!(context.task_id, "t-002");
    assert!(runtime_task_context_for_agent(&tables, "executor:codex:2").is_none());
}

#[test]
fn sqlite_claim_next_ready_task_skips_active_claims_and_preserves_agent_lease() {
    let (mut tables, _) = setup_project();
    add(&mut tables, "t-002", "executing");
    add(&mut tables, "t-003", "reviewing");

    match claim_next_ready_task(&mut tables, "executor:codex:1", 60, NOW) {
        ReadyTaskClaim::Claimed(task) => {
            assert_eq!(task.task_id, "t-001");
            assert_eq!(task.task_path, ".ferrus/tasks/t-001.md");
            assert_eq!(task.status, "executing");
            assert_eq!(task.claimed_by, "executor:codex:1");
        }
        _ => panic!("expected first ready task to be claimed"),
    }

    match claim_next_ready_task(&mut tables, "executor:codex:1", 60, NOW) {
        ReadyTaskClaim::AlreadyClaimed(task) => {
            assert_eq!(task.task_id, "t-001");
            assert_eq!(task.claimed_by, "executor:codex:1");
        }
        _ => panic!("expected existing agent lease"),
    }

    match claim_next_ready_task(&mut tables, "executor:codex:2", 60, NOW) {
        ReadyTaskClaim::Claimed(task) => {
            assert_eq!(task.task_id, "t-002");
            assert_eq!(task.task_path, ".ferrus/tasks/t-002.md");
            assert_eq!(task.status, "executing");
            assert_eq!(task.claimed_by, "executor:codex:2");
        }
        _ => panic!("expected second ready task to be claimed"),
    }

    let no_available = claim_next_ready_task(&mut tables, "executor:codex:3", 60, NOW);
    assert!(matches!(no_available, ReadyTaskClaim::NoAvailable));
    assert_eq!(row(&tables, "t-003").claimed_by, None);
}

#[test]
fn sqlite_claim_ready_task_by_id_promotes_pending_task() {
    let (mut tables, _) = setup_project();
    add(&mut tables, "t-002", "pending");

    match claim_ready_task_by_id(&mut tables, "t-002", "executor:codex:t-002", 60, NOW) {
        ReadyTaskClaim::Claimed(task) => {
            assert_eq!(task.task_id, "t-002");
            assert_eq!(task.task_path, ".ferrus/tasks/t-002.md");
            assert_eq!(task.status, "executing");
            assert_eq!(task.claimed_by, "executor:codex:t-002");
        }
        _ => panic!("expected pending task to be promoted and claimed"),
    }

    let task = row(&tables, "t-002");
    assert_eq!(task.status, "executing");
    assert_eq!(task.claimed_by.as_deref(), Some("executor:codex:t-002"));
}

#[test]
fn sqlite_claim_next_review_task_claims_reviewing_rows_only() {
    let (mut tables, _) = setup_project();
    add(&mut tables, "t-002", "executing");
    add(&mut tables, "t-003", "reviewing");

    match claim_next_review_task(&mut tables, "supervisor:codex:1", 60, NOW) {
        ReadyTaskClaim::Claimed(task) => {
            assert_eq!(task.task_id, "t-003");
            assert_eq!(task.task_path, ".ferrus/tasks/t-003.md");
            assert_eq!(task.status, "reviewing");
            assert_eq!(task.claimed_by, "supervisor:codex:1");
        }
        _ => panic!("expected reviewing task to be claimed"),
    }

    assert_eq!(row(&tables, "t-002").claimed_by, None);
    assert_eq!(row(&tables, "t-003").claimed_by.as_deref(), Some("supervisor:codex:1"));
}

#[test]
fn sqlite_claim_review_task_by_id_does_not_steal_another_review() {
    let (mut tables, _) = setup_project();
    add(&mut tables, "t-002", "reviewing");
    add(&mut tables, "t-003", "reviewing");

    let missing =
        claim_review_task_by_id(&mut tables, "t-999", "supervisor:codex:t-999", 60, NOW);
    assert!(matches!(missing, ReadyTaskClaim::NoAvailable));

    match claim_review_task_by_id(&mut tables, "t-003", "supervisor:codex:t-003", 60, NOW) {
        ReadyTaskClaim::Claimed(task) => {
            assert_eq!(task.task_id, "t-003");
            assert_eq!(task.task_path, ".ferrus/tasks/t-003.md");
            assert_eq!(task.status, "reviewing");
            assert_eq!(task.claimed_by, "supervisor:codex:t-003");
        }
        _ => panic!("expected targeted reviewing task to be claimed"),
    }

    assert_eq!(row(&tables, "t-002").claimed_by, None);
    assert_eq!(row(&tables, "t-003").claimed_by.as_deref(), Some("supervisor:codex:t-003"));
}

#[test]
fn list_human_questions_reads_scoped_awaiting_human_tasks() {
    let (mut tables, _) = setup_project();
    add(&mut tables, "t-002", "executing");
    record_task_human_question_requested(&mut tables, "t-002", "executing", NOW);

    let waiting = tasks_awaiting_human(&tables);
    let questions: Vec<_> = waiting
        .iter()
        .map(|task| human_question(task, "Which option should I use?"))
        .collect();

    assert_eq!(questions.len(), 1);
    assert_eq!(questions[0].task_id, "t-002");
    assert_eq!(questions[0].task_path, ".ferrus/tasks/t-002.md");
    assert_eq!(questions[0].run_dir, ".ferrus/runs/t-002");
    assert_eq!(questions[0].question, "Which option should I use?");
}

#[test]
fn list_tasks_reads_runtime_rows() {
    let (mut tables, state) = setup_project();
    claim_current_task(&mut tables, Some(&state), "executor:codex:1", 60, NOW);

    let tasks = list_tasks(&tables);

    assert_eq!(tasks.len(), 1);
    assert_eq!(tasks[0].id, "t-001");
    assert_eq!(tasks[0].path, ".ferrus/tasks/t-001.md");
    assert_eq!(tasks[0].status, "executing");
    assert_eq!(tasks[0].claimed_by.as_deref(), Some("executor:codex:1"));
    assert!(tasks[0].lease_until.is_some());
}

#[test]
fn current_task_status_records_origin_metadata() {
    let (mut tables, mut state) = setup_project();
    state.task_spec = Some("docs/specs/feature.md".to_string());
    state.task_milestone = Some("m1.0".to_string());

    record_current_task_status(&mut tables, Some(&state), "executing", NOW);

    let task = row(&tables, "t-001");
    assert_eq!(task.spec_path.as_deref(), Some("docs/specs/feature.md"));
    assert_eq!(task.milestone_id.as_deref(), Some("m1.0"));
}

#[test]
fn task_status_update_preserves_existing_origin_metadata() {
    let (mut tables, _) = setup_project();
    record_task_status_with_origin(
        &mut tables,
        "t-001",
        ".ferrus/tasks/t-001.md",
        "executing",
        Some("docs/specs/feature.md"),
        Some("m1.0"),
        NOW,
    );

    add(&mut tables, "t-001", "reviewing");

    let task = row(&tables, "t-001");
    assert_eq!(task.status, "reviewing");
    assert_eq!(task.spec_path.as_deref(), Some("docs/specs/feature.md"));
    assert_eq!(task.milestone_id.as_deref(), Some("m1.0"));
}

#[test]
fn finds_non_terminal_task_by_origin() {
    let (mut tables, _) = setup_project();
    record_task_status_with_origin(
        &mut tables,
        "t-002",
        ".ferrus/tasks/t-002.md",
        "pending",
        Some("docs/specs/feature.md"),
        Some("m1.1"),
        NOW,
    );

    let task =
        find_non_terminal_task_by_origin(&tables, "docs/specs/feature.md", "m1.1").unwrap();

    assert_eq!(task.id, "t-002");

    add(&mut tables, "t-002", "complete");
    let task = find_non_terminal_task_by_origin(&tables, "docs/specs/feature.md", "m1.1");
    assert!(task.is_none());
}

#[test]
fn sqlite_task_check_failures_use_per_task_retry_budget() {
    let (mut tables, state) = setup_project();
    claim_current_task(&mut tables, Some(&state), "executor:codex:1", 60, NOW);

    let first = record_task_check_failed(&mut tables, "t-001", "fmt failed", 2, NOW);
    assert!(matches!(first, TaskCheckFailure::Failed { retries: 1 }));

    let task = row(&tables, "t-001");
    assert_eq!(task.status, "executing");
    assert_eq!(task.check_retries, 1);
    assert_eq!(task.failure_reason.as_deref(), Some("fmt failed"));
    assert_eq!(task.claimed_by.as_deref(), Some("executor:codex:1"));

    let second = record_task_check_failed(&mut tables, "t-001", "tests failed", 2, NOW);
    assert!(matches!(second, TaskCheckFailure::LimitExceeded { retries: 2 }));

    let task = row(&tables, "t-001");
    assert_eq!(task.status, "failed");
    assert_eq!(task.check_retries, 2);
    assert_eq!(task.claimed_by, None);
    assert_eq!(task.lease_until, None);
    assert!(task
        .failure_reason
        .as_deref()
        .unwrap_or_default()
        .contains("Last failure:\ntests failed"));
}

#[test]
fn a_passed_check_restores_the_budget() {
    let (mut tables, _) = setup_project();
    record_task_check_failed(&mut tables, "t-001", "fmt failed", 5, NOW);
    record_task_check_passed(&mut tables, "t-001", NOW);
    assert_eq!(row(&tables, "t-001").check_retries, 0);
    assert!(has_event(&tables, "task_check_passed"));
}

#[test]
fn sqlite_task_review_rejections_use_per_task_cycle_budget() {
    let (mut tables, _) = setup_project();
    add(&mut tables, "t-001", "reviewing");
    claim_task(&mut tables, "t-001", ".ferrus/tasks/t-001.md", "supervisor:codex:1", 60, NOW);

    let first = record_task_review_rejected(&mut tables, "t-001", 2, NOW);
    assert!(matches!(first, TaskReviewRejection::Addressing { cycles: 1 }));

    let task = row(&tables, "t-001");
    assert_eq!(task.status, "addressing");
    assert_eq!(task.review_cycles, 1);
    assert_eq!(task.check_retries, 0);
    assert_eq!(task.claimed_by, None);

    add(&mut tables, "t-001", "reviewing");
    let second = record_task_review_rejected(&mut tables, "t-001", 2, NOW);
    assert!(matches!(second, TaskReviewRejection::LimitExceeded { cycles: 2 }));

    let task = row(&tables, "t-001");
    assert_eq!(task.status, "failed");
    assert_eq!(task.review_cycles, 2);
    assert_eq!(task.claimed_by, None);
    assert!(task
        .failure_reason
        .as_deref()
        .unwrap_or_default()
        .contains("Task rejected 2 times"));
}

#[test]
fn handoff_task_statuses_clear_database_lease() {
    let (mut tables, state) = setup_project();
    claim_current_task(&mut tables, Some(&state), "executor:codex:1", 60, NOW);

    add(&mut tables, "t-001", "reviewing");
    let task = row(&tables, "t-001");
    assert_eq!(task.status, "reviewing");
    assert_eq!(task.claimed_by, None);
    assert_eq!(task.lease_until, None);
    assert_eq!(task.last_heartbeat, None);

    claim_current_task(&mut tables, Some(&state), "executor:codex:2", 60, NOW);
    add(&mut tables, "t-001", "addressing");
    let task = row(&tables, "t-001");
    assert_eq!(task.status, "addressing");
    assert_eq!(task.claimed_by, None);
    assert_eq!(task.lease_until, None);
    assert_eq!(task.last_heartbeat, None);
}

fn findings(tables: &Store, files: bool) -> ActiveTaskFindings {
    ActiveTaskFindings {
        task_path_exists: files,
        run_dir_exists: files,
        row: Ok(Some(row(tables, "t-001").clone())),
    }
}

#[test]
fn runtime_doctor_checks_detect_missing_active_artifacts() {
    let (tables, state) = setup_project();
    let mut checks: Vec<DoctorCheck> = Vec::new();

    add_runtime_doctor_checks(&mut checks, &Ok(state), &findings(&tables, false));

    assert!(checks.iter().any(|check| {
        !check.ok && check.message == "active task path exists at .ferrus/tasks/t-001.md"
    }));
    assert!(checks.iter().any(|check| {
        !check.ok && check.message == "active run directory exists at .ferrus/runs/t-001"
    }));
}

#[test]
fn runtime_doctor_checks_accept_consistent_active_task() {
    let (tables, state) = setup_project();
    let mut checks: Vec<DoctorCheck> = Vec::new();

    add_runtime_doctor_checks(&mut checks, &Ok(state), &findings(&tables, true));

    let failed: Vec<&str> = checks
        .iter()
        .filter(|check| !check.ok)
        .map(|check| check.message.as_str())
        .collect();
    assert!(failed.is_empty(), "unexpected failed checks: {failed:?}");
}

#[test]
fn doctors_look_at_the_registration_first() {
    let (tables, state) = setup_project();
    let registration = RegistrationFindings {
        local_id: "p-1".to_string(),
        metadata_id: "p-2".to_string(),
        data_dir_matches: true,
        expected_data_dir: "/data".to_string(),
        workspace_matches: true,
        workspace_dir: "/work".to_string(),
        ferrus_dir_matches: true,
        ferrus_dir: "/work/.ferrus".to_string(),
        database_exists: true,
        database_path: "/data/ferrus.db".to_string(),
        schema_valid: true,
    };
    let preview = preview_runtime_recovery(&tables, Some(&state), &Vec::new(), NOW);
    let checks =
        doctor_current_project(&registration, &Ok(preview), &Ok(state), &findings(&tables, true));
    assert!(!checks[0].ok);
    assert!(checks[1..].iter().all(|check| check.ok));
}

#[test]
fn recover_expired_task_leases_releases_stale_claims() {
    let (mut tables, state) = setup_project();
    claim_current_task(&mut tables, Some(&state), "executor:codex:1", 0, NOW);

    let recovered = recover_expired_task_leases(&mut tables, NOW);

    assert_eq!(recovered, 1);
    let task = row(&tables, "t-001");
    assert_eq!(task.claimed_by, None);
    assert_eq!(task.lease_until, None);
    assert_eq!(task.last_heartbeat, None);
    assert!(has_event(&tables, "task_lease_expired"));
}

fn with_stale_mirror(mut state: StateData) -> StateData {
    state.claimed_by = Some("executor:codex:1".to_string());
    state.lease_until = Some(later(-1));
    state.last_heartbeat = Some(later(-2));
    state
}

#[test]
fn recover_runtime_state_clears_expired_state_lease_mirror() {
    let (mut tables, state) = setup_project();
    claim_current_task(&mut tables, Some(&state), "executor:codex:1", 0, NOW);
    let mut state = with_stale_mirror(state);

    let recovery = recover_runtime_state(&mut tables, Some(&mut state), &Vec::new(), NOW);

    assert_eq!(recovery.expired_task_leases, 1);
    assert_eq!(recovery.state_lease_mirrors_cleared, 1);
    assert_eq!(state.claimed_by, None);
    assert_eq!(state.lease_until, None);
    assert_eq!(state.last_heartbeat, None);
    assert_eq!(row(&tables, "t-001").claimed_by, None);
    assert!(has_event(&tables, "state_lease_mirror_cleared"));
}

fn worktree(name: &str) -> Worktree {
    Worktree {
        name: name.to_string(),
        path: format!("/data/worktrees/{name}"),
        canonical_path: format!("/data/worktrees/{name}"),
    }
}

#[test]
fn preview_orphaned_worktrees_ignores_active_tasks_and_runs() {
    let (mut tables, state) = setup_project();
    add(&mut tables, "t-active", "addressing");
    let run = record_run_started_with_workspace(
        &mut tables,
        Some(&state),
        "executor-run-t-run",
        "executor",
        "executor:codex:t-run",
        PID,
        "/data/worktrees/t-run",
        NOW,
    );
    add(&mut tables, "t-run", "complete");
    let attached = attach_running_run_to_task(
        &mut tables,
        "executor:codex:t-run",
        "t-run",
        ".ferrus/tasks/t-run.md",
        NOW,
    );
    assert_eq!(attached.as_deref(), Some(run.id.as_str()));

    let orphaned = orphaned_worktrees(
        &vec![worktree("t-run"), worktree("t-orphan"), worktree("t-active")],
        &protected_worktree_task_ids(&tables),
        &protected_worktree_paths(&tables, &vec![PID]),
    );

    assert_eq!(orphaned, vec![worktree("t-orphan")]);
}

#[test]
fn preview_runtime_recovery_reports_pending_work_without_mutating() {
    let (mut tables, state) = setup_project();
    claim_current_task(&mut tables, Some(&state), "executor:codex:1", 0, NOW);
    let state = with_stale_mirror(state);
    let mut checks: Vec<DoctorCheck> = Vec::new();

    let preview = preview_runtime_recovery(&tables, Some(&state), &Vec::new(), NOW);
    add_recovery_doctor_checks(&mut checks, &Ok(preview));

    assert_eq!(preview.interrupted_runs, 0);
    assert_eq!(preview.expired_task_leases, 1);
    assert_eq!(preview.state_lease_mirrors_cleared, 1);
    assert_eq!(state.claimed_by.as_deref(), Some("executor:codex:1"));
    assert_eq!(row(&tables, "t-001").claimed_by.as_deref(), Some("executor:codex:1"));
    assert!(checks.iter().any(|check| {
        !check.ok && check.message.contains("expired task lease recovery pending (1")
    }));
    assert!(checks.iter().any(|check| {
        !check.ok && check.message.contains("stale STATE.json lease mirror recovery pending (1")
    }));
}

#[test]
fn list_runs_and_events_reads_runtime_rows() {
    let (mut tables, state) = setup_project();
    let run = record_run_started_with_workspace(
        &mut tables,
        Some(&state),
        "r-1",
        "executor",
        "executor:codex:1",
        PID,
        "/work",
        NOW,
    );
    add(&mut tables, "t-002", "executing");
    let attached = attach_running_run_to_task(
        &mut tables,
        "executor:codex:1",
        "t-002",
        ".ferrus/tasks/t-002.md",
        NOW,
    );
    assert_eq!(attached.as_deref(), Some(run.id.as_str()));
    record_runtime_event(
        &mut tables,
        Some(run.id.clone()),
        "test_event",
        serde_json::from_str("{\"ok\":true}").unwrap(),
        NOW,
    )
    .unwrap();
    record_run_finished(&mut tables, &run.id, 0, NOW).unwrap();

    let runs = list_runs(&tables, 10);
    assert_eq!(runs.len(), 1);
    assert_eq!(runs[0].id, run.id);
    assert_eq!(runs[0].task_id, "t-002");
    assert_eq!(runs[0].role, "executor");
    assert_eq!(runs[0].agent, "executor:codex:1");
    assert_eq!(runs[0].status, "completed");
    assert!(runs[0].pid.is_none());
    assert!(!runs[0].started_at.is_empty());
    assert!(!runs[0].updated_at.is_empty());

    let mut numbered: Vec<EventRecord> = Vec::new();
    for (i, event) in tables.events.iter().enumerate() {
        numbered.push(EventRecord {
            id: i as i64 + 1,
            run_id: event.run_id.clone(),
            event_type: event.event_type.clone(),
            payload_json: payload_text(event),
            created_at: event.created_at.clone(),
        });
    }
    let events = list_events(&numbered, 10, Some(&run.id));
    for wanted in ["run_started", "run_task_attached", "test_event", "run_finished"] {
        assert!(events.iter().any(|event| event.event_type == wanted), "{wanted} is missing");
    }
    assert!(events.iter().all(|event| event.run_id.as_deref() == Some(run.id.as_str())));
    let told = events.iter().find(|event| event.event_type == "test_event").unwrap();
    assert_eq!(told.payload_json, "{\"ok\":true}");
    assert!(events.windows(2).all(|pair| pair[0].id > pair[1].id));
    assert_eq!(list_events(&numbered, 2, None).len(), 2);
}

#[test]
fn events_of_unknown_runs_are_refused() {
    let (mut tables, _) = setup_project();
    let before = (tables.tasks.clone(), tables.runs.clone(), tables.events.len());
    let refused = record_runtime_event(
        &mut tables,
        Some("r-9".to_string()),
        "x",
        serde_json::Value::Null,
        NOW,
    );
    assert_eq!(
        refused.unwrap_err().message(),
        "Cannot insert event for unknown run id r-9"
    );
    assert_eq!((tables.tasks.clone(), tables.runs.clone(), tables.events.len()), before);
    assert!(record_run_finished(&mut tables, "r-9", 0, NOW).is_err());
    assert!(record_task_integration_failed(
        &mut tables,
        "t-001",
        None,
        "merge conflict",
        NOW
    )
    .is_ok());
    assert_eq!(row(&tables, "t-001").failure_reason.as_deref(), Some("merge conflict"));
}

/// Records the start of a run in the workspace of the project.
fn record_run_started_with_id(
    tables: &mut Store,
    state: &StateData,
    run_id: &str,
    role: &str,
    agent: &str,
    pid: u32,
) -> RunRecord {
    record_run_started_with_workspace(tables, Some(state), run_id, role, agent, pid, "/work", NOW)
}

#[test]
fn record_run_started_can_use_preallocated_run_id() {
    let (mut tables, state) = setup_project();
    let run_id = allocate_run_id(1_700_049_600_000, 0xabc);
    assert_eq!(run_id, "r-018bd2da3e00-0000000000000abc");

    let run = record_run_started_with_id(
        &mut tables,
        &state,
        &run_id,
        "executor",
        "executor:codex:t-002",
        PID,
    );

    assert_eq!(run.id, run_id);
    assert!(list_runs(&tables, 10).iter().any(|run| run.id == run_id));
}

#[test]
fn record_run_started_can_store_explicit_workspace_path() {
    let (mut tables, state) = setup_project();
    let workspace_path = "/work/worktrees/t-003";

    let run = record_run_started_with_workspace(
        &mut tables,
        Some(&state),
        "r-1",
        "executor",
        "executor:codex:t-003",
        PID,
        workspace_path,
        NOW,
    );

    assert_eq!(run.workspace_path, workspace_path);
    assert!(list_runs(&tables, 10)
        .iter()
        .any(|run| run.id == "r-1" && run.workspace_path == workspace_path));
}

fn start(tables: &mut Store, state: &StateData, id: &str, agent: &str) {
    record_run_started_with_workspace(
        tables,
        Some(state),
        id,
        "supervisor",
        agent,
        PID,
        "/work",
        NOW,
    );
}

#[test]
fn consultation_attachment_is_exclusive_to_one_supervisor_run() {
    let (mut tables, state) = setup_project();
    add(&mut tables, "t-007", "executing");
    record_task_consultation_requested(&mut tables, "t-007", "executing", NOW);
    start(&mut tables, &state, "r-1", "supervisor:codex:1");
    start(&mut tables, &state, "r-2", "supervisor:codex:2");

    let first = attach_running_run_to_next_consultation(&mut tables, "supervisor:codex:1", NOW);
    let second = attach_running_run_to_next_consultation(&mut tables, "supervisor:codex:2", NOW);

    assert_eq!(first.as_ref().map(|context| context.task_id.as_str()), Some("t-007"));
    assert!(second.is_none());

    let runs = list_runs(&tables, 10);
    let first = runs.iter().find(|run| run.id == "r-1").unwrap();
    let second = runs.iter().find(|run| run.id == "r-2").unwrap();
    assert_eq!(first.task_id, "t-007");
    assert_eq!(second.task_id, "t-001");
}

#[test]
fn targeted_consultation_attachment_does_not_steal_another_task() {
    let (mut tables, state) = setup_project();
    add(&mut tables, "t-007", "executing");
    add(&mut tables, "t-008", "executing");
    record_task_consultation_requested(&mut tables, "t-007", "executing", NOW);
    record_task_consultation_requested(&mut tables, "t-008", "executing", NOW);
    start(&mut tables, &state, "r-1", "supervisor:codex:t-008");
    start(&mut tables, &state, "r-2", "supervisor:codex:t-009");

    let first =
        attach_running_run_to_consultation(&mut tables, "t-008", "supervisor:codex:t-008", NOW);
    let second =
        attach_running_run_to_consultation(&mut tables, "t-009", "supervisor:codex:t-009", NOW);

    assert_eq!(first.as_ref().map(|context| context.task_id.as_str()), Some("t-008"));
    assert!(second.is_none());

    let runs = list_runs(&tables, 10);
    let first = runs.iter().find(|run| run.id == "r-1").unwrap();
    let second = runs.iter().find(|run| run.id == "r-2").unwrap();
    assert_eq!(first.task_id, "t-008");
    assert_eq!(second.task_id, "t-001");
}

#[test]
fn interrupted_runs_are_found_by_their_processes() {
    let (mut tables, state) = setup_project();
    start(&mut tables, &state, "r-1", "supervisor:codex:1");
    assert_eq!(recover_interrupted_runs(&mut tables, &vec![PID], NOW), 0);
    assert_eq!(recover_interrupted_runs(&mut tables, &Vec::new(), NOW), 1);
    assert_eq!(tables.runs[0].status, "interrupted");
    assert_eq!(tables.runs[0].pid, None);
    assert_eq!(recover_interrupted_runs(&mut tables, &Vec::new(), NOW), 0);
}

#[test]
fn pauses_end_where_they_began() {
    let (mut tables, _) = setup_project();
    record_task_consultation_requested(&mut tables, "t-001", "addressing", NOW);
    assert_eq!(row(&tables, "t-001").status, "consultation");
    assert_eq!(
        restore_task_from_human_answer(&mut tables, "t-001", NOW),
        TaskHumanAnswerRestore::NotAwaitingHuman
    );
    assert_eq!(
        restore_task_from_consultation(&mut tables, "t-001", NOW),
        TaskConsultRestore::Restored { status: "addressing".to_string() }
    );
    assert_eq!(
        restore_task_from_consultation(&mut tables, "t-001", NOW),
        TaskConsultRestore::NotInConsultation
    );
    assert_eq!(row(&tables, "t-001").status, "addressing");
    assert_eq!(task_status_for_state(&TaskState::AwaitingHuman), "awaiting_human");
}

fn listed(id: &str, opened: Option<&str>, error: Option<&str>) -> ProjectListEntry {
    ProjectListEntry {
        id: id.to_string(),
        name: error.map_or(Some("ferrus".to_string()), |_| None),
        workspace_dir: error.map_or(Some("/tmp/ferrus".to_string()), |_| None),
        data_dir: format!("/data/{id}"),
        database_exists: error.is_none(),
        last_opened_at: opened.map(|o| o.to_string()),
        error: error.map(|e| e.to_string()),
    }
}

#[test]
fn list_registered_projects_reads_valid_and_invalid_entries() {
    let metadata = ProjectMetadata {
        id: "PVALID".to_string(),
        name: "ferrus".to_string(),
        workspace_dir: "/tmp/ferrus".to_string(),
        ferrus_dir: "/tmp/ferrus/.ferrus".to_string(),
        vcs: Some("git".to_string()),
        origin_repo: None,
        default_branch: Some("main".to_string()),
        current_head: None,
        created_at: "2026-05-16T10:00:00Z".to_string(),
        last_opened_at: "2026-05-17T10:00:00Z".to_string(),
        version: PROJECT_VERSION,
    };
    let projects = list_registered_projects(vec![
        list_entry("PBROKEN", "/data/PBROKEN", false, Err("not a table")),
        list_entry("PVALID", "/data/PVALID", true, Ok(&metadata)),
    ]);

    assert_eq!(projects.len(), 2);
    let valid = projects.iter().find(|project| project.id == "PVALID").unwrap();
    assert_eq!(valid.name.as_deref(), Some("ferrus"));
    assert_eq!(valid.workspace_dir.as_deref(), Some("/tmp/ferrus"));
    assert!(valid.database_exists);
    assert!(valid.error.is_none());

    let invalid = projects.iter().find(|project| project.id == "PBROKEN").unwrap();
    assert!(invalid.name.is_none());
    assert!(!invalid.database_exists);
    assert!(invalid.error.is_some());
    assert_eq!(projects[0].id, "PVALID");
}

#[test]
fn projects_are_listed_by_their_last_opening() {
    let ids = |rows: Vec<ProjectListEntry>| -> Vec<String> {
        list_registered_projects(rows).into_iter().map(|row| row.id).collect()
    };
    assert_eq!(
        ids(vec![
            listed("PD", None, Some("broken")),
            listed("PB", Some("2026-05-16T10:00:00Z"), None),
            listed("PC", None, Some("broken")),
            listed("PA", Some("2026-05-17T10:00:00Z"), None),
            listed("P0", Some("2026-05-16T10:00:00Z"), None),
        ]),
        vec!["PA", "P0", "PB", "PC", "PD"]
    );
    let broken = list_entry("DIR", "/data/DIR", true, Err("no metadata"));
    assert_eq!(broken.id, "DIR");
    assert_eq!(broken.data_dir, "/data/DIR");
    assert!(broken.database_exists);
    assert_eq!(broken.workspace_dir, None);
    assert_eq!(broken.last_opened_at, None);
    assert_eq!(broken.error.as_deref(), Some("no metadata"));
}

#[test]
fn payloads_are_written_on_one_line() {
    let event = EventDraft {
        run_id: None,
        event_type: "run_finished".to_string(),
        payload: payload_value(&vec![
            ("task_id".to_string(), Payload::Text("t-\"1\"".to_string())),
            ("exit_code".to_string(), Payload::Number(-1)),
            ("pid".to_string(), Payload::Number(42)),
            ("branch".to_string(), Payload::Null),
            ("pid".to_string(), Payload::Number(43)),
        ]),
        created_at: "2026-05-17T10:00:00Z".to_string(),
    };
    assert_eq!(
        payload_text(&event),
        "{\"branch\":null,\"exit_code\":-1,\"pid\":43,\"task_id\":\"t-\\\"1\\\"\"}"
    );
    let empty = EventDraft { payload: payload_value(&Vec::new()), ..event };
    assert_eq!(payload_text(&empty), "{}");
    let list = EventDraft {
        payload: serde_json::from_str("[ true, 1.5, {\"b\": 1, \"a\": []} ]").unwrap(),
        ..empty
    };
    assert_eq!(payload_text(&list), "[true,1.5,{\"a\":[],\"b\":1}]");
}

#[test]
fn a_pause_forgets_an_earlier_one() {
    let (mut tables, _) = setup_project();
    record_task_human_question_requested(&mut tables, "t-001", "consultation", NOW);
    record_task_human_question_requested(&mut tables, "t-001", "awaiting_human", NOW);
    assert_eq!(
        restore_task_from_human_answer(&mut tables, "t-001", NOW),
        TaskHumanAnswerRestore::Restored { status: "awaiting_human".to_string() }
    );
    assert_eq!(row(&tables, "t-001").paused_status, None);
}

#[test]
fn recovery_goes_without_a_state() {
    let (mut tables, _) = setup_project();
    let first = recover_runtime_state(&mut tables, None, &Vec::new(), NOW);
    assert_eq!(first.state_lease_mirrors_cleared, 0);
    let left = preview_runtime_recovery(&tables, None, &Vec::new(), NOW);
    assert_eq!(
        (left.interrupted_runs, left.expired_task_leases, left.state_lease_mirrors_cleared),
        (0, 0, 0)
    );
}

#[test]
fn a_worktree_that_stays_is_named() {
    assert_eq!(
        worktree_failure("/w/t-001", &b" locked\n".to_vec(), "exit status: 1"),
        "Failed to remove orphaned worktree at /w/t-001: locked"
    );
    assert_eq!(
        worktree_failure("/w/t-001", &b"\n".to_vec(), "exit status: 1"),
        "Failed to remove orphaned worktree at /w/t-001: exit status: 1"
    );
}

fn workspace() -> Workspace {
    Workspace {
        dir: "/new/workspace".to_string(),
        name: Some("workspace".to_string()),
        ferrus_dir: "/new/workspace/.ferrus".to_string(),
    }
}

#[test]
fn touch_current_project_updates_last_opened_without_rewriting_local_ref() {
    let local_ref = LocalProjectRef {
        project_id: "test-project".to_string(),
        name: "test".to_string(),
        data_dir: "/data/test-project".to_string(),
    };
    let touched =
        touch_project(&local_ref, &workspace(), &None, &metadata("test-project"), NOW).unwrap();

    assert_eq!(touched.id, "test-project");
    assert_eq!(touched.created_at, "2026-05-16T10:00:00Z");
    assert_ne!(touched.last_opened_at, "2026-05-16T11:00:00Z");
    assert_eq!(touched.last_opened_at, "2023-11-15T12:00:00Z");
    assert_eq!(touched.workspace_dir, "/new/workspace");

    assert_eq!(
        touch_project(&local_ref, &workspace(), &None, &metadata("other"), NOW),
        Err(TouchError::IdMismatch {
            local: "test-project".to_string(),
            global: "other".to_string()
        })
    );
    let outside = LocalProjectRef { project_id: "../up".to_string(), ..local_ref };
    assert!(matches!(
        touch_project(&outside, &workspace(), &None, &metadata("../up"), NOW),
        Err(TouchError::InvalidId(_))
    ));
}

#[test]
fn projects_are_registered_with_their_repository() {
    let git = Some(GitMetadata {
        origin_repo: Some("git@host:repo".to_string()),
        default_branch: Some("main".to_string()),
        current_head: None,
    });
    let (fresh, local) = register_project("P1", "/data/P1", &workspace(), &git, None, NOW);
    assert_eq!(fresh.id, "P1");
    assert_eq!(fresh.vcs.as_deref(), Some("git"));
    assert_eq!(fresh.default_branch.as_deref(), Some("main"));
    assert_eq!(fresh.created_at, "2023-11-15T12:00:00Z");
    assert_eq!(local.project_id, "P1");
    assert_eq!(local.data_dir, "/data/P1");
    let (again, _) =
        register_project("P1", "/data/P1", &workspace(), &None, Some(&metadata("P1")), NOW);
    assert_eq!(again.created_at, "2026-05-16T10:00:00Z");
    assert_eq!(again.vcs, None);
    assert_eq!(registration_id(Some(&local), "P2".to_string()), Ok("P1".to_string()));
    assert_eq!(registration_id(None, "P2".to_string()), Ok("P2".to_string()));
}

#[test]
fn git_answers_are_trimmed() {
    assert_eq!(git_value(" main\n").as_deref(), Some("main"));
    assert_eq!(git_value("\n"), None);
    assert_eq!(git_output(true, &b" main\n".to_vec()).as_deref(), Some("main"));
    assert_eq!(git_output(true, &vec![0xff]).as_deref(), Some("\u{fffd}"));
    assert_eq!(git_output(false, &b"main\n".to_vec()), None);
    assert_eq!(
        default_branch(Some("origin/main".to_string()), Some("dev".to_string())).as_deref(),
        Some("main")
    );
    assert_eq!(default_branch(None, Some("dev".to_string())).as_deref(), Some("dev"));
    assert!(inside_work_tree(&Some("true".to_string())));
    assert!(!inside_work_tree(&None));
}

#[test]
fn runtime_paths_stand_under_the_project_root() {
    assert_eq!(project_path(".ferrus/TASK.md", Some(" /root ")), "/root/.ferrus/TASK.md");
    assert_eq!(project_path("ferrus.toml", Some("/root")), "ferrus.toml");
    assert_eq!(project_path(".ferrus/TASK.md", Some("  ")), ".ferrus/TASK.md");
    assert!(should_copy_artifact(false, Some("text")));
    assert!(!should_copy_artifact(false, Some(" \n")));
    assert!(!should_copy_artifact(true, Some("text")));
}

#[test]
fn databases_need_their_tables_and_columns() {
    let strings = |items: &[&str]| items.iter().map(|s| s.to_string()).collect::<Vec<String>>();
    let columns = strings(&[
        "paused_status",
        "claimed_by",
        "lease_until",
        "last_heartbeat",
        "check_retries",
        "review_cycles",
        "failure_reason",
    ]);
    assert!(validate_database_schema(&strings(&["events", "runs", "tasks"]), &columns));
    assert!(!validate_database_schema(&strings(&["events", "runs"]), &columns));
    assert!(!validate_database_schema(&strings(&["events", "runs", "tasks"]), &Vec::new()));
}

#[test]
fn new_tasks_get_the_next_number() {
    assert_eq!(parse_task_number("t-007"), Some(7));
    assert_eq!(parse_task_number("t-+7"), Some(7));
    assert_eq!(parse_task_number("task-7"), None);
    assert_eq!(parse_task_number("t-4294967296"), None);
    let ids = vec!["t-007".to_string(), "current".to_string()];
    assert_eq!(max_task_number(&ids), 7);
    let artifact = allocate_task_artifact(&vec!["t-012.md".to_string()], &ids);
    assert_eq!(artifact.id, "t-013");
    assert_eq!(artifact.path, ".ferrus/tasks/t-013.md");
    assert_eq!(artifact.run_dir, ".ferrus/runs/t-013");
    assert_eq!(generate_project_id(255, 16), "P0000000000FF0000000000000010");
    assert!(validate_project_id("P0000000000FF0000000000000010").is_ok());
    assert!(validate_project_id("").is_err());
    assert!(validate_project_id("a/b").is_err());
}
