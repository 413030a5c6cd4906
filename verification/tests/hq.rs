use ferrus::cli::commands::register::Agent;
use ferrus::clock::Instant;
use ferrus::config::HqRole;
use ferrus::hq::agent_manager::{AgentEntry, AgentStatus, AgentsRegistry};
use ferrus::hq::dispatch::{dispatch, Action};
use ferrus::hq::plan::{
    build_run_plan, milestones, next_milestone_message, reset_spec_selection, run_batch_plan,
    run_plan_lines, run_plan_prompt_context, select_spec, selected_milestone_for_task,
    selected_milestone_prompt_context, selected_spec, spec, spec_display_name, spec_step,
    start_batch, task_prompt, BatchStep, DraftEvent, DraftStep, RunPlan, RunPlanMilestone,
    SelectedMilestone, SpecOutcome, TaskMilestoneSelection,
};
use ferrus::hq::schedule::{
    count_running, parallel_limit, reconcile_runtime_schedule, schedule_consultation_tasks,
    schedule_queued_tasks_from, schedule_reviewing_tasks, session_alive, start_failure,
    started_message, task_has_active_external_claim, Session, Work,
};
use ferrus::hq::session::{
    agent_alive, agents_at_work, answer, answer_scoped_human_question, do_reset, finish_interactive_stderr,
    git_is_work_tree, has_pending_human_question, headless_lines, headless_message,
    interactive_exit_error, prepare_executor_workspace, prepare_headless_slot,
    prepare_next_task_after_complete, reconcile_agent_pids, reset, reset_question, restore_after_answer,
    role_agent_id, spawning_message, stop, stop_interactive_child, tee_interactive_stderr, update_model,
    workspace_failure, AnswerRoute, Confirmation, Purpose, Slot, StopStep, WorkspaceStep, STDERR_LIMIT,
};
use ferrus::hq::specs::{milestone_plan, parse_milestones, spec_paths, MilestoneReadiness};
use ferrus::hq::state_watcher::{TransitionSnapshot, WatchedState};
use ferrus::hq::transition::{
    handle_pause_for_human, on_state_change, resume, review, steps_for, transition_action, Prompt,
    Step, TransitionAction,
};
use ferrus::project::listing::{human_question, tasks_awaiting_human};
use ferrus::project::store::Store;
use ferrus::project::tasks::{
    record_task_human_question_requested, record_task_status, record_task_status_with_origin,
};
use ferrus::project::TaskRecord;
use ferrus::state::TaskState::{
    Addressing, AwaitingHuman, Complete, Consultation, Executing, Failed, Idle, Reviewing,
};
use ferrus::state::{StateData, TaskState};

const NOW: Instant = Instant { secs: 1_700_049_600, nanos: 0 };

const SPEC: &str = "## Milestones\n- [x] #1.0 Foundation\n- ID: m1.0\n- Depends on: none\n\n- [ ] #1.1 Ready one\n- ID: m1.1\n- Depends on: m1.0\n\n- [ ] #1.2 Already queued\n- ID: m1.2\n- Depends on: m1.0\n\n- [ ] #2.0 Blocked\n- ID: m2.0\n- Depends on: m1.1\n";

/// The program of the first agent, which its variant is named after.
fn program() -> String {
    format!("{:?}", Agent::ClaudeCode).trim_end_matches("Code").to_lowercase()
}

/// The name by which the first agent is configured.
fn first_agent() -> String {
    format!("{}-code", program())
}

fn tables() -> Store {
    Store { tasks: Vec::new(), runs: Vec::new(), events: Vec::new() }
}

fn state(state: TaskState) -> StateData {
    let mut data = StateData::new(NOW);
    data.state = state;
    data
}

fn session(name: &str, alive: bool) -> Session {
    Session { name: name.to_string(), alive, log_path: format!("{name}.log") }
}

fn task(id: &str, status: &str) -> TaskRecord {
    let mut store = tables();
    record_task_status(&mut store, id, ".ferrus/tasks/t.md", status, NOW);
    store.tasks.remove(0)
}

fn agent(name: &str, pid: Option<u32>, status: AgentStatus) -> AgentEntry {
    AgentEntry {
        role: "executor".to_string(),
        agent_type: "codex".to_string(),
        name: name.to_string(),
        pid,
        status,
        started_at: None,
    }
}

#[test]
fn interactive_exit_error_names_role_agent_and_status() {
    let message =
        interactive_exit_error("supervisor", "codex", "exit status: 1", "broken config");

    assert!(message.contains("supervisor agent (codex) exited with"));
    assert!(message.contains("stderr:\nbroken config"));
    assert_eq!(
        interactive_exit_error("executor", "codex", "exit status: 1", " \n"),
        "executor agent (codex) exited with exit status: 1"
    );
}

#[test]
fn idle_to_executing_spawns_executor() {
    assert_eq!(transition_action(&Idle, &Executing), TransitionAction::SpawnExecutor);
}

#[test]
fn executing_to_reviewing_spawns_reviewer() {
    assert_eq!(transition_action(&Executing, &Reviewing), TransitionAction::SpawnReviewer);
}

#[test]
fn reviewing_to_addressing_kills_reviewer_spawns_executor() {
    assert_eq!(
        transition_action(&Reviewing, &Addressing),
        TransitionAction::KillReviewerSpawnExecutor
    );
}

#[test]
fn reviewing_to_complete() {
    assert_eq!(transition_action(&Reviewing, &Complete), TransitionAction::TaskComplete);
}

#[test]
fn preparing_next_task_after_complete_preserves_completed_history() {
    let mut tables = tables();
    let mut data = state(Complete);
    data.set_active_task_artifacts(
        "t-001".to_string(),
        ".ferrus/tasks/t-001.md".to_string(),
        ".ferrus/runs/t-001".to_string(),
    );
    record_task_status(&mut tables, "t-001", ".ferrus/tasks/t-001.md", "complete", NOW);
    let mut registry = AgentsRegistry { agents: Vec::new() };

    let prepared = prepare_next_task_after_complete(&mut data, &mut tables, &mut registry, NOW);

    assert_eq!(prepared, Ok(()));
    assert_eq!(data.state, Idle);
    assert!(data.active_task_id.is_none());
    assert!(data.active_task_path.is_none());
    assert!(data.active_run_dir.is_none());
    let task = tables.tasks.iter().find(|task| task.id == "t-001").unwrap();
    assert_eq!(task.status, "complete");

    let mut data = state(Executing);
    assert_eq!(
        prepare_next_task_after_complete(&mut data, &mut tables, &mut registry, NOW),
        Err("Cannot prepare next task from state Executing. Previous task must be Complete."
            .to_string())
    );
    assert_eq!(data.state, Executing);
}

#[test]
fn run_plan_selects_ready_milestones_and_skips_existing_tasks() {
    let spec_path = "docs/specs/feature.md";
    let mut tables = tables();
    record_task_status_with_origin(
        &mut tables,
        "t-002",
        ".ferrus/tasks/t-002.md",
        "pending",
        Some(spec_path),
        Some("m1.2"),
        NOW,
    );

    let plan = build_run_plan(spec_path, &milestone_plan(&parse_milestones(SPEC)), &tables);

    assert_eq!(plan.eligible.len(), 1);
    assert_eq!(plan.eligible[0].id, "m1.1");
    assert!(plan
        .skipped
        .iter()
        .any(|milestone| milestone.id == "m1.2" && milestone.reason == "task t-002 is pending"));
    assert!(plan
        .skipped
        .iter()
        .any(|milestone| milestone.id == "m2.0" && milestone.reason == "waiting for m1.1"));
    assert!(plan
        .skipped
        .iter()
        .any(|milestone| milestone.id == "m1.0" && milestone.reason == "done"));
    assert_eq!(
        run_plan_lines(&plan, 1),
        vec![
            "Run plan",
            "spec      : docs/specs/feature.md",
            "eligible  : 1",
            "selected  : 1",
            "",
            "selected milestones:",
            "  #1.1  m1.1     Ready one",
            "",
            "skipped milestones:",
            "  #1.0  m1.0     Foundation (done)",
            "  #1.2  m1.2     Already queued (task t-002 is pending)",
            "  #2.0  m2.0     Blocked (waiting for m1.1)",
        ]
    );
}

fn two_milestones() -> RunPlan {
    RunPlan {
        spec_path: "docs/specs/feature.md".to_string(),
        eligible: vec![
            RunPlanMilestone {
                id: "m1.0".to_string(),
                marker: "#1.0".to_string(),
                title: "First task".to_string(),
            },
            RunPlanMilestone {
                id: "m1.1".to_string(),
                marker: "#1.1".to_string(),
                title: "Second task".to_string(),
            },
        ],
        skipped: Vec::new(),
    }
}

#[test]
fn run_plan_prompt_context_uses_selected_prefix_only() {
    let plan = two_milestones();

    let context = run_plan_prompt_context(&plan, 1);

    assert!(context.contains("Spec: docs/specs/feature.md"));
    assert!(context.contains("Task count: 1"));
    assert!(context.contains("Milestone ID: m1.0"));
    assert!(!context.contains("Milestone ID: m1.1"));
}

#[test]
fn run_plan_lines_do_not_report_batch_launch_as_unwired() {
    let plan = RunPlan {
        spec_path: "docs/specs/feature.md".to_string(),
        eligible: vec![RunPlanMilestone {
            id: "m1.0".to_string(),
            marker: "#1.0".to_string(),
            title: "First task".to_string(),
        }],
        skipped: Vec::new(),
    };

    let lines = run_plan_lines(&plan, 1).join("\n");

    assert!(!lines.contains("not wired"));
    assert!(lines.contains("selected  : 1"));
}

#[test]
fn any_to_failed() {
    assert_eq!(transition_action(&Executing, &Failed), TransitionAction::TaskFailed);
}

#[test]
fn executing_to_addressing_is_noop() {
    assert_eq!(transition_action(&Executing, &Addressing), TransitionAction::NoOp);
}

#[test]
fn executing_to_consultation_spawns_consultant() {
    assert_eq!(transition_action(&Executing, &Consultation), TransitionAction::SpawnConsultant);
}

#[test]
fn consultation_to_executing_is_noop() {
    assert_eq!(transition_action(&Consultation, &Executing), TransitionAction::NoOp);
}

#[test]
fn executing_to_awaiting_human_pauses() {
    assert_eq!(transition_action(&Executing, &AwaitingHuman), TransitionAction::PauseForHuman);
}

#[test]
fn addressing_to_awaiting_human_pauses() {
    assert_eq!(transition_action(&Addressing, &AwaitingHuman), TransitionAction::PauseForHuman);
}

#[test]
fn fixing_to_awaiting_human_pauses() {
    assert_eq!(transition_action(&Addressing, &AwaitingHuman), TransitionAction::PauseForHuman);
}

#[test]
fn reviewing_to_awaiting_human_pauses() {
    assert_eq!(transition_action(&Reviewing, &AwaitingHuman), TransitionAction::PauseForHuman);
}

#[test]
fn consultation_to_awaiting_human_pauses() {
    assert_eq!(transition_action(&Consultation, &AwaitingHuman), TransitionAction::PauseForHuman);
}

#[test]
fn answer_restores_when_recorded_asker_is_not_alive() {
    let mut data = state(AwaitingHuman);
    data.paused_state = Some(Consultation);
    data.awaiting_human_by = Some(format!("supervisor:{}:1", first_agent()));

    assert_eq!(answer("Use the simpler path", data.state), Ok(AnswerRoute::CurrentTask));
    let alive = agent_alive(&data, None, None, &Vec::new());
    let told = restore_after_answer(&mut data, alive, NOW);

    assert_eq!(data.state, Consultation);
    assert!(data.awaiting_human_by.is_none());
    assert_eq!(
        told.as_deref(),
        Some("Agent is not running. State restored to Consultation. Use /resume to relaunch the consultation workflow.")
    );
}

#[test]
fn plain_input_answers_first_scoped_human_question() {
    let mut tables = tables();
    record_task_status(&mut tables, "t-007", ".ferrus/tasks/t-007.md", "executing", NOW);
    record_task_human_question_requested(&mut tables, "t-007", "executing", NOW);
    let waiting = tasks_awaiting_human(&tables);
    assert_eq!(waiting.len(), 1);
    let questions = vec![human_question(&waiting[0], "Need human input")];
    let pending = has_pending_human_question(Idle, &questions);
    assert!(pending);

    assert_eq!(dispatch("Use option A", pending, &Vec::new(), &program()), Action::Answer);
    assert_eq!(answer("Use option A", Idle), Ok(AnswerRoute::QueuedTask));
    let given = answer_scoped_human_question(&mut tables, &questions, &Vec::new(), NOW).unwrap();

    assert_eq!(given.run_dir, ".ferrus/runs/t-007");
    assert_eq!(given.recorded, "Answer recorded for t-007. Waiting for agent to resume…");
    assert_eq!(
        given.restored.as_deref(),
        Some("Agent is not running. Task t-007 restored to executing. Use /resume or wait for HQ scheduling to relaunch it.")
    );
    let task = tables.tasks.iter().find(|task| task.id == "t-007").unwrap();
    assert_eq!(task.status, "executing");
}

#[test]
fn awaiting_human_to_executing_is_noop() {
    assert_eq!(transition_action(&AwaitingHuman, &Executing), TransitionAction::NoOp);
}

#[test]
fn blank_answers_are_refused() {
    assert_eq!(answer(" \n", AwaitingHuman), Err("Answer cannot be empty."));
    let mut tables = tables();
    assert!(!has_pending_human_question(Idle, &Vec::new()));
    assert_eq!(
        answer_scoped_human_question(&mut tables, &Vec::new(), &Vec::new(), NOW),
        Err("No task is currently waiting for a human answer.")
    );
}

#[test]
fn a_living_agent_takes_its_answer_itself() {
    let mut data = state(AwaitingHuman);
    data.paused_state = Some(Executing);
    let sessions = vec![session("supervisor:codex:1", true)];
    assert!(agent_alive(&data, Some("executor:codex:1"), Some("supervisor:codex:1"), &sessions));
    assert_eq!(restore_after_answer(&mut data, true, NOW), None);
    assert_eq!(data.state, AwaitingHuman);

    let mut tables = tables();
    record_task_status(&mut tables, "t-007", ".ferrus/tasks/t-007.md", "executing", NOW);
    record_task_human_question_requested(&mut tables, "t-007", "executing", NOW);
    tables.tasks[0].claimed_by = Some("executor:codex:t-007".to_string());
    let questions = vec![human_question(&tables.tasks[0], "Which?")];
    let sessions = vec![session("executor:codex:t-007", true)];
    let given = answer_scoped_human_question(&mut tables, &questions, &sessions, NOW).unwrap();
    assert_eq!(given.restored, None);
    assert_eq!(tables.tasks[0].status, "awaiting_human");
}

#[test]
fn a_reset_gives_the_task_up() {
    let mut tables = tables();
    record_task_status(&mut tables, "t-001", ".ferrus/tasks/t-001.md", "executing", NOW);
    tables.tasks[0].claimed_by = Some("executor:codex:1".to_string());
    let mut data = state(Executing);
    data.selected_spec = Some("feature.md".to_string());
    data.set_active_task_artifacts(
        "t-001".to_string(),
        ".ferrus/tasks/t-001.md".to_string(),
        ".ferrus/runs/t-001".to_string(),
    );
    let mut registry = AgentsRegistry {
        agents: vec![agent("executor:codex:1", Some(1), AgentStatus::Running)],
    };
    assert_eq!(
        reset_question(data.state, false).as_deref(),
        Some("Reset while state is Executing — agents may be running. Continue?")
    );
    assert_eq!(reset_question(Complete, false), None);

    do_reset(&mut data, &mut tables, &mut registry, NOW);

    assert_eq!(data.state, Idle);
    assert_eq!(data.selected_spec.as_deref(), Some("feature.md"));
    assert_eq!(data.active_task_id, None);
    assert_eq!(registry.agents[0].status, AgentStatus::Suspended);
    assert_eq!(registry.agents[0].pid, None);
    assert_eq!(tables.tasks[0].status, "reset");
    assert_eq!(tables.tasks[0].claimed_by, None);
    assert_eq!(tables.tasks[1].id, "current");
    assert_eq!(tables.tasks[1].status, "idle");
    assert_eq!(tables.events.last().unwrap().event_type, "hq_reset");
}

#[test]
fn a_reset_is_confirmed_while_an_agent_works() {
    let asked = "Reset while state is Addressing — agents may be running. Continue?";
    let mut tables = tables();
    record_task_status(&mut tables, "t-001", ".ferrus/tasks/t-001.md", "addressing", NOW);
    let mut data = state(Addressing);
    let mut registry = AgentsRegistry {
        agents: vec![agent("executor:codex:1", Some(1), AgentStatus::Running)],
    };
    let before = (data.clone(), tables.tasks.clone(), registry.clone());
    assert_eq!(
        reset(&mut data, &mut tables, &mut registry, true, None, NOW),
        Confirmation::Ask { question: asked.to_string() }
    );
    assert_eq!(
        reset(&mut data, &mut tables, &mut registry, true, Some(false), NOW),
        Confirmation::Cancelled { message: "Reset cancelled." }
    );
    assert_eq!((data.clone(), tables.tasks.clone(), registry.clone()), before);
    assert_eq!(
        reset(&mut data, &mut tables, &mut registry, true, Some(true), NOW),
        Confirmation::Done { message: "State reset to Idle. All task files cleared." }
    );
    assert_eq!(data.state, Idle);
    assert_eq!(registry.agents[0].status, AgentStatus::Suspended);

    for state in [Executing, Reviewing, Addressing] {
        assert!(reset_question(state, false).is_some());
    }
    for state in [Idle, Consultation, AwaitingHuman, Complete, Failed] {
        assert_eq!(reset_question(state, false), None);
        assert!(reset_question(state, true).is_some());
    }
    assert_eq!(
        reset(&mut data, &mut tables, &mut registry, false, None, NOW),
        Confirmation::Done { message: "State reset to Idle. All task files cleared." }
    );
}

#[test]
fn agents_at_work_are_found() {
    let registry = AgentsRegistry {
        agents: vec![
            agent("executor:codex:1", None, AgentStatus::Suspended),
            agent("executor:codex:2", Some(7), AgentStatus::Running),
        ],
    };
    let idle = AgentsRegistry { agents: Vec::new() };
    assert!(agents_at_work(&Vec::new(), &registry, &vec![7]));
    assert!(!agents_at_work(&Vec::new(), &registry, &vec![8]));
    assert!(agents_at_work(&vec![session("a", false), session("b", true)], &idle, &Vec::new()));
    assert!(!agents_at_work(&vec![session("a", false)], &idle, &Vec::new()));
}

#[test]
fn stopping_is_confirmed() {
    let mut registry = AgentsRegistry {
        agents: vec![agent("executor:codex:1", Some(1), AgentStatus::Running)],
    };
    let before = registry.clone();
    assert_eq!(
        stop(&mut registry, None),
        Confirmation::Ask { question: "Stop all running agents?".to_string() }
    );
    assert_eq!(
        stop(&mut registry, Some(false)),
        Confirmation::Cancelled { message: "Stop cancelled." }
    );
    assert_eq!(registry, before);
    assert_eq!(
        stop(&mut registry, Some(true)),
        Confirmation::Done { message: "All agent sessions stopped." }
    );
    assert_eq!(registry.agents[0].status, AgentStatus::Suspended);
    assert_eq!(registry.agents[0].pid, None);
}

#[test]
fn agents_that_are_gone_are_noted() {
    let mut registry = AgentsRegistry {
        agents: vec![
            agent("a", Some(1), AgentStatus::Running),
            agent("b", Some(2), AgentStatus::Running),
            agent("c", None, AgentStatus::Running),
            agent("d", Some(3), AgentStatus::Idle),
        ],
    };
    assert!(reconcile_agent_pids(&mut registry, &vec![1]));
    assert_eq!(registry.agents[0].status, AgentStatus::Running);
    assert_eq!(registry.agents[1].status, AgentStatus::Suspended);
    assert_eq!(registry.agents[1].pid, None);
    assert_eq!(registry.agents[2].status, AgentStatus::Suspended);
    assert_eq!(registry.agents[3].status, AgentStatus::Idle);
    assert!(!reconcile_agent_pids(&mut registry, &vec![1]));
}

#[test]
fn the_end_of_the_errors_is_kept() {
    let mut captured: Vec<u8> = Vec::new();
    tee_interactive_stderr(&mut captured, &vec![b'a'; 8000]);
    tee_interactive_stderr(&mut captured, &vec![b'b'; 8000]);
    assert_eq!(captured.len(), STDERR_LIMIT);
    assert_eq!(captured.iter().filter(|b| **b == b'a').count(), 192);
    let mut at_once: Vec<u8> = vec![b'a'; 8000];
    tee_interactive_stderr(&mut at_once, &vec![b'b'; 8000]);
    assert_eq!(at_once, captured);
    assert_eq!(finish_interactive_stderr(&b" broken\n".to_vec()), "broken");
}

#[test]
fn interactive_sessions_are_killed_last() {
    let mut steps: Vec<StopStep> = Vec::new();
    let mut last = None;
    loop {
        last = stop_interactive_child(last, false);
        match last {
            Some(step) => steps.push(step),
            None => break,
        }
        if steps.len() > 10 {
            panic!("stopping must end");
        }
    }
    assert_eq!(
        steps,
        vec![
            StopStep::Wait(1500),
            StopStep::Terminate,
            StopStep::Wait(800),
            StopStep::Kill,
            StopStep::Reap,
            StopStep::Pause(100),
        ]
    );
    assert_eq!(stop_interactive_child(Some(StopStep::Wait(1500)), true), None);
    assert_eq!(
        stop_interactive_child(Some(StopStep::Wait(800)), true),
        Some(StopStep::Pause(100))
    );
}

#[test]
fn headless_places_are_taken_once() {
    let sessions = vec![session("a", true), session("b", false)];
    assert_eq!(prepare_headless_slot(&sessions, "a"), Slot::Busy("a is already running.".to_string()));
    assert_eq!(prepare_headless_slot(&sessions, "b"), Slot::Reap);
    assert_eq!(prepare_headless_slot(&sessions, "c"), Slot::Free);
    assert_eq!(
        headless_lines(&sessions).unwrap(),
        vec![
            "Headless agents:",
            "  a (running) — tail logs: a.log",
            "  b (exited) — tail logs: b.log",
        ]
    );
    assert_eq!(headless_lines(&Vec::new()), None);
    assert_eq!(headless_message("a", "a.log"), "  • Spawning a…\n  ╰─ Logs: a.log\n\n");
}

#[test]
fn workspaces_are_used_made_or_refused() {
    assert!(git_is_work_tree(true, &b"true\n".to_vec()));
    assert!(!git_is_work_tree(true, &b"false\n".to_vec()));
    assert!(!git_is_work_tree(false, &b"true\n".to_vec()));
    assert_eq!(
        prepare_executor_workspace("/p", false, "/d/t-1", false, false),
        WorkspaceStep::Refuse(
            "Cannot start isolated executor workspace: /p is not a git worktree.".to_string()
        )
    );
    assert_eq!(prepare_executor_workspace("/p", true, "/d/t-1", true, true), WorkspaceStep::Use);
    assert_eq!(
        prepare_executor_workspace("/p", true, "/d/t-1", true, false),
        WorkspaceStep::Refuse(
            "Cannot start isolated executor workspace: /d/t-1 already exists and is not a git worktree."
                .to_string()
        )
    );
    match prepare_executor_workspace("/p", true, "/d/t-1", false, false) {
        WorkspaceStep::Create(args) => assert_eq!(
            args,
            vec!["-C", "/p", "worktree", "add", "--detach", "/d/t-1", "HEAD"]
        ),
        other => panic!("the workspace must be made, got {other:?}"),
    }
    assert_eq!(
        workspace_failure("/d", &b"fatal\n".to_vec(), "exit status: 128"),
        "Failed to create isolated executor workspace at /d: fatal"
    );
    assert_eq!(
        workspace_failure("/d", &Vec::new(), "exit status: 128"),
        "Failed to create isolated executor workspace at /d: exit status: 128"
    );
}

#[test]
fn roles_are_named() {
    assert_eq!(role_agent_id(HqRole::Executor, Some("codex")), Ok("executor:codex:1".to_string()));
    assert_eq!(
        role_agent_id(HqRole::Supervisor, None),
        Err("Supervisor agent is not configured".to_string())
    );
    assert_eq!(update_model(HqRole::Executor, Some("m")), "Executor model set to \"m\"");
    assert_eq!(update_model(HqRole::Supervisor, None), "Supervisor model cleared");
    assert_eq!(
        spawning_message(HqRole::Supervisor, "codex", Purpose::Planning),
        "Spawning supervisor (codex) for free-form planning…"
    );
    assert_eq!(
        spawning_message(HqRole::Executor, "codex", Purpose::Open),
        "Spawning executor (codex) interactively…"
    );
}

#[test]
fn milestones_are_read_with_what_they_wait_for() {
    let list = parse_milestones(SPEC);
    assert_eq!(list.len(), 4);
    assert_eq!(list[0].marker, "#1.0");
    assert_eq!(list[0].title, "Foundation");
    assert_eq!(list[0].display_title(), "#1.0 Foundation");
    assert!(list[0].completed);
    assert_eq!(list[3].depends_on, "m1.1");
    let plan = milestone_plan(&list);
    assert_eq!(plan[0].readiness, MilestoneReadiness::Done);
    assert_eq!(plan[1].readiness, MilestoneReadiness::Ready);
    assert_eq!(plan[3].readiness, MilestoneReadiness::Pending);
    assert_eq!(plan[3].blocked_by, vec!["m1.1"]);
    assert!(parse_milestones("- [ ] #1 Without an id\n- [ ] no marker\n").is_empty());
    let indented = parse_milestones("  - [X] #1 A\n    - ID: a\n    - Depends on: b, c\n");
    assert_eq!(milestone_plan(&indented)[0].blocked_by, vec!["b", "c"]);
}

#[test]
fn batches_take_what_was_asked_for() {
    assert_eq!(
        start_batch(Some(0), Some("a.md")),
        BatchStep::Refuse("/run --limit must be greater than 0.")
    );
    assert_eq!(
        start_batch(None, Some("  ")),
        BatchStep::Refuse("No selected spec. Run /milestones or /spec before /run.")
    );
    assert_eq!(start_batch(Some(1), Some(" a.md ")), BatchStep::Plan("a.md".to_string()));
    assert_eq!(selected_spec(Some(" a.md ")).as_deref(), Some("a.md"));

    let plan = two_milestones();
    let all = run_batch_plan(&plan, None, "other");
    assert_eq!(all.selected, 2);
    assert_eq!(all.ask, None);
    let one = run_batch_plan(&plan, Some(1), "other");
    assert_eq!(one.selected, 1);
    assert!(one.prompt.unwrap().contains("Task count: 1"));
    let more = run_batch_plan(&plan, Some(3), "other");
    assert_eq!(more.selected, 2);
    assert_eq!(
        more.ask,
        Some((
            "/run --limit 3 requested, but only 2 ready milestone(s) are eligible.".to_string(),
            "Proceed with 2?".to_string()
        ))
    );
    let nothing = RunPlan {
        spec_path: "a.md".to_string(),
        eligible: Vec::new(),
        skipped: Vec::new(),
    };
    let none = run_batch_plan(&nothing, Some(3), "other");
    assert_eq!(none.selected, 0);
    assert_eq!(none.ask, None);
    assert_eq!(none.prompt, None);
}

#[test]
fn tasks_start_from_the_next_milestone() {
    let list = parse_milestones(SPEC);
    let plan = build_run_plan("a.md", &milestone_plan(&list), &tables());
    assert_eq!(
        selected_milestone_for_task(None, false, &plan.eligible, &list),
        TaskMilestoneSelection::UseFallback
    );
    assert_eq!(
        selected_milestone_for_task(Some("a.md"), false, &plan.eligible, &list),
        TaskMilestoneSelection::Gone(
            "Selected spec no longer exists:\na.md\n\nRun /milestones to select a valid spec."
                .to_string()
        )
    );
    assert_eq!(
        selected_milestone_for_task(Some("a.md"), true, &Vec::new(), &list),
        TaskMilestoneSelection::NoneReady
    );
    assert_eq!(
        selected_milestone_for_task(Some("a.md"), true, &plan.eligible, &Vec::new()),
        TaskMilestoneSelection::Disappeared("Ready milestone m1.1 disappeared".to_string())
    );
    match selected_milestone_for_task(Some("a.md"), true, &plan.eligible, &list) {
        TaskMilestoneSelection::Use(selected) => {
            assert_eq!(selected.spec_path, "a.md");
            assert_eq!(selected.milestone.id, "m1.1");
            assert_eq!(
                next_milestone_message(&selected),
                "\n  • Using next ready milestone\n  ╰─ a.md / #1.1 Ready one\n"
            );
            assert_eq!(
                selected_milestone_prompt_context(&selected),
                "spec_path: a.md\nmilestone: #1.1 Ready one\nmilestone_id: m1.1\ncompleted: no\ndepends_on: m1.0"
            );
            assert!(task_prompt(Some(&selected), "other").ends_with("depends_on: m1.0"));
        }
        other => panic!("a milestone is ready, got {other:?}"),
    }
    assert!(task_prompt(None::<&SelectedMilestone>, "other").contains("TASK DEFINITION"));
}

#[test]
fn specifications_are_found_among_files() {
    let files = ["s/b.md", "s/notes.txt", "s/a.md", "s/.md", "s/B.md", "md"];
    let files: Vec<String> = files.iter().map(|file| file.to_string()).collect();
    assert_eq!(spec_paths(&files), vec!["s/B.md", "s/a.md", "s/b.md"]);
}

#[test]
fn specifications_are_selected() {
    assert_eq!(spec_display_name("docs/specs/login.md"), "login");
    assert_eq!(
        milestones(&vec!["docs/specs/login.md".to_string()]).unwrap(),
        vec!["login  (docs/specs/login.md)"]
    );
    assert_eq!(milestones(&Vec::new()), None);
    assert_eq!(
        select_spec("a.md", &parse_milestones(SPEC)),
        Ok("\n  • Selected spec\n  ╰─ a.md\n".to_string())
    );
    assert_eq!(
        select_spec("a.md", &Vec::new()),
        Err("Selected spec has no milestones with IDs.")
    );
    let mut data = state(Idle);
    assert_eq!(reset_spec_selection(&mut data), "No selected spec to reset.");
    data.selected_spec = Some("a.md".to_string());
    data.selected_milestone = Some("m1.0".to_string());
    assert_eq!(
        reset_spec_selection(&mut data),
        "Selected spec reset. /task will use manual task definition."
    );
    assert_eq!((data.selected_spec, data.selected_milestone), (None, None));
}

#[test]
fn drafting_ends_when_the_specification_is_there() {
    assert_eq!(
        spec_step(&DraftEvent::Tick { last_spec: Some(String::new()) }),
        (DraftStep::Wait, None)
    );
    assert_eq!(
        spec_step(&DraftEvent::Tick { last_spec: Some("a.md".to_string()) }),
        (DraftStep::StopSession, Some("a.md".to_string()))
    );
    assert_eq!(spec_step(&DraftEvent::Ended { success: true }), (DraftStep::Finish, None));
    assert_eq!(spec_step(&DraftEvent::Ended { success: false }), (DraftStep::Fail, None));
    assert_eq!(
        spec(None, Some("a.md")),
        SpecOutcome::Ready("\n  • Specification ready\n  ╰─ a.md\n".to_string())
    );
    assert_eq!(
        spec(Some("b.md"), Some("a.md")),
        SpecOutcome::Ready("\n  • Specification ready\n  ╰─ b.md\n".to_string())
    );
    assert_eq!(spec(None, Some("")), SpecOutcome::Missing);
}

#[test]
fn hand_overs_stop_the_one_before_the_other_starts() {
    let steps = steps_for(TransitionAction::SpawnReviewer);
    let stop = steps.iter().position(|s| *s == Step::Stop(HqRole::Executor)).unwrap();
    let start = steps
        .iter()
        .position(|s| matches!(s, Step::Start(HqRole::Supervisor, Prompt::Reviewer, _)))
        .unwrap();
    assert!(stop < start);
    assert!(!steps_for(TransitionAction::TaskComplete)
        .iter()
        .any(|s| matches!(s, Step::Start(_, _, _))));
    assert!(steps_for(TransitionAction::NoOp).is_empty());

    let watched = WatchedState {
        state: state(Executing),
        state_elapsed_secs: 0,
        transition: Some(TransitionSnapshot {
            from: Idle,
            to: Executing,
            elapsed_secs: 0,
            used_total: false,
        }),
    };
    assert!(on_state_change(None, &watched).steps.is_empty());
    assert!(on_state_change(Some(Executing), &watched).steps.is_empty());
    let change = on_state_change(Some(Idle), &watched);
    assert!(change.show);
    assert_eq!(change.steps, steps_for(TransitionAction::SpawnExecutor));
}

#[test]
fn work_is_resumed_once() {
    assert!(!resume(true, Executing).iter().any(|s| matches!(s, Step::Start(_, _, _))));
    assert!(resume(false, AwaitingHuman)
        .iter()
        .any(|s| matches!(s, Step::Start(HqRole::Executor, Prompt::ExecutorResume, _))));
    assert!(resume(false, Complete).iter().all(|s| matches!(s, Step::Info(_))));
    assert_eq!(
        review(Idle),
        Err("State is Idle — /review requires Reviewing. Use /status.".to_string())
    );
    assert!(review(Reviewing).is_ok());
    assert_eq!(
        handle_pause_for_human(Some("Which?")),
        "\n[AWAITING YOUR ANSWER]\nWhich?\n\nType your answer and press Enter."
    );
    assert_eq!(
        handle_pause_for_human(None),
        "[AWAITING YOUR ANSWER] Type your response and press Enter."
    );
}

#[test]
fn queued_work_fills_the_free_places() {
    let tasks = vec![
        task("t-1", "pending"),
        task("t-2", "pending"),
        task("t-3", "reviewing"),
        task("t-4", "consultation"),
        task("t-5", "complete"),
    ];
    assert!(reconcile_runtime_schedule(Idle, &tasks));
    assert!(!reconcile_runtime_schedule(Executing, &tasks));
    assert_eq!(parallel_limit(0), 1);

    let queue = schedule_queued_tasks_from(&tasks, &Vec::new(), 1, "codex", true, NOW);
    assert_eq!(queue.launches.len(), 1);
    assert_eq!(queue.launches[0].task_id, "t-1");
    assert_eq!(queue.launches[0].name, "executor:codex:t-1");
    assert_eq!(queue.waiting, None);

    let busy = vec![session("executor:codex:t-1", true)];
    let queue = schedule_queued_tasks_from(&tasks, &busy, 1, "codex", true, NOW);
    assert!(queue.launches.is_empty());
    assert_eq!(
        queue.waiting.as_deref(),
        Some("2 queued task(s) waiting; executor parallelism limit is 1.")
    );
    assert_eq!(count_running(&busy, "executor"), 1);
    assert!(session_alive(&busy, "executor:codex:t-1"));

    let reviews = schedule_reviewing_tasks(&tasks, &Vec::new(), 2, "codex", NOW);
    assert_eq!(reviews.len(), 1);
    assert_eq!(reviews[0].name, "supervisor:codex:t-3");
    let consultations = schedule_consultation_tasks(&tasks, &Vec::new(), 2, "codex", NOW);
    assert_eq!(consultations.len(), 1);
    assert_eq!(consultations[0].task_id, "t-4");

    let mut claimed = task("t-6", "pending");
    claimed.claimed_by = Some("executor:qwen-code:1".to_string());
    claimed.lease_until = Some("2099-01-01T00:00:00Z".to_string());
    assert!(task_has_active_external_claim(&claimed, NOW));
    claimed.lease_until = Some("2001-01-01T00:00:00Z".to_string());
    assert!(!task_has_active_external_claim(&claimed, NOW));

    assert_eq!(
        started_message(Work::Queued, &vec!["t-1".to_string(), "t-2".to_string()]).as_deref(),
        Some("Started executor session(s) for 2 queued task(s): t-1, t-2")
    );
    assert_eq!(started_message(Work::Review, &Vec::new()), None);
    assert_eq!(
        start_failure(Work::Review, 1, "no agent"),
        "Could not start more review supervisor sessions after starting 1 task(s): no agent"
    );
}

#[test]
fn the_right_agent_starts() {
    let starters = |from: TaskState, to: TaskState| -> Vec<HqRole> {
        let mut roles = Vec::new();
        for step in steps_for(transition_action(&from, &to)) {
            if let Step::Start(role, _, _) = step {
                roles.push(role);
            }
        }
        roles
    };
    assert_eq!(starters(Idle, Executing), vec![HqRole::Executor]);
    assert_eq!(starters(Reviewing, Addressing), vec![HqRole::Executor]);
    assert_eq!(starters(Executing, Reviewing), vec![HqRole::Supervisor]);
    assert_eq!(starters(Addressing, Consultation), vec![HqRole::Supervisor]);
    assert!(starters(Executing, AwaitingHuman).is_empty());
    assert!(starters(Consultation, Executing).is_empty());
    assert!(!steps_for(transition_action(&Executing, &Consultation))
        .iter()
        .any(|step| matches!(step, Step::Stop(_))));
}
