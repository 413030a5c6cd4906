use ferrus::agent_id::ROLE_SUPERVISOR;
use ferrus::clock::Instant;
use ferrus::hq::agent_manager::{AgentEntry, AgentStatus, AgentsRegistry};
use ferrus::hq::display::{
    confirm, confirm_continue, confirm_yes, format_transition_parts, info_block, select, status,
    transition,
};
use ferrus::hq::state_watcher::{
    elapsed_since, format_elapsed, TransitionSnapshot, Watch, WatchedState,
};
use ferrus::hq::tui::UiMessage;
use ferrus::state::{StateData, TaskState};

const START: Instant = Instant { secs: 1_700_049_600, nanos: 0 };

fn after(secs: i64) -> Instant {
    Instant { secs: START.secs + secs, nanos: 0 }
}

#[test]
fn info_block_sends_one_multiline_message() {
    let message = info_block(&vec!["first".to_string(), "second".to_string()]);
    match message {
        Some(UiMessage::Info(text)) => assert_eq!(text, "first\nsecond"),
        _ => panic!("expected info message"),
    }
    assert_eq!(info_block(&Vec::new()), None);
}

#[test]
fn status_sends_details_as_one_transcript_block() {
    let mut state = StateData::new(START);
    state.selected_spec = Some("docs/feature.md".to_string());
    state.selected_milestone = Some("m1.1".to_string());
    let watched = WatchedState { state, state_elapsed_secs: 0, transition: None };
    let agents = AgentsRegistry {
        agents: vec![AgentEntry {
            role: ROLE_SUPERVISOR.to_string(),
            agent_type: "codex".to_string(),
            name: "supervisor".to_string(),
            pid: None,
            status: AgentStatus::Suspended,
            started_at: None,
        }],
    };

    let report = status(&watched, &agents);

    assert!(matches!(report.update, UiMessage::StatusUpdate(_)));
    match report.block {
        Some(UiMessage::Info(text)) => {
            assert!(text.contains("state      : Idle\n"));
            assert!(text.contains("spec       : docs/feature.md\n"));
            assert!(text.contains("milestone  : m1.1\n"));
            assert!(text.contains("  [supervisor] suspended"));
        }
        _ => panic!("expected info message"),
    }
}

#[test]
fn hides_elapsed_when_transition_starts_from_idle() {
    let transition = TransitionSnapshot {
        from: TaskState::Idle,
        to: TaskState::Executing,
        elapsed_secs: 84,
        used_total: false,
    };

    let (from, to) = format_transition_parts(&transition);

    assert_eq!(from, Some("Idle".to_string()));
    assert_eq!(to, "Executing");
}

#[test]
fn hides_elapsed_when_transition_ends_at_complete() {
    let transition = TransitionSnapshot {
        from: TaskState::Reviewing,
        to: TaskState::Complete,
        elapsed_secs: 84,
        used_total: true,
    };

    let (from, to) = format_transition_parts(&transition);

    assert_eq!(from, None);
    assert_eq!(to, "Complete");
}

#[test]
fn keeps_elapsed_for_other_transitions() {
    let transition = TransitionSnapshot {
        from: TaskState::Executing,
        to: TaskState::Addressing,
        elapsed_secs: 84,
        used_total: false,
    };

    let (from, to) = format_transition_parts(&transition);

    assert_eq!(from, Some("Executing (1m 24s)".to_string()));
    assert_eq!(to, "Addressing");
}

#[test]
fn changes_are_shown_in_their_parts() {
    let change = TransitionSnapshot {
        from: TaskState::Executing,
        to: TaskState::Reviewing,
        elapsed_secs: 5,
        used_total: false,
    };
    assert_eq!(
        transition(&change),
        UiMessage::Transition {
            from: Some("Executing (5s)".to_string()),
            to: "Reviewing".to_string()
        }
    );
}

#[test]
fn questions_have_their_keys() {
    match confirm("Stop?") {
        UiMessage::ConfirmationRequest { prompt, default, accept_keys, reject_keys, .. } => {
            assert_eq!(prompt, "Stop?");
            assert!(!default);
            assert!(accept_keys.contains(&'y'));
            assert!(reject_keys.contains(&'n'));
        }
        other => panic!("expected a question, got {other:?}"),
    }
    match confirm_yes("Proceed?") {
        UiMessage::ConfirmationRequest { default, .. } => assert!(default),
        other => panic!("expected a question, got {other:?}"),
    }
    match confirm_continue("Proceed with 2?") {
        UiMessage::ConfirmationRequest { accept_keys, .. } => assert!(accept_keys.contains(&'c')),
        other => panic!("expected a question, got {other:?}"),
    }
    assert_eq!(
        select("Select spec:", vec!["a".to_string()]),
        UiMessage::SelectionRequest {
            prompt: "Select spec:".to_string(),
            options: vec!["a".to_string()]
        }
    );
}

#[test]
fn formats_seconds_only() {
    assert_eq!(format_elapsed(45), "45s");
}

#[test]
fn formats_minutes_and_seconds() {
    assert_eq!(format_elapsed(70), "1m 10s");
}

#[test]
fn formats_hours_minutes_and_seconds() {
    assert_eq!(format_elapsed(5403), "1h 30m 3s");
}

#[test]
fn formats_zero_duration() {
    assert_eq!(format_elapsed(0), "0s");
}

#[test]
fn elapsed_time_is_never_negative() {
    assert_eq!(elapsed_since(START, after(3)), 3);
    assert_eq!(elapsed_since(after(3), START), 0);
    let late = Instant { secs: START.secs, nanos: 1 };
    assert_eq!(elapsed_since(late, after(1)), 0);
}

#[test]
fn a_change_is_told_once_with_the_time_it_took() {
    let mut watch = Watch::new();
    let idle = StateData::new(START);
    assert!(watch.see(idle.clone(), after(0), after(0)).is_some());
    assert!(watch.see(idle.clone(), after(0), after(0)).is_none());

    let mut executing = StateData::new(after(10));
    executing.state = TaskState::Executing;
    let seen = watch.see(executing.clone(), after(10), after(10)).unwrap();
    let change = seen.transition.unwrap();
    assert_eq!((change.from, change.to), (TaskState::Idle, TaskState::Executing));
    assert_eq!(change.elapsed_secs, 10);
    assert!(!change.used_total);

    let mut complete = StateData::new(after(40));
    complete.state = TaskState::Complete;
    let seen = watch.see(complete.clone(), after(40), after(45)).unwrap();
    let change = seen.transition.unwrap();
    assert_eq!(change.elapsed_secs, 35);
    assert!(change.used_total);
    assert!(watch.see(complete, after(40), after(45)).is_none());
}
