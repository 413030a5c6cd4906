use ferrus::cli::commands::{doctor, recover, tasks};
use ferrus::project::doctor::{DoctorCheck, DoctorReport};
use ferrus::project::{
    EventRecord, LocalProjectRef, ProjectMetadata, ProjectRegistration, RunRecord, RuntimeRecovery,
    TaskRecord,
};
use ferrus::pty::{process_byte, replay_tail, strip_ansi, PrefixKeyState, RelayDecision, PREFIX_KEY};
use ferrus::runtime_table::{compact, event_lines, run_lines, task_lines};

#[test]
fn normal_char_forwarded() {
    let mut s = PrefixKeyState::Normal;
    assert_eq!(process_byte(b'a', &mut s), RelayDecision::Forward(vec![b'a']));
    assert_eq!(s, PrefixKeyState::Normal);
}

#[test]
fn prefix_swallowed_and_transitions() {
    let mut s = PrefixKeyState::Normal;
    assert_eq!(process_byte(PREFIX_KEY, &mut s), RelayDecision::Forward(vec![]));
    assert_eq!(s, PrefixKeyState::GotPrefix);
}

#[test]
fn prefix_d_detaches() {
    let mut s = PrefixKeyState::GotPrefix;
    assert_eq!(process_byte(b'd', &mut s), RelayDecision::Detach);
    assert_eq!(s, PrefixKeyState::Normal);
}

#[test]
fn prefix_prefix_forwards_literal_prefix() {
    let mut s = PrefixKeyState::GotPrefix;
    assert_eq!(process_byte(PREFIX_KEY, &mut s), RelayDecision::Forward(vec![PREFIX_KEY]));
    assert_eq!(s, PrefixKeyState::Normal);
}

#[test]
fn prefix_unknown_key_forwards_both() {
    let mut s = PrefixKeyState::GotPrefix;
    assert_eq!(process_byte(b'x', &mut s), RelayDecision::Forward(vec![PREFIX_KEY, b'x']));
    assert_eq!(s, PrefixKeyState::Normal);
}

#[test]
fn sequence_normal_prefix_d_detach() {
    let mut s = PrefixKeyState::Normal;
    assert_eq!(process_byte(b'h', &mut s), RelayDecision::Forward(vec![b'h']));
    assert_eq!(process_byte(PREFIX_KEY, &mut s), RelayDecision::Forward(vec![]));
    assert_eq!(process_byte(b'd', &mut s), RelayDecision::Detach);
}

#[test]
fn strip_ansi_removes_csi() {
    let input = b"\x1b[32mhello\x1b[0m world";
    let out = strip_ansi(input);
    assert_eq!(out, b"hello world");
}

#[test]
fn strip_ansi_removes_alternate_screen() {
    let input = b"\x1b[?1049hsome text\x1b[?1049l";
    let out = strip_ansi(input);
    assert_eq!(out, b"some text");
}

#[test]
fn strip_ansi_normalises_crlf() {
    let input = b"line1\r\nline2\rline3\n";
    let out = strip_ansi(input);
    assert_eq!(out, b"line1\nline2\nline3\n");
}

#[test]
fn the_end_of_a_log_is_replayed() {
    assert_eq!(replay_tail(b"\x1b[32mhello\x1b[0m world", 5), b"world");
    assert_eq!(replay_tail(b"\x1b[32mhello\x1b[0m", 5), b"hello");
    assert_eq!(replay_tail(b"hello", 0), b"");
}

#[test]
fn strip_ansi_removes_titles() {
    assert_eq!(strip_ansi(b"\x1b]0;title\x07a\x1b]0;title\x1b\\b\x1bMc\x1b"), b"abc");
    assert_eq!(strip_ansi(b"plain text\n"), b"plain text\n");
    assert_eq!(strip_ansi(b""), b"");
}

#[test]
fn task_lines_include_empty_message() {
    assert_eq!(task_lines(&[]), vec!["No tasks recorded in ferrus.db.".to_string()]);
}

fn registration() -> ProjectRegistration {
    ProjectRegistration {
        local_ref: LocalProjectRef {
            project_id: "p-1".to_string(),
            name: "demo".to_string(),
            data_dir: "/data".to_string(),
        },
        metadata: ProjectMetadata {
            id: "p-1".to_string(),
            name: "demo".to_string(),
            workspace_dir: "/work".to_string(),
            ferrus_dir: "/work/.ferrus".to_string(),
            vcs: None,
            origin_repo: None,
            default_branch: None,
            current_head: None,
            created_at: "2026-05-16T10:00:00Z".to_string(),
            last_opened_at: "2026-05-16T10:00:00Z".to_string(),
            version: 1,
        },
        data_dir: "/data".to_string(),
        database_path: "/data/ferrus.db".to_string(),
    }
}

fn run() -> RunRecord {
    RunRecord {
        id: "r-123".to_string(),
        task_id: "t-001".to_string(),
        role: "executor".to_string(),
        agent: "codex".to_string(),
        status: "running".to_string(),
        started_at: "2026-05-17T10:00:00Z".to_string(),
        updated_at: "2026-05-17T10:01:00Z".to_string(),
        pid: Some(42),
        workspace_path: "/tmp/ferrus".to_string(),
    }
}

#[test]
fn run_lines_include_core_runtime_fields() {
    let runs = vec![run()];

    let lines = run_lines(&runs);

    assert_eq!(lines.len(), 2);
    assert!(lines[0].contains("Started"));
    assert!(lines[1].contains("r-123"));
    assert!(lines[1].contains("executor"));
    assert!(lines[1].contains("42"));
}

#[test]
fn event_lines_can_report_filtered_empty_state() {
    assert_eq!(
        event_lines(&[], Some("r-123")),
        vec!["No events recorded for run r-123.".to_string()]
    );
}

#[test]
fn event_lines_compact_long_payloads() {
    let events = vec![EventRecord {
        id: 7,
        run_id: Some("r-123".to_string()),
        event_type: "run_started".to_string(),
        payload_json: "x".repeat(120),
        created_at: "2026-05-17T10:00:00Z".to_string(),
    }];

    let lines = event_lines(&events, None);

    assert_eq!(lines.len(), 2);
    assert!(lines[1].contains("run_started"));
    assert!(lines[1].ends_with("..."));
}

#[test]
fn long_texts_are_cut() {
    assert_eq!(compact("short", 10), "short");
    assert_eq!(compact("a long text", 5), "a lon...");
}

#[test]
fn recoveries_are_reported() {
    let lines = recover::run(
        &RuntimeRecovery {
            interrupted_runs: 2,
            expired_task_leases: 1,
            state_lease_mirrors_cleared: 0,
        },
        true,
    );
    assert_eq!(lines[0], "Mode: dry-run (no changes)");
    assert_eq!(lines[1], "Interrupted runs: 2");
    assert_eq!(lines[2], "Expired task leases: 1");
    assert_eq!(lines[3], "STATE lease mirrors cleared: 0");
}

#[test]
fn reports_name_the_project_and_its_faults() {
    let mut report = DoctorReport {
        registration: registration(),
        checks: vec![DoctorCheck { ok: true, message: "schema is valid".to_string() }],
    };
    assert!(!report.has_errors());
    report.checks.push(DoctorCheck { ok: false, message: "a file is missing".to_string() });
    assert!(report.has_errors());
    assert_eq!(
        doctor::run(&report),
        vec![
            "Project: demo",
            "Project id: p-1",
            "Data dir: /data",
            "Database: /data/ferrus.db",
            "ok: schema is valid",
            "error: a file is missing",
        ]
    );
}

#[test]
fn tasks_are_listed_or_shown() {
    let none: Vec<TaskRecord> = Vec::new();
    assert_eq!(
        tasks::run(tasks::TasksCommand::List, &none),
        vec!["No tasks recorded.".to_string()]
    );
}
