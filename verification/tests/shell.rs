use ferrus::clock::Instant;
use ferrus::hq::screen::{
    abbreviate_home, clear_live_area, ferrus_logo_lines, fit_segments, load_agent_version,
    load_agent_version_from_version_command,
    load_history, metadata_inner_width, print_completion_line, print_meta_line, print_status_line,
    print_tip_line, redraw_live_area, render_prompt_line, save_history, startup_metadata_lines,
    task_state_color, transcript_tone, truncate_to_width, visible_completion_rows, Segment,
    StartupHeader, Tone,
};
use ferrus::hq::tui::{
    command_table, keep_history, longest_common_prefix, split_transcript, App, KeyCode, Modifiers,
    StatusSnapshot, Terminal, TranscriptKind, UiEvent, UiMessage, MAX_HISTORY,
};
use ferrus::state::{StateData, TaskState};

const NOW: Instant = Instant { secs: 1_700_049_600, nanos: 0 };

fn later(secs: i64) -> Instant {
    Instant { secs: NOW.secs + secs, nanos: 0 }
}

fn shell() -> App {
    App::new(Vec::new())
}

fn key(code: KeyCode) -> UiEvent {
    UiEvent::Press { code, modifiers: Modifiers::Plain }
}

fn control(ch: char) -> UiEvent {
    UiEvent::Press { code: KeyCode::Char(ch), modifiers: Modifiers::Control }
}

fn type_text(app: &mut App, text: &str) {
    for ch in text.chars() {
        app.handle_event(key(KeyCode::Char(ch)), NOW);
    }
}

fn offered(app: &App) -> Vec<&'static str> {
    app.completion_candidates.iter().map(|(cmd, _)| *cmd).collect()
}

fn texts(segments: &[Segment]) -> String {
    segments.iter().map(|s| s.text.as_str()).collect()
}

#[test]
fn first_tab_on_multiple_matches_selects_first_candidate() {
    let mut app = shell();
    app.input = "/".into();
    app.cursor_pos = app.input.len();

    app.next_completion();

    assert!(app.completion_active);
    assert_eq!(app.completion_selected, 0);
    assert_eq!(app.completion_candidates[0].0, "/plan");
}

#[test]
fn tab_extends_to_shared_prefix_before_cycling() {
    let mut app = shell();
    app.input = "/r".into();
    app.cursor_pos = app.input.len();

    app.next_completion();

    assert_eq!(app.input, "/re");
    assert!(app.completion_active);
    assert_eq!(offered(&app), vec!["/review", "/reset", "/register"]);
}

#[test]
fn abbreviate_home_replaces_home_prefix() {
    let home = Some("/home/user");
    assert_eq!(abbreviate_home("/home/user/Repos/ferrus", home), "~/Repos/ferrus");
    assert_eq!(abbreviate_home("/home/user", home), "~");
    assert_eq!(abbreviate_home("/home/users", home), "/home/users");
    assert_eq!(abbreviate_home("/home/user", None), "/home/user");
}

#[test]
fn typing_slash_command_updates_context_without_tab() {
    let mut app = shell();

    app.insert_char('/');
    app.insert_char('s');

    assert!(app.has_command_context());
    assert_eq!(offered(&app), vec!["/status", "/stop"]);
    assert!(!app.completion_active);
}

#[test]
fn editing_moves_with_the_cursor() {
    let mut app = shell();
    type_text(&mut app, "héllo");
    app.handle_event(key(KeyCode::Left), NOW);
    app.handle_event(key(KeyCode::Backspace), NOW);
    assert_eq!(app.input, "hélo");
    assert_eq!(app.cursor_pos, 3);
    app.handle_event(key(KeyCode::Home), NOW);
    app.handle_event(key(KeyCode::Delete), NOW);
    assert_eq!(app.input, "élo");
    app.handle_event(control('e'), NOW);
    app.handle_event(key(KeyCode::Char('!')), NOW);
    assert_eq!(app.input, "élo!");
    app.handle_event(control('a'), NOW);
    assert_eq!(app.cursor_pos, 0);
    app.handle_event(key(KeyCode::Backspace), NOW);
    assert_eq!(app.input, "élo!");
}

#[test]
fn lines_are_submitted_and_remembered() {
    let mut app = shell();
    type_text(&mut app, "hello");
    let outcome = app.handle_event(key(KeyCode::Enter), NOW);
    assert_eq!(outcome.line.as_deref(), Some("hello"));
    assert_eq!(app.input, "");
    assert_eq!(app.history, vec!["hello"]);
    type_text(&mut app, "draft");
    app.handle_event(key(KeyCode::Up), NOW);
    assert_eq!(app.input, "hello");
    app.handle_event(key(KeyCode::Down), NOW);
    assert_eq!(app.input, "draft");
    app.handle_event(key(KeyCode::Esc), NOW);
    assert_eq!(app.input, "");
    assert_eq!(app.handle_event(key(KeyCode::Enter), NOW).line, None);
}

#[test]
fn enter_takes_the_marked_completion() {
    let mut app = shell();
    type_text(&mut app, "/st");
    app.handle_event(key(KeyCode::Tab), NOW);
    app.handle_event(key(KeyCode::Tab), NOW);
    assert!(app.completion_popup_visible());
    assert_eq!(app.completion_selected, 1);
    app.handle_event(key(KeyCode::BackTab), NOW);
    assert_eq!(app.completion_selected, 0);
    let outcome = app.handle_event(key(KeyCode::Enter), NOW);
    assert_eq!(outcome.line.as_deref(), Some("/status"));
}

#[test]
fn quitting_takes_two_requests() {
    let mut app = shell();
    app.handle_event(control('c'), NOW);
    assert!(app.ctrl_c_pending);
    assert!(!app.should_quit);
    assert!(app.tick(later(3)));
    assert!(!app.ctrl_c_pending);
    app.handle_event(control('c'), later(4));
    app.handle_event(control('c'), later(5));
    assert!(app.should_quit);
}

#[test]
fn questions_are_answered_by_keys() {
    let mut app = shell();
    let ask = UiMessage::ConfirmationRequest {
        prompt: "Stop?".to_string(),
        suffix: "[y/N]".to_string(),
        default: false,
        accept_keys: vec!['y'],
        reject_keys: vec!['n'],
    };
    assert!(app.handle_message(ask.clone()).redraw);
    let area = redraw_live_area(&app, 40);
    assert_eq!(area.prompt, "Stop? [y/N]");
    assert_eq!(app.handle_event(key(KeyCode::Char('x')), NOW).answer, None);
    assert_eq!(app.handle_event(key(KeyCode::Char('Y')), NOW).answer, Some(true));
    assert_eq!(app.confirmation, None);
    app.handle_message(ask.clone());
    assert_eq!(app.handle_event(key(KeyCode::Enter), NOW).answer, Some(false));
    app.handle_message(ask);
    assert_eq!(app.handle_event(key(KeyCode::Esc), NOW).answer, Some(false));
}

#[test]
fn options_are_chosen_by_arrows() {
    let mut app = shell();
    let ask = UiMessage::SelectionRequest {
        prompt: "Select spec:".to_string(),
        options: vec!["a".to_string(), "b".to_string()],
    };
    app.handle_message(ask.clone());
    app.handle_event(key(KeyCode::Down), NOW);
    assert_eq!(app.handle_event(key(KeyCode::Enter), NOW).choice, Some(Some(1)));
    assert_eq!(app.selection, None);
    app.handle_message(ask);
    assert_eq!(app.handle_event(key(KeyCode::Esc), NOW).choice, Some(None));
}

#[test]
fn a_suspended_shell_is_still() {
    let mut app = shell();
    assert_eq!(app.handle_message(UiMessage::Suspend).terminal, Some(Terminal::Leave));
    assert!(app.suspended);
    let outcome = app.handle_event(key(KeyCode::Char('x')), NOW);
    assert!(!outcome.redraw);
    assert_eq!(app.input, "");
    assert_eq!(app.handle_message(UiMessage::Resume).terminal, Some(Terminal::Enter));
    assert!(!app.suspended);
}

#[test]
fn messages_become_lines() {
    let mut app = shell();
    let told = app.handle_message(UiMessage::Error("one\ntwo".to_string()));
    let lines: Vec<&str> = told.lines.iter().map(|l| l.text.as_str()).collect();
    assert_eq!(lines, vec!["one", "two"]);
    assert!(told.lines.iter().all(|l| l.kind == TranscriptKind::Error));
    assert_eq!(app.messages, told.lines);
    assert_eq!(split_transcript("a", TranscriptKind::Tip)[0].text, "a");
    let mut executing = StateData::new(NOW);
    executing.state = TaskState::Executing;
    app.handle_state(&executing);
    assert_eq!(app.status.task_state, "Executing");
}

#[test]
fn history_is_bounded_and_read_back() {
    let long: Vec<String> = (0..150).map(|i| format!("line {i}")).collect();
    let kept = keep_history(&long);
    assert_eq!(kept.len(), MAX_HISTORY);
    assert_eq!(kept[0], "line 50");
    assert_eq!(load_history(&save_history(&kept)), kept);
    assert!(load_history("").is_empty());
}

#[test]
fn shared_prefixes_are_found() {
    assert_eq!(longest_common_prefix(&vec![("/review", ""), ("/reset", "")]), "/re");
    assert_eq!(longest_common_prefix(&Vec::new()), "");
    assert_eq!(command_table().len(), 11);
}

#[test]
fn lines_are_cut_to_the_width() {
    assert_eq!(truncate_to_width("héllo", 2), "hé");
    let pieces = vec![
        Segment { text: "abc".to_string(), tone: Tone::Plain },
        Segment { text: "def".to_string(), tone: Tone::Red },
    ];
    assert_eq!(texts(&fit_segments(&pieces, 4)), "abcd");
    let status = StatusSnapshot::from_state_data(&StateData::new(NOW));
    assert_eq!(
        texts(&print_status_line(&status, false, 80)),
        "Idle | retries: 0 | cycles: 0"
    );
    assert_eq!(texts(&print_status_line(&status, true, 11)), "Press Ctrl+");
    assert_eq!(task_state_color("Failed"), Tone::Red);
    assert_eq!(transcript_tone(TranscriptKind::Muted), Tone::Faint);
}

#[test]
fn the_marked_completion_is_shown() {
    let table = command_table();
    let rows = visible_completion_rows(&table, table.len() - 1, 80);
    let marked: Vec<&str> =
        rows.iter().filter(|r| r.selected).map(|r| r.command.as_str()).collect();
    assert_eq!(marked, vec!["/quit"]);
    let line = print_completion_line(&rows[rows.len() - 1], 80);
    assert_eq!(texts(&line), "› /quit  exit HQ");
}

#[test]
fn the_cursor_stays_in_sight() {
    let line = render_prompt_line("abcdefghij", 10, 6);
    assert_eq!(line.visible, "ghij");
    assert_eq!(line.cursor_col, 6);
    let line = render_prompt_line("ab", 1, 6);
    assert_eq!(line.visible, "ab");
    assert_eq!(line.cursor_col, 3);
    assert_eq!(clear_live_area(true, 2), 5);
    assert_eq!(clear_live_area(false, 2), 0);
}

#[test]
fn the_header_names_the_agents() {
    let header = StartupHeader {
        version: "1.0".to_string(),
        directory: "~/p".to_string(),
        supervisor_type: "codex".to_string(),
        supervisor_version: "0.9".to_string(),
        executor_type: "qwen-code".to_string(),
        executor_version: String::new(),
    };
    let lines = startup_metadata_lines(&header);
    assert_eq!(
        lines,
        vec!["version: 1.0", "directory: ~/p", "supervisor: codex 0.9", "executor: qwen-code"]
    );
    assert_eq!(metadata_inner_width(&lines, 80), 21);
    assert_eq!(metadata_inner_width(&lines, 10), 4);
    let pieces = print_meta_line("supervisor: codex 0.9", 80, "other");
    assert_eq!(texts(&pieces), "supervisor: codex 0.9");
    assert_eq!(pieces[1].tone, Tone::Accent);
    let pieces = print_meta_line("supervisor: other-code 2", 80, "other");
    assert_eq!(pieces[1].text, " other-code");
    assert_eq!(pieces[1].tone, Tone::Accent);
    assert_eq!(texts(&print_tip_line("Tip: use /help now", 12)), "Tip: use /he");
    assert_eq!(ferrus_logo_lines().len(), 5);
    assert_eq!(load_agent_version(" codex 1.2 \nmore\n"), "codex 1.2");
    assert_eq!(load_agent_version(""), "");
    let told = b"codex 1.2\n".to_vec();
    assert_eq!(load_agent_version_from_version_command(true, &told), "codex 1.2");
    assert_eq!(load_agent_version_from_version_command(false, &told), "");
}
