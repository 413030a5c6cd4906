use ferrus::cli::commands::register::Agent;
use ferrus::config::HqRole;
use ferrus::hq::commands::{parse_command, parse_count, parse_tokens, CommandError, ShellCommand};
use ferrus::hq::dispatch::{
    dispatch, dispatch_command, parse_agent_type, run, Action, LoopEvent, LoopStep, BYE, HELP,
    MODEL_USAGE,
};
use ferrus::hq::schedule::Session;

/// The program of the first agent, which its variant is named after.
fn program() -> String {
    format!("{:?}", Agent::ClaudeCode).trim_end_matches("Code").to_lowercase()
}

/// The name by which the first agent is configured.
fn first_agent() -> String {
    format!("{}-code", program())
}

fn read(line: &str) -> ShellCommand {
    match parse_command(line) {
        Ok(command) => command,
        Err(error) => panic!("{}", error.message()),
    }
}

fn session(name: &str, alive: bool) -> Session {
    Session { name: name.to_string(), alive, log_path: format!(".ferrus/logs/{name}.log") }
}

#[test]
fn parse_quit() {
    assert!(matches!(read("/quit"), ShellCommand::Quit));
}

#[test]
fn parse_status() {
    assert!(matches!(read("/status"), ShellCommand::Status));
}

#[test]
fn parse_reset() {
    assert!(matches!(read("/reset"), ShellCommand::Reset));
}

#[test]
fn parse_stop() {
    assert!(matches!(read("/stop"), ShellCommand::Stop));
}

#[test]
fn parse_plan() {
    assert!(matches!(read("/plan"), ShellCommand::Plan));
}

#[test]
fn parse_review() {
    assert!(matches!(read("/review"), ShellCommand::Review));
}

#[test]
fn parse_attach_with_name() {
    match read("/attach executor") {
        ShellCommand::Attach { name } => assert_eq!(name, "executor"),
        _ => panic!("expected Attach"),
    }
}

#[test]
fn attach_parses_hyphenated_name() {
    match read("/attach executor-1") {
        ShellCommand::Attach { name } => assert_eq!(name, "executor-1"),
        _ => panic!("expected Attach"),
    }
}

#[test]
fn unknown_command_errors() {
    assert!(parse_command("/foobar").is_err());
}

#[test]
fn non_slash_errors() {
    assert!(parse_command("hello").is_err());
}

#[test]
fn quoted_names_are_one_word() {
    assert_eq!(
        read("/attach \"my agent\""),
        ShellCommand::Attach { name: "my agent".to_string() }
    );
    assert_eq!(parse_command("/attach \"my agent"), Err(CommandError::Unterminated));
}

#[test]
fn options_are_read() {
    assert_eq!(read("/runs"), ShellCommand::Runs { limit: 20 });
    assert_eq!(read("/runs --limit 5"), ShellCommand::Runs { limit: 5 });
    assert_eq!(read("/run --limit=3"), ShellCommand::Run { limit: Some(3) });
    assert_eq!(read("/run"), ShellCommand::Run { limit: None });
    assert_eq!(
        read("/events --run run-1"),
        ShellCommand::Events { limit: 20, run_id: Some("run-1".to_string()) }
    );
    assert_eq!(read("/check --force"), ShellCommand::Check { force: true });
    assert_eq!(read("/task --manual"), ShellCommand::Task { manual: true });
    assert_eq!(read("/init"), ShellCommand::Init { agents_path: ".agents".to_string() });
    assert_eq!(
        read("/model executor gpt-5.4"),
        ShellCommand::Model {
            target: HqRole::Executor,
            model: Some("gpt-5.4".to_string()),
            clear: false
        }
    );
    assert_eq!(
        read("/register --supervisor codex --executor-model m"),
        ShellCommand::Register {
            supervisor: Some("codex".to_string()),
            supervisor_model: None,
            executor: None,
            executor_model: Some("m".to_string()),
        }
    );
}

#[test]
fn wrong_arguments_are_refused() {
    assert_eq!(parse_command("hello"), Err(CommandError::NoSlash));
    assert_eq!(parse_command("/"), Err(CommandError::Empty));
    assert_eq!(
        parse_command("/foobar"),
        Err(CommandError::UnknownCommand("foobar".to_string()))
    );
    assert_eq!(parse_command("/status now"), Err(CommandError::Unexpected("now".to_string())));
    assert_eq!(
        parse_command("/runs --limit 1 --limit 2"),
        Err(CommandError::Repeated("--limit".to_string()))
    );
    assert_eq!(
        parse_command("/runs --limit"),
        Err(CommandError::MissingValue("--limit".to_string()))
    );
    assert_eq!(
        parse_command("/runs --limit x"),
        Err(CommandError::InvalidValue("x".to_string()))
    );
    assert!(matches!(parse_command("/attach"), Err(CommandError::MissingArgument(_))));
    assert_eq!(
        CommandError::UnknownCommand("foobar".to_string()).message(),
        "unrecognized subcommand 'foobar'"
    );
    assert_eq!(
        CommandError::Repeated("--limit".to_string()).message(),
        "the argument '--limit' cannot be used multiple times"
    );
    assert_eq!(parse_tokens(&Vec::new()), Err(CommandError::Empty));
}

#[test]
fn counts_are_whole_numbers() {
    assert_eq!(parse_count("0"), Some(0));
    assert_eq!(parse_count("+12"), Some(12));
    assert_eq!(parse_count(""), None);
    assert_eq!(parse_count("-1"), None);
    assert_eq!(parse_count("99999999999999999999999"), None);
}

#[test]
fn input_without_a_slash_is_an_answer_when_one_is_waited_for() {
    assert_eq!(dispatch("Use option A", true, &Vec::new(), &program()), Action::Answer);
    assert_eq!(
        dispatch("Use option A", false, &Vec::new(), &program()),
        Action::Refuse("Commands must start with '/' — try /status, /task, /quit".to_string())
    );
    assert_eq!(dispatch("/status", true, &Vec::new(), &program()), Action::ShowStatus);
    assert_eq!(
        dispatch("/foobar", true, &Vec::new(), &program()),
        Action::Refuse("unrecognized subcommand 'foobar'".to_string())
    );
}

#[test]
fn commands_become_actions() {
    let none: Vec<Session> = Vec::new();
    assert_eq!(dispatch("/quit", false, &none, &program()), Action::Muted(BYE.to_string()));
    assert_eq!(dispatch("/help", false, &none, &program()), Action::Info(HELP.to_string()));
    assert!(HELP.starts_with("ferrus HQ commands:\n  /plan "));
    assert!(HELP.ends_with("(no slash prefix needed)."));
    assert_eq!(dispatch("/run --limit 2", false, &none, &program()), Action::RunBatch { limit: Some(2) });
    assert_eq!(
        dispatch("/model supervisor --clear", false, &none, &program()),
        Action::SetModel { target: HqRole::Supervisor, model: None }
    );
    assert_eq!(
        dispatch("/model supervisor m --clear", false, &none, &program()),
        Action::Refuse(MODEL_USAGE.to_string())
    );
    assert_eq!(
        dispatch("/model supervisor", false, &none, &program()),
        Action::Refuse(MODEL_USAGE.to_string())
    );
    assert_eq!(
        dispatch("/register --supervisor qwen-code", false, &none, &program()),
        Action::Error("At least one of --supervisor or --executor required".to_string())
    );
    assert_eq!(
        dispatch("/register --executor codex", false, &none, &program()),
        Action::Register {
            supervisor: None,
            supervisor_model: None,
            executor: Some(Agent::Codex),
            executor_model: None
        }
    );
    assert_eq!(parse_agent_type(&first_agent(), &program()), Some(Agent::ClaudeCode));
    assert_eq!(parse_agent_type("qwen-code", &program()), None);
}

#[test]
fn attaching_shows_where_the_log_is() {
    let sessions = vec![session("executor:codex:1", true)];
    assert_eq!(
        dispatch_command(
            ShellCommand::Attach { name: "executor:codex:1".to_string() },
            &sessions,
            &program()
        ),
        Action::Info(
            "executor:codex:1 runs headlessly — no terminal to attach.\nTail its log to observe: tail -f .ferrus/logs/executor:codex:1.log"
                .to_string()
        )
    );
    assert_eq!(
        dispatch_command(ShellCommand::Attach { name: "boss".to_string() }, &sessions, &program()),
        Action::Error("No agent named 'boss'. Run /status to see active agents.".to_string())
    );
}

#[test]
fn the_loop_ends_when_asked() {
    assert_eq!(run(&LoopEvent::Line("  ".to_string())), LoopStep::Nothing);
    assert_eq!(run(&LoopEvent::Line(" /quit ".to_string())), LoopStep::Quit);
    assert_eq!(run(&LoopEvent::Line("/status".to_string())), LoopStep::Dispatch);
    assert_eq!(run(&LoopEvent::Tick), LoopStep::Schedule);
    assert_eq!(run(&LoopEvent::Watched(None)), LoopStep::Nothing);
    assert_eq!(run(&LoopEvent::WatcherEnded), LoopStep::End);
    assert_eq!(run(&LoopEvent::ShellEnded), LoopStep::End);
}
