use ferrus::checks::runner::{
    blank_result, invocation, run_checks, run_command, spawn_failure_message, CommandResult,
};
use ferrus::hq::session::{check, CheckReport};

fn ended(command: &str, success: bool) -> CommandResult {
    run_command(command, success, &Vec::new(), &Vec::new())
}

#[test]
fn run_checks_with_single_passing_command() {
    let result = run_checks(vec![ended("true", true)]);
    assert!(result.passed);
    assert_eq!(result.commands.len(), 1);
    assert_eq!(result.commands[0].command, "true");
    assert!(result.commands[0].passed);
}

#[test]
fn run_checks_with_single_failing_command() {
    let result = run_checks(vec![ended("false", false)]);
    assert!(!result.passed);
    assert_eq!(result.commands.len(), 1);
    assert_eq!(result.commands[0].command, "false");
    assert!(!result.commands[0].passed);
}

#[test]
fn run_checks_with_mixed_commands_collects_all_results() {
    let result = run_checks(vec![ended("true", true), ended("false", false)]);
    assert!(!result.passed);
    assert_eq!(result.commands.len(), 2);
    assert!(result.commands[0].passed);
    assert!(!result.commands[1].passed);
}

#[test]
fn run_checks_with_empty_command_is_a_no_op() {
    assert_eq!(invocation(""), None);
    let result = run_checks(vec![blank_result("")]);
    assert!(result.passed);
    assert_eq!(result.commands.len(), 1);
    assert_eq!(result.commands[0].command, "");
    assert!(result.commands[0].passed);
    assert!(result.commands[0].stdout.is_empty());
    assert!(result.commands[0].stderr.is_empty());
}

#[test]
fn run_checks_with_no_commands_passes() {
    let result = run_checks(Vec::new());
    assert!(result.passed);
    assert!(result.commands.is_empty());
}

#[test]
fn commands_are_split_at_white_space() {
    let call = match invocation("  cargo  clippy -- -D warnings ") {
        Some(call) => call,
        None => panic!("there is something to run"),
    };
    assert_eq!(call.program, "cargo");
    assert_eq!(call.args, vec!["clippy", "--", "-D", "warnings"]);
    assert_eq!(spawn_failure_message("nope"), "Failed to spawn command: nope");
}

#[test]
fn output_that_is_not_utf8_is_replaced() {
    let result = run_command("cat", true, &vec![104, 105, 255], &vec![111, 107]);
    assert_eq!(result.stdout, "hi\u{fffd}");
    assert_eq!(result.stderr, "ok");
}

#[test]
fn forced_checks_name_what_failed() {
    assert_eq!(
        check(&run_checks(Vec::new())),
        CheckReport::Info(
            "Checks passed. Warning: no check commands are configured in ferrus.toml.".to_string()
        )
    );
    assert_eq!(
        check(&run_checks(vec![ended("true", true)])),
        CheckReport::Info("All configured checks passed. State was not modified.".to_string())
    );
    assert_eq!(
        check(&run_checks(vec![ended("a b", false), ended("true", true), ended("c", false)])),
        CheckReport::Error(
            "Forced HQ checks failed. State was not modified.\n\nFailed commands:\n- `a b`\n- `c`"
                .to_string()
        )
    );
}
