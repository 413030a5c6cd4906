use ferrus::cli::commands::register::Agent;
use ferrus::config::{update_hq_agent_config, Config, ConfigError, HqRole, LeaseConfig};

/// The program of the first agent, which its variant is named after.
fn program() -> String {
    format!("{:?}", Agent::ClaudeCode).trim_end_matches("Code").to_lowercase()
}

/// The name by which the first agent is configured.
fn first_agent() -> String {
    format!("{}-code", program())
}

fn load(contents: &str) -> Config {
    match Config::from_toml(contents, &program()) {
        Ok(config) => config,
        Err(error) => panic!("{}", error.message()),
    }
}

fn refusal(contents: &str) -> ConfigError {
    match Config::from_toml(contents, &program()) {
        Ok(_) => panic!("the configuration must be refused"),
        Err(error) => error,
    }
}

#[test]
fn lease_config_defaults_without_block() {
    let toml = r#"
[checks]
commands = ["cargo test"]

[limits]
"#;
    let config = load(toml);
    assert_eq!(config.lease.ttl_secs, 90);
    assert_eq!(config.lease.heartbeat_interval_secs, 30);
    assert_eq!(config.lease, LeaseConfig::default());
}

#[test]
fn limits_config_defaults_without_values() {
    let toml = r#"
[checks]
commands = ["cargo test"]

[limits]
"#;
    let config = load(toml);

    assert_eq!(config.limits.max_check_retries, 5);
    assert_eq!(config.limits.max_review_cycles, 3);
    assert_eq!(config.limits.max_feedback_lines, 30);
    assert_eq!(config.limits.wait_timeout_secs, 3600);
}

#[test]
fn config_round_trips_explicit_values() {
    let toml = r#"
[checks]
commands = ["cargo test", "cargo clippy -- -D warnings"]

[limits]
max_check_retries = 7
max_review_cycles = 4
max_feedback_lines = 12
wait_timeout_secs = 900

[lease]
ttl_secs = 120
heartbeat_interval_secs = 45
"#;
    let config = load(toml);

    assert_eq!(
        config.checks.commands,
        vec!["cargo test".to_string(), "cargo clippy -- -D warnings".to_string()]
    );
    assert_eq!(config.limits.max_check_retries, 7);
    assert_eq!(config.limits.max_review_cycles, 4);
    assert_eq!(config.limits.max_feedback_lines, 12);
    assert_eq!(config.limits.wait_timeout_secs, 900);
    assert_eq!(config.lease.ttl_secs, 120);
    assert_eq!(config.lease.heartbeat_interval_secs, 45);
}

#[test]
fn hq_config_absent_gives_none() {
    let toml = "[checks]\ncommands = [\"cargo test\"]\n[limits]\n";
    let config = load(toml);
    assert!(config.hq.is_none());
}

#[test]
fn hq_config_parses_when_present() {
    let toml = format!("[checks]\ncommands = [\"cargo test\"]\n[limits]\n[hq]\nsupervisor = \"{}\"\nexecutor = \"codex\"\n", first_agent());
    let config = load(&toml);
    let hq = config.hq.unwrap();
    assert_eq!(hq.supervisor_name(), first_agent());
    assert_eq!(hq.executor_name(), "codex");
}

#[test]
fn invalid_hq_agent_is_rejected_at_load_time() {
    let toml = "[checks]\ncommands = [\"cargo test\"]\n[limits]\n[hq]\nsupervisor = \"unknown\"\nexecutor = \"codex\"\n";
    let err = refusal(toml).message();
    assert!(err.contains("Unknown supervisor agent 'unknown'"));
}

#[test]
fn hq_roles_may_be_tables() {
    let config = load(
        "[checks]\ncommands = []\n[limits]\n[hq.supervisor]\nagent = \"qwen-code\"\nmodel = \"\"\n[hq.executor]\nagent = \"codex\"\nmodel = \"gpt-5.4\"\n",
    );
    let hq = config.hq.unwrap();
    assert_eq!(hq.supervisor_name(), "qwen-code");
    assert_eq!(hq.executor_name(), "codex");
}

#[test]
fn specifications_have_a_place() {
    let start = "[checks]\ncommands = []\n[limits]\n";
    assert_eq!(load(start).spec.directory, "docs/specs");
    let chosen = load(&format!("{start}[spec]\ndirectory = \"specs\"\n"));
    assert_eq!(chosen.spec.directory, "specs");
    assert_eq!(load(&format!("{start}[spec]\n")).spec.directory, "docs/specs");
    assert_eq!(
        refusal(&format!("{start}[spec]\ndirectory = 1\n")),
        ConfigError::Invalid("directory".to_string())
    );
    assert_eq!(
        refusal(&format!("spec = 1\n{start}")),
        ConfigError::Invalid("spec".to_string())
    );
}

#[test]
fn refused_configurations_say_why() {
    assert_eq!(refusal("checks = "), ConfigError::Syntax);
    assert_eq!(ConfigError::Syntax.message(), "Failed to parse ferrus.toml");
    let missing = refusal("[limits]\n");
    assert_eq!(missing, ConfigError::Missing("checks".to_string()));
    assert_eq!(missing.message(), "Failed to parse ferrus.toml: missing checks");
    let invalid = refusal("[checks]\ncommands = []\n[limits]\nmax_check_retries = -1\n");
    assert_eq!(invalid, ConfigError::Invalid("max_check_retries".to_string()));
    assert_eq!(invalid.message(), "Failed to parse ferrus.toml: invalid max_check_retries");
    let too_large = refusal("[checks]\ncommands = []\n[limits]\nmax_check_retries = 4294967296\n");
    assert_eq!(too_large, ConfigError::Invalid("max_check_retries".to_string()));
}

#[test]
fn a_role_is_updated_alone() {
    let before = &format!("[checks]\ncommands = [\"cargo test\"]\n\n[limits]\nmax_check_retries = 7\n\n[hq]\nsupervisor = \"{}\"\nexecutor = \"codex\"\n", first_agent());
    let after = match update_hq_agent_config(
        before,
        HqRole::Supervisor,
        Some("qwen-code"),
        Some(Some("plus")),
    ) {
        Ok(contents) => contents,
        Err(error) => panic!("{}", error.message()),
    };
    let config = load(&after);
    assert_eq!(config.limits.max_check_retries, 7);
    let hq = config.hq.unwrap();
    assert_eq!(hq.supervisor_name(), "qwen-code");
    assert_eq!(hq.executor_name(), "codex");
    assert!(after.contains("model = \"plus\""), "{after}");

    let cleared = match update_hq_agent_config(&after, HqRole::Supervisor, None, Some(None)) {
        Ok(contents) => contents,
        Err(error) => panic!("{}", error.message()),
    };
    assert!(cleared.contains("agent = \"qwen-code\""), "{cleared}");
    assert!(cleared.contains("model = \"\""), "{cleared}");

    assert_eq!(
        update_hq_agent_config("a = ", HqRole::Executor, None, None),
        Err(ConfigError::Syntax)
    );
    assert_eq!(
        update_hq_agent_config("hq = 1\n", HqRole::Executor, None, None),
        Err(ConfigError::Invalid("hq".to_string()))
    );
    assert_eq!(HqRole::Executor.key(), "executor");
}
