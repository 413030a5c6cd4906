use ferrus::agent_id::{agent_id, mcp_server_name, task_session_name};
use ferrus::agents::claude;
use ferrus::agents::codex;
use ferrus::agents::qwen;
use ferrus::agents::{
    add_json_allow_permission, allow_mcp_server_tools, mcp_server_tools_permission,
    normalized_model, parse_executor_agent, parse_supervisor_agent, AgentRunMode, AllowError,
    CommandLine, ExecutorAgent, Host, PromptTransport, SettingsError, SupervisorAgent,
};
use ferrus::cli::commands::register::Agent;
use ferrus::json::{parse_json, Json};

/// The program of the first agent, which its variant is named after.
fn program() -> String {
    format!("{:?}", Agent::ClaudeCode).trim_end_matches("Code").to_lowercase()
}

/// The name by which the first agent is configured.
fn first_agent() -> String {
    format!("{}-code", program())
}

/// A model of the first agent.
fn opus() -> String {
    format!("{}-opus-4-6", program())
}

fn assert_program_and_args(command: CommandLine, program: &str, args: &[&str]) {
    assert_eq!(command.program, program);
    let expected: Vec<String> = args.iter().map(|arg| (*arg).to_string()).collect();
    assert_eq!(command.args, expected);
}

fn strings(items: &[&str]) -> Vec<String> {
    items.iter().map(|s| s.to_string()).collect()
}

fn windows() -> Host {
    Host::Windows {
        node: "C:\\npm\\node.exe".to_string(),
        script: "C:\\npm\\node_modules\\@openai\\codex\\bin\\codex.js".to_string(),
    }
}

fn text(s: &str) -> Json {
    Json::Text(s.to_string())
}

fn key(key: &str, value: Json) -> (String, Json) {
    (key.to_string(), value)
}

#[test]
fn builds_structured_agent_id() {
    assert_eq!(agent_id("executor", "codex", 1), "executor:codex:1");
}

#[test]
fn builds_mcp_server_name() {
    assert_eq!(mcp_server_name("supervisor", 2), "ferrus-supervisor-2");
}

#[test]
fn task_sessions_are_named_after_their_task() {
    assert_eq!(task_session_name("executor", "codex", "task-0001"), "executor:codex:task-0001");
    assert_ne!(
        task_session_name("executor", "codex", "task-0001"),
        task_session_name("executor", "codex", "task-0002")
    );
}

#[test]
fn claude_supervisor_builds_interactive_command() {
    let agent = claude::Supervisor::new(&program(), None);
    assert_program_and_args(
        agent.spawn(AgentRunMode::Interactive { prompt: Some("plan") }, &Host::Unix),
        &program(),
        &["plan"],
    );
}

#[test]
fn claude_executor_builds_headless_command() {
    let agent = claude::Executor::new(&program(), None);
    assert_program_and_args(
        agent.spawn(AgentRunMode::Headless { prompt: "run" }, &Host::Unix),
        &program(),
        &["-p", "run"],
    );
}

#[test]
fn claude_model_override_is_part_of_spawned_command() {
    let agent = claude::Supervisor::new(&program(), Some(&opus()));
    assert_program_and_args(
        agent.spawn(AgentRunMode::Headless { prompt: "review" }, &Host::Unix),
        &program(),
        &["--model", &opus(), "-p", "review"],
    );
}

#[test]
fn claude_config_entry_uses_expected_args() {
    let entry = claude::Supervisor::new(&program(), Some(&opus())).mcp_config_entry(
        "supervisor",
        2,
        "/usr/bin/ferrus",
    );
    assert!(!entry.command.is_empty());
    assert_eq!(entry.command, "/usr/bin/ferrus");
    assert_eq!(
        entry.args,
        strings(&[
            "serve",
            "--role",
            "supervisor",
            "--agent-name",
            &first_agent(),
            "--agent-index",
            "2",
        ])
    );
    assert_eq!(entry.model, Some(opus()));
}

#[test]
fn claude_executor_config_entry_uses_expected_args() {
    let entry = claude::Executor::new(&program(), None).mcp_config_entry("executor", 4, "ferrus");
    assert!(!entry.command.is_empty());
    assert_eq!(
        entry.args,
        strings(&[
            "serve",
            "--role",
            "executor",
            "--agent-name",
            &first_agent(),
            "--agent-index",
            "4",
        ])
    );
    assert_eq!(entry.model, None);
}

#[test]
fn codex_supervisor_builds_interactive_command() {
    let agent = codex::Supervisor::new(None);
    assert_program_and_args(
        agent.spawn(AgentRunMode::Interactive { prompt: Some("plan") }, &Host::Unix),
        codex::EXECUTABLE,
        &["plan"],
    );
    assert_program_and_args(
        agent.spawn(AgentRunMode::Interactive { prompt: Some("plan") }, &windows()),
        "C:\\npm\\node.exe",
        &["C:\\npm\\node_modules\\@openai\\codex\\bin\\codex.js", "plan"],
    );
}

#[test]
fn codex_executor_builds_headless_command() {
    let agent = codex::Executor::new(None);
    assert_program_and_args(
        agent.spawn(AgentRunMode::Headless { prompt: "run" }, &Host::Unix),
        codex::EXECUTABLE,
        &["exec", "run"],
    );
    assert_program_and_args(
        agent.spawn(AgentRunMode::Headless { prompt: "run" }, &windows()),
        "C:\\npm\\node.exe",
        &["C:\\npm\\node_modules\\@openai\\codex\\bin\\codex.js", "exec", "-"],
    );
}

#[test]
fn codex_model_override_is_part_of_spawned_command() {
    let agent = codex::Executor::new(Some("gpt-5.4"));
    assert_program_and_args(
        agent.spawn(AgentRunMode::Headless { prompt: "run" }, &Host::Unix),
        codex::EXECUTABLE,
        &["exec", "--model", "gpt-5.4", "run"],
    );
    assert_program_and_args(
        agent.spawn(AgentRunMode::Headless { prompt: "run" }, &windows()),
        "C:\\npm\\node.exe",
        &[
            "C:\\npm\\node_modules\\@openai\\codex\\bin\\codex.js",
            "exec",
            "--model",
            "gpt-5.4",
            "-",
        ],
    );
}

#[test]
fn codex_supervisor_config_entry_uses_expected_args() {
    let entry = codex::Supervisor::new(Some("gpt-5.4")).mcp_config_entry("supervisor", 1, "ferrus");
    assert!(!entry.command.is_empty());
    assert_eq!(
        entry.args,
        strings(&[
            "serve",
            "--role",
            "supervisor",
            "--agent-name",
            "codex",
            "--agent-index",
            "1",
        ])
    );
    assert_eq!(entry.model.as_deref(), Some("gpt-5.4"));
}

#[test]
fn codex_config_entry_uses_expected_args() {
    let entry = codex::Executor::new(None).mcp_config_entry("executor", 3, "ferrus");
    assert!(!entry.command.is_empty());
    assert_eq!(
        entry.args,
        strings(&[
            "serve",
            "--role",
            "executor",
            "--agent-name",
            "codex",
            "--agent-index",
            "3",
        ])
    );
    assert_eq!(entry.model, None);
}

fn approved(role: &str) -> Vec<String> {
    let mut entry: Vec<(String, Json)> = Vec::new();
    codex::apply_tool_approval_overrides(role, &mut entry);
    assert_eq!(entry.len(), 1);
    assert_eq!(entry[0].0, "tools");
    match &entry[0].1 {
        Json::Object(tools) => tools.iter().map(|(name, _)| name.clone()).collect(),
        other => panic!("tools must be a table, got {other:?}"),
    }
}

#[test]
fn codex_approves_executor_tools_by_role() {
    let tools = approved("executor");
    assert!(tools.contains(&"wait_for_task".to_string()));
    assert!(tools.contains(&"submit".to_string()));
    assert!(!tools.contains(&"approve".to_string()));
}

#[test]
fn codex_approves_supervisor_tools_by_role() {
    let tools = approved("supervisor");
    assert!(tools.contains(&"create_task".to_string()));
    assert!(tools.contains(&"create_spec".to_string()));
    assert!(!tools.contains(&"submit".to_string()));
}

#[test]
fn codex_headless_prompt_preserves_newlines() {
    let agent = codex::Executor::new(None);
    assert_program_and_args(
        agent.spawn(AgentRunMode::Headless { prompt: "line one\n\nline two" }, &Host::Unix),
        codex::EXECUTABLE,
        &["exec", "line one\n\nline two"],
    );
    assert_program_and_args(
        agent.spawn(AgentRunMode::Headless { prompt: "line one\n\nline two" }, &windows()),
        "C:\\npm\\node.exe",
        &["C:\\npm\\node_modules\\@openai\\codex\\bin\\codex.js", "exec", "-"],
    );
}

#[test]
fn codex_uses_expected_headless_prompt_transport() {
    assert_eq!(codex::Executor::new(None).prompt_transport(&Host::Unix), PromptTransport::Argv);
    assert_eq!(codex::Supervisor::new(None).prompt_transport(&Host::Unix), PromptTransport::Argv);
    assert_eq!(codex::Executor::new(None).prompt_transport(&windows()), PromptTransport::Stdin);
    assert_eq!(codex::Supervisor::new(None).prompt_transport(&windows()), PromptTransport::Stdin);
}

#[test]
fn codex_version_command_uses_expected_shape() {
    let agent = codex::Supervisor::new(None);
    assert_program_and_args(agent.version_command(&Host::Unix), codex::EXECUTABLE, &["--version"]);
    assert_program_and_args(
        agent.version_command(&windows()),
        "C:\\npm\\node.exe",
        &["C:\\npm\\node_modules\\@openai\\codex\\bin\\codex.js", "--version"],
    );
}

#[test]
fn windows_codex_needs_its_script() {
    let found = codex::windows_codex_invocation("C:\\npm", true, true);
    match found {
        Ok(Host::Windows { node, script }) => {
            assert!(node.ends_with("node.exe"), "{node}");
            assert_eq!(script, codex::codex_script_path("C:\\npm"));
            assert!(script.ends_with("node_modules\\@openai\\codex\\bin\\codex.js"), "{script}");
        }
        other => panic!("expected a launcher, got {other:?}"),
    }
    assert!(codex::windows_codex_invocation("C:\\npm", false, true).is_err());
}

#[test]
fn windows_directories_are_joined_as_paths() {
    let directories: Vec<String> =
        ["", "C:\\npm", "C:\\npm\\", "C:/npm/", "C:"].iter().map(|d| d.to_string()).collect();
    assert_eq!(
        codex::npm_shim_candidates(&directories),
        vec![
            "codex.cmd",
            "codex.ps1",
            "C:\\npm\\codex.cmd",
            "C:\\npm\\codex.ps1",
            "C:\\npm\\codex.cmd",
            "C:\\npm\\codex.ps1",
            "C:/npm/codex.cmd",
            "C:/npm/codex.ps1",
            "C:codex.cmd",
            "C:codex.ps1",
        ]
    );
    assert_eq!(
        codex::codex_script_path(""),
        "node_modules\\@openai\\codex\\bin\\codex.js"
    );
    match codex::windows_codex_invocation("", true, true) {
        Ok(Host::Windows { node, .. }) => assert_eq!(node, "node.exe"),
        other => panic!("expected a launcher, got {other:?}"),
    }
}

#[test]
fn qwen_supervisor_builds_interactive_command() {
    let agent = qwen::Supervisor::new(None);
    assert_program_and_args(
        agent.spawn(AgentRunMode::Interactive { prompt: Some("plan") }, &Host::Unix),
        "qwen",
        &["-i", "plan"],
    );
}

#[test]
fn qwen_executor_builds_headless_command() {
    let agent = qwen::Executor::new(None);
    assert_program_and_args(
        agent.spawn(AgentRunMode::Headless { prompt: "run" }, &Host::Unix),
        "qwen",
        &["-p", "run"],
    );
}

#[test]
fn qwen_model_override_is_part_of_spawned_command() {
    let agent = qwen::Supervisor::new(Some("qwen3-coder-plus"));
    assert_program_and_args(
        agent.spawn(AgentRunMode::Headless { prompt: "review" }, &Host::Unix),
        "qwen",
        &["--model", "qwen3-coder-plus", "-p", "review"],
    );
}

#[test]
fn qwen_config_entry_uses_expected_args() {
    let entry =
        qwen::Supervisor::new(Some("qwen3-coder-plus")).mcp_config_entry("supervisor", 2, "ferrus");
    assert!(!entry.command.is_empty());
    assert_eq!(
        entry.args,
        strings(&[
            "serve",
            "--role",
            "supervisor",
            "--agent-name",
            "qwen-code",
            "--agent-index",
            "2",
        ])
    );
    assert_eq!(entry.model.as_deref(), Some("qwen3-coder-plus"));
}

#[test]
fn qwen_executor_config_entry_uses_expected_args() {
    let entry = qwen::Executor::new(None).mcp_config_entry("executor", 4, "ferrus");
    assert!(!entry.command.is_empty());
    assert_eq!(
        entry.args,
        strings(&[
            "serve",
            "--role",
            "executor",
            "--agent-name",
            "qwen-code",
            "--agent-index",
            "4",
        ])
    );
    assert_eq!(entry.model, None);
}

#[test]
fn unknown_supervisor_agent_is_actionable() {
    let err = match parse_supervisor_agent("unknown", None, &program()) {
        Ok(_) => panic!("expected unknown supervisor agent to fail"),
        Err(err) => err.message(),
    };
    assert!(err.contains("Unknown supervisor agent 'unknown'"));
    assert!(err.contains(&first_agent()));
    assert!(err.contains("codex"));
    assert!(err.contains("qwen-code"));
}

#[test]
fn unknown_executor_agent_is_actionable() {
    let err = match parse_executor_agent("unknown", None, &program()) {
        Ok(_) => panic!("expected unknown executor agent to fail"),
        Err(err) => err.message(),
    };
    assert!(err.contains("Unknown executor agent 'unknown'"));
    assert!(err.contains(&first_agent()));
    assert!(err.contains("codex"));
    assert!(err.contains("qwen-code"));
}

#[test]
fn known_agents_keep_their_names_and_models() {
    for name in [first_agent(), "codex".to_string(), "qwen-code".to_string()] {
        let supervisor = match parse_supervisor_agent(&name, Some(" opus "), &program()) {
            Ok(agent) => agent,
            Err(err) => panic!("{}", err.message()),
        };
        assert_eq!(supervisor.name(), name);
        let executor = match parse_executor_agent(&name, Some("  "), &program()) {
            Ok(agent) => agent,
            Err(err) => panic!("{}", err.message()),
        };
        assert_eq!(executor.name(), name);
        assert_eq!(executor.model(), None);
    }
}

#[test]
fn blank_model_is_normalized_to_none() {
    assert_eq!(normalized_model(None), None);
    assert_eq!(normalized_model(Some("")), None);
    assert_eq!(normalized_model(Some("  ")), None);
    assert_eq!(normalized_model(Some("gpt-5.4")), Some("gpt-5.4".to_string()));
}

#[test]
fn mcp_permission_uses_mcp_server_wildcard() {
    assert_eq!(
        mcp_server_tools_permission("ferrus-supervisor-1"),
        "mcp__ferrus-supervisor-1__*"
    );
}

fn settings(allow: Vec<Json>) -> Json {
    Json::Object(vec![key("permissions", Json::Object(vec![key("allow", Json::List(allow))]))])
}

#[test]
fn add_json_allow_permission_preserves_existing_entries() {
    let mut root = settings(vec![text("Bash(cargo test)")]);
    let added = add_json_allow_permission(&mut root, "mcp__ferrus-executor-1__*");
    assert_eq!(added, Ok(true));
    assert_eq!(
        root,
        settings(vec![text("Bash(cargo test)"), text("mcp__ferrus-executor-1__*")])
    );
}

#[test]
fn add_json_allow_permission_is_idempotent() {
    let mut root = settings(vec![text("mcp__ferrus-supervisor-1__*")]);
    let added = add_json_allow_permission(&mut root, "mcp__ferrus-supervisor-1__*");
    assert_eq!(added, Ok(false));
    assert_eq!(root, settings(vec![text("mcp__ferrus-supervisor-1__*")]));
}

#[test]
fn add_json_allow_permission_refuses_other_shapes() {
    let mut root = text("settings");
    assert_eq!(add_json_allow_permission(&mut root, "p"), Err(AllowError::RootNotObject));
    assert_eq!(root, text("settings"));
    assert_eq!(
        AllowError::RootNotObject.message("a.json"),
        "a.json root is not a JSON object"
    );

    let mut root = Json::Object(vec![key("permissions", text("all"))]);
    assert_eq!(add_json_allow_permission(&mut root, "p"), Err(AllowError::PermissionsNotObject));

    let mut root =
        Json::Object(vec![key("permissions", Json::Object(vec![key("allow", text("all"))]))]);
    assert_eq!(add_json_allow_permission(&mut root, "p"), Err(AllowError::AllowNotList));

    let mut root = settings(vec![Json::Unsigned(1)]);
    assert_eq!(add_json_allow_permission(&mut root, "p"), Err(AllowError::AllowNotStrings));
}

#[test]
fn allowed_tools_are_written_into_settings() {
    let allowed = match allow_mcp_server_tools(None, "ferrus-executor-1") {
        Ok(allowed) => allowed,
        Err(err) => panic!("{}", err.message("settings.local.json")),
    };
    assert!(allowed.added);
    assert_eq!(allowed.permission, "mcp__ferrus-executor-1__*");
    let written = allowed.content;
    assert_eq!(
        written,
        "{\n  \"permissions\": {\n    \"allow\": [\n      \"mcp__ferrus-executor-1__*\"\n    ]\n  }\n}"
    );
    let again = match allow_mcp_server_tools(Some(&written), "ferrus-executor-1") {
        Ok(allowed) => allowed,
        Err(err) => panic!("{}", err.message("settings.local.json")),
    };
    assert!(!again.added);
    assert_eq!(again.content, written);
    let refused = allow_mcp_server_tools(Some("{"), "ferrus-executor-1");
    assert_eq!(refused, Err(SettingsError::Unreadable));
    assert_eq!(SettingsError::Unreadable.message("a.json"), "Failed to parse a.json");
    let refused = allow_mcp_server_tools(Some("[]"), "ferrus-executor-1");
    assert_eq!(refused, Err(SettingsError::Allow(AllowError::RootNotObject)));
    assert_eq!(parse_json(&written), Some(settings(vec![text("mcp__ferrus-executor-1__*")])));
}
