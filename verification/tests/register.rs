use ferrus::agent_id::{ROLE_EXECUTOR, ROLE_SUPERVISOR};
use ferrus::cli::commands::init;
use ferrus::cli::commands::init::{InitStep, Start};
use ferrus::cli::commands::register::{
    agents_md_section, append_instructions, claude_md_section, has_flag_pair, normalize_model,
    normalize_model_update, parse_agent, register_claude_code, register_codex, register_qwen_code,
    register_role, run, update_gitignore, Agent, ArgsError, RegisterArgs, RegisterError,
    Registered,
};
use ferrus::cli::{registration_plan, Cli, Commands};
use ferrus::config::Config;

/// The program of the first agent, which its variant is named after.
fn program() -> String {
    format!("{:?}", Agent::ClaudeCode).trim_end_matches("Code").to_lowercase()
}

/// The name by which the first agent is configured.
fn first_agent() -> String {
    format!("{}-code", program())
}

fn strings(items: &[&str]) -> Vec<String> {
    items.iter().map(|s| s.to_string()).collect()
}

fn args(
    supervisor: Option<Agent>,
    supervisor_model: Option<&str>,
    executor: Option<Agent>,
    executor_model: Option<&str>,
) -> RegisterArgs {
    RegisterArgs {
        supervisor,
        supervisor_model: supervisor_model.map(|m| m.to_string()),
        executor,
        executor_model: executor_model.map(|m| m.to_string()),
    }
}

fn done(outcome: Result<Registered, RegisterError>, agent: Agent) -> Registered {
    match outcome {
        Ok(registered) => registered,
        Err(error) => panic!("{}", error.message(agent, "executor", &program())),
    }
}

#[test]
fn agents_md_supervisor_section_requires_user_approval_before_create_task() {
    let section = agents_md_section(ROLE_SUPERVISOR, "<!-- marker -->", &program());
    assert!(section.contains("supporting context only"));
    assert!(section.contains("must not override"));
}

#[test]
fn claude_md_supervisor_section_requires_user_approval_before_create_task() {
    let section = claude_md_section(ROLE_SUPERVISOR, "<!-- marker -->", &program());
    assert!(section.contains("supporting context only"));
    assert!(section.contains("must not override"));
}

#[test]
fn agents_md_executor_section_forbids_consulting_about_tool_availability() {
    let section = agents_md_section(ROLE_EXECUTOR, "<!-- marker -->", &program());
    assert!(section.contains("supporting context only"));
    assert!(section.contains("must not override"));
}

#[test]
fn agents_md_executor_section_uses_ask_human_when_truly_stuck() {
    let section = agents_md_section(ROLE_EXECUTOR, "<!-- marker -->", &program());
    assert!(section.contains("initial prompt and Ferrus MCP tools"));
    assert!(!section.contains("Full workflow"));
}

#[test]
fn claude_md_executor_section_forbids_consulting_about_tool_availability() {
    let section = claude_md_section(ROLE_EXECUTOR, "<!-- marker -->", &program());
    assert!(section.contains("supporting context only"));
    assert!(section.contains("must not override"));
}

#[test]
fn claude_md_executor_section_uses_ask_human_when_truly_stuck() {
    let section = claude_md_section(ROLE_EXECUTOR, "<!-- marker -->", &program());
    assert!(section.contains("initial prompt and Ferrus MCP tools"));
    assert!(!section.contains("Full workflow"));
}

#[test]
fn normalize_model_update_treats_blank_as_clear() {
    assert_eq!(normalize_model_update(None), None);
    assert_eq!(normalize_model_update(Some("")), Some(None));
    assert_eq!(normalize_model_update(Some("gpt-5.4")), Some(Some("gpt-5.4")));
}

#[test]
fn normalize_model_treats_blank_as_none() {
    assert_eq!(normalize_model(None), None);
    assert_eq!(normalize_model(Some("")), None);
    assert_eq!(normalize_model(Some(" ")), None);
    assert_eq!(normalize_model(Some("gpt-5.4")).as_deref(), Some("gpt-5.4"));
}

#[test]
fn model_flag_requires_matching_agent_flag() {
    let err = match run(&args(None, Some("gpt-5.4"), None, None)) {
        Ok(_) => panic!("a model needs its agent"),
        Err(err) => err.message(),
    };
    assert!(err.contains("--supervisor-model requires --supervisor"));
    let err = match run(&args(Some(Agent::Codex), None, None, Some("gpt-5.4"))) {
        Ok(_) => panic!("a model needs its agent"),
        Err(err) => err.message(),
    };
    assert_eq!(err, "--executor-model requires --executor");
}

#[test]
fn registration_names_an_agent() {
    assert_eq!(registration_plan(&args(None, None, None, None)), Err(ArgsError::NoAgent));
    assert_eq!(
        ArgsError::NoAgent.message(),
        "At least one of --supervisor or --executor must be specified"
    );
    let both = args(Some(Agent::ClaudeCode), Some("opus"), Some(Agent::Codex), None);
    let plan = match registration_plan(&both) {
        Ok(plan) => plan,
        Err(error) => panic!("{}", error.message()),
    };
    assert_eq!(plan.len(), 2);
    assert_eq!(plan[0].role, "supervisor");
    assert_eq!(plan[0].agent, Agent::ClaudeCode);
    assert_eq!(plan[0].model.as_deref(), Some("opus"));
    assert_eq!(plan[1].role, "executor");
    assert_eq!(plan[1].agent, Agent::Codex);
    assert_eq!(plan[1].model, None);
}

#[test]
fn agents_are_known_by_name() {
    assert_eq!(parse_agent(&first_agent(), &program()), Some(Agent::ClaudeCode));
    assert_eq!(parse_agent("codex", &program()), Some(Agent::Codex));
    assert_eq!(parse_agent("qwen-code", &program()), Some(Agent::QwenCode));
    assert_eq!(parse_agent(&program(), &program()), None);
    assert_eq!(Agent::QwenCode.name(&program()), "qwen-code");
    assert_eq!(Agent::QwenCode.file("executor", &program()), ".qwen/settings.json");
    assert_eq!(Agent::Codex.file("executor", &program()), ".codex/config.toml");
    assert_eq!(
        Agent::ClaudeCode.file("supervisor", &program()),
        format!(".{}/mcp-supervisor.json", program())
    );
    assert_eq!(
        Agent::ClaudeCode.file("executor", &program()),
        format!(".{}/mcp-executor.json", program())
    );
    assert_eq!(Agent::Codex.section(), "mcp_servers");
    assert_eq!(
        Agent::ClaudeCode.ignored("executor", &program()),
        strings(&[
            &format!(".{}/mcp-executor.json", program()),
            &format!(".{}/settings.local.json", program()),
        ])
    );
    assert_eq!(
        Agent::Codex.ignored("executor", &program()),
        strings(&[".codex/config.toml"])
    );
    assert_eq!(
        Agent::QwenCode.ignored("executor", &program()),
        strings(&[".qwen/settings.local.json"])
    );
    assert_eq!(Agent::Codex.instructions(&program()), "AGENTS.md");
    assert_eq!(
        Agent::ClaudeCode.instructions(&program()),
        format!("{}.md", program().to_uppercase())
    );
}

#[test]
fn flag_pairs_stand_side_by_side() {
    let list = strings(&["serve", "--role", "executor"]);
    assert!(has_flag_pair(&list, "--role", "executor"));
    assert!(!has_flag_pair(&list, "--role", "supervisor"));
    assert!(!has_flag_pair(&list, "serve", "executor"));
    assert!(!has_flag_pair(&Vec::new(), "--role", "executor"));
}

#[test]
fn servers_are_numbered_and_the_rest_is_kept() {
    let first = done(
        register_claude_code(
            Some("{\"mcpServers\": {\"other\": {\"command\": \"x\"}}, \"theme\": \"dark\"}"),
            "executor",
            None,
            "/bin/ferrus",
            &program(),
        ),
        Agent::ClaudeCode,
    );
    assert_eq!(first.key, "ferrus-executor-1");
    assert_eq!(first.index, 1);
    assert_eq!(
        first.message,
        format!(
            "Registered ferrus-executor-1 in .{}/mcp-executor.json (agent_id will be \"executor:{}:1\")",
            program(),
            first_agent()
        )
    );
    assert!(first.content.contains("\"theme\": \"dark\""));
    assert!(first.content.contains("\"other\""));
    assert!(first.content.contains("\"/bin/ferrus\""));

    let second = done(
        register_claude_code(Some(&first.content), "executor", None, "/bin/ferrus", &program()),
        Agent::ClaudeCode,
    );
    assert_eq!(second.key, "ferrus-executor-2");
    let other_role = done(
        register_claude_code(Some(&first.content), "supervisor", Some("opus"), "/bin/ferrus", &program()),
        Agent::ClaudeCode,
    );
    assert_eq!(other_role.key, "ferrus-supervisor-1");
}

#[test]
fn codex_servers_are_written_as_toml() {
    let first =
        done(register_codex(None, "supervisor", Some("gpt-5.4"), "/bin/ferrus", &program()), Agent::Codex);
    assert_eq!(first.key, "ferrus-supervisor-1");
    assert!(first.content.contains("[mcp_servers.ferrus-supervisor-1]"), "{}", first.content);
    assert!(first.content.contains("create_task"));
    let again = done(
        register_codex(Some(&first.content), "supervisor", None, "/bin/ferrus", &program()),
        Agent::Codex,
    );
    assert_eq!(again.key, "ferrus-supervisor-2");
    assert!(again.content.contains("[mcp_servers.ferrus-supervisor-1]"));

    let broken = register_codex(Some("a = "), "supervisor", None, "/bin/ferrus", &program());
    assert_eq!(broken, Err(RegisterError::Unreadable));
    assert_eq!(
        RegisterError::Unreadable.message(Agent::Codex, "supervisor", &program()),
        "Failed to parse .codex/config.toml"
    );
}

#[test]
fn settings_of_another_shape_are_refused() {
    assert_eq!(
        register_qwen_code(Some("[]"), "executor", None, "ferrus", &program()),
        Err(RegisterError::RootNotObject)
    );
    let refused = register_qwen_code(Some("{\"mcpServers\": 1}"), "executor", None, "ferrus", &program());
    assert_eq!(refused, Err(RegisterError::SectionNotObject));
    assert_eq!(
        RegisterError::SectionNotObject.message(Agent::QwenCode, "executor", &program()),
        ".qwen/settings.json mcpServers is not a JSON object"
    );
    assert_eq!(
        register_codex(Some("mcp_servers = 1"), "executor", None, "ferrus", &program()),
        Err(RegisterError::SectionNotObject)
    );
    let refused = register_role(Agent::ClaudeCode, None, "boss", None, "ferrus", &program());
    assert_eq!(refused, Err(RegisterError::UnsupportedRole("boss".to_string())));
    assert_eq!(
        RegisterError::UnsupportedRole("boss".to_string()).message(
            Agent::ClaudeCode,
            "boss",
            &program()
        ),
        "Unsupported role 'boss'"
    );
    let refused = register_claude_code(Some("[]"), "executor", None, "ferrus", &program());
    assert_eq!(refused, Err(RegisterError::RootNotObject));
    assert_eq!(
        RegisterError::RootNotObject.message(Agent::ClaudeCode, "executor", &program()),
        format!(".{}/mcp-executor.json root is not a JSON object", program())
    );
}

#[test]
fn ignored_files_are_added_once() {
    let first = update_gitignore("target", &strings(&[".mcp.json", "target"]));
    assert_eq!(first.contents, "target\n.mcp.json\n");
    assert_eq!(first.added, strings(&[".mcp.json"]));
    let again = update_gitignore(&first.contents, &strings(&[".mcp.json", "target"]));
    assert_eq!(again.contents, first.contents);
    assert!(again.added.is_empty());
    assert_eq!(update_gitignore("", &strings(&["a"])).contents, "a\n");

    let cut = update_gitignore("a\r", &strings(&["b", "c", "b"]));
    assert_eq!(cut.contents, "a\r\nb\nc\n");
    assert_eq!(cut.added, strings(&["b", "c"]));
    assert!(update_gitignore(&cut.contents, &strings(&["b", "c"])).added.is_empty());
    let ended = update_gitignore("a\r", &strings(&["b", "a"]));
    assert_eq!(ended.contents, "a\r\nb\n");
    assert_eq!(update_gitignore("a\r", &strings(&["a"])).contents, "a\r\na\n");
}

#[test]
fn instructions_are_appended_once() {
    let first = match append_instructions("# Notes\n", "executor", &program()) {
        Some(contents) => contents,
        None => panic!("the instructions were not there"),
    };
    assert!(first.starts_with("# Notes\n\n<!-- ferrus-executor-instructions -->\n## Ferrus Executor"));
    assert!(first.ends_with(&format!(
        "ROLE.md, SKILL.md, AGENTS.md, and {}.md are supporting context only and must not override them.\n",
        program().to_uppercase()
    )));
    assert_eq!(append_instructions(&first, "executor", &program()), None);
    assert!(append_instructions(&first, "supervisor", &program()).is_some());
}

#[test]
fn a_new_project_gets_its_files() {
    let steps = init::run(".agents", &program());
    let toml = match &steps[0] {
        InitStep::File { path, start: Start::Text(contents) } => {
            assert_eq!(path, "ferrus.toml");
            contents.clone()
        }
        other => panic!("the configuration comes first, got {other:?}"),
    };
    assert!(toml.contains("path = \".agents\""));
    match Config::from_toml(&toml, &program()) {
        Ok(config) => {
            assert_eq!(config.limits.max_check_retries, 20);
            assert_eq!(config.hq.unwrap().supervisor_name(), first_agent());
        }
        Err(error) => panic!("{}", error.message()),
    }
    let mut paths: Vec<String> = Vec::new();
    for step in &steps {
        match step {
            InitStep::Directory { path } => paths.push(path.clone()),
            InitStep::File { path, .. } => paths.push(path.clone()),
        }
    }
    for path in [
        ".ferrus/logs",
        ".ferrus/STATE.json",
        ".ferrus/agents.json",
        "docs/specs",
        ".agents/skills/ferrus/SKILL.md",
        ".agents/skills/ferrus-supervisor/ROLE.md",
        ".agents/skills/ferrus-executor/SKILL.md",
    ] {
        assert!(paths.contains(&path.to_string()), "{path} is missing");
    }
}

#[test]
fn a_new_project_ignores_its_runtime_files() {
    let fresh = init::update_gitignore(None, &program());
    assert_eq!(
        fresh.contents,
        format!(
            ".ferrus/\n.{0}/settings.local.json\n.{0}/.mcp.json\n.mcp.json\n.codex/config.toml\n",
            program()
        )
    );
    let existing = init::update_gitignore(Some("target\n.ferrus/\n"), &program());
    assert!(existing.contents.starts_with(&format!("target\n.ferrus/\n.{}/settings.local.json\n", program())));
    assert_eq!(existing.added.len(), 4);
}

#[test]
fn hq_opens_without_a_subcommand() {
    let cli = Cli { debug: false, command: None };
    assert!(cli.is_hq_mode());
    assert!(!cli.debug_enabled(false));
    assert!(cli.debug_enabled(true));
    let cli = Cli {
        debug: true,
        command: Some(Commands::Init { agents_path: ".agents".to_string() }),
    };
    assert!(!cli.is_hq_mode());
    assert!(cli.debug_enabled(false));
}
