use aura::bench::spec::task_file_path;
use aura::cli::{check_workspace, choose_model, CliArgs, CliPolicyLevel, ModelChoice};
use aura::config::Config;
use aura::error::AgentError;
use aura::tools::{tool_kind, ToolKind};

fn args() -> CliArgs {
    CliArgs {
        instruction: Some("do it".into()),
        workspace: None,
        max_turns: 12,
        policy: CliPolicyLevel::Balanced,
        tools: vec![],
        yes: false,
        json: false,
        resume: None,
        fake_model: false,
        endpoint: None,
        model: None,
        api_key: None,
        command: None,
    }
}

#[test]
fn workspace_must_exist_and_be_absolute() {
    assert_eq!(check_workspace("/ws", true), Ok("/ws".to_string()));
    assert_eq!(
        check_workspace("/missing", false).unwrap_err(),
        AgentError::InvalidRequest("workspace does not exist: /missing".into())
    );
    assert_eq!(
        check_workspace("rel/ws", true).unwrap_err(),
        AgentError::InvalidRequest("workspace must be absolute: rel/ws".into())
    );
}

#[test]
fn fake_model_when_asked_or_when_something_is_missing() {
    let mut a = args();
    a.fake_model = true;
    a.endpoint = Some("https://e".into());
    a.model = Some("m".into());
    a.api_key = Some("k".into());
    assert!(matches!(choose_model(&a, &Config::default(), None), ModelChoice::Fake));
    let a = args();
    let cfg = Config { endpoint: Some("https://e".into()), model: Some("m".into()), api_key: None };
    assert!(matches!(choose_model(&a, &cfg, None), ModelChoice::Fake));
}

#[test]
fn http_model_takes_cli_then_config_then_env() {
    let mut a = args();
    a.model = Some("cli-model".into());
    let cfg = Config { endpoint: Some("https://api.example.com".into()), model: Some("cfg-model".into()), api_key: None };
    match choose_model(&a, &cfg, Some("env-key".into())) {
        ModelChoice::Http(c) => {
            assert_eq!(c.endpoint, "https://api.example.com");
            assert_eq!(c.model, "cli-model");
            assert_eq!(c.api_key, "env-key");
            assert_eq!(c.path, "/v1/chat/completions");
        }
        ModelChoice::Fake => panic!("expected the HTTP model"),
    }
}

#[test]
fn tools_by_name() {
    assert_eq!(tool_kind("read_file"), Ok(ToolKind::ReadFile));
    assert_eq!(tool_kind("scratchpad"), Ok(ToolKind::Scratchpad));
    assert_eq!(
        tool_kind("rm_everything").unwrap_err(),
        AgentError::Context("unknown tool: `rm_everything`".into())
    );
}

#[test]
fn bench_init_path() {
    assert_eq!(task_file_path("hello"), Ok("bench/tasks/hello.yaml".to_string()));
    assert_eq!(task_file_path("").unwrap_err(), AgentError::InvalidRequest("task name cannot be empty".into()));
}
