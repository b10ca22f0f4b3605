use std::collections::BTreeMap;

use codex_native_team::host::claude_home;
use codex_native_team::host::configure_external_teammate;
use codex_native_team::host::toml_string_override;
use codex_native_team::host::App;
use codex_native_team::host::ExternalTeamConfigToml;
use codex_native_team::host::TeammateCommand;
use codex_native_team::host::ThreadNotification;

fn team_config() -> ExternalTeamConfigToml {
    ExternalTeamConfigToml {
        provider: "claude_code".to_string(),
        team_name: "fixture".to_string(),
        agent_name: "codex-worker".to_string(),
        agent_id: Some("codex-worker@fixture".to_string()),
        agent_role: Some("worker".to_string()),
        parent_name: Some("team-lead".to_string()),
        claude_home: "/tmp/codex-home".to_string(),
        poll_interval_ms: Some(100),
    }
}

fn spawn_arguments() -> TeammateCommand {
    TeammateCommand {
        team_name: "mock-team".to_string(),
        agent_name: "codex-worker".to_string(),
        agent_id: Some("codex-worker@mock-team".to_string()),
        agent_type: Some("auditor".to_string()),
        agent: None,
        agent_color: Some("blue".to_string()),
        parent_session_id: Some("parent-session".to_string()),
        model: Some("gpt-5.6-sol".to_string()),
        effort: Some("high".to_string()),
        claude_home: Some("/tmp/mock-team-home".to_string()),
        poll_interval_ms: 200,
        dangerously_skip_permissions: true,
        remote_control: Some("mock-team-codex-worker".to_string()),
    }
}

fn parse_overrides(overrides: &[String]) -> BTreeMap<String, toml::Value> {
    overrides
        .iter()
        .map(|o| {
            let (key, value) = o.split_once('=').expect("key=value");
            (key.to_string(), value.parse::<toml::Value>().expect("parse generated overrides"))
        })
        .collect()
}

#[test]
fn teammate_spawn_contract_configures_native_external_runtime() {
    let teammate = spawn_arguments();
    let home = claude_home(teammate.claude_home.clone(), None).expect("home given");
    let launch = configure_external_teammate(&teammate, &home, true).expect("configure native teammate");
    let overrides = parse_overrides(&launch.overrides);
    assert_eq!(launch.model.as_deref(), Some("gpt-5.6-sol"));
    assert!(launch.bypass_approvals_and_sandbox);
    assert_eq!(
        overrides.get("external_team.provider"),
        Some(&toml::Value::String("claude_code".to_string()))
    );
    assert_eq!(
        overrides.get("external_team.team_name"),
        Some(&toml::Value::String("mock-team".to_string()))
    );
    assert_eq!(
        overrides.get("external_team.agent_name"),
        Some(&toml::Value::String("codex-worker".to_string()))
    );
    assert_eq!(
        overrides.get("external_team.agent_role"),
        Some(&toml::Value::String("auditor".to_string()))
    );
    assert_eq!(
        overrides.get("model_reasoning_effort"),
        Some(&toml::Value::String("high".to_string()))
    );
    assert_eq!(
        overrides.get("features.multi_agent_v2.enabled"),
        Some(&toml::Value::Boolean(true))
    );
    assert_eq!(
        overrides.get("features.multi_agent_v2.tool_namespace"),
        Some(&toml::Value::String("external_team".to_string()))
    );
    assert_eq!(
        overrides.get("external_team.poll_interval_ms"),
        Some(&toml::Value::Integer(200))
    );
}

#[test]
fn claude_home_must_be_absolute() {
    assert_eq!(
        configure_external_teammate(&spawn_arguments(), "relative/home", true),
        Err("claude_home must be an absolute path; got relative/home".to_string())
    );
    assert_eq!(
        configure_external_teammate(&spawn_arguments(), "/tmp/team-home", false),
        Err("claude_home is not valid UTF-8".to_string())
    );
}

#[test]
fn runtime_home_falls_back_to_the_environment() {
    assert_eq!(claude_home(Some("/given".to_string()), Some("/cfg".to_string())), Some("/given".to_string()));
    assert_eq!(claude_home(None, Some("/cfg".to_string())), Some("/cfg".to_string()));
    assert_eq!(claude_home(None, None), None);
}

#[test]
fn toml_overrides_quote_their_values() {
    assert_eq!(toml_string_override("k", "v"), "k=\"v\"");
    let quoted = toml_string_override("k", "a \"b\"");
    let value: toml::Value = quoted.split_once('=').unwrap().1.parse().unwrap();
    assert_eq!(value, toml::Value::String("a \"b\"".to_string()));
}

#[test]
fn config_validation_names_the_problem() {
    assert!(team_config().validate().is_ok());
    let mut other = team_config();
    other.provider = "other".to_string();
    assert_eq!(
        other.validate(),
        Err("unsupported external_team.provider `other`; expected `claude_code`".to_string())
    );
    let mut blank = team_config();
    blank.agent_name = " ".to_string();
    assert_eq!(
        blank.validate(),
        Err("external_team.team_name and external_team.agent_name must not be empty".to_string())
    );
}

fn closed(thread_id: &str) -> ThreadNotification {
    ThreadNotification::ThreadClosed {
        thread_id: thread_id.to_string(),
    }
}

#[test]
fn external_team_primary_shutdown_requests_process_exit_only_for_its_active_thread() {
    let primary = "0198a1b2-0000-7000-8000-000000000001";
    let side = "0198a1b2-0000-7000-8000-000000000002";
    let mut app = App {
        external_team: Some(team_config()),
        active_thread_id: Some(primary.to_string()),
        primary_thread_id: Some(primary.to_string()),
    };
    assert_eq!(app.external_team_shutdown_exit_thread(&closed(primary)), Some(primary.to_string()));
    assert_eq!(
        app.external_team_shutdown_exit_thread(&ThreadNotification::ThreadStatusChanged {
            thread_id: primary.to_string(),
            not_loaded: true,
        }),
        Some(primary.to_string())
    );
    assert_eq!(app.external_team_shutdown_exit_thread(&closed(side)), None);
    app.active_thread_id = Some(side.to_string());
    assert_eq!(app.external_team_shutdown_exit_thread(&closed(side)), None);
    assert!(!app.external_team_shutdown_completed(Some(&closed(primary))));
    assert!(!app.external_team_shutdown_completed(None));
    assert!(app.finish_external_team_shutdown(true));
    assert!(!app.finish_external_team_shutdown(false));
}

#[test]
fn teammate_label_names_agent_and_team() {
    let app = App {
        external_team: Some(team_config()),
        active_thread_id: None,
        primary_thread_id: None,
    };
    assert_eq!(app.external_team_agent_label(), Some("teammate codex-worker @ fixture".to_string()));
    let plain = App {
        external_team: None,
        active_thread_id: None,
        primary_thread_id: None,
    };
    assert_eq!(plain.external_team_agent_label(), None);
}

#[test]
fn both_spellings_of_the_provider_are_accepted() {
    let mut camel = team_config();
    camel.provider = "claudeCode".to_string();
    assert_eq!(camel.validate(), Ok(()));
    let mut snake = team_config();
    snake.provider = "claude_code".to_string();
    assert_eq!(snake.validate(), Ok(()));
    let mut other = team_config();
    other.provider = "ClaudeCode".to_string();
    assert!(other.validate().is_err());
}
