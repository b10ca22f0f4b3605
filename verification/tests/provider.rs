use codex_native_team::provider::external_status;
use codex_native_team::provider::inbox_has_message;
use codex_native_team::provider::shutdown_acknowledgement;
use codex_native_team::provider::validate_component;
use codex_native_team::provider::ClaudeCodeProvider;
use codex_native_team::provider::ClaudeMember;
use codex_native_team::provider::ClaudeMessage;
use codex_native_team::provider::ClaudeProviderConfig;
use codex_native_team::provider::ClaudeTeamConfig;
use codex_native_team::provider::FileRead;
use codex_native_team::provider::MAX_MODEL_MESSAGE_TOKENS;
use codex_native_team::extension_api::ExternalAgentStatus;
use codex_native_team::json::JsonField;

fn config(parent: Option<&str>) -> ClaudeProviderConfig {
    ClaudeProviderConfig {
        claude_home: "/tmp/team-home".to_string(),
        team_name: "native-test".to_string(),
        agent_name: "codex-worker".to_string(),
        agent_id: "codex-worker@native-test".to_string(),
        agent_role: Some("auditor".to_string()),
        parent_name: parent.map(str::to_string),
    }
}

fn member(name: &str, agent_type: Option<&str>, prompt: &str) -> ClaudeMember {
    ClaudeMember {
        agent_id: Some(format!("{name}@native-test")),
        name: name.to_string(),
        agent_type: agent_type.map(str::to_string),
        status: None,
        prompt: prompt.to_string(),
    }
}

fn team() -> ClaudeTeamConfig {
    ClaudeTeamConfig {
        lead_agent_id: "team-lead@native-test".to_string(),
        members: vec![
            member("team-lead", Some("lead"), ""),
            member("codex-worker", Some("auditor"), "Review the supplied fixture only."),
            member("peer-worker", None, ""),
        ],
    }
}

fn message(from: &str, text: &str, msg_id: &str) -> ClaudeMessage {
    ClaudeMessage {
        from: from.to_string(),
        text: text.to_string(),
        msg_id: msg_id.to_string(),
        kind: "message".to_string(),
        encoded: Vec::new(),
    }
}

#[test]
fn rejects_path_components_in_team_identity() {
    let mut c = config(None);
    c.team_name = "../escape".to_string();
    let error = ClaudeCodeProvider::new(c, None).expect_err("path traversal must be rejected");
    assert_eq!(error, "invalid team name `../escape`");
}

#[test]
fn components_are_single_path_segments() {
    assert!(validate_component("agent name", "codex-worker").is_ok());
    for bad in ["", ".", "..", "a/b", "a\\b", "a\0b"] {
        assert!(validate_component("agent name", bad).is_err(), "{bad:?}");
    }
}

#[test]
fn parent_comes_from_the_configured_name_else_the_team_lead() {
    let configured = ClaudeCodeProvider::new(config(Some("boss")), Some("lead@t".to_string())).unwrap();
    assert_eq!(configured.parent().name, "boss");
    let from_lead = ClaudeCodeProvider::new(config(None), Some("team-lead@native-test".to_string())).unwrap();
    assert_eq!(from_lead.parent().name, "team-lead");
    assert_eq!(from_lead.parent().id, "team-lead@native-test");
    assert_eq!(from_lead.parent().role.as_deref(), Some("lead"));
    let nothing = ClaudeCodeProvider::new(config(None), None).unwrap();
    assert_eq!(nothing.parent().name, "team-lead");
}

#[test]
fn reads_roster_initial_assignment_and_inbox_contract() {
    let provider = ClaudeCodeProvider::new(config(None), Some("team-lead@native-test".to_string())).unwrap();
    let agents = provider.list_agents(&team());
    assert_eq!(agents.len(), 3);
    assert_eq!(agents[0].id, "team-lead@native-test");
    assert_eq!(agents[0].role.as_deref(), Some("lead"));
    assert_eq!(agents[1].name, "codex-worker");
    assert_eq!(agents[1].role.as_deref(), Some("auditor"));
    assert_eq!(agents[2].status, ExternalAgentStatus::Unknown);

    let inbox = vec![Some(message("team-lead", "Send a concise status update.", "message-1"))];
    let messages = provider
        .pending_messages(&FileRead::Loaded(team()), &FileRead::Loaded(inbox))
        .expect("read messages");
    assert_eq!(messages.len(), 2);
    assert_eq!(messages[0].author, "team-lead");
    assert_eq!(messages[0].content, "Review the supplied fixture only.");
    assert_eq!(messages[0].kind, "new_task");
    assert!(messages[0].id.starts_with("initial:"));
    assert_eq!(messages[1].id, "message-1");
    assert_eq!(messages[1].content, "Send a concise status update.");
    assert_eq!(messages[1].kind, "message");
}

#[test]
fn skips_only_the_first_inbox_copy_of_the_roster_assignment() {
    let provider = ClaudeCodeProvider::new(config(None), Some("team-lead@native-test".to_string())).unwrap();
    let inbox = vec![
        Some(message("team-lead", "Review the supplied fixture only.", "initial-inbox-copy")),
        Some(message("team-lead", "Review the supplied fixture only.", "intentional-repeat")),
        Some(message("team-lead", "Then report completion.", "followup")),
    ];
    let messages = provider
        .pending_messages(&FileRead::Loaded(team()), &FileRead::Loaded(inbox))
        .expect("read messages");
    let ids: Vec<&str> = messages.iter().map(|m| m.id.as_str()).collect();
    let digest = codex_native_team::digest::text_sha256_hex("Review the supplied fixture only.");
    assert_eq!(
        ids,
        vec![format!("initial:{digest}").as_str(), "intentional-repeat", "followup"]
    );
}

#[test]
fn accepts_legacy_inbox_fields_without_losing_native_messages() {
    let provider = ClaudeCodeProvider::new(config(None), None).unwrap();
    let legacy_value: serde_json::Value = serde_json::from_str(
        r#"{"from":"team-lead","content":"Legacy envelope","timestamp":1786450000000}"#,
    )
    .unwrap();
    let mut legacy = message("team-lead", "Legacy envelope", "");
    legacy.encoded = serde_json::to_vec(&legacy_value).unwrap();
    let inbox = vec![Some(legacy), None, Some(message("team-lead", "Native envelope", "native-1"))];
    let messages = provider
        .pending_messages(&FileRead::Loaded(team()), &FileRead::Loaded(inbox))
        .expect("read mixed inbox");
    let expected_legacy = format!(
        "legacy:{}",
        codex_native_team::digest::sha256_hex(&serde_json::to_vec(&legacy_value).unwrap())
    );
    assert_eq!(messages.len(), 3);
    assert_eq!(messages[1].id, expected_legacy);
    assert_eq!(messages[1].content, "Legacy envelope");
    assert_eq!(messages[2].id, "native-1");
}

#[test]
fn missing_team_config_is_an_absent_roster_not_a_parse_failure() {
    let provider = ClaudeCodeProvider::new(config(None), None).unwrap();
    assert_eq!(provider.is_on_roster(&FileRead::Missing("missing file: config.json".to_string())), Ok(false));
    assert_eq!(provider.is_on_roster(&FileRead::Loaded(team())), Ok(true));
    assert_eq!(
        provider.is_on_roster(&FileRead::Failed("failed to parse config.json".to_string())),
        Err("failed to parse config.json".to_string())
    );
}

#[test]
fn missing_inbox_is_empty_and_a_missing_team_is_an_error() {
    let provider = ClaudeCodeProvider::new(config(None), None).unwrap();
    let messages = provider
        .pending_messages(&FileRead::Loaded(team()), &FileRead::Missing("missing file: inbox".to_string()))
        .unwrap();
    assert_eq!(messages.len(), 1);
    assert_eq!(
        provider.pending_messages(&FileRead::Missing("missing file: config.json".to_string()), &FileRead::Loaded(Vec::new())),
        Err("missing file: config.json".to_string())
    );
}

#[test]
fn drops_inbox_messages_that_exceed_the_model_context_bound() {
    let provider = ClaudeCodeProvider::new(config(None), None).unwrap();
    let inbox = vec![Some(message(
        "team-lead",
        &"x".repeat((MAX_MODEL_MESSAGE_TOKENS + 1) * 4),
        "oversized",
    ))];
    let messages = provider
        .pending_messages(&FileRead::Loaded(team()), &FileRead::Loaded(inbox))
        .expect("read bounded inbox");
    assert_eq!(messages.len(), 1);
    assert_eq!(messages[0].kind, "new_task");
}

#[test]
fn drops_oversized_inbox_entries_and_keeps_the_rest() {
    let provider = ClaudeCodeProvider::new(config(None), None).unwrap();
    let mut roster = team();
    roster.members[1].prompt = String::new();
    let inbox = vec![
        Some(message("team-lead", &"x".repeat(128 * 1024 + 1), "oversized")),
        Some(message("team-lead", &"x".repeat(40_000), "over-tokens")),
        Some(message("team-lead", "small", "ok")),
    ];
    let messages = provider
        .pending_messages(&FileRead::Loaded(roster), &FileRead::Loaded(inbox))
        .expect("read bounded inbox");
    assert_eq!(messages.len(), 1);
    assert_eq!(messages[0].id, "ok");
}

#[test]
fn an_oversized_initial_assignment_is_an_error() {
    let provider = ClaudeCodeProvider::new(config(None), None).unwrap();
    let mut roster = team();
    roster.members[1].prompt = "y".repeat(40_000);
    let error = provider
        .pending_messages(&FileRead::Loaded(roster), &FileRead::Loaded(Vec::new()))
        .expect_err("oversized assignment");
    assert_eq!(
        error,
        "teammate message is approximately 10000 tokens; the model-visible limit is 8000"
    );
}

#[test]
fn resolves_agents_by_name_or_id_with_an_optional_prefix() {
    let provider = ClaudeCodeProvider::new(config(None), None).unwrap();
    let t = team();
    assert_eq!(provider.resolve_agent(&t, "peer-worker").unwrap().name, "peer-worker");
    assert_eq!(provider.resolve_agent(&t, "external:peer-worker").unwrap().name, "peer-worker");
    assert_eq!(provider.resolve_agent(&t, "peer-worker@native-test").unwrap().name, "peer-worker");
    assert!(provider.resolve_agent(&t, "nobody").is_none());
}

#[test]
fn routes_peer_member_messages_in_both_directions() {
    let provider = ClaudeCodeProvider::new(config(None), None).unwrap();
    let roster = FileRead::Loaded(team());
    let peer = provider.resolve_agent(&team(), "peer-worker").expect("peer should be on the roster");
    assert_eq!(peer.id, "peer-worker@native-test");
    assert_eq!(provider.send_message(&roster, &peer, "CODEX_PEER_PING"), Ok("peer-worker".to_string()));
    let envelope = provider.outbound_envelope("CODEX_PEER_PING", "2026-08-12T09:00:00.000Z".to_string(), "id-1".to_string());
    assert_eq!(envelope.from, "codex-worker");
    assert_eq!(envelope.kind, "message");
    assert_eq!(envelope.msg_version, 1);
    assert!(!envelope.read);
    let error = provider
        .shutdown_requester(&roster, "peer-worker")
        .expect_err("peer shutdown must be rejected");
    assert_eq!(error, "external agent `peer-worker` is not authorized to shut down `codex-worker`");
}

#[test]
fn only_configured_parent_can_acknowledge_shutdown() {
    let provider = ClaudeCodeProvider::new(config(Some("team-lead")), None).unwrap();
    let roster = FileRead::Loaded(team());
    assert!(provider.shutdown_requester(&roster, "team-lead").is_ok());
    assert_eq!(provider.is_parent(&roster, "team-lead"), Ok(true));
    assert_eq!(provider.is_parent(&roster, "codex-worker"), Ok(false));
    let error = provider
        .shutdown_requester(&roster, "codex-worker")
        .expect_err("non-parent shutdown must be rejected");
    assert_eq!(error, "external agent `codex-worker` is not authorized to shut down `codex-worker`");
    assert_eq!(
        provider.shutdown_requester(&roster, "stranger"),
        Err("shutdown requester `stranger` is not on the external team".to_string())
    );
}

#[test]
fn writes_native_shutdown_acknowledgement() {
    let payload: serde_json::Value =
        serde_json::from_str(&shutdown_acknowledgement("shutdown-1@codex-worker")).expect("parse control payload");
    assert_eq!(payload["type"], "shutdown_response");
    assert_eq!(payload["request_id"], "shutdown-1@codex-worker");
    assert_eq!(payload["approve"], true);
    assert_eq!(payload["reason"], "Codex teammate acknowledged the native shutdown request.");
}

#[test]
fn outbound_messages_are_checked() {
    let provider = ClaudeCodeProvider::new(config(None), None).unwrap();
    let roster = FileRead::Loaded(team());
    let peer = provider.resolve_agent(&team(), "peer-worker").unwrap();
    assert_eq!(
        provider.send_message(&roster, &peer, "   "),
        Err("external teammate messages must not be empty".to_string())
    );
    assert_eq!(
        provider.send_message(&roster, &peer, &"z".repeat(128 * 1024 + 1)),
        Err("external teammate message exceeds 131072 bytes".to_string())
    );
    let mut gone = peer.clone();
    gone.name = "renamed".to_string();
    assert_eq!(
        provider.send_message(&roster, &gone, "hi"),
        Err("external agent `renamed` is no longer on team `native-test`".to_string())
    );
    assert_eq!(
        provider.interrupt(&peer),
        Err("the external team runtime does not expose a stable interrupt contract for `peer-worker`".to_string())
    );
}

#[test]
fn parent_must_be_on_the_roster_to_receive() {
    let provider = ClaudeCodeProvider::new(config(Some("absent-lead")), None).unwrap();
    assert_eq!(
        provider.parent_target(&FileRead::Loaded(team())).map(|a| a.name),
        Err("external parent `absent-lead` is not on team `native-test`".to_string())
    );
}

#[test]
fn status_words_map_ignoring_case() {
    assert_eq!(external_status("Working"), ExternalAgentStatus::Active);
    assert_eq!(external_status("IDLE"), ExternalAgentStatus::Idle);
    assert_eq!(external_status("shutdown"), ExternalAgentStatus::Stopped);
    assert_eq!(external_status("asleep"), ExternalAgentStatus::Unknown);
}

#[test]
fn inbox_ids_come_from_msg_id_then_id() {
    let entries = vec![
        (JsonField::Absent, JsonField::Text("legacy-1".to_string())),
        (JsonField::Text("native-1".to_string()), JsonField::Absent),
        (JsonField::Other, JsonField::Text("hidden".to_string())),
    ];
    assert!(inbox_has_message(&entries, "legacy-1"));
    assert!(inbox_has_message(&entries, "native-1"));
    assert!(!inbox_has_message(&entries, "hidden"));
}
