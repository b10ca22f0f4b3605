use codex_native_team::provider::ClaudeInboundMessage;
use codex_native_team::journal::DeliveryJournalIds;
use codex_native_team::team::after_journal;
use codex_native_team::team::after_submit;
use codex_native_team::team::bounded_summary;
use codex_native_team::team::external_agent_path;
use codex_native_team::team::final_deliveries;
use codex_native_team::team::final_text;
use codex_native_team::team::idle_notification;
use codex_native_team::team::inbound_action;
use codex_native_team::team::is_shutdown_request;
use codex_native_team::team::poll_interval_ms;
use codex_native_team::team::roster_step;
use codex_native_team::team::shutdown_request;
use codex_native_team::team::FinalMessage;
use codex_native_team::team::InboundAction;
use codex_native_team::team::SubmitStep;

#[test]
fn external_agent_paths_are_stable_and_sanitized() {
    assert_eq!(external_agent_path("Team Lead"), "/root/external/team_lead");
    assert_eq!(external_agent_path("root"), "/root/external/agent_4813494d137e");
}

#[test]
fn agent_paths_collapse_and_trim_separators() {
    assert_eq!(external_agent_path("__Peer--Worker__"), "/root/external/peer_worker");
    assert_eq!(external_agent_path("a  b"), "/root/external/a_b");
    let fallback = external_agent_path("!!!");
    assert!(fallback.starts_with("/root/external/agent_"));
    assert_eq!(fallback.len(), "/root/external/agent_".len() + 12);
}

#[test]
fn parses_native_shutdown_request_aliases() {
    let camel = shutdown_request(
        r#"{"type":"shutdown_request","requestId":"shutdown-1@worker","from":"team-lead"}"#,
    )
    .expect("parse camel-case request")
    .expect("shutdown request");
    let snake = shutdown_request(r#"{"type":"shutdown_request","request_id":"shutdown-2@worker"}"#)
        .expect("parse snake-case request")
        .expect("shutdown request");
    assert_eq!(camel, "shutdown-1@worker");
    assert_eq!(snake, "shutdown-2@worker");
    assert!(shutdown_request("ordinary teammate message")
        .expect("ordinary message")
        .is_none());
}

#[test]
fn malformed_shutdown_requests_are_errors() {
    assert!(shutdown_request(r#"{"type":"shutdown_request"}"#).is_err());
    assert!(shutdown_request(r#"{"type":"shutdown_request","requestId":"a","request_id":"b"}"#).is_err());
    assert!(shutdown_request(r#"{"type":"shutdown_request","requestId":5}"#).is_err());
}

#[test]
fn identifies_control_shaped_content_before_authority_is_applied() {
    assert!(is_shutdown_request(r#"{"type":"shutdown_request","request_id":"shutdown-1"}"#));
    assert!(is_shutdown_request(r#"{"type":"shutdown_request"}"#));
    assert!(!is_shutdown_request("ordinary teammate message"));
}

#[test]
fn bounds_idle_summary_by_unicode_characters() {
    let text = "🦀".repeat(501);
    let summary = bounded_summary(&text);
    assert_eq!(summary.chars().count(), 501);
    assert!(summary.ends_with('…'));
}

#[test]
fn short_summaries_are_kept_whole() {
    assert_eq!(bounded_summary("done"), "done");
    let exact = "x".repeat(500);
    assert_eq!(bounded_summary(&exact), exact);
}

fn message(author: &str, content: &str, kind: &str) -> ClaudeInboundMessage {
    ClaudeInboundMessage {
        id: "m-1".to_string(),
        author: author.to_string(),
        content: content.to_string(),
        kind: kind.to_string(),
    }
}

#[test]
fn journaled_messages_are_skipped() {
    let m = message("team-lead", "hello", "message");
    assert_eq!(inbound_action(&m, true, &Ok(false)), InboundAction::Skip);
}

#[test]
fn new_tasks_are_marked_and_routed_from_the_author_path() {
    let m = message("Team Lead", "do the thing", "new_task");
    assert_eq!(
        inbound_action(&m, false, &Ok(false)),
        InboundAction::Deliver {
            author_path: "/root/external/team_lead".to_string(),
            content: "[NEW_TASK]\ndo the thing".to_string(),
        }
    );
}

#[test]
fn only_the_parent_shuts_the_teammate_down() {
    let request = r#"{"type":"shutdown_request","request_id":"shutdown-1"}"#;
    let m = message("peer-worker", request, "message");
    assert_eq!(
        inbound_action(&m, false, &Ok(true)),
        InboundAction::Shutdown {
            request_id: "shutdown-1".to_string(),
        }
    );
    assert_eq!(
        inbound_action(&m, false, &Ok(false)),
        InboundAction::Deliver {
            author_path: "/root/external/peer_worker".to_string(),
            content: request.to_string(),
        }
    );
    assert_eq!(
        inbound_action(&m, false, &Err("roster unreadable".to_string())),
        InboundAction::Halt {
            error: "roster unreadable".to_string(),
        }
    );
}

#[test]
fn removal_from_the_roster_after_joining_stops_the_worker() {
    assert_eq!(roster_step(false, &Ok(false)), (false, false));
    assert_eq!(roster_step(false, &Ok(true)), (true, false));
    assert_eq!(roster_step(true, &Ok(false)), (true, true));
    assert_eq!(roster_step(true, &Err("busy".to_string())), (true, false));
}

#[test]
fn final_answer_and_idle_state_are_delivered_once() {
    let final_message = FinalMessage {
        id: "turn-1".to_string(),
        text: "All done.".to_string(),
    };
    let mut journal = DeliveryJournalIds::new();
    let owed = final_deliveries(&journal, &final_message, "codex-worker", "2026-01-01T00:00:00.000Z");
    assert_eq!(owed.len(), 2);
    assert_eq!(owed[0].journal_id, "final:turn-1");
    assert_eq!(owed[0].content, "All done.");
    assert_eq!(owed[1].journal_id, "idle:turn-1");
    let idle: serde_json::Value = serde_json::from_str(&owed[1].content).expect("idle notification is JSON");
    assert_eq!(idle["type"], "idle_notification");
    assert_eq!(idle["from"], "codex-worker");
    assert_eq!(idle["idleReason"], "available");
    assert_eq!(idle["summary"], "All done.");
    journal.record("final:turn-1".to_string());
    let rest = final_deliveries(&journal, &final_message, "codex-worker", "2026-01-01T00:00:00.000Z");
    assert_eq!(rest.len(), 1);
    assert_eq!(rest[0].journal_id, "idle:turn-1");
    journal.record("idle:turn-1".to_string());
    assert!(final_deliveries(&journal, &final_message, "codex-worker", "t").is_empty());
}

#[test]
fn idle_notification_escapes_its_strings() {
    let text = idle_notification("codex \"w\"", "t", "line\nbreak");
    let idle: serde_json::Value = serde_json::from_str(&text).expect("valid JSON");
    assert_eq!(idle["from"], "codex \"w\"");
    assert_eq!(idle["summary"], "line\nbreak");
}

#[test]
fn commentary_and_blank_answers_are_not_final() {
    assert_eq!(final_text(true, &vec!["answer".to_string()]), None);
    assert_eq!(final_text(false, &vec![" ".to_string(), "\n".to_string()]), None);
    assert_eq!(
        final_text(false, &vec!["part one, ".to_string(), "part two".to_string()]),
        Some("part one, part two".to_string())
    );
}

#[test]
fn poll_interval_is_clamped() {
    assert_eq!(poll_interval_ms(None), 200);
    assert_eq!(poll_interval_ms(Some(10)), 50);
    assert_eq!(poll_interval_ms(Some(60_000)), 5_000);
    assert_eq!(poll_interval_ms(Some(100)), 100);
}

#[test]
fn a_message_is_journaled_only_after_it_was_handed_on() {
    assert_eq!(after_submit("msg-1", &Ok(())), SubmitStep::Journal { id: "msg-1".to_string() });
    assert_eq!(after_submit("msg-1", &Err("thread closed".to_string())), SubmitStep::Stop);
    assert!(after_journal(&Ok(())));
    assert!(!after_journal(&Err("disk full".to_string())));
}
