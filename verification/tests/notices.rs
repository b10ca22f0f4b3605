use codex_native_team::loops::LoopAutomation;
use codex_native_team::loops::LoopCommandAction;
use codex_native_team::notices::format_interval;
use codex_native_team::notices::format_loop_list;
use codex_native_team::notices::inbound_inter_agent_notice;
use codex_native_team::notices::loop_created_notice;
use codex_native_team::notices::loop_failure_notice;
use codex_native_team::notices::loop_stopped_notice;
use codex_native_team::notices::ChatWidget;

#[test]
fn teammate_message_shows_sender_and_head() {
    let notice = inbound_inter_agent_notice("/root/external/team_lead", "PING_NATIVE").unwrap();
    assert!(notice.contains("message from team_lead"), "{notice}");
    assert!(notice.contains("PING_NATIVE"), "{notice}");
}

#[test]
fn automation_firings_are_labelled() {
    assert!(
        inbound_inter_agent_notice("/root/automation", "[CRON:MANUAL x (id)]\nre-mine")
            .unwrap()
            .starts_with("⏰ cron fired")
    );
    assert!(
        inbound_inter_agent_notice("/root/automation", "[LOOP:x id]\ntick")
            .unwrap()
            .starts_with("🔁 loop fired")
    );
    assert!(
        inbound_inter_agent_notice("/root/automation", "[MONITOR:x id]\nHIT")
            .unwrap()
            .starts_with("👁 monitor")
    );
}

#[test]
fn new_task_shows_sender() {
    let notice =
        inbound_inter_agent_notice("/root/external/team_lead", "[NEW_TASK]\ndo the thing").unwrap();
    assert!(notice.contains("new task from team_lead"), "{notice}");
}

#[test]
fn own_and_local_output_is_not_surfaced() {
    assert!(inbound_inter_agent_notice("/root", "hello from me").is_none());
    assert!(inbound_inter_agent_notice("/root/child_agent", "child output").is_none());
}

fn review_loop() -> LoopAutomation {
    LoopAutomation {
        id: "loop-1".to_string(),
        name: "review".to_string(),
        prompt: "Review the fixture.".to_string(),
        every_seconds: 900,
        enabled: true,
        created_at: 1,
        next_due_at: 2,
        last_run_at: None,
    }
}

#[test]
fn formats_loop_intervals_and_list() {
    let loops = vec![review_loop()];
    assert_eq!(format_interval(86_400), "1d");
    assert_eq!(format_interval(7_200), "2h");
    assert_eq!(format_interval(900), "15m");
    assert_eq!(format_interval(30), "30s");
    assert_eq!(
        format_loop_list(&loops),
        "Durable loops:\n- `review` (loop-1) every 15m; next Unix 2 — Review the fixture."
    );
}

#[test]
fn empty_loop_list_says_so() {
    assert_eq!(
        format_loop_list(&Vec::new()),
        "No durable loops are configured for this thread."
    );
}

#[test]
fn intervals_that_are_not_whole_units_stay_in_seconds() {
    assert_eq!(format_interval(90), "90s");
    assert_eq!(format_interval(0), "0d");
}

#[test]
fn loop_operation_notices_name_the_loop() {
    let l = review_loop();
    assert_eq!(
        loop_created_notice(&l),
        "Created durable loop `review` (loop-1) every 15m. Next run: Unix 2."
    );
    assert_eq!(loop_stopped_notice(&l), "Stopped durable loop `review` (loop-1).");
    assert_eq!(
        loop_failure_notice("thread not found"),
        "Native loop operation failed: thread not found"
    );
}

#[test]
fn loop_dispatch_needs_a_started_session() {
    let starting = ChatWidget { thread_id: None };
    assert_eq!(
        starting.dispatch_loop_command("list"),
        Err("Session is still starting; try /loop again in a moment.".to_string())
    );
    let ready = ChatWidget {
        thread_id: Some("thread-1".to_string()),
    };
    assert_eq!(
        ready.dispatch_loop_command("list"),
        Ok(("thread-1".to_string(), LoopCommandAction::List))
    );
    assert_eq!(
        ready.dispatch_loop_command("0s run"),
        Err("Loop interval must be greater than zero.".to_string())
    );
}

#[test]
fn only_external_teammates_and_the_automation_path_are_surfaced() {
    assert!(inbound_inter_agent_notice("/root/automation_helper", "[CRON:x id]\nrun").is_none());
    assert!(inbound_inter_agent_notice("/root/tools/automation", "tick").is_none());
    assert!(inbound_inter_agent_notice("/root/externalist", "hello").is_none());
    assert!(inbound_inter_agent_notice("/root/external", "hello").is_none());
    assert_eq!(
        inbound_inter_agent_notice("/root/automation", "plain text"),
        Some("⏰ automation — plain text".to_string())
    );
    assert_eq!(
        inbound_inter_agent_notice("/root/external/peer", "  hi there  \nsecond line"),
        Some("📨 message from peer: hi there  ".to_string())
    );
}
