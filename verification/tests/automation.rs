use codex_native_team::automation::acknowledge_delivery;
use codex_native_team::automation::claim_due;
use codex_native_team::automation::find_job;
use codex_native_team::automation::initial_state;
use codex_native_team::automation::insert_job;
use codex_native_team::automation::insert_monitor;
use codex_native_team::automation::new_job;
use codex_native_team::automation::new_monitor;
use codex_native_team::automation::state_version;
use codex_native_team::automation::stop_monitor;
use codex_native_team::automation::update_job;
use codex_native_team::automation::validate_schedule;
use codex_native_team::automation::AutomationKind;
use codex_native_team::automation::AutomationState;
use codex_native_team::automation::DeliveryAcknowledgement;
use codex_native_team::automation::DeliveryLeaseRequest;
use codex_native_team::automation::JobPatch;
use codex_native_team::automation::ScheduleSpec;
use codex_native_team::automation::MAX_AUTOMATION_PROMPT_TOKENS;
use codex_native_team::automation_runtime::automation_output_error;
use codex_native_team::automation_runtime::automation_scope;
use codex_native_team::automation_runtime::command_monitor_event;
use codex_native_team::automation_runtime::command_monitor_summary;
use codex_native_team::automation_runtime::interval_seconds;
use codex_native_team::automation_runtime::job_delivery;
use codex_native_team::automation_runtime::mark_in_flight;
use codex_native_team::automation_runtime::monitor_step;
use codex_native_team::automation_runtime::plan_automation_call;
use codex_native_team::automation_runtime::sanitized_component;
use codex_native_team::automation_runtime::AutomationArgs;
use codex_native_team::automation_runtime::after_delivery;
use codex_native_team::automation_runtime::stop_monitor_and_watcher;
use codex_native_team::automation_runtime::LaunchedMonitor;
use codex_native_team::automation_runtime::MonitorRegistry;
use codex_native_team::automation_runtime::StoppedMonitor;
use codex_native_team::automation_runtime::AutomationCall;
use codex_native_team::automation_runtime::AutomationToolKind;
use codex_native_team::automation_runtime::BackgroundTerminalPoll;
use codex_native_team::loops::delete_job_kind;

const NOW: i64 = 1_786_450_000_000;

fn lease(owner: &str, claimed_at: i64, excluded: &[&str]) -> DeliveryLeaseRequest {
    DeliveryLeaseRequest {
        owner: owner.to_string(),
        claimed_at,
        duration_millis: 30_000,
        excluded_job_ids: excluded.iter().map(|s| s.to_string()).collect(),
    }
}

fn state_with_loop(name: &str, prompt: &str, every_seconds: u64) -> (AutomationState, String, i64) {
    let mut state = initial_state();
    let job = new_job(
        "job-1".to_string(),
        Some(name.to_string()),
        prompt.to_string(),
        AutomationKind::Loop,
        ScheduleSpec::Interval { every_seconds },
        NOW,
    )
    .expect("create loop");
    let due = job.next_due_at;
    insert_job(&mut state, job).expect("insert loop");
    (state, "job-1".to_string(), due)
}

#[test]
fn claude_named_tools_match_claude_code_names() {
    assert_eq!(AutomationToolKind::CronCreateClaude.name(), "CronCreate");
    assert_eq!(AutomationToolKind::CronListClaude.name(), "CronList");
    assert_eq!(AutomationToolKind::CronDeleteClaude.name(), "CronDelete");
    assert_eq!(AutomationToolKind::MonitorClaude.name(), "Monitor");
}

#[test]
fn external_identity_scope_is_path_safe_and_stable() {
    assert_eq!(sanitized_component("Mock Team/One"), "mock_team_one");
    assert_eq!(sanitized_component("codex-worker"), "codex-worker");
}

#[test]
fn automation_scope_follows_the_team_identity() {
    assert_eq!(
        automation_scope(Some(("Mock Team", "codex-worker")), "t-1"),
        "external--mock_team--codex-worker"
    );
    assert_eq!(automation_scope(None, "t-1"), "thread--t-1");
}

#[test]
fn interval_jobs_retry_until_acknowledged_then_advance_durably() {
    let (mut state, id, due) = state_with_loop("reconcile", "Check the mock fixture.", 60);
    assert_eq!(due, NOW + 60_000);
    assert!(claim_due(&mut state, &lease("scheduler-a", due - 1, &[])).expect("claim before due").is_empty());
    let claimed = claim_due(&mut state, &lease("scheduler-a", due, &[])).expect("claim at due");
    assert_eq!(claimed.iter().map(|j| j.id.clone()).collect::<Vec<_>>(), vec![id.clone()]);
    assert_eq!(
        claim_due(&mut state, &lease("scheduler-a", due, &[])).expect("retry unacknowledged claim"),
        claimed
    );
    let pending_fire_at = claimed[0].pending_fire_at.expect("claim should have a durable fire id");
    acknowledge_delivery(
        &mut state,
        &DeliveryAcknowledgement {
            id: id.clone(),
            pending_fire_at,
            owner: "scheduler-a".to_string(),
            delivered_at: due,
        },
    )
    .expect("acknowledge delivery");
    assert!(claim_due(&mut state, &lease("scheduler-a", due, &[])).expect("claim after ack").is_empty());
    let reloaded = find_job(&state, &id).expect("reload job");
    assert!(reloaded.next_due_at > due);
    assert_eq!(reloaded.last_run_at, Some(due));
    assert_eq!(reloaded.pending_fire_at, None);
    assert_eq!(reloaded.delivery_owner, None);
    assert_eq!(reloaded.delivery_lease_expires_at, None);
}

#[test]
fn delivery_lease_prevents_overlapping_schedulers_and_allows_takeover() {
    let (mut state, id, due) = state_with_loop("leased", "Check once per claim.", 60);
    let first = claim_due(&mut state, &lease("scheduler-a", due, &[])).expect("first scheduler claims");
    assert_eq!(first.len(), 1);
    assert_eq!(first[0].delivery_owner.as_deref(), Some("scheduler-a"));
    assert!(claim_due(&mut state, &lease("scheduler-b", due, &[])).expect("overlapping").is_empty());
    let takeover_at = due + 31_000;
    let takeover = claim_due(&mut state, &lease("scheduler-b", takeover_at, &[])).expect("expired lease is reclaimed");
    assert_eq!(takeover.len(), 1);
    assert_eq!(takeover[0].delivery_owner.as_deref(), Some("scheduler-b"));
    let pending_fire_at = takeover[0].pending_fire_at.expect("takeover keeps the durable fire id");
    assert_eq!(Some(pending_fire_at), first[0].pending_fire_at);
    assert!(acknowledge_delivery(
        &mut state,
        &DeliveryAcknowledgement {
            id: id.clone(),
            pending_fire_at,
            owner: "scheduler-a".to_string(),
            delivered_at: takeover_at,
        },
    )
    .is_err());
    acknowledge_delivery(
        &mut state,
        &DeliveryAcknowledgement {
            id,
            pending_fire_at,
            owner: "scheduler-b".to_string(),
            delivered_at: takeover_at,
        },
    )
    .expect("current lease owner acknowledges");
}

#[test]
fn in_flight_job_is_coalesced_until_the_runtime_clears_it() {
    let (mut state, id, due) = state_with_loop("coalesced", "Queue at most once per turn.", 1);
    assert!(claim_due(&mut state, &lease("scheduler-a", due, &[id.as_str()])).expect("excluded").is_empty());
    assert_eq!(claim_due(&mut state, &lease("scheduler-a", due, &[])).expect("claim after idle gate clears").len(), 1);
}

#[test]
fn accepts_five_field_utc_cron_and_persists_updates() {
    let mut state = initial_state();
    let job = new_job(
        "cron-1".to_string(),
        None,
        "Daily mock check.".to_string(),
        AutomationKind::Cron,
        ScheduleSpec::Cron {
            expression: "0 9 * * *".to_string(),
        },
        NOW,
    )
    .expect("create five-field cron");
    assert_eq!(job.name, "cron");
    insert_job(&mut state, job).unwrap();
    let updated = update_job(
        &mut state,
        "cron-1",
        JobPatch {
            prompt: Some("Updated mock check.".to_string()),
            enabled: Some(false),
            schedule: None,
        },
        NOW,
    )
    .expect("update cron");
    assert_eq!(updated.prompt, "Updated mock check.");
    assert!(!updated.enabled);
    assert!(updated.next_due_at > NOW);
    assert_eq!(state.jobs, vec![updated]);
}

#[test]
fn rejects_malformed_cron_expressions() {
    assert!(validate_schedule(&ScheduleSpec::Cron {
        expression: "not a cron".to_string()
    })
    .is_err());
    assert!(validate_schedule(&ScheduleSpec::Interval { every_seconds: 0 }).is_err());
}

#[test]
fn monitor_definitions_are_persisted_and_stoppable() {
    let mut state = initial_state();
    let monitor = new_monitor(
        "mon-1".to_string(),
        Some("listener".to_string()),
        1234,
        "Wake on mock peer event.".to_string(),
        Some("MOCK_EVENT".to_string()),
        5,
        true,
        NOW,
    )
    .expect("create monitor");
    insert_monitor(&mut state, monitor).unwrap();
    let stopped = stop_monitor(&mut state, "mon-1").expect("stop monitor");
    assert!(!stopped.enabled);
    assert_eq!(state.monitors, vec![stopped]);
}

#[test]
fn monitors_default_their_name_to_the_process() {
    let monitor = new_monitor("m".to_string(), None, -7, "p".to_string(), None, 5, false, NOW).unwrap();
    assert_eq!(monitor.name, "process--7");
}

#[test]
fn rejects_prompts_that_exceed_the_model_context_bound() {
    let error = new_job(
        "j".to_string(),
        None,
        "x".repeat((MAX_AUTOMATION_PROMPT_TOKENS + 1) * 4),
        AutomationKind::Loop,
        ScheduleSpec::Interval { every_seconds: 1 },
        NOW,
    )
    .expect_err("oversized prompt must be rejected");
    assert_eq!(error, "automation prompt exceeds the 4000-token model-context limit");
}

#[test]
fn loops_and_crons_are_deleted_only_by_their_own_tools() {
    let (mut state, id, _) = state_with_loop("l", "p", 60);
    assert_eq!(
        delete_job_kind(&mut state, &id, AutomationKind::Cron),
        Err("automation `job-1` is not a cron".to_string())
    );
    assert_eq!(state.jobs.len(), 1);
    assert!(delete_job_kind(&mut state, &id, AutomationKind::Loop).is_ok());
    assert!(state.jobs.is_empty());
}

#[test]
fn state_version_is_one() {
    assert_eq!(state_version(), 1);
}

#[test]
fn loop_intervals_need_exactly_one_positive_unit() {
    assert_eq!(interval_seconds(Some(30), None), Ok(30));
    assert_eq!(interval_seconds(None, Some(2)), Ok(120));
    assert_eq!(
        interval_seconds(Some(1), Some(1)),
        Err("pass exactly one of every_seconds or every_minutes".to_string())
    );
    assert_eq!(
        interval_seconds(Some(0), None),
        Err("a positive every_seconds or every_minutes value is required".to_string())
    );
    assert_eq!(interval_seconds(None, Some(u64::MAX)), Err("loop interval is too large".to_string()));
}

#[test]
fn fires_are_labelled_with_kind_source_name_and_id() {
    let (state, _, _) = state_with_loop("reconcile", "Check the mock fixture.", 60);
    assert_eq!(
        job_delivery(&state.jobs[0], "SCHEDULED"),
        "[LOOP:SCHEDULED reconcile (job-1)]\nCheck the mock fixture."
    );
}

#[test]
fn in_flight_ids_are_kept_once() {
    let mut in_flight = Vec::new();
    mark_in_flight(&mut in_flight, "a");
    mark_in_flight(&mut in_flight, "a");
    mark_in_flight(&mut in_flight, "b");
    assert_eq!(in_flight, vec!["a".to_string(), "b".to_string()]);
}

#[test]
fn command_monitors_filter_lines() {
    assert_eq!(
        command_monitor_event(&Some("campaign".to_string()), "moncmd-1", "EVENT ready", &Some("EVENT".to_string())),
        Some("[MONITOR:campaign moncmd-1]\nEVENT ready".to_string())
    );
    assert_eq!(command_monitor_event(&None, "moncmd-1", "noise", &Some("EVENT".to_string())), None);
    assert_eq!(
        command_monitor_event(&None, "moncmd-1", "noise", &None),
        Some("[MONITOR:monitor moncmd-1]\nnoise".to_string())
    );
    let summary: serde_json::Value =
        serde_json::from_str(&command_monitor_summary("moncmd-1", "python3 listen.py", &None, false)).unwrap();
    assert_eq!(summary["kind"], "command_monitor");
    assert_eq!(summary["matching"], serde_json::Value::Null);
    assert_eq!(summary["once"], false);
}

#[test]
fn terminal_monitors_report_output_exit_and_failure() {
    let monitor = new_monitor(
        "mon-1".to_string(),
        Some("fixture".to_string()),
        42,
        "Report the marker.".to_string(),
        Some("READY".to_string()),
        5,
        true,
        NOW,
    )
    .unwrap();
    let hit = monitor_step(
        &monitor,
        &Ok(BackgroundTerminalPoll {
            output: "NATIVE READY".to_string(),
            process_id: Some(42),
            exit_code: None,
        }),
    );
    assert_eq!(
        hit.deliveries,
        vec!["[MONITOR fixture (mon-1)] Report the marker.\nProcess 42 output:\nNATIVE READY".to_string()]
    );
    assert!(hit.stop);
    let quiet = monitor_step(
        &monitor,
        &Ok(BackgroundTerminalPoll {
            output: "nothing".to_string(),
            process_id: Some(42),
            exit_code: None,
        }),
    );
    assert!(quiet.deliveries.is_empty());
    assert!(!quiet.stop);
    let exited = monitor_step(
        &monitor,
        &Ok(BackgroundTerminalPoll {
            output: String::new(),
            process_id: None,
            exit_code: Some(3),
        }),
    );
    assert_eq!(
        exited.deliveries,
        vec!["[MONITOR fixture (mon-1)] Report the marker.\nProcess 42 exited with code Some(3).".to_string()]
    );
    assert!(exited.stop);
    let lost = monitor_step(&monitor, &Err("unknown process".to_string()));
    assert_eq!(
        lost.deliveries,
        vec!["[MONITOR fixture (mon-1)] Process 42 is no longer attachable: unknown process".to_string()]
    );
    assert!(lost.stop);
}

#[test]
fn claude_cron_create_is_a_recurring_cron() {
    match plan_automation_call(
        AutomationToolKind::CronCreateClaude,
        AutomationArgs::ClaudeCronCreate {
            cron: "23 * * * *".to_string(),
            prompt: "re-mine intel".to_string(),
            recurring: Some(false),
            durable: Some(true),
        },
    ) {
        Ok(AutomationCall::CreateCron { name, prompt, expression }) => {
            assert_eq!(name, None);
            assert_eq!(prompt, "re-mine intel");
            assert_eq!(expression, "23 * * * *");
        }
        other => panic!("unexpected plan {other:?}"),
    }
    match plan_automation_call(
        AutomationToolKind::MonitorStart,
        AutomationArgs::MonitorStart {
            process_id: 7,
            prompt: "p".to_string(),
            name: None,
            contains: None,
            poll_seconds: None,
            once: None,
        },
    ) {
        Ok(AutomationCall::CreateMonitor { poll_seconds, once, .. }) => {
            assert_eq!(poll_seconds, 5);
            assert!(once);
        }
        other => panic!("unexpected plan {other:?}"),
    }
}

#[test]
fn automation_tools_are_offered_with_their_schemas() {
    let all = AutomationToolKind::all();
    assert_eq!(all.len(), 15);
    for kind in all {
        let schema: serde_json::Value = serde_json::from_str(kind.parameters()).expect("schema is JSON");
        assert_eq!(schema["type"], "object");
        assert!(!kind.description().is_empty());
    }
    assert_eq!(
        automation_output_error(&"x".repeat(400), 10),
        Some("automation result is approximately 100 tokens, exceeding this call's 10-token limit".to_string())
    );
}

#[test]
fn claude_named_tool_specs_carry_the_claude_name() {
    for (kind, expected) in [
        (AutomationToolKind::CronCreateClaude, "CronCreate"),
        (AutomationToolKind::CronListClaude, "CronList"),
        (AutomationToolKind::CronDeleteClaude, "CronDelete"),
        (AutomationToolKind::MonitorClaude, "Monitor"),
    ] {
        let tool = kind.spec();
        assert_eq!(tool.name, expected);
        assert_eq!(tool.description, kind.description());
        assert_eq!(tool.parameters, kind.parameters());
    }
}

fn launched(id: &str) -> LaunchedMonitor {
    LaunchedMonitor {
        id: id.to_string(),
        name: Some("listener".to_string()),
        command: "peer.py listen".to_string(),
        contains: None,
        once: false,
    }
}

#[test]
fn a_launched_monitor_stops_by_the_id_its_launch_returned() {
    let mut state = initial_state();
    let mut registry = MonitorRegistry::new();
    registry.register(launched("moncmd-1"));
    registry.register(launched("moncmd-2"));
    assert!(registry.is_running("moncmd-1"));
    let stopped = stop_monitor_and_watcher(&mut state, &mut registry, "moncmd-1").expect("stop launched monitor");
    assert_eq!(stopped, StoppedMonitor::Launched(launched("moncmd-1")));
    assert!(!registry.is_running("moncmd-1"));
    assert!(registry.is_running("moncmd-2"));
    assert_eq!(state, initial_state());
    assert_eq!(
        stop_monitor_and_watcher(&mut state, &mut registry, "moncmd-1"),
        Err("monitor `moncmd-1` not found".to_string())
    );
}

#[test]
fn a_stored_monitor_stop_disables_it_and_leaves_watchers_alone() {
    let mut state = initial_state();
    let monitor = new_monitor("mon-1".to_string(), None, 7, "p".to_string(), None, 5, false, NOW).unwrap();
    insert_monitor(&mut state, monitor).unwrap();
    let mut registry = MonitorRegistry::new();
    registry.register(launched("moncmd-1"));
    match stop_monitor_and_watcher(&mut state, &mut registry, "mon-1") {
        Ok(StoppedMonitor::Stored(m)) => assert!(!m.enabled),
        other => panic!("expected a stored monitor, got {other:?}"),
    }
    assert!(!state.monitors[0].enabled);
    assert!(registry.is_running("moncmd-1"));
    assert!(registry.release("moncmd-1").is_some());
    assert!(registry.release("moncmd-1").is_none());
}

#[test]
fn a_fire_is_acknowledged_only_after_it_was_delivered() {
    let (mut state, _id, due) = state_with_loop("reconcile", "Check the mock fixture.", 60);
    let claimed = claim_due(&mut state, &lease("scheduler-a", due, &[])).expect("claim at due");
    let job = &claimed[0];
    let failed = after_delivery(job, "scheduler-a", due, &Err("mailbox closed".to_string()));
    assert!(!failed.mark_in_flight);
    assert!(failed.acknowledgement.is_none());
    let delivered = after_delivery(job, "scheduler-a", due + 5, &Ok(()));
    assert!(delivered.mark_in_flight);
    let ack = delivered.acknowledgement.expect("a delivered fire is acknowledged");
    assert_eq!(ack.id, job.id);
    assert_eq!(ack.pending_fire_at, due);
    assert_eq!(ack.owner, "scheduler-a");
    assert_eq!(ack.delivered_at, due + 5);
    acknowledge_delivery(&mut state, &ack).expect("acknowledge delivery");
    assert!(claim_due(&mut state, &lease("scheduler-b", due + 5, &[])).expect("claim after ack").is_empty());
}
