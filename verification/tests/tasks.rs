use std::cmp::Ordering;

use codex_native_team::tasks::check_patch;
use codex_native_team::tasks::list_tasks;
use codex_native_team::tasks::new_task;
use codex_native_team::tasks::next_task_id;
use codex_native_team::tasks::plan_task_call;
use codex_native_team::tasks::task_id_order;
use codex_native_team::tasks::task_output_error;
use codex_native_team::tasks::validate_nonempty;
use codex_native_team::tasks::validate_status;
use codex_native_team::tasks::validate_task_id;
use codex_native_team::tasks::versioned;
use codex_native_team::tasks::ClaudeTask;
use codex_native_team::tasks::ClaudeTaskStore;
use codex_native_team::tasks::TaskArgs;
use codex_native_team::tasks::TaskCall;
use codex_native_team::tasks::TaskPatch;
use codex_native_team::tasks::TaskToolKind;
use codex_native_team::tasks::VersionedTask;

fn store() -> ClaudeTaskStore {
    ClaudeTaskStore::new("/tmp/team-home", "native-test", "codex-worker")
}

fn pending(id: &str, subject: &str) -> VersionedTask {
    let task = new_task(id.to_string(), subject.to_string(), String::new(), String::new());
    let bytes = format!("{{\n  \"id\": \"{id}\",\n  \"subject\": \"{subject}\"\n}}").into_bytes();
    versioned(task, &bytes)
}

#[test]
fn board_paths_follow_the_team() {
    let s = store();
    assert_eq!(s.root(), "/tmp/team-home/tasks/native-test");
    assert_eq!(s.task_path("7"), Ok("/tmp/team-home/tasks/native-test/7.json".to_string()));
    assert_eq!(s.task_path("../x"), Err("invalid task id `../x`".to_string()));
}

#[test]
fn reads_and_claims_claude_task_contract_without_losing_unknown_fields() {
    let mut current = pending("1", "Review fixture");
    current.task.description = "Do not access a live target.".to_string();
    current.task.extra = vec![("providerMetadata".to_string(), "{\"keep\":true}".to_string())];
    let claimed = store()
        .claim("1", &current.revision.clone(), &current)
        .expect("claim task");
    assert_eq!(claimed.status, "in_progress");
    assert_eq!(claimed.owner, "codex-worker");
    assert_eq!(claimed.description, "Do not access a live target.");
    assert_eq!(
        claimed.extra,
        vec![("providerMetadata".to_string(), "{\"keep\":true}".to_string())]
    );
}

#[test]
fn rejects_stale_task_updates() {
    let created = pending("1", "Review fixture");
    let stale = created.revision.clone();
    let patch = TaskPatch {
        description: Some("First update".to_string()),
        ..Default::default()
    };
    let updated = store().patch("1", patch, &stale, &created).expect("first update");
    let rewritten = versioned(updated, &b"{\"id\":\"1\",\"description\":\"First update\"}".to_vec());
    let error = store()
        .complete("1", &stale, &rewritten)
        .expect_err("stale revision must fail");
    assert!(error.contains("changed concurrently"));
}

#[test]
fn simultaneous_claims_have_exactly_one_winner() {
    let created = pending("1", "Claim once");
    let revision = created.revision.clone();
    let first = store().claim("1", &revision, &created);
    assert!(first.is_ok());
    let winner = versioned(first.unwrap(), &b"{\"id\":\"1\",\"status\":\"in_progress\"}".to_vec());
    assert!(store().claim("1", &revision, &winner).is_err());
    let error = store()
        .claim("1", &winner.revision.clone(), &winner)
        .expect_err("claimed task cannot be claimed again");
    assert!(error.contains("cannot be claimed"));
}

#[test]
fn completion_needs_the_owner_and_progress() {
    let created = pending("3", "Finish me");
    let error = store()
        .complete("3", &created.revision.clone(), &created)
        .expect_err("pending task cannot be completed");
    assert_eq!(
        error,
        "task 3 can only be completed while in_progress and owned by `codex-worker`"
    );
    let claimed = versioned(store().claim("3", &created.revision.clone(), &created).unwrap(), &b"c".to_vec());
    let done = store().complete("3", &claimed.revision.clone(), &claimed).expect("complete");
    assert_eq!(done.status, "completed");
}

#[test]
fn creates_monotonic_numeric_task_ids() {
    assert_eq!(next_task_id(&Vec::new()), "1");
    assert_eq!(next_task_id(&vec!["1".to_string()]), "2");
    assert_eq!(
        next_task_id(&vec!["2".to_string(), "notes".to_string(), "10".to_string()]),
        "11"
    );
}

#[test]
fn task_ids_sort_numerically_then_by_text() {
    assert_eq!(task_id_order("9", "10"), Ordering::Less);
    assert_eq!(task_id_order("10", "9"), Ordering::Greater);
    assert_eq!(task_id_order("b", "a"), Ordering::Greater);
    assert_eq!(task_id_order("7", "7"), Ordering::Equal);
    let tasks = vec![pending("10", "ten"), pending("2", "two"), pending("1", "one")];
    let listed = list_tasks(tasks).expect("list");
    let ids: Vec<&str> = listed.iter().map(|t| t.task.id.as_str()).collect();
    assert_eq!(ids, vec!["1", "2", "10"]);
}

#[test]
fn validation_messages_name_the_value() {
    assert_eq!(validate_task_id(""), Err("invalid task id ``".to_string()));
    assert!(validate_task_id("42").is_ok());
    assert_eq!(validate_nonempty("task subject", "  "), Err("task subject must not be empty".to_string()));
    assert_eq!(
        validate_status("done"),
        Err("invalid task status `done`; expected pending, in_progress, or completed".to_string())
    );
    let bad_subject = TaskPatch {
        subject: Some(" ".to_string()),
        ..Default::default()
    };
    assert_eq!(check_patch("1", &bad_subject), Err("task subject must not be empty".to_string()));
}

#[test]
fn task_tool_names_and_calls() {
    let names: Vec<&str> = TaskToolKind::all().into_iter().map(TaskToolKind::name).collect();
    assert_eq!(
        names,
        vec!["task_list", "task_get", "task_create", "task_claim", "task_update", "task_complete"]
    );
    match plan_task_call(
        TaskToolKind::Claim,
        TaskArgs::Mutation {
            id: "1".to_string(),
            expected_revision: "r".to_string(),
        },
    ) {
        Ok(TaskCall::Claim { id, expected_revision }) => {
            assert_eq!(id, "1");
            assert_eq!(expected_revision, "r");
        }
        other => panic!("unexpected plan {other:?}"),
    }
    assert_eq!(
        plan_task_call(TaskToolKind::Get, TaskArgs::Empty).map(|_| ()),
        Err("invalid task_get arguments".to_string())
    );
    let schema: serde_json::Value = serde_json::from_str(TaskToolKind::Update.parameters()).unwrap();
    let required: serde_json::Value = serde_json::from_str(r#"["id","expected_revision"]"#).unwrap();
    assert_eq!(schema["required"], required);
}

#[test]
fn oversized_task_results_are_refused() {
    assert_eq!(task_output_error("[]", 100), None);
    assert_eq!(
        task_output_error(&"x".repeat(400), 50),
        Some("task result is approximately 100 tokens, exceeding this call's 50-token limit; use task_get for individual task IDs".to_string())
    );
}

#[test]
fn revisions_are_sha256_of_the_file() {
    let task: ClaudeTask = new_task("1".to_string(), "s".to_string(), String::new(), String::new());
    let v = versioned(task, &b"abc".to_vec());
    assert_eq!(v.revision, "ba7816bf8f01cfea414140de5dae2223b00361a396177a9cb410ff61f20015ad");
}
