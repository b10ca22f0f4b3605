use codex_native_team::loops::paginate_loops;
use codex_native_team::loops::parse_interval_seconds;
use codex_native_team::loops::parse_loop_command;
use codex_native_team::loops::LoopAutomation;
use codex_native_team::loops::LoopCommandAction;
use codex_native_team::loops::LoopListResponse;
use codex_native_team::loops::LoopListing;

#[test]
fn parses_loop_create_stop_and_list_commands() {
    assert_eq!(
        parse_loop_command("15m reconcile the mock task board"),
        Ok(LoopCommandAction::Create {
            every_seconds: 900,
            prompt: "reconcile the mock task board".to_string(),
        })
    );
    assert_eq!(
        parse_loop_command("stop 0198-test"),
        Ok(LoopCommandAction::Stop {
            id: "0198-test".to_string(),
        })
    );
    assert_eq!(parse_loop_command("list"), Ok(LoopCommandAction::List));
}

#[test]
fn rejects_zero_and_overflowing_intervals() {
    assert_eq!(
        parse_loop_command("0s run"),
        Err("Loop interval must be greater than zero.".to_string())
    );
    assert_eq!(
        parse_loop_command("18446744073709551615d run"),
        Err("Loop interval is too large.".to_string())
    );
}

#[test]
fn interval_units_scale_to_seconds() {
    assert_eq!(parse_interval_seconds("30s"), Ok(30));
    assert_eq!(parse_interval_seconds("2h"), Ok(7_200));
    assert_eq!(parse_interval_seconds("1d"), Ok(86_400));
}

fn loop_automation(id: &str) -> LoopAutomation {
    LoopAutomation {
        id: id.to_string(),
        name: format!("loop-{id}"),
        prompt: format!("Run fixture {id}."),
        every_seconds: 60,
        enabled: true,
        created_at: 1,
        next_due_at: 2,
        last_run_at: None,
    }
}

#[test]
fn paginates_with_opaque_offset_cursor() {
    let loops = vec![
        loop_automation("a"),
        loop_automation("b"),
        loop_automation("c"),
    ];
    let first = paginate_loops(loops.clone(), None, Some(2)).expect("first page should be valid");
    assert_eq!(
        first,
        LoopListResponse {
            data: loops[..2].to_vec(),
            next_cursor: Some("2".to_string()),
        }
    );
    assert_eq!(
        paginate_loops(loops.clone(), first.next_cursor, Some(2))
            .expect("second page should be valid"),
        LoopListResponse {
            data: loops[2..].to_vec(),
            next_cursor: None,
        }
    );
    assert!(paginate_loops(loops, Some("invalid".to_string()), Some(2)).is_err());
}

#[test]
fn following_cursors_lists_every_loop_once() {
    let loops: Vec<LoopAutomation> = ["a", "b", "c", "d", "e"].iter().map(|id| loop_automation(id)).collect();
    let mut cursor = None;
    let mut seen = Vec::new();
    loop {
        let page = paginate_loops(loops.clone(), cursor, Some(2)).expect("page");
        seen.extend(page.data);
        match page.next_cursor {
            Some(next) => cursor = Some(next),
            None => break,
        }
    }
    assert_eq!(seen, loops);
}

#[test]
fn a_client_listing_follows_cursors_and_concatenates_pages() {
    let loops: Vec<LoopAutomation> = ["a", "b", "c", "d", "e"].iter().map(|id| loop_automation(id)).collect();
    let mut listing = LoopListing::new();
    let result = loop {
        let request = listing.request("thread-1".to_string());
        assert_eq!(request.thread_id, "thread-1");
        assert_eq!(request.limit, None);
        let page = paginate_loops(loops.clone(), request.cursor, Some(2)).expect("page");
        if let Some(done) = listing.take_page(page) {
            break done;
        }
    };
    assert_eq!(result, Ok(LoopListResponse { data: loops, next_cursor: None }));
}

#[test]
fn a_client_listing_refuses_a_repeated_cursor() {
    let mut listing = LoopListing::new();
    let first = LoopListResponse { data: vec![loop_automation("a")], next_cursor: Some("1".to_string()) };
    assert_eq!(listing.take_page(first.clone()), None);
    assert_eq!(listing.request("t".to_string()).cursor, Some("1".to_string()));
    assert_eq!(
        listing.take_page(first),
        Some(Err("loop/list returned a repeated pagination cursor".to_string()))
    );
}
