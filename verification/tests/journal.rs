use codex_native_team::journal::DeliveryJournalIds;
use codex_native_team::journal::JOURNAL_ID_LIMIT;

#[test]
fn delivery_journal_persists_message_deduplication() {
    let mut journal = DeliveryJournalIds::new();
    journal.record("message-1".to_string());
    let reloaded = DeliveryJournalIds::from_ids(journal.ids());
    assert!(reloaded.contains("message-1"));
    assert!(!reloaded.contains("message-2"));
}

#[test]
fn recording_twice_keeps_one_copy_in_order() {
    let mut journal = DeliveryJournalIds::new();
    journal.record("b".to_string());
    journal.record("a".to_string());
    journal.record("b".to_string());
    assert_eq!(journal.ids(), vec!["a".to_string(), "b".to_string()]);
}

#[test]
fn journal_drops_its_smallest_ids_beyond_the_bound() {
    let ids: Vec<String> = (0..JOURNAL_ID_LIMIT).map(|i| format!("id-{i:05}")).collect();
    let mut journal = DeliveryJournalIds::from_ids(ids);
    journal.record("id-99999".to_string());
    assert_eq!(journal.ids().len(), JOURNAL_ID_LIMIT);
    assert!(!journal.contains("id-00000"));
    assert!(journal.contains("id-00001"));
    assert!(journal.contains("id-99999"));
}
