use hypercool::content::StoredValue;
use hypercool::reader::ForeignRow;
use hypercool::search_db::{
    cache_record, cached_page_bounds, count_as_usize, get_cached_message, get_search_db_stats,
    is_cache_ready, read_cached_messages, should_sync, skip_failed, sync_from_udb, sync_stats,
    update_sync_metadata, CachedRow, SearchDbStats, SyncMetadata, SyncStats,
    DEFAULT_CACHE_PAGE_LIMIT, SYNC_INTERVAL_SECS,
};

fn plain(id: i64, text: &str) -> ForeignRow {
    ForeignRow {
        id,
        sender: Some("sender".to_string()),
        text: StoredValue::Text(text.to_string()),
        body: StoredValue::Absent,
        receive_date: None,
        file_path: None,
    }
}

#[test]
fn sync_is_due_after_five_minutes() {
    assert_eq!(SYNC_INTERVAL_SECS, 300);
    assert!(should_sync(None, 0));
    assert!(!should_sync(Some(1_000), 1_000));
    assert!(!should_sync(Some(1_000), 1_300));
    assert!(should_sync(Some(1_000), 1_301));
    assert!(!should_sync(Some(1_000), 0));
}

#[test]
fn sync_due_at_the_ends_of_the_clock() {
    assert!(should_sync(Some(i64::MIN), i64::MAX));
    assert!(!should_sync(Some(i64::MAX), i64::MIN));
    assert!(should_sync(Some(-1), 300));
    assert!(!should_sync(Some(0), 300));
}

#[test]
fn record_of_a_row() {
    let row = ForeignRow {
        id: 12,
        sender: None,
        text: StoredValue::Text("<p>Hello</p><br>there".to_string()),
        body: StoredValue::Text("ignored".to_string()),
        receive_date: Some("2024-05-05".to_string()),
        file_path: Some("0|1|2|3|a \"b\".txt|5|6|c.txt".to_string()),
    };
    let r = cache_record(&row, 777);
    assert_eq!(r.id, 12);
    assert_eq!(r.sender, "");
    assert_eq!(r.content, "<p>Hello</p><br>there");
    assert_eq!(r.content_preview, "Hello there");
    assert_eq!(r.receive_date.as_deref(), Some("2024-05-05"));
    assert_eq!(r.file_paths_json, "[\"a \\\"b\\\".txt\",\"c.txt\"]");
    assert_eq!((r.created_at, r.updated_at), (777, 777));
}

#[test]
fn record_without_attachments_stores_an_empty_list() {
    assert_eq!(cache_record(&plain(1, "x"), 0).file_paths_json, "[]");
}

#[test]
fn plan_of_a_first_sync() {
    let rows = vec![plain(1, "one"), plain(2, "two"), plain(5, "five")];
    let plan = sync_from_udb(&None, &rows, 10);
    assert_eq!(plan.new_count, 3);
    assert_eq!(plan.max_id, 5);
    assert_eq!(plan.records.iter().map(|r| r.id).collect::<Vec<_>>(), vec![1, 2, 5]);
    assert_eq!(plan.records[2].content, "five");
}

#[test]
fn plan_keeps_the_mark_when_nothing_is_new() {
    let meta = Some(SyncMetadata { last_sync_time: 5, last_message_id: 40, total_messages: 9 });
    let plan = sync_from_udb(&meta, &Vec::new(), 10);
    assert_eq!(plan.new_count, 0);
    assert_eq!(plan.max_id, 40);
    assert!(plan.records.is_empty());
    assert_eq!(
        update_sync_metadata(&plan, 9, 10),
        SyncMetadata { last_sync_time: 10, last_message_id: 40, total_messages: 9 }
    );
    assert_eq!(
        update_sync_metadata(&plan, 9, 5),
        SyncMetadata { last_sync_time: 5, last_message_id: 40, total_messages: 9 }
    );
}

#[test]
fn plan_mark_is_the_largest_id_in_any_order() {
    let meta = Some(SyncMetadata { last_sync_time: 5, last_message_id: 40, total_messages: 9 });
    let plan = sync_from_udb(&meta, &vec![plain(43, "a"), plain(41, "b"), plain(42, "c")], 10);
    assert_eq!(plan.max_id, 43);
    assert_eq!(plan.new_count, 3);
    let lower = sync_from_udb(&meta, &vec![plain(7, "late")], 10);
    assert_eq!(lower.max_id, 40);
    assert_eq!(lower.new_count, 1);
    let negative = sync_from_udb(&None, &vec![plain(-7, "odd")], 10);
    assert_eq!(negative.max_id, 0);
}

#[test]
fn stats_of_a_sync() {
    let plan = sync_from_udb(&None, &vec![plain(1, "one")], 10);
    assert_eq!(
        sync_stats(&plan, 12, 34),
        SyncStats { new_messages: 1, updated_messages: 0, total_messages: 12, duration_ms: 34 }
    );
    assert_eq!(sync_stats(&plan, -1, 0).total_messages, 0);
    assert_eq!(count_as_usize(0), 0);
    assert_eq!(count_as_usize(i64::MIN), 0);
    assert_eq!(count_as_usize(1 << 20), 1 << 20);
}

#[test]
fn stats_of_the_cache() {
    let meta = SyncMetadata { last_sync_time: 5, last_message_id: 40, total_messages: 9 };
    assert_eq!(
        get_search_db_stats(&Some(meta), 4096),
        SearchDbStats { total_messages: 9, last_sync_time: 5, last_message_id: 40, db_size_bytes: 4096 }
    );
    assert_eq!(
        get_search_db_stats(&None, 12),
        SearchDbStats { total_messages: 0, last_sync_time: 0, last_message_id: 0, db_size_bytes: 12 }
    );
}

fn cached(id: i64, json: &str) -> CachedRow {
    CachedRow {
        id,
        sender: "s".to_string(),
        content: "c".to_string(),
        content_preview: "p".to_string(),
        receive_date: Some("d".to_string()),
        file_paths_json: json.to_string(),
    }
}

#[test]
fn cached_message_reads_its_attachment_list() {
    let m = get_cached_message(&Some(cached(3, "[\"a.txt\",\"b \\\"q\\\".txt\"]"))).unwrap();
    assert_eq!(m.id, 3);
    assert_eq!(m.sender, "s");
    assert_eq!(m.content, "c");
    assert_eq!(m.content_preview, "p");
    assert_eq!(m.receive_date.as_deref(), Some("d"));
    assert_eq!(m.file_paths, vec!["a.txt", "b \"q\".txt"]);
    assert!(get_cached_message(&None).is_none());
}

#[test]
fn cached_message_with_a_broken_list_has_no_attachments() {
    assert!(get_cached_message(&Some(cached(3, "not json"))).unwrap().file_paths.is_empty());
    assert!(get_cached_message(&Some(cached(3, ""))).unwrap().file_paths.is_empty());
    assert!(get_cached_message(&Some(cached(3, "[1]"))).unwrap().file_paths.is_empty());
}

#[test]
fn page_of_the_cache() {
    let page = read_cached_messages(&vec![cached(2, "[]"), cached(1, "[\"x\"]")], 2);
    assert_eq!(page.total_count, 2);
    assert_eq!(page.messages.iter().map(|m| m.id).collect::<Vec<_>>(), vec![2, 1]);
    assert_eq!(page.messages[1].file_paths, vec!["x"]);
    assert_eq!(cached_page_bounds(None, None), (100, 0));
    assert_eq!(cached_page_bounds(Some(5), Some(10)), (5, 10));
    assert_eq!(DEFAULT_CACHE_PAGE_LIMIT, 100);
}

#[test]
fn cache_is_ready_when_it_holds_a_message() {
    assert!(!is_cache_ready(0));
    assert!(is_cache_ready(1));
    assert!(!is_cache_ready(-1));
}

fn kept_ids(written: &[bool]) -> (Vec<i64>, usize, i64) {
    let meta = Some(SyncMetadata { last_sync_time: 5, last_message_id: 40, total_messages: 9 });
    let plan = sync_from_udb(&meta, &vec![plain(41, "a"), plain(42, "b"), plain(43, "c")], 10);
    assert_eq!(plan.last_synced_id, 40);
    let kept = skip_failed(plan, &written.to_vec());
    assert_eq!(kept.last_synced_id, 40);
    (kept.records.iter().map(|r| r.id).collect(), kept.new_count, kept.max_id)
}

#[test]
fn plan_keeps_what_was_written() {
    assert_eq!(kept_ids(&[true, true, true]), (vec![41, 42, 43], 3, 43));
    assert_eq!(kept_ids(&[true, false, true]), (vec![41, 43], 2, 43));
    assert_eq!(kept_ids(&[false, true, false]), (vec![42], 1, 42));
    assert_eq!(kept_ids(&[true, true, false]), (vec![41, 42], 2, 42));
    assert_eq!(kept_ids(&[false, false, false]), (vec![], 0, 40));
}

#[test]
fn record_without_an_answer_counts_as_not_written() {
    assert_eq!(kept_ids(&[true]), (vec![41], 1, 41));
    assert_eq!(kept_ids(&[]), (vec![], 0, 40));
    assert_eq!(kept_ids(&[false, true, true, true, true]), (vec![42, 43], 2, 43));
}

#[test]
fn kept_plan_keeps_the_records_as_they_were() {
    let plan = sync_from_udb(&None, &vec![plain(1, "<b>one</b>"), plain(2, "two")], 77);
    let kept = skip_failed(plan, &vec![false, true]);
    assert_eq!(kept.records.len(), 1);
    assert_eq!(kept.records[0].content, "two");
    assert_eq!(kept.records[0].content_preview, "two");
    assert_eq!((kept.records[0].created_at, kept.records[0].updated_at), (77, 77));
    assert_eq!(
        sync_stats(&kept, 1, 3),
        SyncStats { new_messages: 1, updated_messages: 0, total_messages: 1, duration_ms: 3 }
    );
    assert_eq!(
        update_sync_metadata(&kept, 1, 77),
        SyncMetadata { last_sync_time: 77, last_message_id: 2, total_messages: 1 }
    );
}
