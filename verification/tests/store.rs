use chrono::{Duration, Utc};
use dropnote::clock::{LocalTime, MAX_UTC_MS, MIN_UTC_MS};
use dropnote::db::EntryRow;
use dropnote::store::{
    entries_from_rows, entry_from_row, needs_rebuild, Entry, Store, StoreError, MAX_LEN,
};

fn now_ms() -> i64 {
    Utc::now().timestamp_millis()
}

#[test]
fn empty_input_is_rejected() {
    let mut s = Store::open_in_memory().unwrap();
    assert!(s.insert("   ").is_err());
    assert!(s.insert("").is_err());
}

#[test]
fn insert_prepends_to_cache_and_assigns_id() {
    let mut s = Store::open_in_memory().unwrap();
    let a = s.insert("first").unwrap();
    let b = s.insert("second").unwrap();

    assert!(a.id >= 1);
    assert!(b.id > a.id);
    assert_eq!(s.all()[0].text, "second");
    assert_eq!(s.all()[1].text, "first");
}

#[test]
fn classifier_runs_on_insert() {
    let mut s = Store::open_in_memory().unwrap();
    assert!(s.insert("明日 PR レビュー").unwrap().due_today);
    assert!(!s.insert("ベルトの斜め配置できたら面白そう").unwrap().due_today);
}

#[test]
fn truncates_at_max_len() {
    let mut s = Store::open_in_memory().unwrap();
    let long: String = "あ".repeat(200);
    let e = s.insert(&long).unwrap();
    assert_eq!(e.text.chars().count(), MAX_LEN);
}

#[test]
fn delete_removes_from_cache_and_filters_reads() {
    let mut s = Store::open_in_memory().unwrap();
    let a = s.insert("first").unwrap();
    let _b = s.insert("second").unwrap();

    let deleted = s.delete(a.id, now_ms()).unwrap();
    assert_eq!(deleted.unwrap().id, a.id);

    // Gone from cache.
    assert_eq!(s.all().len(), 1);
    assert_eq!(s.all()[0].text, "second");

    // Gone from a fresh load too (deleted_at filter).
    let reloaded = s.load_live().unwrap();
    assert_eq!(reloaded.len(), 1);
}

#[test]
fn delete_returns_none_for_unknown_id() {
    let mut s = Store::open_in_memory().unwrap();
    assert!(s.delete(9999, now_ms()).unwrap().is_none());
}

#[test]
fn deleted_id_is_not_recycled_for_new_inserts() {
    let mut s = Store::open_in_memory().unwrap();
    let a = s.insert("first").unwrap();
    s.delete(a.id, now_ms()).unwrap();
    let c = s.insert("third").unwrap();
    assert!(c.id > a.id, "AUTOINCREMENT must skip reused ids");
}

#[test]
fn search_matches_substring_case_insensitive() {
    let mut s = Store::open_in_memory().unwrap();
    s.insert("牛乳を買う").unwrap();
    s.insert("PR レビュー").unwrap();
    s.insert("夕方 散歩").unwrap();

    let hits = s.search("牛乳");
    assert_eq!(hits.len(), 1);
    assert_eq!(hits[0].text, "牛乳を買う");

    let hits = s.search("pr"); // case-insensitive
    assert_eq!(hits.len(), 1);
    assert_eq!(hits[0].text, "PR レビュー");

    let hits = s.search("");
    assert_eq!(hits.len(), 3);
}

#[test]
fn search_skips_deleted_entries() {
    let mut s = Store::open_in_memory().unwrap();
    let a = s.insert("牛乳を買う").unwrap();
    s.insert("牛乳プリン").unwrap();
    s.delete(a.id, now_ms()).unwrap();
    let hits = s.search("牛乳");
    assert_eq!(hits.len(), 1);
    assert_eq!(hits[0].text, "牛乳プリン");
}

#[test]
fn resurface_skips_recent_entries() {
    let mut s = Store::open_in_memory().unwrap();
    s.insert("brand new thought").unwrap();
    assert!(s.pick_resurface(now_ms()).unwrap().is_none());
}

#[test]
fn resurface_skips_deleted_entries() {
    let mut s = Store::open_in_memory().unwrap();
    // Back-date an entry by 30 days.
    let backdated = (Utc::now() - Duration::days(30)).timestamp_millis();
    let id = s.insert_at("old thought", backdated).unwrap().id;

    // Delete it, then try to surface — should pick nothing.
    s.delete(id, now_ms()).unwrap();
    assert!(s.pick_resurface(now_ms()).unwrap().is_none());
}

// --- Further cases -----------------------------------------------------

#[test]
fn insert_trims_and_keeps_short_text_whole() {
    let mut s = Store::open_in_memory().unwrap();
    let e = s.insert("  牛乳を買う \n").unwrap();
    assert_eq!(e.text, "牛乳を買う");
    assert!(e.last_resurfaced_at.is_none());
    let exact: String = "x".repeat(MAX_LEN);
    assert_eq!(s.insert(&exact).unwrap().text, exact);
    let long = format!("  {}yz  ", "x".repeat(MAX_LEN - 1));
    assert_eq!(s.insert(&long).unwrap().text, format!("{}y", "x".repeat(MAX_LEN - 1)));
}

#[test]
fn empty_entry_error_leaves_cache_unchanged() {
    let mut s = Store::open_in_memory().unwrap();
    s.insert("one").unwrap();
    assert!(matches!(s.insert(" \t "), Err(StoreError::EmptyEntry)));
    assert_eq!(s.all().len(), 1);
}

#[test]
fn resurface_picks_old_entry_once() {
    let mut s = Store::open_in_memory().unwrap();
    let now = now_ms();
    let old = s.insert_at("古いアイデア", now - 10 * 86_400_000).unwrap();
    let picked = s.pick_resurface(now).unwrap().expect("an old entry is a candidate");
    assert_eq!(picked.id, old.id);
    assert!(picked.last_resurfaced_at.is_none());
    // The cache now records the resurfacing.
    assert_eq!(s.all()[0].last_resurfaced_at, Some(now));
    // Just resurfaced: not picked again.
    assert!(s.pick_resurface(now + 1000).unwrap().is_none());
    // Thirty days later it is eligible again.
    let later = now + 30 * 86_400_000;
    assert_eq!(s.pick_resurface(later).unwrap().unwrap().id, old.id);
}

#[test]
fn resurface_skips_due_today_entries() {
    let mut s = Store::open_in_memory().unwrap();
    let now = now_ms();
    s.insert_at("明日やる", now - 10 * 86_400_000).unwrap();
    assert!(s.pick_resurface(now).unwrap().is_none());
}

#[test]
fn fresh_load_lists_newest_first() {
    let mut s = Store::open_in_memory().unwrap();
    let now = now_ms();
    s.insert_at("older", now - 5_000).unwrap();
    s.insert_at("newest", now).unwrap();
    s.insert_at("oldest", now - 10_000).unwrap();
    // The cache keeps insertion order; a fresh load orders by creation time.
    let cached: Vec<&str> = s.all().iter().map(|e| e.text.as_str()).collect();
    assert_eq!(cached, vec!["oldest", "newest", "older"]);
    let loaded = s.load_live().unwrap();
    let texts: Vec<&str> = loaded.iter().map(|e| e.text.as_str()).collect();
    assert_eq!(texts, vec!["newest", "older", "oldest"]);
}

#[test]
fn today_lists_due_entries_created_today() {
    let mut s = Store::open_in_memory().unwrap();
    let now = LocalTime::now();
    s.insert_at("今夜は映画", now.utc_ms).unwrap();
    s.insert_at("いつか読む本", now.utc_ms).unwrap();
    s.insert_at("今日の牛乳", now.utc_ms - 3 * 86_400_000).unwrap();
    let today = s.today(now);
    assert_eq!(today.len(), 1);
    assert_eq!(today[0].text, "今夜は映画");
}

#[test]
fn remove_cached_and_mark_resurfaced() {
    let mut s = Store::open_in_memory().unwrap();
    let a = s.insert("a").unwrap();
    let b = s.insert("b").unwrap();
    s.mark_resurfaced(a.id, 1234);
    assert_eq!(s.all()[1].last_resurfaced_at, Some(1234));
    assert_eq!(s.all()[0].last_resurfaced_at, None);
    assert_eq!(s.remove_cached(b.id).unwrap().text, "b");
    assert!(s.remove_cached(b.id).is_none());
    assert_eq!(s.all().len(), 1);
}

#[test]
fn rows_with_unrepresentable_times() {
    let row = |created_at: i64, last: Option<i64>| EntryRow {
        id: 3,
        text: "x".to_string(),
        created_at,
        due_today: 2,
        last_resurfaced_at: last,
    };
    let e: Entry = entry_from_row(row(MIN_UTC_MS, Some(MAX_UTC_MS))).unwrap();
    assert!(e.due_today);
    assert_eq!(e.last_resurfaced_at, Some(MAX_UTC_MS));
    assert!(entry_from_row(row(MAX_UTC_MS, None)).is_ok());
    assert!(matches!(
        entry_from_row(row(MIN_UTC_MS - 1, None)),
        Err(StoreError::InvalidCreatedAt(v)) if v == MIN_UTC_MS - 1
    ));
    assert!(entry_from_row(row(MAX_UTC_MS + 1, None)).is_err());
    let e = entry_from_row(row(0, Some(MAX_UTC_MS + 1))).unwrap();
    assert_eq!(e.last_resurfaced_at, None);
    let e = entry_from_row(EntryRow { due_today: 0, ..row(0, None) }).unwrap();
    assert!(!e.due_today);
}

#[test]
fn finish_delete_follows_the_database_outcome() {
    let mut s = Store::open_in_memory().unwrap();
    let a = s.insert("a").unwrap();
    s.insert("b").unwrap();
    assert!(s.finish_delete(0, a.id).is_none());
    assert_eq!(s.all().len(), 2);
    assert!(s.finish_delete(1, 9999).is_none());
    assert_eq!(s.finish_delete(1, a.id).unwrap().text, "a");
    assert_eq!(s.all().len(), 1);
    assert_eq!(s.all()[0].text, "b");
}

#[test]
fn rows_become_entries_in_order() {
    let row = |id: i64, created_at: i64| EntryRow {
        id,
        text: format!("t{id}"),
        created_at,
        due_today: 0,
        last_resurfaced_at: None,
    };
    let v = entries_from_rows(vec![row(2, 200), row(1, 100)]).unwrap();
    assert_eq!(v.len(), 2);
    assert_eq!((v[0].id, v[0].text.as_str(), v[0].created_at), (2, "t2", 200));
    assert_eq!((v[1].id, v[1].text.as_str(), v[1].created_at), (1, "t1", 100));
    assert!(entries_from_rows(vec![]).unwrap().is_empty());
    assert!(matches!(
        entries_from_rows(vec![row(3, 300), row(2, MAX_UTC_MS + 5), row(1, MIN_UTC_MS - 9)]),
        Err(StoreError::InvalidCreatedAt(v)) if v == MAX_UTC_MS + 5
    ));
}

#[test]
fn old_schema_check_decides_rebuild() {
    assert!(needs_rebuild(Some(1)));
    assert!(needs_rebuild(Some(3)));
    assert!(!needs_rebuild(Some(0)));
    assert!(!needs_rebuild(Some(-1)));
    assert!(!needs_rebuild(None));
}

#[test]
fn fresh_store_needs_no_rebuild() {
    let s = Store::open_in_memory().unwrap();
    assert!(!s.rebuilt_old_schema());
    assert!(s.all().is_empty());
}

#[test]
fn inserted_id_is_the_database_id() {
    let mut s = Store::open_in_memory().unwrap();
    let a = s.insert_at("first", 1_000).unwrap();
    let b = s.insert_at("second", 2_000).unwrap();
    let live = s.load_live().unwrap();
    assert_eq!(live.len(), 2);
    assert_eq!((live[0].id, live[0].created_at), (b.id, 2_000));
    assert_eq!((live[1].id, live[1].created_at), (a.id, 1_000));
    assert_eq!(s.delete(a.id, 3_000).unwrap().unwrap().text, "first");
    let live = s.load_live().unwrap();
    assert_eq!(live.len(), 1);
    assert_eq!(live[0].id, b.id);
}
