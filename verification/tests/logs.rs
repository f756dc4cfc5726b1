use paas::app_repo::StoreError;
use paas::log_handlers::{get_app_logs, parse_time, post_log, reply_logs, select, Selection};
use paas::log_repo::{
    cleanup_logs, delete_old_logs, get_logs, get_logs_since, insert_log, trim_logs_per_app,
    LogStore, MAX_LOGS_PER_APP, RETENTION_MICROS,
};
use paas::model::{AppLog, LogQuery, NewAppLog};
use paas::wire::Body;

fn line(app_id: u128, message: &str) -> NewAppLog {
    NewAppLog { app_id, stream: "stdout".to_string(), message: message.to_string() }
}

fn messages(logs: &[AppLog]) -> Vec<&str> {
    logs.iter().map(|l| l.message.as_str()).collect()
}

fn filled() -> LogStore {
    let mut store = LogStore::new();
    insert_log(&mut store, &line(1, "a"), 10);
    insert_log(&mut store, &line(2, "x"), 20);
    insert_log(&mut store, &line(1, "b"), 30);
    insert_log(&mut store, &line(1, "c"), 40);
    insert_log(&mut store, &line(2, "y"), 50);
    store
}

#[test]
fn ids_rise_from_one() {
    let mut store = LogStore::new();
    assert_eq!(insert_log(&mut store, &line(1, "a"), 10), 1);
    assert_eq!(insert_log(&mut store, &line(1, "b"), 5), 2);
    assert_eq!(insert_log(&mut store, &line(2, "c"), 10), 3);
    assert_eq!(store.len(), 3);
}

#[test]
fn entries_are_kept_oldest_first() {
    let mut store = LogStore::new();
    insert_log(&mut store, &line(1, "late"), 30);
    insert_log(&mut store, &line(1, "early"), 10);
    insert_log(&mut store, &line(1, "middle"), 20);
    insert_log(&mut store, &line(1, "middle2"), 20);
    let all = store.entries();
    assert_eq!(messages(&all), vec!["early", "middle", "middle2", "late"]);
    assert_eq!(all[0].created_at, 10);
    assert_eq!(all[0].stream, "stdout");
}

#[test]
fn since_is_strict_and_ascending() {
    let store = filled();
    let logs = get_logs_since(&store, 1, 10);
    assert_eq!(messages(&logs), vec!["b", "c"]);
    assert_eq!(messages(&get_logs_since(&store, 1, 9)), vec!["a", "b", "c"]);
    assert!(get_logs_since(&store, 1, 40).is_empty());
    assert!(get_logs_since(&store, 3, 0).is_empty());
    assert_eq!(messages(&get_logs_since(&store, 2, 20)), vec!["y"]);
}

#[test]
fn limit_returns_newest_oldest_first() {
    let store = filled();
    assert_eq!(messages(&get_logs(&store, 1, 2).unwrap()), vec!["b", "c"]);
    assert_eq!(messages(&get_logs(&store, 1, 3).unwrap()), vec!["a", "b", "c"]);
    assert_eq!(messages(&get_logs(&store, 1, 100).unwrap()), vec!["a", "b", "c"]);
    assert_eq!(messages(&get_logs(&store, 1, 1).unwrap()), vec!["c"]);
    assert!(get_logs(&store, 1, 0).unwrap().is_empty());
    assert!(get_logs(&store, 9, 5).unwrap().is_empty());
}

#[test]
fn negative_limit_is_refused() {
    let store = filled();
    assert_eq!(get_logs(&store, 1, -1).unwrap_err(), StoreError::NegativeLimit);
    let reply = reply_logs(&store, 1, Selection::Newest(-1));
    assert_eq!(reply.code, 500);
}

#[test]
fn old_entries_are_deleted() {
    let now = 10 * RETENTION_MICROS;
    let mut store = LogStore::new();
    insert_log(&mut store, &line(1, "old"), now - RETENTION_MICROS - 1);
    insert_log(&mut store, &line(1, "edge"), now - RETENTION_MICROS);
    insert_log(&mut store, &line(1, "new"), now);
    let removed = delete_old_logs(&mut store, now);
    assert_eq!(removed, vec![1]);
    assert_eq!(messages(&store.entries()), vec!["edge", "new"]);
    assert_eq!(RETENTION_MICROS, 7 * 24 * 60 * 60 * 1_000_000);
}

#[test]
fn retention_handles_extreme_times() {
    let mut store = LogStore::new();
    insert_log(&mut store, &line(1, "min"), i64::MIN);
    insert_log(&mut store, &line(1, "max"), i64::MAX);
    assert!(delete_old_logs(&mut store, i64::MIN).is_empty());
    assert_eq!(delete_old_logs(&mut store, i64::MAX), vec![1]);
    assert_eq!(store.len(), 1);
}

#[test]
fn trim_keeps_newest_thousand_per_application() {
    let mut store = LogStore::new();
    for i in 0..1005 {
        insert_log(&mut store, &line(1, "m"), i);
    }
    for i in 0..3 {
        insert_log(&mut store, &line(2, "n"), i);
    }
    let removed = trim_logs_per_app(&mut store);
    assert_eq!(removed.len(), 5);
    let all = store.entries();
    let own: Vec<&AppLog> = all.iter().filter(|l| l.app_id == 1).collect();
    assert_eq!(own.len(), MAX_LOGS_PER_APP);
    assert_eq!(own[0].created_at, 5);
    assert_eq!(own[999].created_at, 1004);
    assert_eq!(all.iter().filter(|l| l.app_id == 2).count(), 3);
    assert!(trim_logs_per_app(&mut store).is_empty());
}

#[test]
fn cleanup_applies_both_policies() {
    let now = 10 * RETENTION_MICROS;
    let mut store = LogStore::new();
    insert_log(&mut store, &line(1, "old"), 0);
    for i in 0..1001 {
        insert_log(&mut store, &line(1, "m"), now - 2000 + i);
    }
    let removed = cleanup_logs(&mut store, now);
    assert_eq!(removed.expired, vec![1]);
    assert_eq!(removed.excess, vec![2]);
    assert_eq!(store.len(), 1000);
    for entry in store.entries() {
        assert!(entry.created_at >= now - RETENTION_MICROS);
    }
}

#[test]
fn from_rows_arranges_and_continues_ids() {
    let rows = vec![
        AppLog { id: 9, app_id: 1, stream: "s".into(), message: "b".into(), created_at: 20 },
        AppLog { id: 4, app_id: 1, stream: "s".into(), message: "a".into(), created_at: 10 },
        AppLog { id: 3, app_id: 1, stream: "s".into(), message: "b0".into(), created_at: 20 },
    ];
    let mut store = LogStore::from_rows(rows);
    assert_eq!(messages(&store.entries()), vec!["a", "b0", "b"]);
    assert_eq!(insert_log(&mut store, &line(1, "c"), 5), 10);
    assert_eq!(messages(&store.entries()), vec!["c", "a", "b0", "b"]);
}

#[test]
fn time_is_read_in_microseconds() {
    assert_eq!(parse_time("1970-01-01T00:00:01Z"), Some(1_000_000));
    assert_eq!(parse_time("1970-01-01 00:00:00.000444+00:00"), Some(444));
    assert_eq!(parse_time("1970-01-01T01:00:00+01:00"), Some(0));
    assert_eq!(parse_time("2001-09-09T01:46:40.000555Z"), Some(1_000_000_000_000_555));
    assert_eq!(parse_time("yesterday"), None);
    assert_eq!(parse_time(""), None);
}

#[test]
fn query_with_since_takes_precedence() {
    let both = LogQuery { limit: Some(1), since: Some("x".to_string()) };
    assert_eq!(select(&both, Some(5)), Selection::Since(5));
    assert_eq!(select(&both, None), Selection::BadTime);
    let limit = LogQuery { limit: Some(7), since: None };
    assert_eq!(select(&limit, None), Selection::Newest(7));
    assert_eq!(select(&limit, Some(3)), Selection::Newest(7));
    let neither = LogQuery { limit: None, since: None };
    assert_eq!(select(&neither, None), Selection::Newest(100));
}

#[test]
fn app_logs_are_answered_by_query() {
    let mut store = LogStore::new();
    insert_log(&mut store, &line(1, "a"), 1_000_000);
    insert_log(&mut store, &line(1, "b"), 2_000_000);
    insert_log(&mut store, &line(1, "c"), 3_000_000);
    let since = LogQuery { limit: Some(1), since: Some("1970-01-01T00:00:01Z".to_string()) };
    let reply = get_app_logs(&store, 1, &since);
    assert_eq!(reply.code, 200);
    match &reply.body {
        Body::Logs(logs) => assert_eq!(messages(logs), vec!["b", "c"]),
        other => panic!("unexpected body {:?}", other),
    }
    let bad = LogQuery { limit: None, since: Some("soon".to_string()) };
    let reply = get_app_logs(&store, 1, &bad);
    assert_eq!(reply.code, 400);
    match &reply.body {
        Body::Text(t) => assert_eq!(t, "Invalid since timestamp"),
        other => panic!("unexpected body {:?}", other),
    }
    let limit = LogQuery { limit: Some(2), since: None };
    match &get_app_logs(&store, 1, &limit).body {
        Body::Logs(logs) => assert_eq!(messages(logs), vec!["b", "c"]),
        other => panic!("unexpected body {:?}", other),
    }
}

#[test]
fn default_limit_is_one_hundred() {
    let mut store = LogStore::new();
    for i in 0..150 {
        insert_log(&mut store, &line(1, "m"), i);
    }
    let reply = get_app_logs(&store, 1, &LogQuery { limit: None, since: None });
    match &reply.body {
        Body::Logs(logs) => {
            assert_eq!(logs.len(), 100);
            assert_eq!(logs[0].created_at, 50);
            assert_eq!(logs[99].created_at, 149);
        }
        other => panic!("unexpected body {:?}", other),
    }
}

#[test]
fn post_log_stores_and_confirms() {
    let mut store = LogStore::new();
    let reply = post_log(&mut store, &line(4, "hello"), 77);
    assert_eq!(reply.code, 200);
    assert!(matches!(reply.body, Body::Empty));
    let all = store.entries();
    assert_eq!(all.len(), 1);
    assert_eq!((all[0].id, all[0].app_id, all[0].created_at), (1, 4, 77));
    assert_eq!(all[0].message, "hello");
}
