use shorturl::db_store::{AccessEvent, ApiKeyCredential, MappingRow, Store, StoreError, API_KEY_LEN};
use shorturl::types::{Meta, MetaType};

fn meta() -> Meta {
    Meta { address: Some("127.0.0.1:5000".to_string()), header: None }
}

fn no_meta() -> Meta {
    Meta { address: None, header: None }
}

#[test]
fn insert_then_resolve_returns_url() {
    let mut s = Store::new();
    assert_eq!(s.insert("abc", "https://example.com", &meta(), 1), Ok(()));
    assert_eq!(s.get("abc", &meta(), 2), Some("https://example.com".to_string()));
    let all = s.get_all();
    assert_eq!(all.len(), 1);
    assert_eq!(all[0].short_code, "abc");
    assert_eq!(all[0].url, "https://example.com");
    assert!(s.mapping(0).active);
    assert_eq!(s.mapping(0).id, 0);
    assert_eq!(s.mapping(0).created_at, 1);
}

#[test]
fn duplicate_insert_conflicts_and_keeps_first_url() {
    let mut s = Store::new();
    assert_eq!(s.insert("abc", "https://one.example", &meta(), 1), Ok(()));
    let events_before = s.event_count();
    assert_eq!(s.insert("abc", "https://two.example", &meta(), 2), Err(StoreError::Conflict));
    assert_eq!(s.event_count(), events_before);
    assert_eq!(s.mapping_count(), 1);
    assert_eq!(s.get("abc", &meta(), 3), Some("https://one.example".to_string()));
}

#[test]
fn remove_is_idempotent_and_code_stops_resolving() {
    let mut s = Store::new();
    s.insert("abc", "https://example.com", &meta(), 1).unwrap();
    assert_eq!(s.remove("abc"), 1);
    assert_eq!(s.remove("abc"), 0);
    assert_eq!(s.get("abc", &meta(), 2), None);
    assert!(!s.mapping(0).active);
    assert_eq!(s.get_all().len(), 0);
}

#[test]
fn remove_of_unknown_code_affects_nothing() {
    let mut s = Store::new();
    assert_eq!(s.remove("nothing"), 0);
    assert_eq!(s.mapping_count(), 0);
}

#[test]
fn removed_code_can_be_registered_again() {
    let mut s = Store::new();
    s.insert("abc", "https://old.example", &meta(), 1).unwrap();
    assert_eq!(s.remove("abc"), 1);
    assert_eq!(s.insert("abc", "https://new.example", &meta(), 2), Ok(()));
    assert_eq!(s.mapping_count(), 2);
    assert_eq!(s.mapping(1).id, 1);
    assert_eq!(s.get("abc", &meta(), 3), Some("https://new.example".to_string()));
}

#[test]
fn insert_records_one_create_event_naming_the_row() {
    let mut s = Store::new();
    s.insert("x", "https://x.example", &meta(), 10).unwrap();
    assert_eq!(s.event_count(), 1);
    let e = s.event(0);
    assert_eq!(e.meta_type, MetaType::Create);
    assert_eq!(e.short_code, "x");
    assert_eq!(e.short_code_id, Some(0));
    assert_eq!(e.created_at, 10);
    assert_eq!(e.address, Some("127.0.0.1:5000".to_string()));
    assert_eq!(e.header, None);
}

#[test]
fn every_resolve_appends_one_access_event() {
    let mut s = Store::new();
    s.insert("abc", "https://example.com", &meta(), 1).unwrap();
    s.get("abc", &meta(), 2);
    assert_eq!(s.event_count(), 2);
    assert_eq!(s.event(1).meta_type, MetaType::Access);
    assert_eq!(s.event(1).short_code_id, Some(0));
    s.get("missing", &no_meta(), 3);
    assert_eq!(s.event_count(), 3);
    assert_eq!(s.event(2).meta_type, MetaType::Access);
    assert_eq!(s.event(2).short_code, "missing");
    assert_eq!(s.event(2).short_code_id, None);
}

#[test]
fn access_count_rises_by_one_per_resolve() {
    let mut s = Store::new();
    s.insert("abc", "https://example.com", &meta(), 1).unwrap();
    let mut previous = 0u64;
    for t in 2..6u64 {
        s.get("abc", &meta(), t);
        let logs = s.get_summarised_access_logs();
        let log = logs.iter().find(|l| l.code == "abc").unwrap();
        assert_eq!(log.access_count, previous + 1);
        assert_eq!(log.last_access, Some(t));
        previous = log.access_count;
    }
}

#[test]
fn summary_of_created_but_never_resolved_code() {
    let mut s = Store::new();
    s.insert("quiet", "https://quiet.example", &meta(), 4).unwrap();
    let logs = s.get_summarised_access_logs();
    assert_eq!(logs.len(), 1);
    assert_eq!(logs[0].code, "quiet");
    assert_eq!(logs[0].url, Some("https://quiet.example".to_string()));
    assert_eq!(logs[0].access_count, 0);
    assert_eq!(logs[0].last_access, None);
}

#[test]
fn summary_of_unknown_code_has_no_url() {
    let mut s = Store::new();
    s.get("ghost", &no_meta(), 9);
    s.get("ghost", &no_meta(), 7);
    let logs = s.get_summarised_access_logs();
    assert_eq!(logs.len(), 1);
    assert_eq!(logs[0].code, "ghost");
    assert_eq!(logs[0].url, None);
    assert_eq!(logs[0].access_count, 2);
    assert_eq!(logs[0].last_access, Some(9));
}

#[test]
fn summary_counts_run_on_across_registrations() {
    let mut s = Store::new();
    s.insert("abc", "https://old.example", &meta(), 1).unwrap();
    s.get("abc", &meta(), 2);
    s.remove("abc");
    s.insert("abc", "https://new.example", &meta(), 3).unwrap();
    s.get("abc", &meta(), 4);
    s.insert("def", "https://def.example", &meta(), 5).unwrap();
    let logs = s.get_summarised_access_logs();
    assert_eq!(logs.len(), 2);
    let abc = logs.iter().find(|l| l.code == "abc").unwrap();
    assert_eq!(abc.access_count, 2);
    assert_eq!(abc.url, Some("https://new.example".to_string()));
    assert_eq!(abc.last_access, Some(4));
    let def = logs.iter().find(|l| l.code == "def").unwrap();
    assert_eq!(def.access_count, 0);
}

#[test]
fn empty_store_has_empty_summary() {
    let s = Store::new();
    assert!(s.get_summarised_access_logs().is_empty());
    assert!(s.get_all().is_empty());
}

#[test]
fn api_key_issue_and_check() {
    let mut s = Store::new();
    assert!(!s.has_api_key(0));
    let key = s.create_api_key(0).unwrap();
    assert!(s.has_api_key(0));
    assert!(s.check_api_key(0, &key));
    assert!(!s.check_api_key(0, "garbage"));
    assert!(!s.check_api_key(1, &key));
    assert!(!s.has_api_key(1));
}

#[test]
fn api_keys_are_thirty_alphanumerics_and_fresh() {
    let mut s = Store::new();
    let a = s.create_api_key(0).unwrap();
    let b = s.create_api_key(0).unwrap();
    assert_eq!(a.chars().count(), API_KEY_LEN);
    assert!(a.chars().all(|c| c.is_ascii_alphanumeric()));
    assert_eq!(b.len(), 30);
    assert_ne!(a, b);
    assert!(s.check_api_key(0, &a));
    assert!(s.check_api_key(0, &b));
    assert_eq!(s.list_api_key(0), vec![a.clone(), b.clone()]);
    assert!(s.list_api_key(7).is_empty());
    assert_eq!(s.api_key_count(), 2);
    assert_eq!(s.api_key(1).api_key, b);
}

#[test]
fn issuing_a_held_key_again_is_refused() {
    let mut s = Store::new();
    assert_eq!(s.issue_api_key(0, "secret".to_string()), Ok(()));
    assert_eq!(s.issue_api_key(0, "secret".to_string()), Err(StoreError::KeyExists));
    assert_eq!(s.api_key_count(), 1);
    assert_eq!(s.list_api_key(0), vec!["secret".to_string()]);
    assert_eq!(s.issue_api_key(1, "secret".to_string()), Ok(()));
    assert!(s.check_api_key(1, "secret"));
    assert_eq!(s.api_key_count(), 2);
}

#[test]
fn drawn_key_is_new_for_the_user() {
    let mut s = Store::new();
    s.issue_api_key(0, "k".to_string()).unwrap();
    let drawn = s.create_api_key(0).unwrap();
    assert_ne!(drawn, "k");
    assert_eq!(s.list_api_key(0), vec!["k".to_string(), drawn]);
}

#[test]
fn from_rows_refuses_a_key_listed_twice() {
    let keys = vec![
        ApiKeyCredential { uid: 0, api_key: "k".to_string() },
        ApiKeyCredential { uid: 0, api_key: "k".to_string() },
    ];
    assert!(Store::from_rows(vec![], vec![], keys).is_none());
    let keys = vec![
        ApiKeyCredential { uid: 0, api_key: "k".to_string() },
        ApiKeyCredential { uid: 1, api_key: "k".to_string() },
    ];
    assert!(Store::from_rows(vec![], vec![], keys).is_some());
}

#[test]
fn bootstrap_issues_a_key_only_once() {
    let mut s = Store::new();
    let first = s.bootstrap_api_key(0);
    assert!(first.is_some());
    assert!(s.check_api_key(0, first.as_ref().unwrap()));
    assert_eq!(s.bootstrap_api_key(0), None);
    assert_eq!(s.list_api_key(0).len(), 1);
}

fn row(id: usize, code: &str, url: &str, active: bool) -> MappingRow {
    MappingRow { id, short_code: code.to_string(), long_url: url.to_string(), created_at: 0, active }
}

#[test]
fn from_rows_restores_a_consistent_history() {
    let rows = vec![row(0, "abc", "https://old.example", false), row(1, "abc", "https://new.example", true)];
    let events = vec![AccessEvent {
        meta_type: MetaType::Access,
        short_code: "abc".to_string(),
        short_code_id: Some(1),
        created_at: 5,
        address: None,
        header: None,
    }];
    let keys = vec![ApiKeyCredential { uid: 0, api_key: "k".to_string() }];
    let mut s = Store::from_rows(rows, events, keys).unwrap();
    assert_eq!(s.get("abc", &no_meta(), 6), Some("https://new.example".to_string()));
    assert!(s.check_api_key(0, "k"));
    assert_eq!(s.get_summarised_access_logs()[0].access_count, 2);
}

#[test]
fn from_rows_refuses_two_active_rows_of_one_code() {
    let rows = vec![row(0, "abc", "https://a.example", true), row(1, "abc", "https://b.example", true)];
    assert!(Store::from_rows(rows, vec![], vec![]).is_none());
}

#[test]
fn from_rows_refuses_ids_out_of_place() {
    let rows = vec![row(1, "abc", "https://a.example", true)];
    assert!(Store::from_rows(rows, vec![], vec![]).is_none());
}

#[test]
fn meta_type_codes_round_trip() {
    assert_eq!(MetaType::Create.code(), 1);
    assert_eq!(MetaType::Access.code(), 2);
    assert_eq!(MetaType::from_code(1), Some(MetaType::Create));
    assert_eq!(MetaType::from_code(2), Some(MetaType::Access));
    assert_eq!(MetaType::from_code(0), None);
    assert_eq!(MetaType::from_code(3), None);
    assert_eq!(MetaType::Create.name(), "Create");
    assert_eq!(MetaType::Access.name(), "Access");
    let table = shorturl::types::meta_type_lookup();
    assert_eq!(table, vec![(1u8, "Create".to_string()), (2u8, "Access".to_string())]);
}
