use shorturl::config::{
    insert_status, ip_to_string, redirect_response, remove_status, Config, LOCALHOST,
};
use shorturl::db_store::{Store, StoreError};
use shorturl::request::{
    authorize_token, convert_header_to_string, rejection_reply, request_meta, RejectionKind,
};
use shorturl::types::Meta;

fn meta() -> Meta {
    Meta { address: None, header: None }
}

fn lookup(store: &mut Store, code: &str, config: &Config, now: u64) -> (u16, Option<String>) {
    let r = redirect_response(store.get(code, &meta(), now), config);
    (r.status, r.location)
}

#[test]
fn scenario_insert_then_redirect() {
    let mut s = Store::new();
    let config = Config::new(false, None);
    assert_eq!(insert_status(&s.insert("abc", "https://example.com", &meta(), 1)), 201);
    assert_eq!(lookup(&mut s, "abc", &config, 2), (301, Some("https://example.com".to_string())));
}

#[test]
fn scenario_repeat_insert_conflicts() {
    let mut s = Store::new();
    let config = Config::new(false, None);
    assert_eq!(insert_status(&s.insert("abc", "https://example.com", &meta(), 1)), 201);
    assert_eq!(insert_status(&s.insert("abc", "https://other.example", &meta(), 2)), 409);
    assert_eq!(lookup(&mut s, "abc", &config, 3), (301, Some("https://example.com".to_string())));
}

#[test]
fn scenario_delete_then_not_found() {
    let mut s = Store::new();
    let config = Config::new(false, None);
    s.insert("abc", "https://example.com", &meta(), 1).unwrap();
    assert_eq!(remove_status(&Ok(s.remove("abc"))), 200);
    assert_eq!(lookup(&mut s, "abc", &config, 2), (404, None));
    assert_eq!(remove_status(&Ok(s.remove("abc"))), 400);
}

#[test]
fn scenario_fallback_redirect() {
    let mut s = Store::new();
    let config = Config::new(false, Some("https://fallback.example".to_string()));
    assert_eq!(
        lookup(&mut s, "missing-code", &config, 1),
        (301, Some("https://fallback.example".to_string()))
    );
}

#[test]
fn scenario_logs_count_every_attempt() {
    let mut s = Store::new();
    let config = Config::new(false, None);
    s.insert("abc", "https://example.com", &meta(), 1).unwrap();
    lookup(&mut s, "abc", &config, 2);
    s.insert("abc", "https://other.example", &meta(), 3).unwrap_err();
    lookup(&mut s, "abc", &config, 4);
    s.remove("abc");
    lookup(&mut s, "abc", &config, 5);
    let logs = s.get_summarised_access_logs();
    let abc = logs.iter().find(|l| l.code == "abc").unwrap();
    assert_eq!(abc.access_count, 3);
    assert_eq!(abc.last_access, Some(5));
}

#[test]
fn found_status_when_configured() {
    let mut s = Store::new();
    let config = Config::new(true, None);
    assert_eq!(config.redirect_http_type, 302);
    s.insert("abc", "https://example.com", &meta(), 1).unwrap();
    assert_eq!(lookup(&mut s, "abc", &config, 2), (302, Some("https://example.com".to_string())));
}

#[test]
fn ip_addresses_in_dotted_form() {
    assert_eq!(ip_to_string(LOCALHOST), "0.0.0.0");
    assert_eq!(ip_to_string([127, 0, 0, 1]), "127.0.0.1");
    assert_eq!(ip_to_string([255, 10, 99, 100]), "255.10.99.100");
}

#[test]
fn headers_become_a_json_object() {
    let headers = vec![("host".to_string(), "example.com".to_string())];
    assert_eq!(convert_header_to_string(&headers), Some("{\"host\":\"example.com\"}".to_string()));
    assert_eq!(convert_header_to_string(&vec![]), Some("{}".to_string()));
}

#[test]
fn request_meta_keeps_address_and_headers() {
    let headers = vec![("accept".to_string(), "*/*".to_string())];
    let m = request_meta(&Some("10.0.0.1:80".to_string()), &headers);
    assert_eq!(m.address, Some("10.0.0.1:80".to_string()));
    assert_eq!(m.header, Some("{\"accept\":\"*/*\"}".to_string()));
}

#[test]
fn only_the_operator_key_authorizes() {
    let mut s = Store::new();
    let key = s.create_api_key(0).unwrap();
    let other = s.create_api_key(5).unwrap();
    assert!(authorize_token(&s, &key));
    assert!(!authorize_token(&s, &other));
    assert!(!authorize_token(&s, ""));
}

#[test]
fn rejections_map_to_statuses() {
    assert_eq!(rejection_reply(RejectionKind::NotFound), (404, "NOT_FOUND".to_string()));
    assert_eq!(rejection_reply(RejectionKind::Unauthorized), (401, "UNAUTHORIZED".to_string()));
    assert_eq!(rejection_reply(RejectionKind::InvalidParameter), (400, "BAD_REQUEST".to_string()));
    assert_eq!(rejection_reply(RejectionKind::MethodNotAllowed), (405, "METHOD_NOT_ALLOWED".to_string()));
    assert_eq!(rejection_reply(RejectionKind::Other), (500, "INTERNAL_SERVER_ERROR".to_string()));
}

#[test]
fn storage_failures_answer_server_error() {
    assert_eq!(insert_status(&Err(StoreError::PersistenceFailure)), 500);
    assert_eq!(insert_status(&Err(StoreError::Conflict)), 409);
    assert_eq!(insert_status(&Ok(())), 201);
    assert_eq!(remove_status(&Err(StoreError::PersistenceFailure)), 500);
    assert_eq!(remove_status(&Ok(1)), 200);
    assert_eq!(remove_status(&Ok(0)), 400);
}
