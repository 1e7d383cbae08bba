use dataset_monitor::category::{classify_status, classify_transport, text_contains, ErrorCategory, TransportFailure};
use dataset_monitor::credential::{AuthError, AuthResponse, CredentialCache, ParseError, Service, Ticket, TokenInfo};
use dataset_monitor::dataset::{clean_json_string, Dataset, DocumentStore, FieldValue, ItemValue};
use dataset_monitor::discovery::{new_ids, parse_list_response, DiscoveryError, IdLedger, IdStatus};
use dataset_monitor::fetch::{process_detail, DetailFetchError};
use dataset_monitor::health::{apply_outcome, placeholder_records, response_outcome, summarize, CheckError, MonitorRecord};
use dataset_monitor::monitor::{begin_run, finish_run};
use dataset_monitor::table::{HealthTable, Statement};

fn strings(v: &[&str]) -> Vec<String> {
    v.iter().map(|s| s.to_string()).collect()
}

fn failure(timeout: bool, connect: bool, redirect: bool, request: bool, cause: Option<&str>) -> TransportFailure {
    TransportFailure::new(timeout, connect, redirect, request, cause)
}

fn auth(expires: i64) -> AuthResponse {
    AuthResponse {
        ticket: Ticket { expires, token: "tok".to_string() },
        service_list: vec![
            Service { name: "DATASET_LIST".to_string(), version: "2.0".to_string(), url: "https://p.test/list".to_string() },
            Service { name: "GET_DATASET_DETAILS".to_string(), version: "2.0".to_string(), url: "https://p.test/detail".to_string() },
        ],
    }
}

fn record(id: u64, local: bool, category: Option<ErrorCategory>, status: Option<i32>) -> MonitorRecord {
    MonitorRecord {
        id,
        raw_id: None,
        url: format!("https://x.test/{}", id),
        name: None,
        center_name: "c".to_string(),
        date_published: None,
        check_time: 0,
        status_code: status,
        status_text: None,
        error_category: category,
        error_msg: None,
        error_detail: None,
        response_time_ms: None,
        is_likely_local_issue: local,
        headers: None,
    }
}

#[test]
fn timeout_is_local() {
    let c = classify_transport(&failure(true, false, false, false, None));
    assert_eq!(c, ErrorCategory::Timeout);
    assert!(c.is_likely_local_issue());
}

#[test]
fn server_error_is_remote() {
    let c = classify_status(503).unwrap();
    assert_eq!(c, ErrorCategory::ServerError);
    assert!(!c.is_likely_local_issue());
}

#[test]
fn client_error_is_remote() {
    let c = classify_status(404).unwrap();
    assert_eq!(c, ErrorCategory::ClientError);
    assert!(!c.is_likely_local_issue());
}

#[test]
fn dns_failure_is_local() {
    let f = failure(false, true, false, false, Some("dns error: failed to lookup address information"));
    let c = classify_transport(&f);
    assert_eq!(c, ErrorCategory::DnsResolution);
    assert!(c.is_likely_local_issue());
}

#[test]
fn cause_text_is_lowercased_before_matching() {
    let f = failure(false, true, false, false, Some("Connection Refused (os error 111)"));
    assert_eq!(f.cause.as_deref(), Some("connection refused (os error 111)"));
    assert_eq!(classify_transport(&f), ErrorCategory::ConnectionRefused);
    let g = failure(false, true, false, false, Some("Failed to RESOLVE host"));
    assert_eq!(classify_transport(&g), ErrorCategory::DnsResolution);
}

#[test]
fn connect_failures_default_to_network() {
    assert_eq!(classify_transport(&failure(false, true, false, false, None)), ErrorCategory::NetworkConnection);
    assert_eq!(classify_transport(&failure(false, true, false, false, Some("no route to host"))), ErrorCategory::NetworkConnection);
    assert_eq!(classify_transport(&failure(false, true, false, false, Some("broken pipe"))), ErrorCategory::NetworkConnection);
}

#[test]
fn other_transport_failures() {
    assert_eq!(classify_transport(&failure(false, false, true, false, None)), ErrorCategory::TooManyRedirects);
    assert_eq!(classify_transport(&failure(false, false, false, true, None)), ErrorCategory::RequestCanceled);
    assert_eq!(classify_transport(&failure(false, false, false, false, Some("invalid peer Certificate"))), ErrorCategory::SslCertificate);
    assert_eq!(classify_transport(&failure(false, false, false, false, Some("tls handshake eof"))), ErrorCategory::SslCertificate);
    assert_eq!(classify_transport(&failure(false, false, false, false, Some("body error"))), ErrorCategory::Unknown);
    assert_eq!(classify_transport(&failure(false, false, false, false, None)), ErrorCategory::Unknown);
}

#[test]
fn timeout_takes_precedence() {
    assert_eq!(classify_transport(&failure(true, true, true, true, Some("connection refused"))), ErrorCategory::Timeout);
}

#[test]
fn success_statuses_are_not_classified() {
    assert_eq!(classify_status(200), None);
    assert_eq!(classify_status(301), None);
    assert_eq!(classify_status(399), None);
    assert_eq!(classify_status(600), None);
    assert_eq!(classify_status(400), Some(ErrorCategory::ClientError));
    assert_eq!(classify_status(599), Some(ErrorCategory::ServerError));
}

#[test]
fn local_issue_table() {
    let local = [ErrorCategory::NetworkConnection, ErrorCategory::DnsResolution, ErrorCategory::Timeout, ErrorCategory::RequestCanceled];
    let remote = [ErrorCategory::SslCertificate, ErrorCategory::ConnectionRefused, ErrorCategory::ServerError, ErrorCategory::ClientError, ErrorCategory::TooManyRedirects, ErrorCategory::Unknown];
    for c in local.iter() {
        assert!(c.is_likely_local_issue());
    }
    for c in remote.iter() {
        assert!(!c.is_likely_local_issue());
    }
    assert_eq!(ErrorCategory::DnsResolution.name(), "DnsResolution");
}

#[test]
fn substring_search() {
    assert!(text_contains("abcdef", "cde"));
    assert!(text_contains("abc", ""));
    assert!(!text_contains("abc", "abcd"));
    assert!(!text_contains("abcabd", "abe"));
    assert!(text_contains("héllo wörld", "ö"));
}

#[test]
fn discovery_persists_the_difference_once() {
    let mut ledger = IdLedger::new();
    let fetched = strings(&["a", "b", "c"]);
    assert_eq!(ledger.discover("p", &strings(&["b"]), 1), 1);
    assert_eq!(ledger.discover("p", &fetched, 2), 2);
    assert_eq!(ledger.len(), 3);
    assert_eq!(ledger.record(1), ("p".to_string(), "a".to_string(), IdStatus::Pending));
    assert_eq!(ledger.record(2), ("p".to_string(), "c".to_string(), IdStatus::Pending));
    assert_eq!(ledger.discover("p", &fetched, 3), 0);
    assert_eq!(ledger.len(), 3);
    assert_eq!(ledger.discover("q", &strings(&["a"]), 4), 1);
}

#[test]
fn discovery_counts_known_processed_ids_as_known() {
    let mut ledger = IdLedger::new();
    ledger.discover("p", &strings(&["a"]), 1);
    ledger.mark_processed("p", "a", 2);
    assert_eq!(ledger.discover("p", &strings(&["a", "b"]), 3), 1);
    assert_eq!(ledger.pending_for("p"), strings(&["b"]));
    assert_eq!(ledger.known_for("p"), strings(&["a", "b"]));
}

#[test]
fn new_ids_dedups_in_order() {
    let r = new_ids(&strings(&["x", "a", "x", "b", "a"]), &strings(&["b"]));
    assert_eq!(r, strings(&["x", "a"]));
    assert!(new_ids(&strings(&[]), &strings(&["b"])).is_empty());
}

#[test]
fn list_response_parsing() {
    assert_eq!(parse_list_response(200, r#"[{"id":"a"},{"id":"b"},{"name":"x"},{"id":3}]"#).unwrap(), strings(&["a", "b"]));
    assert!(matches!(parse_list_response(401, "expired"), Err(DiscoveryError::Unauthorized(401, b)) if b == "expired"));
    assert!(matches!(parse_list_response(403, ""), Err(DiscoveryError::Unauthorized(403, _))));
    assert!(matches!(parse_list_response(100, ""), Err(DiscoveryError::Status(100, _))));
    match parse_list_response(302, "moved") {
        Err(DiscoveryError::Redirected(302, b)) => assert_eq!(b, "moved"),
        other => panic!("{:?}", other),
    }
    match parse_list_response(500, "oops") {
        Err(DiscoveryError::Status(500, b)) => assert_eq!(b, "oops"),
        other => panic!("{:?}", other),
    }
    assert!(matches!(parse_list_response(200, "not json"), Err(DiscoveryError::NotJson(_))));
    assert!(matches!(parse_list_response(200, r#"{"id":"a"}"#), Err(DiscoveryError::NotArray(_))));
}

#[test]
fn scenario_discovery_then_details() {
    let mut ledger = IdLedger::new();
    let mut store = DocumentStore::new();
    let ids = parse_list_response(200, r#"[{"id":"a"},{"id":"b"}]"#).unwrap();
    assert_eq!(ledger.discover("p", &ids, 10), 2);
    assert_eq!(ledger.pending_for("p"), strings(&["a", "b"]));
    let ok = process_detail(&mut ledger, &mut store, "p", "a", 200, r#"{"@id":"x1","schema:url":"https://a.test"}"#, 11);
    assert_eq!(ok, Ok(()));
    let failed = process_detail(&mut ledger, &mut store, "p", "b", 500, "", 12);
    assert_eq!(failed, Err(DetailFetchError::Status(500)));
    assert_eq!(ledger.record(0).2, IdStatus::Processed);
    assert_eq!(ledger.record(1).2, IdStatus::Pending);
    assert_eq!(ledger.pending_for("p"), strings(&["b"]));
    assert_eq!(store.len(), 1);
    assert_eq!(store.get(0).1.casdc_id.as_deref(), Some("a"));
}

#[test]
fn detail_with_control_characters_is_cleaned() {
    let mut ledger = IdLedger::new();
    let mut store = DocumentStore::new();
    ledger.discover("p", &strings(&["a"]), 1);
    let body = "{\"schema:name\":\"n\u{1}ame\",\n\"schema:url\":\"u\"}\u{7}";
    assert_eq!(process_detail(&mut ledger, &mut store, "p", "a", 200, body, 2), Ok(()));
    assert_eq!(store.get(0).1.extract_name(), "name");
    assert_eq!(process_detail(&mut ledger, &mut store, "p", "a", 200, "{\"schema:url\":\"v\"}", 3), Ok(()));
    assert_eq!(store.len(), 1);
    assert_eq!(store.get(0).1.extract_url().as_deref(), Some("v"));
    assert_eq!(process_detail(&mut ledger, &mut store, "p", "a", 200, "{", 4), Err(DetailFetchError::Parse(ParseError::NotJson)));
    assert_eq!(process_detail(&mut ledger, &mut store, "p", "a", 200, "[1]", 4), Err(DetailFetchError::Parse(ParseError::Shape)));
}

#[test]
fn clean_keeps_newlines_and_tabs() {
    assert_eq!(clean_json_string("a\u{0}b\nc\rd\te\u{1f}f é"), "ab\nc\rd\tef é");
    assert_eq!(clean_json_string("\u{7f}x\u{80}y\u{9f}z\u{a0}~"), "xyz\u{a0}~");
    assert_eq!(clean_json_string(""), "");
}

#[test]
fn name_extraction_forms() {
    let d = Dataset::from_json(r#"{"schema:name":{"@value":"Lab"},"schema:datePublished":"2020-01-01"}"#, "e", 5).unwrap();
    assert_eq!(d.extract_name(), "Lab");
    assert_eq!(d.extract_date_published(), "2020-01-01");
    assert_eq!(d.extract_url(), None);
    assert_eq!(d.sync_date, Some(5));
    let d = Dataset::from_json(r#"{"schema:name":[{"@value":"First"},"Second"]}"#, "e", 5).unwrap();
    assert_eq!(d.extract_name(), "First");
    let d = Dataset::from_json(r#"{"schema:name":["Plain"]}"#, "e", 5).unwrap();
    assert_eq!(d.extract_name(), "Plain");
    let d = Dataset::from_json(r#"{"schema:name":[]}"#, "e", 5).unwrap();
    assert_eq!(d.extract_name(), "unknown");
    let d = Dataset::from_json(r#"{"schema:name":{}}"#, "e", 5).unwrap();
    assert_eq!(d.extract_name(), "unknown");
    let d = Dataset::from_json(r#"{"schema:name":7,"schema:datePublished":7}"#, "e", 5).unwrap();
    assert_eq!(d.extract_name(), "Unknown");
    assert_eq!(d.extract_date_published(), "unknown");
    assert!(matches!(d.name, FieldValue::Other));
    let d = Dataset::from_json(r#"{"schema:name":[3]}"#, "e", 5).unwrap();
    assert!(matches!(&d.name, FieldValue::List(items) if matches!(items[0], ItemValue::Other)));
}

#[test]
fn credential_cache_reuses_until_expiry() {
    let mut cache = CredentialCache::new();
    assert!(cache.valid_token("p", 1000).is_none());
    let t = cache.refresh("p", &auth(3600), 1000);
    assert_eq!(t.expires_at, 1000 + 3600 - 300);
    assert_eq!(t.version, "2.0");
    let a = cache.valid_token("p", 1001).unwrap();
    let b = cache.valid_token("p", 4299).unwrap();
    assert_eq!((a.token.as_str(), a.expires_at), (b.token.as_str(), b.expires_at));
    assert_eq!(a.service_url("GET_DATASET_DETAILS").as_deref(), Some("https://p.test/detail"));
    assert!(cache.valid_token("p", 4300).is_none());
    assert!(cache.valid_token("q", 1001).is_none());
    cache.refresh("p", &auth(3600), 4300);
    assert_eq!(cache.valid_token("p", 4300).unwrap().expires_at, 7600);
}

#[test]
fn token_without_services_uses_default_version() {
    let resp = AuthResponse { ticket: Ticket { expires: 10, token: "t".to_string() }, service_list: vec![] };
    let t = TokenInfo::from_auth(&resp, 0);
    assert_eq!(t.version, "1.0");
    assert_eq!(t.expires_at, -290);
    assert_eq!(t.service_url("DATASET_LIST"), None);
    let c = t.clone();
    assert_eq!(c.token, "t");
    let far = AuthResponse { ticket: Ticket { expires: i64::MAX, token: "t".to_string() }, service_list: vec![] };
    assert_eq!(TokenInfo::from_auth(&far, i64::MAX).expires_at, i64::MAX);
}

#[test]
fn auth_response_parsing() {
    let text = r#"{"ticket":{"token":"abc","expires":7200},"serviceList":[{"name":"DATASET_LIST","version":"1.1","url":"https://l"}]}"#;
    let r = AuthResponse::from_json(text).unwrap();
    assert_eq!(r.ticket.token, "abc");
    assert_eq!(r.ticket.expires, 7200);
    assert_eq!(r.service_list.len(), 1);
    assert_eq!(r.service_list[0].url, "https://l");
    assert!(matches!(AuthResponse::from_json("<html>"), Err(ParseError::NotJson)));
    assert!(matches!(AuthResponse::from_json(r#"{"ticket":{}}"#), Err(ParseError::Shape)));
}

#[test]
fn scenario_probe_not_found() {
    let mut store = DocumentStore::new();
    let d = Dataset::from_json(r#"{"schema:url":"https://example.test/404","centerName":"P"}"#, "e1", 1).unwrap();
    store.upsert("p", d);
    let mut records = placeholder_records(&store, &HealthTable::new(), 5);
    assert_eq!(records.len(), 1);
    let outcome = response_outcome(404, Some("Not Found"), String::new());
    apply_outcome(&mut records[0], outcome, 12, 6);
    let r = &records[0];
    assert_eq!(r.status_code, Some(404));
    assert_eq!(r.error_category, Some(ErrorCategory::ClientError));
    assert!(!r.is_likely_local_issue);
    assert_eq!(r.error_msg.as_deref(), Some("Client error: 404 Not Found"));
    assert_eq!(r.error_detail.as_deref(), Some("Status code: 404, reason: Not Found"));
    assert_eq!(r.response_time_ms, Some(12));
    assert_eq!(r.url, "https://example.test/404");
    assert_eq!(r.center_name, "P");
}

#[test]
fn response_outcomes() {
    let ok = response_outcome(200, Some("OK"), "a: b".to_string()).unwrap();
    assert_eq!((ok.status_code, ok.status_text.as_str(), ok.headers.as_deref()), (200, "OK", Some("a: b")));
    let redirect = response_outcome(304, None, String::new()).unwrap();
    assert_eq!(redirect.status_text, "Unknown");
    let e = response_outcome(503, Some("Service Unavailable"), String::new()).unwrap_err();
    assert_eq!(e.category, ErrorCategory::ServerError);
    assert_eq!(e.message, "Server error: 503 Service Unavailable");
    assert_eq!(e.status_code, Some(503));
}

#[test]
fn transport_failure_is_recorded() {
    let f = failure(true, false, false, false, None);
    let e = CheckError { category: classify_transport(&f), message: "timed out".to_string(), detail: "detail".to_string(), status_code: None };
    assert_eq!(e.category, ErrorCategory::Timeout);
    let mut r = record(1, false, None, None);
    apply_outcome(&mut r, Err(e), 30000, 9);
    assert!(r.is_likely_local_issue);
    assert_eq!(r.status_code, None);
    assert_eq!(r.error_msg.as_deref(), Some("timed out"));
    assert_eq!(r.check_time, 9);
}

#[test]
fn scenario_documents_without_url_are_dropped() {
    let mut store = DocumentStore::new();
    store.upsert("p", Dataset::from_json(r#"{"schema:url":"https://a.test"}"#, "1", 0).unwrap());
    store.upsert("p", Dataset::from_json(r#"{"schema:name":"no url"}"#, "2", 0).unwrap());
    store.upsert("p", Dataset::from_json(r#"{"schema:url":"https://c.test"}"#, "3", 0).unwrap());
    let mut table = HealthTable::new();
    table.insert(&vec![record(99, false, None, None)], 1);
    let records = placeholder_records(&store, &table, 7);
    assert_eq!(records.len(), 2);
    assert_eq!(records[0].id, 100);
    assert_eq!(records[1].id, 101);
    assert_eq!(records[1].raw_id.as_deref(), Some("3"));
    assert_eq!(records[1].url, "https://c.test");
    assert_eq!(records[0].name.as_deref(), Some("Unknown"));
    assert_eq!(records[0].center_name, "Unknown");
    assert_eq!(records[0].clone().url, "https://a.test");
    assert_eq!(table.insert(&records, 7), vec![Statement::AppendRows(2)]);
    assert_eq!((table.row(2).created_at, table.row(2).updated_at), (7, 7));
    assert_eq!(table.len(), 3);
    assert!(table.row(1).record.status_code.is_none());
    assert_eq!(table.next_key(), Some(102));
}

#[test]
fn scenario_local_issue_warning() {
    let mut results = Vec::new();
    for i in 0..10u64 {
        let local = i < 2;
        let category = if local { Some(ErrorCategory::Timeout) } else if i < 4 { Some(ErrorCategory::ServerError) } else { None };
        let status = if i >= 4 { Some(200) } else { None };
        results.push(record(i, local, category, status));
    }
    let s = summarize(&results);
    assert_eq!((s.total, s.success, s.local_issues, s.remote_issues), (10, 6, 2, 2));
    assert!(s.local_warning);
}

#[test]
fn warning_needs_more_than_a_tenth() {
    let mut results = Vec::new();
    for i in 0..10u64 {
        results.push(record(i, i == 0, if i == 0 { Some(ErrorCategory::Timeout) } else { None }, None));
    }
    assert!(!summarize(&results).local_warning);
    assert!(!summarize(&Vec::new()).local_warning);
}

#[test]
fn empty_update_issues_nothing() {
    let mut table = HealthTable::new();
    table.insert(&vec![record(1, false, None, None)], 3);
    assert!(table.update(&Vec::new(), 4).is_empty());
    assert!(table.insert(&Vec::new(), 4).is_empty());
    assert_eq!(table.row(0).updated_at, 3);
    assert_eq!(table.len(), 1);
    assert!(table.row(0).record.status_code.is_none());
}

#[test]
fn insert_then_update_round_trip() {
    let mut table = HealthTable::new();
    let mut store = DocumentStore::new();
    store.upsert("p", Dataset::from_json(r#"{"schema:url":"https://a.test","schema:name":"A"}"#, "e", 0).unwrap());
    table.insert(&vec![record(7, false, None, None)], 1);
    let placeholders = placeholder_records(&store, &table, 50);
    assert_eq!(placeholders[0].id, 8);
    let mut done = placeholders.clone();
    table.insert(&placeholders, 50);
    apply_outcome(&mut done[0], response_outcome(200, Some("OK"), "server: x".to_string()), 42, 60);
    let plan = table.update(&done, 70);
    assert_eq!(plan, vec![Statement::CreateStaging, Statement::AppendStaging(1), Statement::JoinUpdate, Statement::DropStaging]);
    assert_eq!((table.row(1).created_at, table.row(1).updated_at), (50, 70));
    assert_eq!(table.row(0).updated_at, 1);
    let row = &table.row(1).record;
    assert_eq!(row.id, 8);
    assert_eq!(row.url, "https://a.test");
    assert_eq!(row.name.as_deref(), Some("A"));
    assert_eq!(row.raw_id.as_deref(), Some("e"));
    assert_eq!(row.status_code, Some(200));
    assert_eq!(row.status_text.as_deref(), Some("OK"));
    assert_eq!(row.headers.as_deref(), Some("server: x"));
    assert_eq!(row.response_time_ms, Some(42));
    assert_eq!(row.check_time, 60);
    assert!(row.error_category.is_none());
    assert!(table.row(0).record.status_code.is_none());
}

#[test]
fn update_takes_last_record_per_key() {
    let mut table = HealthTable::new();
    table.insert(&vec![record(1, false, None, None), record(2, false, None, None)], 0);
    let batch = vec![record(1, false, None, Some(500)), record(1, false, None, Some(201)), record(9, false, None, Some(404))];
    assert_eq!(table.update(&batch, 1).len(), 4);
    assert_eq!(table.row(0).record.status_code, Some(201));
    assert_eq!(table.row(1).record.status_code, None);
}

#[test]
fn probe_run_writes_placeholders_first() {
    let mut store = DocumentStore::new();
    store.upsert("p", Dataset::from_json(r#"{"schema:url":"https://a.test"}"#, "1", 0).unwrap());
    store.upsert("p", Dataset::from_json(r#"{}"#, "2", 0).unwrap());
    store.upsert("q", Dataset::from_json(r#"{"schema:url":"https://b.test"}"#, "1", 0).unwrap());
    let mut table = HealthTable::new();
    let mut work = begin_run(&mut table, &store, 3).unwrap();
    assert_eq!((work[0].id, work[1].id), (0, 1));
    assert_eq!(work.len(), 2);
    assert_eq!(table.len(), 2);
    assert!(table.row(1).record.status_code.is_none());
    assert_eq!(table.row(1).record.url, "https://b.test");
    let e = response_outcome(502, Some("Bad Gateway"), String::new());
    apply_outcome(&mut work[1], e, 5, 4);
    let ok = response_outcome(200, Some("OK"), String::new());
    apply_outcome(&mut work[0], ok, 6, 4);
    work.reverse();
    let (summary, statements) = finish_run(&mut table, &work, 8);
    assert_eq!(statements.len(), 4);
    assert_eq!((summary.total, summary.success, summary.local_issues, summary.remote_issues), (2, 1, 0, 1));
    assert!(!summary.local_warning);
    assert_eq!(table.row(0).record.status_code, Some(200));
    assert_eq!(table.row(1).record.status_code, Some(502));
    assert_eq!(table.row(1).record.error_category, Some(ErrorCategory::ServerError));
    assert_eq!(table.row(0).updated_at, 8);
    let (empty, none) = finish_run(&mut table, &Vec::new(), 9);
    assert_eq!(empty.total, 0);
    assert!(none.is_empty());
}

#[test]
fn probe_run_keys_are_fresh() {
    let mut store = DocumentStore::new();
    store.upsert("p", Dataset::from_json(r#"{"schema:url":"https://a.test"}"#, "1", 0).unwrap());
    let mut table = HealthTable::new();
    table.insert(&vec![record(41, false, None, None), record(7, false, None, None)], 0);
    assert_eq!(table.next_key(), Some(42));
    let work = begin_run(&mut table, &store, 1).unwrap();
    assert_eq!(work[0].id, 42);
    assert_eq!(table.len(), 3);
    let again = begin_run(&mut table, &store, 2).unwrap();
    assert_eq!(again[0].id, 43);
    table.insert(&vec![record(u64::MAX, false, None, None)], 0);
    assert_eq!(table.next_key(), None);
    assert!(begin_run(&mut table, &store, 3).is_none());
    assert_eq!(table.len(), 5);
}

#[test]
fn ticket_response_status_and_shape() {
    let good = r#"{"ticket":{"token":"abc","expires":600},"serviceList":[{"name":"DATASET_LIST","version":"3","url":"https://l"}]}"#;
    let mut cache = CredentialCache::new();
    match cache.refresh_from_response("p", 500, "down", 0) {
        Err(AuthError::Status(500, b)) => assert_eq!(b, "down"),
        other => panic!("{:?}", other.map(|t| t.token)),
    }
    assert!(cache.valid_token("p", 0).is_none());
    assert!(matches!(cache.refresh_from_response("p", 200, "<html>", 0), Err(AuthError::Parse(ParseError::NotJson))));
    let no_list = r#"{"ticket":{"token":"abc","expires":600}}"#;
    assert!(matches!(cache.refresh_from_response("p", 200, no_list, 0), Err(AuthError::Parse(ParseError::Shape))));
    let bad_entry = r#"{"ticket":{"token":"abc","expires":600},"serviceList":[{"name":"X"}]}"#;
    assert!(matches!(AuthResponse::from_json(bad_entry), Err(ParseError::Shape)));
    let float_ttl = r#"{"ticket":{"token":"abc","expires":6.5},"serviceList":[]}"#;
    assert!(matches!(AuthResponse::from_json(float_ttl), Err(ParseError::Shape)));
    assert!(cache.valid_token("p", 0).is_none());
    let t = cache.refresh_from_response("p", 200, good, 100).unwrap();
    assert_eq!((t.token.as_str(), t.version.as_str(), t.expires_at), ("abc", "3", 400));
    assert_eq!(cache.valid_token("p", 399).unwrap().service_url("DATASET_LIST").as_deref(), Some("https://l"));
}

#[test]
fn document_fields_follow_the_body() {
    let d = Dataset::from_json(r#"{"@id":"doc-9","@type":"Dataset","schema:url":"https://u","centerName":"C","schema:datePublished":{"x":1}}"#, "ext", 3).unwrap();
    assert_eq!(d.raw_id, "doc-9");
    assert_eq!(d.casdc_id.as_deref(), Some("ext"));
    assert!(matches!(&d.data_type, FieldValue::Text(t) if t == "Dataset"));
    assert_eq!(d.center_name.as_deref(), Some("C"));
    assert!(matches!(&d.date_published, FieldValue::Labelled(None)));
    assert!(matches!(Dataset::from_json(r#"{"@id":5}"#, "ext", 3), Err(ParseError::Shape)));
    assert!(matches!(Dataset::from_json(r#"{"centerName":["C"]}"#, "ext", 3), Err(ParseError::Shape)));
    assert!(matches!(Dataset::from_json(r#"{"casdc_id":1}"#, "ext", 3), Err(ParseError::Shape)));
    let e = Dataset::from_json(r#"{"centerName":null,"casdc_id":null}"#, "ext", 3).unwrap();
    assert_eq!(e.raw_id, "");
    assert!(e.center_name.is_none());
    assert_eq!(e.casdc_id.as_deref(), Some("ext"));
    assert!(matches!(Dataset::from_json("\"text\"", "ext", 3), Err(ParseError::Shape)));
}
