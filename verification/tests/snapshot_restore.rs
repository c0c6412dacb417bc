//! End-to-end tests of the snapshot and restore engines against a real
//! in-memory store.

use antigravity_agent::doc::{Document, FieldValue};
use antigravity_agent::errors::AgentError;
use antigravity_agent::restore::{restore_document, restore_from_text, restore_plan};
use antigravity_agent::snapshot::{capture_snapshot, CaptureConfig};
use antigravity_agent::wire::{document_to_text, parse_document_text};
use rusqlite::Connection;

fn fresh_store(rows: &[(&str, &str)]) -> Connection {
    let conn = Connection::open_in_memory().unwrap();
    conn.execute("CREATE TABLE ItemTable (key TEXT PRIMARY KEY, value TEXT)", ()).unwrap();
    for (k, v) in rows {
        conn.execute("INSERT INTO ItemTable (key, value) VALUES (?1, ?2)", (*k, *v)).unwrap();
    }
    conn
}

fn store_pairs(conn: &Connection) -> Vec<(String, String)> {
    let mut stmt = conn.prepare("SELECT key, value FROM ItemTable ORDER BY key").unwrap();
    let rows = stmt
        .query_map((), |row| Ok((row.get::<_, String>(0)?, row.get::<_, String>(1)?)))
        .unwrap();
    rows.map(|r| r.unwrap()).collect()
}

fn test_config() -> CaptureConfig {
    CaptureConfig::new(
        vec![
            "alpha".to_string(),
            "beta".to_string(),
            "gamma".to_string(),
            "delta".to_string(),
            "marker".to_string(),
        ],
        "ntf.".to_string(),
        "marker".to_string(),
    )
}

fn get_field<'a>(doc: &'a Document, key: &str) -> Option<&'a FieldValue> {
    doc.get(key)
}

#[test]
fn capture_is_deterministic_up_to_timestamp() {
    let conn = fresh_store(&[
        ("alpha", "1"),
        ("beta", "two"),
        ("ntf.a", "seen"),
        ("marker", "{\"a\":1}"),
    ]);
    let cfg = test_config();
    let d1 = capture_snapshot(&conn, &cfg, "user@example.com", "2024-01-01T00:00:00Z").unwrap();
    let d2 = capture_snapshot(&conn, &cfg, "user@example.com", "2024-01-01T00:00:00Z").unwrap();
    assert_eq!(d1, d2);
    assert_eq!(document_to_text(&d1), document_to_text(&d2));

    // a later capture differs only in the timestamp field
    let d3 = capture_snapshot(&conn, &cfg, "user@example.com", "2025-01-01T00:00:00Z").unwrap();
    assert_eq!(d1.len(), d3.len());
    for i in 0..d1.len() {
        let f1 = d1.field_at(i);
        let f3 = d3.field_at(i);
        assert_eq!(f1.0, f3.0);
        if f1.0 != "backup_time" {
            assert_eq!(f1.1, f3.1);
        } else {
            assert_ne!(f1.1, f3.1);
        }
    }
}

#[test]
fn capture_restore_round_trip() {
    let original: Vec<(&str, &str)> = vec![
        ("alpha", "1"),
        ("beta", "two"),
        ("gamma", "three"),
        ("delta", "{\"nested\":true}"),
        ("marker", "{\"a\":1}"),
        ("ntf.a", "seen-a"),
        ("ntf.b", "seen-b"),
        ("ntf.c", "seen-c"),
    ];
    let conn = fresh_store(&original);
    let cfg = test_config();
    let doc = capture_snapshot(&conn, &cfg, "user@example.com", "2024-01-01T00:00:00Z").unwrap();

    // the notification-key list records exactly the three matched keys
    match get_field(&doc, "notification_keys") {
        Some(FieldValue::KeyList(ks)) => {
            assert_eq!(ks, &vec!["ntf.a".to_string(), "ntf.b".to_string(), "ntf.c".to_string()]);
        }
        other => panic!("notification_keys should be a key list, got {:?}", other),
    }

    let text = document_to_text(&doc);
    let mut target = fresh_store(&[]);
    let summary = restore_from_text(&mut target, text.as_str()).unwrap();
    assert_eq!(summary.skipped, 0);
    assert_eq!(summary.written, 8);

    let mut expected: Vec<(String, String)> =
        original.iter().map(|(k, v)| (k.to_string(), v.to_string())).collect();
    expected.sort();
    assert_eq!(store_pairs(&target), expected);
}

#[test]
fn restored_snapshot_omits_metadata_keys() {
    let conn = fresh_store(&[("alpha", "1")]);
    let cfg = test_config();
    let doc = capture_snapshot(&conn, &cfg, "user@example.com", "t0").unwrap();
    let mut target = fresh_store(&[]);
    restore_document(&mut target, &doc).unwrap();
    let pairs = store_pairs(&target);
    assert_eq!(pairs, vec![("alpha".to_string(), "1".to_string())]);
}

#[test]
fn partial_capture_keeps_only_present_keys() {
    let conn = fresh_store(&[("beta", "two"), ("delta", "4")]);
    let cfg = test_config();
    let doc = capture_snapshot(&conn, &cfg, "user@example.com", "t0").unwrap();
    assert_eq!(get_field(&doc, "beta"), Some(&FieldValue::Text("two".to_string())));
    assert_eq!(get_field(&doc, "delta"), Some(&FieldValue::Text("4".to_string())));
    assert_eq!(get_field(&doc, "alpha"), None);
    assert_eq!(get_field(&doc, "gamma"), None);
    assert_eq!(get_field(&doc, "marker"), None);
    assert_eq!(get_field(&doc, "notification_keys"), None);
    // two data fields plus the account and timestamp metadata
    assert_eq!(doc.len(), 4);
}

#[test]
fn marker_is_kept_structured_not_quoted() {
    let conn = fresh_store(&[("marker", "{\"a\":1}")]);
    let cfg = test_config();
    let doc = capture_snapshot(&conn, &cfg, "user@example.com", "t0").unwrap();
    assert_eq!(get_field(&doc, "marker"), Some(&FieldValue::Structured("{\"a\":1}".to_string())));

    // in the serialized text the marker is a JSON object, not a string
    let text = document_to_text(&doc);
    let value: serde_json::Value = serde_json::from_str(&text).unwrap();
    assert!(value["marker"].is_object());
    assert_eq!(value["marker"]["a"], serde_json::Value::from(1));
}

#[test]
fn unparseable_marker_is_kept_verbatim() {
    let conn = fresh_store(&[("marker", "not json at all {")]);
    let cfg = test_config();
    let doc = capture_snapshot(&conn, &cfg, "user@example.com", "t0").unwrap();
    assert_eq!(
        get_field(&doc, "marker"),
        Some(&FieldValue::Text("not json at all {".to_string()))
    );
}

#[test]
fn best_effort_restore_skips_malformed_field() {
    let mut doc = Document::new();
    doc.insert("x".to_string(), FieldValue::Text("1".to_string()));
    doc.insert("bad".to_string(), FieldValue::KeyList(vec!["a".to_string()]));
    doc.insert("y".to_string(), FieldValue::Text("2".to_string()));
    let plan = restore_plan(&doc);
    assert_eq!(plan.skipped, vec!["bad".to_string()]);
    assert_eq!(plan.writes.len(), 2);

    let mut target = fresh_store(&[]);
    let summary = restore_document(&mut target, &doc).unwrap();
    assert_eq!(summary.written, 2);
    assert_eq!(summary.skipped, 1);
    assert_eq!(
        store_pairs(&target),
        vec![("x".to_string(), "1".to_string()), ("y".to_string(), "2".to_string())]
    );
}

#[test]
fn corrupt_snapshot_text_is_rejected() {
    let mut target = fresh_store(&[("keep", "me")]);
    let err = restore_from_text(&mut target, "this is not json").unwrap_err();
    assert_eq!(err.message(), "corrupt snapshot");
    // nothing was touched
    assert_eq!(store_pairs(&target), vec![("keep".to_string(), "me".to_string())]);
}

#[test]
fn restore_of_dataless_document_reports_error() {
    let mut doc = Document::new();
    doc.insert("account_email".to_string(), FieldValue::Text("a@b".to_string()));
    doc.insert("x".to_string(), FieldValue::KeyList(vec![]));
    let mut target = fresh_store(&[]);
    let err = restore_document(&mut target, &doc).unwrap_err();
    assert_eq!(err.message(), "restore wrote no key");
    assert!(!err.is_soft());
}

#[test]
fn serializer_output_survives_escaping() {
    let conn = fresh_store(&[
        ("alpha", "line\nbreak \"quoted\" back\\slash \t tab \u{1} ctl"),
        ("beta", "unicode \u{00e9}\u{4e2d}"),
    ]);
    let cfg = test_config();
    let doc = capture_snapshot(&conn, &cfg, "user@example.com", "t0").unwrap();
    let text = document_to_text(&doc);
    let reparsed = parse_document_text(text.as_str()).unwrap();
    assert_eq!(doc, reparsed);
}

#[test]
fn marker_is_canonicalized_not_copied() {
    // extra whitespace disappears: the stored field is the canonical form
    let conn = fresh_store(&[("marker", "{ \"a\" : 1 }")]);
    let cfg = test_config();
    let doc = capture_snapshot(&conn, &cfg, "user@example.com", "t0").unwrap();
    assert_eq!(get_field(&doc, "marker"), Some(&FieldValue::Structured("{\"a\":1}".to_string())));
}

#[test]
fn capture_with_clock_timestamp_fills_metadata() {
    let conn = fresh_store(&[("alpha", "1")]);
    let cfg = test_config();
    let doc =
        antigravity_agent::snapshot::capture_account_snapshot(&conn, &cfg, "user@example.com")
            .unwrap();
    assert_eq!(
        get_field(&doc, "account_email"),
        Some(&FieldValue::Text("user@example.com".to_string()))
    );
    match get_field(&doc, "backup_time") {
        Some(FieldValue::Text(t)) => assert!(!t.is_empty()),
        other => panic!("backup_time should be text, got {:?}", other),
    }
}

#[test]
fn missing_item_table_is_reported_as_access_failure() {
    let conn = Connection::open_in_memory().unwrap();
    let cfg = test_config();
    let err = capture_snapshot(&conn, &cfg, "user@example.com", "t0").unwrap_err();
    assert!(err.message().starts_with("store access denied: "));
    assert!(!err.is_soft());
}

#[test]
fn non_text_values_read_as_absent() {
    let conn = fresh_store(&[("ntf.a", "seen")]);
    conn.execute("INSERT INTO ItemTable (key, value) VALUES ('ntf.null', NULL)", ()).unwrap();
    // the text affinity of the value column turns a stored number into text
    conn.execute("INSERT INTO ItemTable (key, value) VALUES ('alpha', 7)", ()).unwrap();
    let cfg = test_config();
    let doc = capture_snapshot(&conn, &cfg, "user@example.com", "t0").unwrap();
    assert_eq!(get_field(&doc, "alpha"), Some(&FieldValue::Text("7".to_string())));
    assert_eq!(get_field(&doc, "ntf.null"), None);
    match get_field(&doc, "notification_keys") {
        Some(FieldValue::KeyList(ks)) => assert_eq!(ks, &vec!["ntf.a".to_string()]),
        other => panic!("notification_keys should be a key list, got {:?}", other),
    }
}

#[test]
fn error_labels_are_stable() {
    assert_eq!(AgentError::StoreNotFound.message(), "store not found");
    assert_eq!(
        AgentError::SerializationError("disk full".to_string()).message(),
        "serialization error: disk full"
    );
    assert_eq!(AgentError::NoActiveIdentity.message(), "no active identity in the store");
    assert!(AgentError::PartialRestore { written: 3, skipped: 1 }.is_soft());
    assert_eq!(AgentError::PartialRestore { written: 3, skipped: 1 }.message(), "partial restore");
    assert!(!AgentError::PartialRestore { written: 0, skipped: 4 }.is_soft());
    assert_eq!(
        AgentError::PartialRestore { written: 0, skipped: 4 }.message(),
        "restore wrote no key"
    );
}

#[test]
fn empty_document_serializes_to_empty_object() {
    let doc = Document::new();
    assert_eq!(document_to_text(&doc), "{}");
    let parsed = parse_document_text("{}").unwrap();
    assert_eq!(parsed.len(), 0);
}
