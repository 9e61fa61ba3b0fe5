//! Bulk conversion behavior: factoid export/import and error-table import.

use rustbot::convert::export_factoids;
use rustbot::convert::import_error_table;
use rustbot::convert::import_factoids;
use rustbot::convert::parse_error_code;
use rustbot::convert::parse_intent;
use rustbot::convert::record_of_factoid;
use rustbot::convert::validate_factoid;
use rustbot::convert::FactoidRecord;
use rustbot::convert::MalformedCode;
use rustbot::convert::RawFactoid;
use rustbot::convert::WinError;
use rustbot::model::Factoid;
use rustbot::model::Intent;
use rustbot::model::WinErrorVariant;
use rustbot::store::Store;

fn stored(label: &str, intent: Intent, description: &str) -> Factoid {
    Factoid { label: label.to_string(), intent, description: description.to_string() }
}

fn raw(label: &str, intent: &str, description: &str) -> RawFactoid {
    RawFactoid {
        label: Some(label.to_string()),
        intent: Some(intent.to_string()),
        description: Some(description.to_string()),
    }
}

fn win(code: &str, name: &str, desc: &str) -> WinError {
    WinError { code: code.to_string(), name: name.to_string(), desc: desc.to_string() }
}

#[test]
fn intent_tags_parse_back() {
    for (tag, intent) in [
        ("Say", Intent::Say),
        ("Act", Intent::Act),
        ("Notice", Intent::Notice),
        ("Alias", Intent::Alias),
        ("Forget", Intent::Forget),
    ] {
        assert_eq!(parse_intent(tag), Some(intent));
    }
    assert_eq!(parse_intent("say"), None);
    assert_eq!(parse_intent(""), None);
}

#[test]
fn export_writes_one_record_per_factoid() {
    let mut store = Store::new();
    store.create_or_replace(stored("hello", Intent::Say, "hi"));
    store.create_or_replace(stored("gone", Intent::Forget, ""));
    let records = export_factoids(&store);
    assert_eq!(records.len(), 2);
    assert!(records.contains(&FactoidRecord {
        label: "hello".to_string(),
        intent: "Say".to_string(),
        description: "hi".to_string(),
    }));
    assert!(records.contains(&FactoidRecord {
        label: "gone".to_string(),
        intent: "Forget".to_string(),
        description: "".to_string(),
    }));
}

#[test]
fn validate_rejects_missing_fields_and_bad_tags() {
    assert!(validate_factoid(&raw("x", "Say", "y")).is_some());
    assert!(validate_factoid(&RawFactoid {
        label: Some("x".to_string()),
        intent: None,
        description: None,
    })
        .is_none());
    assert!(validate_factoid(&raw("x", "shout", "y")).is_none());
}

#[test]
fn import_skips_malformed_lines_and_keeps_going() {
    let mut store = Store::new();
    let lines = vec![
        Some(RawFactoid { label: Some("x".to_string()), intent: None, description: None }),
        None,
        Some(raw("hello", "Say", "hi")),
    ];
    let skipped = import_factoids(&mut store, &lines);
    assert_eq!(skipped, 2);
    assert!(store.get_factoid("x").is_none());
    let f = store.get_factoid("hello").expect("valid line imported");
    assert_eq!(f.intent, Intent::Say);
    assert_eq!(f.description, "hi".to_string());
}

#[test]
fn later_import_lines_override_earlier_ones() {
    let mut store = Store::new();
    let lines = vec![
        Some(raw("hello", "Say", "old")),
        Some(raw("hello", "Notice", "new")),
    ];
    let skipped = import_factoids(&mut store, &lines);
    assert_eq!(skipped, 0);
    let f = store.get_factoid("hello").expect("imported");
    assert_eq!(f.intent, Intent::Notice);
    assert_eq!(f.description, "new".to_string());
}

#[test]
fn export_then_import_rebuilds_the_same_factoids() {
    let mut store = Store::new();
    store.create_or_replace(stored("hello", Intent::Say, "hi"));
    store.create_or_replace(stored("wave", Intent::Act, "waves"));
    store.create_or_replace(stored("a", Intent::Alias, "hello"));
    store.create_or_replace(stored("gone", Intent::Forget, ""));

    let lines: Vec<Option<RawFactoid>> = export_factoids(&store)
        .into_iter()
        .map(|rec| {
            Some(RawFactoid {
                label: Some(rec.label),
                intent: Some(rec.intent),
                description: Some(rec.description),
            })
        })
        .collect();

    let mut rebuilt = Store::new();
    let skipped = import_factoids(&mut rebuilt, &lines);
    assert_eq!(skipped, 0);
    for (label, intent, description) in [
        ("hello", Intent::Say, "hi"),
        ("wave", Intent::Act, "waves"),
        ("a", Intent::Alias, "hello"),
        ("gone", Intent::Forget, ""),
    ] {
        let f = rebuilt.get_factoid(label).expect("factoid survives the round trip");
        assert_eq!(f.intent, intent);
        assert_eq!(f.description, description.to_string());
    }
    assert_eq!(rebuilt.all_factoids().len(), 4);
}

#[test]
fn round_trip_through_records_preserves_each_factoid() {
    let original = stored("hello", Intent::Alias, "other");
    let rec = record_of_factoid(&original);
    let back = validate_factoid(&RawFactoid {
        label: Some(rec.label),
        intent: Some(rec.intent),
        description: Some(rec.description),
    })
        .expect("an exported record is always usable");
    assert_eq!(back, original);
}

#[test]
fn parse_error_code_strips_prefix_and_reads_hex() {
    assert_eq!(parse_error_code("0x1F"), Some(31));
    assert_eq!(parse_error_code("0xFF"), Some(255));
    assert_eq!(parse_error_code("0x0"), Some(0));
    assert_eq!(parse_error_code("  0x10  "), Some(16));
    assert_eq!(parse_error_code("0xFFFFFFFF"), Some(u32::MAX));
}

#[test]
fn parse_error_code_rejects_malformed_input() {
    assert_eq!(parse_error_code("bogus"), None);
    assert_eq!(parse_error_code("0x"), None);
    assert_eq!(parse_error_code("0xZZ"), None);
    assert_eq!(parse_error_code("0x1FFFFFFFF"), None);
    assert_eq!(parse_error_code("x"), None);
    assert_eq!(parse_error_code(""), None);
}

#[test]
fn error_table_import_inserts_numeric_codes() {
    let mut store = Store::new();
    let records = vec![win("0x1F", "E_FAIL", "failure")];
    let outcome = import_error_table(&mut store, &records, WinErrorVariant::HResult);
    assert_eq!(outcome, Ok(()));
    let errors = store.all_errors();
    assert_eq!(errors.len(), 1);
    assert_eq!(errors[0].code, 31);
    assert_eq!(errors[0].variant, WinErrorVariant::HResult);
    assert_eq!(errors[0].name, "E_FAIL".to_string());
    assert_eq!(errors[0].description, "failure".to_string());
}

#[test]
fn error_table_import_trims_fields() {
    let mut store = Store::new();
    let records = vec![win(" 0x10 ", "  NAME  ", "  words  ")];
    let outcome = import_error_table(&mut store, &records, WinErrorVariant::Win32);
    assert_eq!(outcome, Ok(()));
    let errors = store.all_errors();
    assert_eq!(errors[0].code, 16);
    assert_eq!(errors[0].name, "NAME".to_string());
    assert_eq!(errors[0].description, "words".to_string());
}

#[test]
fn error_table_variants_are_kept_apart() {
    let mut store = Store::new();
    import_error_table(&mut store, &vec![win("0x5", "A", "a")], WinErrorVariant::HResult)
        .expect("imports");
    import_error_table(&mut store, &vec![win("0x5", "B", "b")], WinErrorVariant::NtStatus)
        .expect("imports");
    let errors = store.all_errors();
    assert_eq!(errors.len(), 2);
    assert_eq!(errors[0].variant, WinErrorVariant::HResult);
    assert_eq!(errors[1].variant, WinErrorVariant::NtStatus);
    assert_eq!(errors[0].code, errors[1].code);
}

#[test]
fn malformed_code_aborts_the_whole_error_import() {
    let mut store = Store::new();
    let records = vec![win("0x1F", "OK", "fine"), win("bogus", "BAD", "broken")];
    let outcome = import_error_table(&mut store, &records, WinErrorVariant::HResult);
    assert_eq!(outcome, Err(MalformedCode { index: 1 }));
    // All-or-nothing: no partial records are committed.
    assert_eq!(store.all_errors().len(), 0);
}
