//! End-to-end and per-component tests of the line-to-record engine.

use pixel_log::action_names::{Enrichable, LineEntry};
use pixel_log::decode::decode_entries_encoded_in_e1;
use pixel_log::errors::ProcessingError;
use pixel_log::flatten::{serialize_custom_fields, FlatRecord};
use pixel_log::json::{handle_nulls, JsonValue};
use pixel_log::parser::parse;
use pixel_log::tokenize::LogEntry;

fn s(text: &str) -> JsonValue {
    JsonValue::Str(text.to_string())
}

fn num(text: &str) -> JsonValue {
    JsonValue::Num(text.to_string())
}

fn expect_str(v: Option<&JsonValue>, expected: &str) {
    match v {
        Some(JsonValue::Str(t)) => assert_eq!(t.as_str(), expected),
        other => panic!("expected string {:?}, got {:?}", expected, other),
    }
}

#[test]
fn empty_line_fails() {
    match parse(7, String::new()) {
        Enrichable::Error(ProcessingError::EmptyLine) => {}
        _ => panic!("expected EmptyLine"),
    }
}

#[test]
fn nine_fields_fail() {
    let line = "a\tb\tc\td\te\tf\tg\th\ti".to_string();
    match parse(7, line) {
        Enrichable::Error(ProcessingError::WrongFieldCount) => {}
        _ => panic!("expected WrongFieldCount"),
    }
}

#[test]
fn eleven_fields_fail() {
    let line = "a\tb\tc\td\te\tf\tg\th\ti\tj\tk".to_string();
    match parse(7, line) {
        Enrichable::Error(ProcessingError::WrongFieldCount) => {}
        _ => panic!("expected WrongFieldCount"),
    }
}

#[test]
fn empty_body_fails() {
    let line = "t\tip\tcc\teu\tsub\tpc\tisp\tua\t\t/u".to_string();
    match parse(7, line) {
        Enrichable::Error(ProcessingError::EmptyBody) => {}
        _ => panic!("expected EmptyBody"),
    }
}

#[test]
fn empty_user_agent_fails() {
    let line = "t\tip\tcc\teu\tsub\tpc\tisp\t\t{\"action_group_id\":1}\t/u".to_string();
    match parse(7, line) {
        Enrichable::Error(ProcessingError::EmptyBody) => {}
        _ => panic!("expected EmptyBody"),
    }
}

#[test]
fn body_without_marker_fails() {
    let line = "t\tip\tcc\teu\tsub\tpc\tisp\tua\t{\"action_name\":\"Gotcha\"}\t/u".to_string();
    match parse(7, line) {
        Enrichable::Error(ProcessingError::EmptyBody) => {}
        _ => panic!("expected EmptyBody"),
    }
}

#[test]
fn body_null_lacks_marker() {
    // The marker presence check runs before JSON parsing, so the bare
    // body `null` fails as empty, not as malformed.
    let line = "t\tip\tcc\teu\tsub\tpc\tisp\tua\tnull\t/u".to_string();
    match parse(7, line) {
        Enrichable::Error(ProcessingError::EmptyBody) => {}
        _ => panic!("expected EmptyBody"),
    }
}

#[test]
fn body_empty_array_lacks_marker() {
    let line = "t\tip\tcc\teu\tsub\tpc\tisp\tua\t[]\t/u".to_string();
    match parse(7, line) {
        Enrichable::Error(ProcessingError::EmptyBody) => {}
        _ => panic!("expected EmptyBody"),
    }
}

#[test]
fn invalid_json_body_fails() {
    let line = "t\tip\tcc\teu\tsub\tpc\tisp\tua\taction_group_id\t/u".to_string();
    match parse(7, line) {
        Enrichable::Error(ProcessingError::MalformedBody) => {}
        _ => panic!("expected MalformedBody"),
    }
}

#[test]
fn non_object_body_fails() {
    let line = "t\tip\tcc\teu\tsub\tpc\tisp\tua\t[\"action_group_id\"]\t/u".to_string();
    match parse(7, line) {
        Enrichable::Error(ProcessingError::MalformedBody) => {}
        _ => panic!("expected MalformedBody"),
    }
}

#[test]
fn missing_action_name_fails() {
    let line = "t\tip\tcc\teu\tsub\tpc\tisp\tua\t{\"action_group_id\":\"g\"}\t/u".to_string();
    match parse(7, line) {
        Enrichable::Error(ProcessingError::MissingActionName) => {}
        _ => panic!("expected MissingActionName"),
    }
}

#[test]
fn non_string_action_name_fails() {
    let line = "t\tip\tcc\teu\tsub\tpc\tisp\tua\t{\"action_group_id\":\"g\",\"action_name\":3}\t/u"
        .to_string();
    match parse(7, line) {
        Enrichable::Error(ProcessingError::MissingActionName) => {}
        _ => panic!("expected MissingActionName"),
    }
}

#[test]
fn unknown_action_name_is_skipped() {
    let line =
        "t\tip\tcc\teu\tsub\tpc\tisp\tua\t{\"action_group_id\":\"g\",\"action_name\":\"Unknown\"}\t/u"
            .to_string();
    match parse(7, line) {
        Enrichable::Error(ProcessingError::UnrecognizedActionName(name)) => {
            assert_eq!(name.as_str(), "Unknown");
        }
        _ => panic!("expected UnrecognizedActionName"),
    }
}

#[test]
fn end_to_end_gotcha_record() {
    let head = "2024-01-01T00:00:00Z\t1.2.3.4\tUS\tyes\tCA\t\"90210\"\tSome ISP\tMozilla/5.0\t";
    let tail = "{\"action_name\":\"Gotcha\",\"action_group_id\":\"g1\",\"tags\":[\"a\",\"b\"]}\t/pixel";
    let line = format!("{}{}", head, tail);
    match parse(1, line) {
        Enrichable::Gotcha(rec) => {
            expect_str(rec.get("event_date"), "2024-01-01T00:00:00Z");
            expect_str(rec.get("source_ip"), "1.2.3.4");
            expect_str(rec.get("country_code"), "US");
            expect_str(rec.get("eu"), "false");
            expect_str(rec.get("subdivision"), "CA");
            expect_str(rec.get("postal_code"), "90210");
            expect_str(rec.get("isp"), "Some ISP");
            expect_str(rec.get("raw_user_agent"), "Mozilla/5.0");
            expect_str(rec.get("action_name"), "Gotcha");
            expect_str(rec.get("request_uri"), "/pixel");
            expect_str(rec.get("tags"), "a;b");
            expect_str(rec.get("action_group_id"), "g1");
            assert_eq!(rec.get("batch_id"), Some(&num("1")));
        }
        other => panic!("expected Gotcha record, got error {:?}", matches!(other, Enrichable::Error(_))),
    }
}

#[test]
fn eu_flag_true_on_digit() {
    let entry = LogEntry::new("t", "ip", "cc", "eu1", "sub", "pc", "isp", "ua", "body", "/u");
    assert_eq!(entry.eu.as_str(), "true");
}

#[test]
fn eu_flag_false_without_digit() {
    let entry = LogEntry::new("t", "ip", "cc", "yes", "sub", "pc", "isp", "ua", "body", "/u");
    assert_eq!(entry.eu.as_str(), "false");
}

#[test]
fn postal_code_absent_without_quotes() {
    let entry = LogEntry::new("t", "ip", "cc", "eu", "sub", "90210", "isp", "ua", "body", "/u");
    assert!(entry.postal_code.is_none());
}

#[test]
fn postal_code_takes_first_quoted_run() {
    let entry =
        LogEntry::new("t", "ip", "cc", "eu", "sub", "x \"12345\" \"99\"", "isp", "ua", "b", "/u");
    assert_eq!(entry.postal_code.as_deref(), Some("12345"));
}

#[test]
fn fields_are_trimmed() {
    let line = " t \t ip\tcc\teu\tsub\tpc\tisp\tua \t {\"action_group_id\":\"g\",\"action_name\":\"Events\"} \t /u ".to_string();
    match parse(7, line) {
        Enrichable::Events(rec) => {
            expect_str(rec.get("event_date"), "t");
            expect_str(rec.get("request_uri"), "/u");
        }
        _ => panic!("expected Events record"),
    }
}

#[test]
fn null_is_absent() {
    assert!(!handle_nulls(&JsonValue::Null));
}

#[test]
fn empty_array_is_absent() {
    assert!(!handle_nulls(&JsonValue::Arr(vec![])));
}

#[test]
fn null_singleton_is_absent() {
    assert!(!handle_nulls(&JsonValue::Arr(vec![JsonValue::Null])));
}

#[test]
fn null_and_empty_array_is_absent() {
    let v = JsonValue::Arr(vec![JsonValue::Null, JsonValue::Arr(vec![])]);
    assert!(!handle_nulls(&v));
}

#[test]
fn null_and_all_null_array_is_absent() {
    let v = JsonValue::Arr(vec![
        JsonValue::Null,
        JsonValue::Arr(vec![JsonValue::Null, JsonValue::Null]),
    ]);
    assert!(!handle_nulls(&v));
}

#[test]
fn number_and_null_is_present() {
    let v = JsonValue::Arr(vec![num("1"), JsonValue::Null]);
    assert!(handle_nulls(&v));
}

#[test]
fn object_is_present() {
    assert!(handle_nulls(&JsonValue::Obj(vec![])));
}

#[test]
fn empty_array_absent_below_top_level() {
    let inner = JsonValue::Obj(vec![("b".to_string(), JsonValue::Arr(vec![]))]);
    let top = vec![("a".to_string(), inner)];
    let rec = pixel_log::flatten::flatten("", &top);
    assert!(rec.get("a_b").is_none());
    assert_eq!(rec.items().len(), 0);
}

#[test]
fn decoder_decodes_known_run() {
    // Control byte 'a' (97): run of (97 >> 5) + 2 = 5 bytes under mask
    // (97 + 33) & 31 = 2; "jgnnm" XOR 2 spells "hello".
    let decoded = decode_entries_encoded_in_e1(&s("ajgnnm"));
    assert_eq!(decoded.as_str(), "hello");
}

#[test]
fn decoder_is_deterministic() {
    let a = decode_entries_encoded_in_e1(&s("ajgnnm"));
    let b = decode_entries_encoded_in_e1(&s("ajgnnm"));
    assert_eq!(a, b);
}

#[test]
fn decoder_control_floor_consumes_two() {
    // Control byte 0 opens a run of (0 >> 5) + 2 = 2 bytes under mask
    // (0 + 33) & 31 = 1: both following bytes decode, none is treated
    // as a fresh control byte.
    let decoded = decode_entries_encoded_in_e1(&s("\u{0}ab"));
    assert_eq!(decoded.as_str(), "`c");
}

#[test]
fn decoder_passes_non_strings_through() {
    let decoded = decode_entries_encoded_in_e1(&num("12"));
    assert_eq!(decoded.as_str(), "12");
    let decoded = decode_entries_encoded_in_e1(&JsonValue::Bool(true));
    assert_eq!(decoded.as_str(), "true");
}

#[test]
fn flatten_keeps_flat_object_stringified() {
    let top = vec![
        ("x".to_string(), s("1")),
        ("y".to_string(), JsonValue::Bool(true)),
        ("z".to_string(), num("2.5")),
    ];
    let rec = pixel_log::flatten::flatten("", &top);
    expect_str(rec.get("x"), "1");
    expect_str(rec.get("y"), "true");
    expect_str(rec.get("z"), "2.5");
    assert_eq!(rec.items().len(), 3);
}

#[test]
fn flatten_prefixes_nested_scalars() {
    let inner = JsonValue::Obj(vec![("b".to_string(), s("v"))]);
    let top = vec![("a".to_string(), inner)];
    let rec = pixel_log::flatten::flatten("", &top);
    expect_str(rec.get("a_b"), "v");
}

#[test]
fn flatten_joins_string_arrays_unprefixed() {
    let inner = JsonValue::Obj(vec![(
        "tags".to_string(),
        JsonValue::Arr(vec![s("x"), s("y")]),
    )]);
    let top = vec![("a".to_string(), inner)];
    let rec = pixel_log::flatten::flatten("", &top);
    expect_str(rec.get("tags"), "x;y");
    assert!(rec.get("a_tags").is_none());
}

#[test]
fn flatten_keeps_mixed_arrays_structurally() {
    let top = vec![(
        "m".to_string(),
        JsonValue::Arr(vec![s("x"), num("1")]),
    )];
    let rec = pixel_log::flatten::flatten("", &top);
    assert_eq!(
        rec.get("m"),
        Some(&JsonValue::Arr(vec![s("x"), num("1")]))
    );
}

#[test]
fn flatten_decodes_encoded_entries_to_canonical_key() {
    let top = vec![(
        "encoded_entries_v1".to_string(),
        JsonValue::Arr(vec![s("ajgnnm"), s("ajgnnm")]),
    )];
    let rec = pixel_log::flatten::flatten("", &top);
    expect_str(rec.get("entries"), "hello;hello");
    assert!(rec.get("encoded_entries_v1").is_none());
}

#[test]
fn flatten_joins_entries_key() {
    let top = vec![(
        "entries".to_string(),
        JsonValue::Arr(vec![num("1"), num("2")]),
    )];
    let rec = pixel_log::flatten::flatten("", &top);
    expect_str(rec.get("entries"), "1;2");
}

#[test]
fn flatten_redirects_action_log() {
    let inner = JsonValue::Obj(vec![
        ("k".to_string(), s("v")),
        ("gone".to_string(), JsonValue::Null),
    ]);
    let top = vec![("action_log".to_string(), inner)];
    let rec = pixel_log::flatten::flatten("", &top);
    assert_eq!(
        rec.get("action_log_data"),
        Some(&JsonValue::Obj(vec![("k".to_string(), s("v"))]))
    );
    assert!(rec.get("action_log_k").is_none());
}

#[test]
fn custom_fields_merge_objects_and_arrays() {
    let list = vec![
        JsonValue::Obj(vec![("a".to_string(), num("1"))]),
        JsonValue::Obj(vec![("a".to_string(), num("2")), ("b".to_string(), s("t"))]),
        JsonValue::Arr(vec![num("3")]),
        JsonValue::Arr(vec![num("4")]),
        num("9"),
    ];
    let merged = serialize_custom_fields(&list);
    assert_eq!(
        merged,
        JsonValue::Obj(vec![
            ("a".to_string(), num("2")),
            ("b".to_string(), s("t")),
            ("list".to_string(), JsonValue::Arr(vec![num("3"), num("4")])),
        ])
    );
}

#[test]
fn custom_fields_without_arrays_have_no_list() {
    let list = vec![JsonValue::Obj(vec![("a".to_string(), num("1"))])];
    let merged = serialize_custom_fields(&list);
    assert_eq!(merged, JsonValue::Obj(vec![("a".to_string(), num("1"))]));
}

#[test]
fn assembler_rejects_unknown_tag() {
    let entry = LineEntry {
        event_date: "t".to_string(),
        source_ip: "ip".to_string(),
        country_code: "cc".to_string(),
        eu: "false".to_string(),
        subdivision: "sub".to_string(),
        postal_code: None,
        isp: "isp".to_string(),
        raw_user_agent: "ua".to_string(),
        action_name: "Nope".to_string(),
        request_body: FlatRecord::new(),
        request_uri: "/u".to_string(),
        batch_id: 0,
    };
    match entry.into_request_body_map() {
        Enrichable::Error(ProcessingError::InvalidClassification) => {}
        _ => panic!("expected InvalidClassification"),
    }
}

#[test]
fn assembler_overrides_colliding_body_keys() {
    let mut body = FlatRecord::new();
    body.insert("eu".to_string(), s("body says true"));
    let entry = LineEntry {
        event_date: "t".to_string(),
        source_ip: "ip".to_string(),
        country_code: "cc".to_string(),
        eu: "false".to_string(),
        subdivision: "sub".to_string(),
        postal_code: None,
        isp: "isp".to_string(),
        raw_user_agent: "ua".to_string(),
        action_name: "Blocked".to_string(),
        request_body: body,
        request_uri: "/u".to_string(),
        batch_id: 3,
    };
    match entry.into_request_body_map() {
        Enrichable::Blocked(rec) => {
            expect_str(rec.get("eu"), "false");
            assert_eq!(rec.get("postal_code"), Some(&JsonValue::Null));
        }
        _ => panic!("expected Blocked record"),
    }
}

#[test]
fn negative_batch_id_renders_with_sign() {
    let line = "t\tip\tcc\teu\tsub\tpc\tisp\tua\t{\"action_group_id\":\"g\",\"action_name\":\"Collection\"}\t/u".to_string();
    match parse(-12, line) {
        Enrichable::Collection(rec) => {
            assert_eq!(rec.get("batch_id"), Some(&num("-12")));
        }
        _ => panic!("expected Collection record"),
    }
}

#[test]
fn every_allowed_name_selects_its_variant() {
    let names = [
        "Gotcha",
        "PreGotcha",
        "Reported",
        "Blocked",
        "Events",
        "Warnings",
        "InitializationFailed",
        "Collection",
    ];
    for name in names {
        let line = format!(
            "t\tip\tcc\teu\tsub\tpc\tisp\tua\t{{\"action_group_id\":\"g\",\"action_name\":\"{}\"}}\t/u",
            name
        );
        let tag_matches = match parse(7, line) {
            Enrichable::Gotcha(_) => name == "Gotcha",
            Enrichable::PreGotcha(_) => name == "PreGotcha",
            Enrichable::Reported(_) => name == "Reported",
            Enrichable::Blocked(_) => name == "Blocked",
            Enrichable::Events(_) => name == "Events",
            Enrichable::Warnings(_) => name == "Warnings",
            Enrichable::InitializationFailed(_) => name == "InitializationFailed",
            Enrichable::Collection(_) => name == "Collection",
            Enrichable::Error(_) => false,
        };
        assert!(tag_matches, "variant tag must equal {}", name);
    }
}

#[test]
fn body_values_survive_serde_round() {
    let line = "t\tip\tcc\teu\tsub\tpc\tisp\tua\t{\"action_group_id\":\"g\",\"action_name\":\"Warnings\",\"n\":5,\"deep\":{\"k\":\"v\"}}\t/u".to_string();
    match parse(7, line) {
        Enrichable::Warnings(rec) => {
            expect_str(rec.get("n"), "5");
            expect_str(rec.get("deep_k"), "v");
        }
        _ => panic!("expected Warnings record"),
    }
}
