use xarf::json::{JsonMap, JsonNumber, JsonValue};
use xarf::{Category, Contact, Evidence, Report};

fn conv(v: serde_json::Value) -> JsonValue {
    match v {
        serde_json::Value::Null => JsonValue::Null,
        serde_json::Value::Bool(b) => JsonValue::Bool(b),
        serde_json::Value::Number(n) => JsonValue::Number(if let Some(u) = n.as_u64() {
            JsonNumber::PosInt(u)
        } else if let Some(i) = n.as_i64() {
            JsonNumber::NegInt(i)
        } else {
            JsonNumber::Float(n.to_string())
        }),
        serde_json::Value::String(s) => JsonValue::String(s),
        serde_json::Value::Array(a) => JsonValue::Array(a.into_iter().map(conv).collect()),
        serde_json::Value::Object(o) => {
            let mut m = JsonMap::new();
            for (k, x) in o {
                m.insert(k, conv(x));
            }
            JsonValue::Object(m)
        }
    }
}

fn back(v: &JsonValue) -> serde_json::Value {
    match v {
        JsonValue::Null => serde_json::Value::Null,
        JsonValue::Bool(b) => serde_json::Value::Bool(*b),
        JsonValue::Number(JsonNumber::PosInt(u)) => serde_json::Value::from(*u),
        JsonValue::Number(JsonNumber::NegInt(i)) => serde_json::Value::from(*i),
        JsonValue::Number(JsonNumber::Float(t)) => serde_json::from_str(t).unwrap(),
        JsonValue::String(s) => serde_json::Value::String(s.clone()),
        JsonValue::Array(a) => serde_json::Value::Array(a.iter().map(back).collect()),
        JsonValue::Object(m) => {
            let mut o = serde_json::Map::new();
            for (k, x) in m.entries() {
                o.insert(k.clone(), back(x));
            }
            serde_json::Value::Object(o)
        }
    }
}

fn j(text: &str) -> JsonValue {
    conv(serde_json::from_str(text).unwrap())
}

fn value(text: &str) -> serde_json::Value {
    serde_json::from_str(text).unwrap()
}

fn minimal_v4_object() -> JsonValue {
    j(r#"{
        "xarf_version": "4.2.0",
        "report_id": "550e8400-e29b-41d4-a716-446655440000",
        "timestamp": "2024-01-15T14:30:25Z",
        "reporter": {"org": "X", "contact": "x@x.example", "domain": "x.example"},
        "sender": {"org": "X", "contact": "x@x.example", "domain": "x.example"},
        "source_identifier": "192.0.2.1",
        "source_port": 25,
        "category": "messaging",
        "type": "spam",
        "protocol": "smtp",
        "smtp_from": "spam@bad.example"
    }"#)
}

/// A category written as JSON is its name.
fn category_json(c: &Category) -> serde_json::Value {
    serde_json::Value::String(c.as_str().to_string())
}

/// A category read from a JSON string.
fn category_from_json(text: &str) -> Category {
    match j(text) {
        JsonValue::String(s) => Category::from_str_value(&s),
        _ => panic!("not a string"),
    }
}

#[test]
fn category_serializes_as_string() {
    let c = Category::Messaging;
    let v = category_json(&c);
    assert_eq!(v, serde_json::Value::String("messaging".into()));
}

#[test]
fn category_deserializes_known_values() {
    let c = category_from_json(r#""content""#);
    assert_eq!(c, Category::Content);
    assert!(c.is_known());
}

#[test]
fn category_deserializes_unknown_as_other() {
    let c = category_from_json(r#""tribbles""#);
    assert_eq!(c, Category::Other("tribbles".into()));
    assert!(!c.is_known());
    let s = serde_json::to_string(&category_json(&c)).unwrap();
    assert_eq!(s, r#""tribbles""#);
}

#[test]
fn category_as_str_all_known() {
    for (cat, expected) in [
        (Category::Messaging, "messaging"),
        (Category::Connection, "connection"),
        (Category::Content, "content"),
        (Category::Copyright, "copyright"),
        (Category::Vulnerability, "vulnerability"),
        (Category::Infrastructure, "infrastructure"),
        (Category::Reputation, "reputation"),
    ] {
        assert_eq!(cat.as_str(), expected);
    }
}

#[test]
fn contact_serializes_in_expected_order() {
    let c = Contact::new("Acme".into(), "abuse@acme.example".into(), "acme.example".into());
    let v = back(&c.to_json());
    assert_eq!(
        v,
        value(r#"{"org": "Acme", "contact": "abuse@acme.example", "domain": "acme.example"}"#)
    );
}

#[test]
fn evidence_serialises_omits_optional_fields() {
    let e = Evidence {
        content_type: "text/plain".into(),
        payload: "aGVsbG8=".into(),
        description: None,
        hash: None,
        size: None,
    };
    let v = back(&e.to_json());
    let obj = v.as_object().unwrap();
    assert!(!obj.contains_key("description"));
    assert!(!obj.contains_key("hash"));
    assert!(!obj.contains_key("size"));
    assert_eq!(obj.get("content_type").unwrap(), "text/plain");
}

#[test]
fn report_extras_round_trip_through_set_and_get() {
    let mut report = Report::from_json(&minimal_v4_object()).unwrap();
    report.set_extra("custom_extension".into(), j(r#"{"hello": "world"}"#));
    let v = back(&report.to_json_value());
    assert_eq!(v["custom_extension"]["hello"], "world");
    assert_eq!(back(report.extra("custom_extension").unwrap()), value(r#"{"hello": "world"}"#));
}

#[test]
fn report_strip_internal_removes_internal_block() {
    let mut data = minimal_v4_object();
    if let JsonValue::Object(m) = &mut data {
        m.insert("_internal".into(), j(r#"{"ticket": "X-1"}"#));
    }
    let mut report = Report::from_json(&data).unwrap();
    assert!(report.internal.is_some());
    let stripped = report.strip_internal();
    assert!(stripped.is_some());
    assert!(report.internal.is_none());
    let v = back(&report.to_json_value());
    assert!(v.get("_internal").is_none());
}

#[test]
fn report_serialises_with_type_field_named_type() {
    let report = Report::from_json(&minimal_v4_object()).unwrap();
    let v = back(&report.to_json_value());
    assert!(v.as_object().unwrap().contains_key("type"));
    assert_eq!(v["type"], "spam");
}

#[test]
fn report_clone_and_equality() {
    let r1 = Report::from_json(&minimal_v4_object()).unwrap();
    let r2 = r1.clone();
    assert_eq!(back(&r1.to_json_value()), back(&r2.to_json_value()));
    assert_eq!(r1.report_id, r2.report_id);
    assert_eq!(r1.reporter, r2.reporter);
}

#[test]
fn json_map_keeps_keys_sorted_and_replaces() {
    let mut m = JsonMap::new();
    assert!(m.insert("b".to_string(), JsonValue::Bool(true)).is_none());
    assert!(m.insert("a".to_string(), JsonValue::Null).is_none());
    let old = m.insert("b".to_string(), JsonValue::Bool(false));
    assert!(matches!(old, Some(JsonValue::Bool(true))));
    let keys: Vec<&str> = m.entries().iter().map(|(k, _)| k.as_str()).collect();
    assert_eq!(keys, vec!["a", "b"]);
    assert_eq!(m.len(), 2);
    assert!(matches!(m.get("b"), Some(JsonValue::Bool(false))));
    assert!(m.remove("a").is_some());
    assert!(!m.contains_key("a"));
}

#[test]
fn json_map_from_pairs_later_wins() {
    let pairs = vec![
        ("k".to_string(), JsonValue::from_str("one")),
        ("j".to_string(), JsonValue::Null),
        ("k".to_string(), JsonValue::from_str("two")),
    ];
    let m = JsonMap::from_pairs(&pairs);
    assert_eq!(m.len(), 2);
    assert_eq!(m.get_str("k").unwrap(), "two");
}

#[test]
fn contact_and_evidence_read_back_what_they_write() {
    let c = Contact::new("Acme".into(), "abuse@acme.example".into(), "acme.example".into());
    assert_eq!(Contact::from_json(&c.to_json()).unwrap(), c);
    let e = Evidence {
        content_type: "text/plain".into(),
        payload: "aGVsbG8=".into(),
        description: Some("hi".into()),
        hash: None,
        size: Some(5),
    };
    assert_eq!(Evidence::from_json(&e.to_json()).unwrap(), e);
}

#[test]
fn contact_missing_member_is_reported() {
    let err = Contact::from_json(&j(r#"{"org": "A", "domain": "d"}"#)).unwrap_err();
    assert_eq!(err, "missing field `contact`");
    let err = Contact::from_json(&j(r#"{"org": 1, "contact": "c", "domain": "d"}"#)).unwrap_err();
    assert_eq!(err, "invalid type: integer `1`, expected a string");
    let err = Contact::from_json(&j("[]")).unwrap_err();
    assert_eq!(err, "invalid type: sequence, expected struct Contact");
}

#[test]
fn report_reads_core_fields_and_extras() {
    let r = Report::from_json(&minimal_v4_object()).unwrap();
    assert_eq!(r.xarf_version, "4.2.0");
    assert_eq!(r.category.as_str(), "messaging");
    assert_eq!(r.type_, "spam");
    assert_eq!(r.source_port, Some(25));
    assert_eq!(r.extra.len(), 2);
    assert_eq!(r.extra.get_str("protocol").unwrap(), "smtp");
}

#[test]
fn report_missing_required_member_is_an_error() {
    let err = Report::from_json(&j(r#"{"xarf_version": "4.2.0"}"#)).unwrap_err();
    assert_eq!(err, "missing field `report_id`");
    let mut data = minimal_v4_object();
    if let JsonValue::Object(m) = &mut data {
        m.insert("source_port".into(), JsonValue::Number(JsonNumber::PosInt(70000)));
    }
    let err = Report::from_json(&data).unwrap_err();
    assert_eq!(err, "invalid value: integer `70000`, expected u16");
}

#[test]
fn report_written_then_read_is_the_same_report() {
    let r = Report::from_json(&minimal_v4_object()).unwrap();
    let v = r.to_json_value();
    let again = Report::from_json(&v).unwrap();
    assert_eq!(back(&again.to_json_value()), back(&v));
    assert_eq!(back(&v), back(&minimal_v4_object()));
}

fn serde_message<T: std::fmt::Debug>(r: Result<T, serde_json::Error>) -> String {
    r.unwrap_err().to_string()
}

fn read_error(member: &str, text: &str) -> String {
    let mut data = minimal_v4_object();
    if let JsonValue::Object(m) = &mut data {
        m.insert(member.into(), j(text));
    }
    Report::from_json(&data).unwrap_err()
}

#[test]
fn reading_errors_read_as_serde_writes_them() {
    let cases: Vec<(&str, &str, String)> = vec![
        ("report_id", "5", serde_message(serde_json::from_value::<String>(serde_json::from_str("5").unwrap()))),
        ("report_id", "-5", serde_message(serde_json::from_value::<String>(serde_json::from_str("-5").unwrap()))),
        ("report_id", "true", serde_message(serde_json::from_value::<String>(serde_json::from_str("true").unwrap()))),
        ("report_id", "1.5", serde_message(serde_json::from_value::<String>(serde_json::from_str("1.5").unwrap()))),
        ("report_id", "[1]", serde_message(serde_json::from_value::<String>(serde_json::from_str("[1]").unwrap()))),
        ("report_id", "{}", serde_message(serde_json::from_value::<String>(serde_json::from_str("{}").unwrap()))),
        ("report_id", "null", serde_message(serde_json::from_value::<String>(serde_json::Value::Null))),
        ("source_port", "70000", serde_message(serde_json::from_value::<u16>(serde_json::from_str("70000").unwrap()))),
        ("source_port", "-1", serde_message(serde_json::from_value::<u16>(serde_json::from_str("-1").unwrap()))),
        ("source_port", "\"x\\\"y\"", serde_message(serde_json::from_value::<u16>(serde_json::from_str("\"x\\\"y\"").unwrap()))),
        ("source_port", "\"tab\\there\"", serde_message(serde_json::from_value::<u16>(serde_json::from_str("\"tab\\there\"").unwrap()))),
        ("source_port", "2.0", serde_message(serde_json::from_value::<u16>(serde_json::from_str("2.0").unwrap()))),
        ("tags", "\"a\"", serde_message(serde_json::from_value::<Vec<String>>(serde_json::from_str("\"a\"").unwrap()))),
        ("tags", "[\"a\", 3]", serde_message(serde_json::from_value::<Vec<String>>(serde_json::from_str("[\"a\", 3]").unwrap()))),
        ("confidence", "\"high\"", serde_message(serde_json::from_value::<f64>(serde_json::from_str("\"high\"").unwrap()))),
        ("_internal", "[]", serde_message(serde_json::from_value::<serde_json::Map<String, serde_json::Value>>(serde_json::from_str("[]").unwrap()))),
    ];
    for (member, text, expected) in cases {
        assert_eq!(read_error(member, text), expected, "{member} = {text}");
    }
}
