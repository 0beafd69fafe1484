use xarf::json::{JsonMap, JsonNumber, JsonValue};
use xarf::schemas::{
    core_property_names, core_required_fields, promote_recommended_to_required, type_schema_table,
    FieldMeta, SchemaRegistry, SchemaSources,
};
use xarf::validator::{is_known_field, meta_to_info, validate_with_violations};
use xarf::{
    convert_v3_to_v4, create_evidence_with_options, is_v3_report, EvidenceOptions, HashAlgorithm,
};
use xarf::{
    create_evidence, create_report, deprecation_warning, parse, parse_value, parse_with_options,
    quick_errors, validate, Contact, CreateReportOptions, ParseOptions, ReportBuilder,
    ValidateOptions, ValidationError, XarfError, SPEC_VERSION,
};

fn conv(v: serde_json::Value) -> JsonValue {
    match v {
        serde_json::Value::Null => JsonValue::Null,
        serde_json::Value::Bool(b) => JsonValue::Bool(b),
        serde_json::Value::Number(n) => JsonValue::Number(if let Some(u) = n.as_u64() {
            JsonNumber::PosInt(u)
        } else if let Some(i) = n.as_i64() {
            JsonNumber::NegInt(i)
        } else {
            JsonNumber::Float(n.to_string())
        }),
        serde_json::Value::String(s) => JsonValue::String(s),
        serde_json::Value::Array(a) => JsonValue::Array(a.into_iter().map(conv).collect()),
        serde_json::Value::Object(o) => {
            let mut m = JsonMap::new();
            for (k, x) in o {
                m.insert(k, conv(x));
            }
            JsonValue::Object(m)
        }
    }
}

fn back(v: &JsonValue) -> serde_json::Value {
    match v {
        JsonValue::Null => serde_json::Value::Null,
        JsonValue::Bool(b) => serde_json::Value::Bool(*b),
        JsonValue::Number(JsonNumber::PosInt(u)) => serde_json::Value::from(*u),
        JsonValue::Number(JsonNumber::NegInt(i)) => serde_json::Value::from(*i),
        JsonValue::Number(JsonNumber::Float(t)) => serde_json::from_str(t).unwrap(),
        JsonValue::String(s) => serde_json::Value::String(s.clone()),
        JsonValue::Array(a) => serde_json::Value::Array(a.iter().map(back).collect()),
        JsonValue::Object(m) => {
            let mut o = serde_json::Map::new();
            for (k, x) in m.entries() {
                o.insert(k.clone(), back(x));
            }
            serde_json::Value::Object(o)
        }
    }
}

fn j(text: &str) -> JsonValue {
    conv(serde_json::from_str(text).unwrap())
}

fn value(text: &str) -> serde_json::Value {
    serde_json::from_str(text).unwrap()
}

fn object(v: &mut JsonValue) -> &mut JsonMap {
    match v {
        JsonValue::Object(m) => m,
        _ => panic!("not an object"),
    }
}

// ---------------------------------------------------------------------------
// A schema set in the shape of the XARF v4 schemas: the core schema, the
// master schema tying each category/type to its type schema, the content
// base, and a handful of type schemas (the others accept anything).
// ---------------------------------------------------------------------------

const CORE: &str = r##"{
  "$schema": "https://json-schema.org/draft/2020-12/schema",
  "$id": "https://xarf.org/schemas/v4/xarf-core.json",
  "type": "object",
  "properties": {
    "xarf_version": {"type": "string", "pattern": "^4\\.[0-9]+\\.[0-9]+$"},
    "report_id": {"type": "string", "format": "uuid"},
    "timestamp": {"type": "string", "format": "date-time"},
    "reporter": {"$ref": "#/$defs/contact"},
    "sender": {"$ref": "#/$defs/contact"},
    "source_identifier": {"type": "string", "minLength": 1},
    "source_port": {"type": "integer", "minimum": 1, "maximum": 65535, "x-recommended": true, "description": "Source port"},
    "category": {"type": "string", "enum": ["messaging", "connection", "content", "copyright", "vulnerability", "infrastructure", "reputation"]},
    "type": {"type": "string"},
    "evidence_source": {"type": "string", "x-recommended": true, "description": "How the evidence was gathered"},
    "evidence": {"type": "array", "items": {"$ref": "#/$defs/evidence"}, "x-recommended": true},
    "tags": {"type": "array", "items": {"type": "string", "pattern": "^[a-z0-9_]+:[a-z0-9_.-]+$"}},
    "confidence": {"type": "number", "minimum": 0, "maximum": 1, "description": "Confidence score"},
    "description": {"type": "string", "description": "Free-text description"},
    "legacy_version": {"type": "string"},
    "_internal": {"type": "object"}
  },
  "required": ["xarf_version", "report_id", "timestamp", "reporter", "sender", "source_identifier", "category", "type"],
  "$defs": {
    "contact": {
      "type": "object",
      "properties": {
        "org": {"type": "string"},
        "contact": {"type": "string", "format": "email"},
        "domain": {"type": "string", "format": "hostname"}
      },
      "required": ["org", "contact", "domain"]
    },
    "evidence": {
      "type": "object",
      "properties": {
        "content_type": {"type": "string"},
        "payload": {"type": "string"},
        "description": {"type": "string"},
        "hash": {"type": "string", "pattern": "^(sha256|sha512|sha1|md5):[a-f0-9]+$"},
        "size": {"type": "integer", "minimum": 0}
      },
      "required": ["content_type", "payload"]
    }
  }
}"##;

const CONTENT_BASE: &str = r#"{
  "$id": "https://xarf.org/schemas/v4/types/content-base.json",
  "properties": {"url": {"type": "string", "format": "uri", "description": "The offending URL"}},
  "required": ["url"]
}"#;

fn type_schema(category: &str, type_: &str, uri: &str) -> String {
    let body = match (category, type_) {
        ("messaging", "spam") => r#""properties": {
            "protocol": {"type": "string", "enum": ["smtp", "imap", "pop3", "http", "other"], "description": "Messaging protocol"},
            "smtp_from": {"type": "string", "format": "email"},
            "smtp_to": {"type": "string"},
            "subject": {"type": "string", "x-recommended": true},
            "message_id": {"type": "string"}
          },
          "required": ["protocol"],
          "if": {"properties": {"protocol": {"const": "smtp"}}, "required": ["protocol"]},
          "then": {"required": ["smtp_from", "source_port"]}"#,
        ("connection", "ddos") => r#""properties": {
            "first_seen": {"type": "string", "format": "date-time"},
            "protocol": {"type": "string", "enum": ["tcp", "udp", "icmp", "other"]},
            "destination_ip": {"type": "string"},
            "destination_port": {"type": "integer", "x-recommended": true},
            "attack_vector": {"type": "string", "x-recommended": true},
            "peak_pps": {"type": "integer"}
          },
          "required": ["first_seen", "protocol"]"#,
        ("content", "phishing") => r#""allOf": [{"$ref": "./content-base.json"}],
          "properties": {"lure_type": {"type": "string"}}"#,
        ("copyright", "copyright") => r#""properties": {"infringing_url": {"type": "string", "format": "uri"}},
          "required": ["infringing_url"]"#,
        ("vulnerability", "open_service") => r#""properties": {"service": {"type": "string"}},
          "required": ["service"]"#,
        ("infrastructure", "botnet") => r#""properties": {"compromise_evidence": {"type": "string"}},
          "required": ["compromise_evidence"]"#,
        ("reputation", "blocklist") => r#""properties": {"threat_type": {"type": "string"}},
          "required": ["threat_type"]"#,
        _ => r#""properties": {}"#,
    };
    format!(r#"{{"$id": "{uri}", {body}}}"#)
}

fn master() -> String {
    let table = type_schema_table();
    let combos: Vec<String> = table
        .iter()
        .map(|(c, t, _)| format!(r#"{{"properties": {{"category": {{"const": "{c}"}}, "type": {{"const": "{t}"}}}}}}"#))
        .collect();
    let rules: Vec<String> = table
        .iter()
        .map(|(c, t, u)| {
            format!(
                r#"{{"if": {{"properties": {{"category": {{"const": "{c}"}}, "type": {{"const": "{t}"}}}}, "required": ["category", "type"]}}, "then": {{"$ref": "{u}"}}}}"#
            )
        })
        .collect();
    format!(
        r#"{{"$schema": "https://json-schema.org/draft/2020-12/schema",
            "$id": "https://xarf.org/schemas/v4/xarf-v4-master.json",
            "allOf": [{{"$ref": "https://xarf.org/schemas/v4/xarf-core.json"}}, {}],
            "anyOf": [{}]}}"#,
        rules.join(", "),
        combos.join(", ")
    )
}

fn sources() -> SchemaSources {
    SchemaSources {
        core: CORE.to_string(),
        master: master(),
        content_base: CONTENT_BASE.to_string(),
        types: type_schema_table().iter().map(|(c, t, u)| type_schema(c, t, u)).collect(),
    }
}

fn registry() -> SchemaRegistry {
    SchemaRegistry::build(&sources()).unwrap()
}

fn reporter() -> Contact {
    Contact::new("Acme".into(), "abuse@acme.example".into(), "acme.example".into())
}

fn issue_pairs(v: &[ValidationError]) -> Vec<(String, String)> {
    v.iter().map(|e| (e.field.clone(), e.message.clone())).collect()
}

fn text(v: &JsonValue) -> String {
    serde_json::to_string(&back(v)).unwrap()
}

// ---------------------------------------------------------------------------
// Validation
// ---------------------------------------------------------------------------

fn good_connection_ddos() -> JsonValue {
    j(r#"{
        "xarf_version": "4.2.0",
        "report_id": "00000000-0000-4000-8000-000000000000",
        "timestamp": "2024-01-15T14:30:25Z",
        "reporter": {"org": "CERT", "contact": "cert@example.org", "domain": "example.org"},
        "sender": {"org": "CERT", "contact": "cert@example.org", "domain": "example.org"},
        "source_identifier": "203.0.113.5",
        "source_port": 53,
        "category": "connection",
        "type": "ddos",
        "first_seen": "2024-01-15T14:15:00Z",
        "protocol": "udp",
        "destination_ip": "192.0.2.42"
    }"#)
}

#[test]
fn valid_ddos_report_passes_validation() {
    let reg = registry();
    let v = good_connection_ddos();
    let result = validate(&reg, &v, ValidateOptions::default()).unwrap();
    assert!(result.valid, "errors: {:?}", result.errors);
    assert!(result.errors.is_empty());
}

#[test]
fn missing_first_seen_fails_connection_ddos() {
    let reg = registry();
    let mut v = good_connection_ddos();
    object(&mut v).remove("first_seen");
    let result = validate(&reg, &v, ValidateOptions::default()).unwrap();
    assert!(!result.valid);
    assert!(result.errors.iter().any(|e| e.message.contains("first_seen")));
}

#[test]
fn missing_protocol_fails_connection_ddos() {
    let reg = registry();
    let mut v = good_connection_ddos();
    object(&mut v).remove("protocol");
    let result = validate(&reg, &v, ValidateOptions::default()).unwrap();
    assert!(!result.valid);
    assert!(result.errors.iter().any(|e| e.message.contains("protocol")));
}

#[test]
fn invalid_protocol_enum_fails() {
    let reg = registry();
    let mut v = good_connection_ddos();
    object(&mut v).insert("protocol".into(), JsonValue::from_str("carrier_pigeon"));
    let result = validate(&reg, &v, ValidateOptions::default()).unwrap();
    assert!(!result.valid);
}

#[test]
fn evidence_payload_must_be_string() {
    let reg = registry();
    let mut v = good_connection_ddos();
    object(&mut v).insert("evidence".into(), j(r#"[{"content_type": "text/plain", "payload": 12345}]"#));
    let result = validate(&reg, &v, ValidateOptions::default()).unwrap();
    assert!(!result.valid);
}

#[test]
fn xarf_version_must_match_4_x_y_pattern() {
    let reg = registry();
    let mut v = good_connection_ddos();
    object(&mut v).insert("xarf_version".into(), JsonValue::from_str("3.0.0"));
    let result = validate(&reg, &v, ValidateOptions::default()).unwrap();
    assert!(!result.valid);
    assert!(result.errors.iter().any(|e| e.message.to_lowercase().contains("4")));
}

#[test]
fn report_id_must_be_uuid_format() {
    let reg = registry();
    let mut v = good_connection_ddos();
    object(&mut v).insert("report_id".into(), JsonValue::from_str("not-a-uuid"));
    let result = validate(&reg, &v, ValidateOptions::default()).unwrap();
    assert!(!result.valid);
}

#[test]
fn confidence_must_be_in_range() {
    let reg = registry();
    let mut v = good_connection_ddos();
    object(&mut v).insert("confidence".into(), j("2.0"));
    let result = validate(&reg, &v, ValidateOptions::default()).unwrap();
    assert!(!result.valid);
}

#[test]
fn source_port_must_be_positive() {
    let reg = registry();
    let mut v = good_connection_ddos();
    object(&mut v).insert("source_port".into(), j("0"));
    let result = validate(&reg, &v, ValidateOptions::default()).unwrap();
    assert!(!result.valid);
}

#[test]
fn unknown_category_type_pair_fails_master_schema() {
    let reg = registry();
    let mut v = good_connection_ddos();
    object(&mut v).insert("category".into(), JsonValue::from_str("messaging"));
    let result = validate(&reg, &v, ValidateOptions::default()).unwrap();
    assert!(!result.valid);
}

#[test]
fn valid_for_every_category() {
    let reg = registry();
    let samples: Vec<(&str, &str, &str)> = vec![
        ("messaging", "spam", r#"{"category": "messaging", "type": "spam", "protocol": "smtp", "smtp_from": "x@bad.example", "source_port": 25}"#),
        ("connection", "ddos", r#"{"category": "connection", "type": "ddos", "first_seen": "2024-01-15T14:15:00Z", "protocol": "udp", "source_port": 53, "destination_ip": "192.0.2.42"}"#),
        ("content", "phishing", r#"{"category": "content", "type": "phishing", "url": "https://phish.example/login"}"#),
        ("copyright", "copyright", r#"{"category": "copyright", "type": "copyright", "infringing_url": "https://pirated.example/movie.mp4"}"#),
        ("vulnerability", "open_service", r#"{"category": "vulnerability", "type": "open_service", "service": "memcached"}"#),
        ("infrastructure", "botnet", r#"{"category": "infrastructure", "type": "botnet", "compromise_evidence": "C2 communication observed on 1.2.3.4"}"#),
        ("reputation", "blocklist", r#"{"category": "reputation", "type": "blocklist", "threat_type": "spam_source"}"#),
    ];
    for (category, kind, extras) in samples {
        let mut v = j(r#"{
            "xarf_version": "4.2.0",
            "report_id": "550e8400-e29b-41d4-a716-446655440000",
            "timestamp": "2024-01-15T14:30:25Z",
            "reporter": {"org": "X", "contact": "x@x.example", "domain": "x.example"},
            "sender": {"org": "X", "contact": "x@x.example", "domain": "x.example"},
            "source_identifier": "1.2.3.4"
        }"#);
        if let JsonValue::Object(extra) = j(extras) {
            for (k, x) in extra.entries() {
                object(&mut v).insert(k.clone(), x.clone());
            }
        }
        let result = validate(&reg, &v, ValidateOptions::default()).unwrap();
        assert!(result.valid, "{}/{} should validate, errors: {:?}", category, kind, result.errors);
    }
}

#[test]
fn strict_mode_treats_recommended_as_required() {
    let reg = registry();
    let v = good_connection_ddos();
    let strict = validate(&reg, &v, ValidateOptions { strict: true, show_missing_optional: false }).unwrap();
    assert!(!strict.valid);
}

#[test]
fn show_missing_optional_lists_optional_fields() {
    let reg = registry();
    let v = good_connection_ddos();
    let result = validate(&reg, &v, ValidateOptions { strict: false, show_missing_optional: true }).unwrap();
    let info = result.info.expect("info populated");
    assert!(!info.is_empty());
    assert!(info.iter().any(|i| i.field == "confidence"));
}

#[test]
fn registry_lists_all_thirty_two_combinations() {
    let count = registry().known_combinations().len();
    assert_eq!(count, 32, "expected 32 canonical combinations");
}

#[test]
fn registry_recognises_canonical_combos() {
    let r = registry();
    assert!(r.is_known_combination("messaging", "spam"));
    assert!(r.is_known_combination("connection", "ddos"));
    assert!(r.is_known_combination("content", "phishing"));
    assert!(r.is_known_combination("copyright", "p2p"));
    assert!(!r.is_known_combination("connection", "auth_failure"));
    assert!(!r.is_known_combination("messaging", "spam_v2"));
    assert!(!r.is_known_combination("nothing", "nothing"));
}

#[test]
fn violations_become_deduplicated_dotted_errors() {
    let reg = registry();
    let raw = vec![
        ("/reporter/contact".to_string(), "bad".to_string()),
        ("/reporter/contact".to_string(), "bad".to_string()),
        ("".to_string(), "top".to_string()),
        ("//a/b".to_string(), "deep".to_string()),
    ];
    let r = validate_with_violations(&reg, &good_connection_ddos(), ValidateOptions::default(), &raw);
    assert!(!r.valid);
    assert_eq!(
        issue_pairs(&r.errors),
        vec![
            ("reporter.contact".to_string(), "bad".to_string()),
            ("".to_string(), "top".to_string()),
            ("a.b".to_string(), "deep".to_string()),
        ]
    );
}

#[test]
fn unknown_fields_warn_then_fail_in_strict_mode() {
    let reg = registry();
    let mut data = good_connection_ddos();
    object(&mut data).insert("bogus".into(), JsonValue::Bool(true));
    object(&mut data).insert("_internal".into(), j("{}"));
    let r = validate(&reg, &data, ValidateOptions::default()).unwrap();
    assert!(r.valid, "{:?}", r.errors);
    assert_eq!(r.warnings.len(), 1);
    assert_eq!(r.warnings[0].field, "bogus");
    assert_eq!(r.warnings[0].message, "Unknown field 'bogus' is not defined in the XARF schema");
    let s = validate(&reg, &data, ValidateOptions { strict: true, show_missing_optional: false }).unwrap();
    assert!(!s.valid);
    assert!(s.warnings.is_empty());
    assert!(s.errors.iter().any(|e| e.field == "bogus"));
}

#[test]
fn missing_optional_fields_follow_core_then_type_order() {
    let reg = registry();
    let r = validate(&reg, &good_connection_ddos(), ValidateOptions { strict: false, show_missing_optional: true }).unwrap();
    let info: Vec<(String, String)> = r.info.unwrap().iter().map(|i| (i.field.clone(), i.message.clone())).collect();
    assert_eq!(
        info,
        vec![
            ("confidence".to_string(), "OPTIONAL: Confidence score".to_string()),
            ("description".to_string(), "OPTIONAL: Free-text description".to_string()),
            ("evidence".to_string(), "RECOMMENDED: Optional field: evidence".to_string()),
            ("evidence_source".to_string(), "RECOMMENDED: How the evidence was gathered".to_string()),
            ("legacy_version".to_string(), "OPTIONAL: Optional field: legacy_version".to_string()),
            ("tags".to_string(), "OPTIONAL: Optional field: tags".to_string()),
            ("attack_vector".to_string(), "RECOMMENDED: Optional field: attack_vector".to_string()),
            ("destination_port".to_string(), "RECOMMENDED: Optional field: destination_port".to_string()),
            ("peak_pps".to_string(), "OPTIONAL: Optional field: peak_pps".to_string()),
        ]
    );
}

#[test]
fn known_field_lookup_and_info_text() {
    let fields = vec!["a".to_string(), "b".to_string()];
    assert!(is_known_field("a", Some(&fields)));
    assert!(!is_known_field("c", Some(&fields)));
    assert!(is_known_field("legacy_version", None));
    assert!(!is_known_field("protocol", None));
    let meta = FieldMeta { name: "n".into(), description: "d".into(), recommended: true };
    let info = meta_to_info(&meta);
    assert_eq!(info.field, "n");
    assert_eq!(info.message, "RECOMMENDED: d");
}

// ---------------------------------------------------------------------------
// The registry
// ---------------------------------------------------------------------------

#[test]
fn registry_lists_the_type_table_in_order() {
    let reg = registry();
    let combos = reg.known_combinations();
    assert_eq!(combos[0], ("connection".to_string(), "ddos".to_string()));
    assert_eq!(combos[31], ("vulnerability".to_string(), "open_service".to_string()));
    let mut sorted = combos.clone();
    sorted.sort();
    assert_eq!(sorted, combos);
    assert!(reg.type_schema("content", "phishing").is_some());
    assert!(reg.type_schema("content", "nothing").is_none());
}

#[test]
fn registry_core_field_lists() {
    let reg = registry();
    let names = core_property_names(&reg);
    assert_eq!(names.len(), 16);
    assert_eq!(names[0], "_internal");
    assert_eq!(
        core_required_fields(&reg),
        vec!["xarf_version", "report_id", "timestamp", "reporter", "sender", "source_identifier", "category", "type"]
    );
    let names: Vec<String> = reg.core_optional_fields().iter().map(|m| m.name.clone()).collect();
    assert_eq!(
        names,
        vec!["confidence", "description", "evidence", "evidence_source", "legacy_version", "source_port", "tags"]
    );
}

#[test]
fn registry_type_fields() {
    let reg = registry();
    let known = reg.type_known_fields("messaging", "spam").unwrap();
    for name in ["protocol", "smtp_from", "subject", "xarf_version", "_internal", "legacy_version"] {
        assert!(known.iter().any(|n| n == name), "{name}");
    }
    let mut sorted = known.clone();
    sorted.sort();
    sorted.dedup();
    assert_eq!(&sorted, known);
    let opt: Vec<(String, bool)> = reg
        .type_optional_fields("messaging", "spam")
        .unwrap()
        .iter()
        .map(|m| (m.name.clone(), m.recommended))
        .collect();
    assert_eq!(
        opt,
        vec![
            ("message_id".to_string(), false),
            ("smtp_from".to_string(), false),
            ("smtp_to".to_string(), false),
            ("subject".to_string(), true),
        ]
    );
    let phishing = reg.type_known_fields("content", "phishing").unwrap();
    assert!(phishing.iter().any(|n| n == "url"));
    assert!(phishing.iter().any(|n| n == "lure_type"));
    let opt: Vec<String> = reg.type_optional_fields("content", "phishing").unwrap().iter().map(|m| m.name.clone()).collect();
    assert_eq!(opt, vec!["lure_type".to_string()]);
    assert!(reg.type_known_fields("messaging", "ham").is_none());
}

#[test]
fn registry_build_reports_parse_errors() {
    let mut s = sources();
    s.core = "{".into();
    match SchemaRegistry::build(&s).unwrap_err() {
        XarfError::Schema(m) => assert!(m.starts_with("core schema parse: "), "{m}"),
        other => panic!("unexpected {other:?}"),
    }
    let mut s = sources();
    s.types[5] = "[".into();
    match SchemaRegistry::build(&s).unwrap_err() {
        XarfError::Schema(m) => assert!(m.starts_with("type schema parse failed for connection/scraping: "), "{m}"),
        other => panic!("unexpected {other:?}"),
    }
}

#[test]
fn promotion_adds_recommended_properties_to_required() {
    let mut node = j(r#"{
        "properties": {"a": {"x-recommended": true}, "b": {}, "c": {"x-recommended": false}},
        "required": ["b"],
        "allOf": [{"properties": {"d": {"x-recommended": true}}}]
    }"#);
    promote_recommended_to_required(&mut node);
    let v = back(&node);
    assert_eq!(v["required"], value(r#"["b", "a"]"#));
    assert_eq!(v["allOf"][0]["required"], value(r#"["d"]"#));
    let mut plain = j(r#"{"properties": {"x": {}}}"#);
    promote_recommended_to_required(&mut plain);
    assert!(back(&plain).get("required").is_none());
}

// ---------------------------------------------------------------------------
// Parsing
// ---------------------------------------------------------------------------

fn minimal_spam() -> JsonValue {
    j(r#"{
        "xarf_version": "4.2.0",
        "report_id": "550e8400-e29b-41d4-a716-446655440000",
        "timestamp": "2024-01-15T14:30:25Z",
        "reporter": {"org": "Acme", "contact": "abuse@acme.example", "domain": "acme.example"},
        "sender": {"org": "Acme", "contact": "abuse@acme.example", "domain": "acme.example"},
        "source_identifier": "192.0.2.1",
        "source_port": 25,
        "category": "messaging",
        "type": "spam",
        "protocol": "smtp",
        "smtp_from": "spam@bad.example"
    }"#)
}

#[test]
fn parse_string_yields_typed_report() {
    let reg = registry();
    let json = text(&minimal_spam());
    let result = parse(&reg, &json).expect("ok");
    assert!(result.errors.is_empty(), "errors: {:?}", result.errors);
    let report = result.report.expect("typed report");
    assert_eq!(report.category.as_str(), "messaging");
    assert_eq!(report.type_, "spam");
    assert_eq!(report.source_identifier, "192.0.2.1");
    assert_eq!(report.reporter.org, "Acme");
}

#[test]
fn parse_value_path_matches_string_path() {
    let reg = registry();
    let value = minimal_spam();
    let from_str = parse(&reg, &text(&value)).expect("ok");
    let from_value = parse_value(&reg, value, ParseOptions::default()).expect("ok");
    assert_eq!(from_value.errors, from_str.errors);
    assert!(from_value.report.is_some());
    assert!(from_str.report.is_some());
}

#[test]
fn malformed_json_returns_invalid_json_error() {
    let reg = registry();
    let err = parse(&reg, "not json").unwrap_err();
    assert!(matches!(err, XarfError::InvalidJson(_)));
}

#[test]
fn non_object_top_level_returns_invalid_json_error() {
    let reg = registry();
    let err = parse(&reg, "[1,2,3]").unwrap_err();
    let msg = err.message();
    assert!(msg.contains("expected a JSON object"), "got: {msg}");
    assert_eq!(msg, "invalid JSON: expected a JSON object, got array");
}

#[test]
fn missing_xarf_version_surfaces_error() {
    let reg = registry();
    let mut data = minimal_spam();
    object(&mut data).remove("xarf_version");
    let result = parse_value(&reg, data, ParseOptions::default()).expect("ok");
    assert!(result.errors.iter().any(|e| e.message.contains("xarf_version")));
}

#[test]
fn invalid_category_surfaces_error_with_category_in_message() {
    let reg = registry();
    let mut data = minimal_spam();
    object(&mut data).insert("category".into(), JsonValue::from_str("not_a_category"));
    let result = parse_value(&reg, data, ParseOptions::default()).expect("ok");
    let combined: String = result
        .errors
        .iter()
        .map(|e| format!("{} {}", e.field, e.message))
        .collect::<Vec<_>>()
        .join("\n");
    assert!(combined.to_lowercase().contains("category"), "expected category-related error, got:\n{combined}");
}

#[test]
fn unknown_field_warning_in_normal_mode() {
    let reg = registry();
    let mut data = minimal_spam();
    object(&mut data).insert("totally_made_up".into(), JsonValue::from_str("hi"));
    let result = parse_value(&reg, data, ParseOptions::default()).expect("ok");
    assert!(
        result.warnings.iter().any(|w| w.field == "totally_made_up"),
        "expected an unknown-field warning, got: {:?}",
        result.warnings
    );
    assert!(!result.errors.iter().any(|e| e.field == "totally_made_up"));
}

#[test]
fn unknown_field_promoted_to_error_in_strict_mode() {
    let reg = registry();
    let mut data = minimal_spam();
    object(&mut data).insert("totally_made_up".into(), JsonValue::from_str("hi"));
    let result = parse_value(&reg, data, ParseOptions { strict: true, show_missing_optional: false }).expect("ok");
    assert!(result.errors.iter().any(|e| e.field == "totally_made_up"));
    assert!(result.warnings.is_empty());
}

#[test]
fn strict_mode_requires_recommended_fields() {
    let reg = registry();
    let normal = parse_value(&reg, minimal_spam(), ParseOptions::default()).expect("ok");
    assert!(normal.errors.is_empty());
    let strict = parse_value(&reg, minimal_spam(), ParseOptions { strict: true, show_missing_optional: false }).expect("ok");
    assert!(!strict.errors.is_empty(), "strict mode should require recommended fields");
    assert!(strict.report.is_none());
}

#[test]
fn show_missing_optional_populates_info() {
    let reg = registry();
    let result = parse_with_options(&reg, &text(&minimal_spam()), ParseOptions { strict: false, show_missing_optional: true })
        .expect("ok");
    let info = result.info.expect("info populated");
    assert!(!info.is_empty(), "expected at least one missing-optional");
    for entry in &info {
        assert!(
            entry.message.starts_with("RECOMMENDED") || entry.message.starts_with("OPTIONAL"),
            "entry {entry:?} should start with prefix"
        );
    }
}

#[test]
fn report_round_trips_through_serde() {
    let reg = registry();
    let report = parse(&reg, &text(&minimal_spam())).unwrap().report.unwrap();
    let re_serialised = back(&report.to_json_value());
    assert_eq!(re_serialised.get("category").unwrap(), "messaging");
    assert_eq!(re_serialised.get("type").unwrap(), "spam");
    assert_eq!(re_serialised.get("source_identifier").unwrap(), "192.0.2.1");
    assert_eq!(re_serialised.get("protocol").unwrap(), "smtp");
    assert_eq!(re_serialised.get("smtp_from").unwrap(), "spam@bad.example");
}

#[test]
fn evidence_round_trips() {
    let reg = registry();
    let mut data = minimal_spam();
    object(&mut data).insert(
        "evidence".into(),
        j(r#"[{
            "content_type": "text/plain",
            "payload": "aGVsbG8=",
            "description": "hi",
            "hash": "sha256:2cf24dba5fb0a30e26e83b2ac5b9e29e1b161e5c1fa7425e73043362938b9824",
            "size": 5
        }]"#),
    );
    let result = parse_value(&reg, data, ParseOptions::default()).expect("ok");
    assert!(result.errors.is_empty(), "errors: {:?}", result.errors);
    let report = result.report.unwrap();
    let evidence = report.evidence.unwrap();
    assert_eq!(evidence.len(), 1);
    assert_eq!(evidence[0].content_type, "text/plain");
    assert_eq!(evidence[0].size, Some(5));
}

#[test]
fn internal_field_round_trips_via_alias() {
    let reg = registry();
    let mut data = minimal_spam();
    object(&mut data).insert("_internal".into(), j(r#"{"ticket": "X-1", "analyst": "you"}"#));
    let report = parse_value(&reg, data, ParseOptions::default()).unwrap().report.unwrap();
    assert!(report.internal.is_some());
    assert_eq!(report.internal.as_ref().unwrap().get_str("ticket").unwrap(), "X-1");
    let mut stripped = report.clone();
    stripped.strip_internal();
    let json = text(&stripped.to_json_value());
    assert!(!json.contains("_internal"));
}

#[test]
fn tags_round_trip() {
    let reg = registry();
    let mut data = minimal_spam();
    object(&mut data).insert("tags".into(), j(r#"["malware:emotet", "campaign:winter-2024"]"#));
    let report = parse_value(&reg, data, ParseOptions::default()).unwrap().report.unwrap();
    let tags = report.tags.unwrap();
    assert_eq!(tags.len(), 2);
    assert_eq!(tags[0], "malware:emotet");
}

#[test]
fn invalid_tag_format_surfaces_error() {
    let reg = registry();
    let mut data = minimal_spam();
    object(&mut data).insert("tags".into(), j(r#"["badtag"]"#));
    let result = parse_value(&reg, data, ParseOptions::default()).expect("ok");
    assert!(result.errors.iter().any(|e| e.field.starts_with("tags")), "expected a tags.* error, got: {:?}", result.errors);
}

#[test]
fn extra_fields_preserved_across_parse() {
    let reg = registry();
    let mut data = minimal_spam();
    object(&mut data).insert("subject".into(), JsonValue::from_str("Cheap meds!"));
    object(&mut data).insert("smtp_to".into(), JsonValue::from_str("victim@example.org"));
    let report = parse_value(&reg, data, ParseOptions::default()).unwrap().report.unwrap();
    assert_eq!(report.extra.get_str("subject").unwrap(), "Cheap meds!");
    assert_eq!(report.extra.get_str("smtp_to").unwrap(), "victim@example.org");
}

#[test]
fn unreadable_report_adds_a_deserialize_error() {
    let reg = registry();
    let r = parse_with_options(&reg, r#"{"xarf_version": "4.2.0"}"#, ParseOptions::default()).unwrap();
    assert!(r.report.is_none());
    let last = r.errors.last().unwrap();
    assert_eq!(last.field, "");
    assert_eq!(last.message, "deserialize: missing field `report_id`");
}

#[test]
fn sync_api_does_not_require_a_runtime() {
    let reg = registry();
    let result = parse(&reg, &text(&minimal_spam())).unwrap();
    assert!(result.errors.is_empty());
}

fn v3_spam_text() -> &'static str {
    r#"{
        "Version": "3.0.0",
        "ReporterInfo": {
            "ReporterOrg": "Anti-Spam",
            "ReporterOrgDomain": "antispam.example",
            "ReporterContactEmail": "abuse@antispam.example"
        },
        "Report": {
            "ReportClass": "Messaging",
            "ReportType": "Spam",
            "Date": "2024-01-15T14:30:25Z",
            "Source": {"IP": "192.0.2.1", "Port": 25, "Type": "ip"},
            "Attachment": [
                {"ContentType": "message/rfc822", "Description": "Spam email", "Data": "RnJvbTogc3BhbUBleGFtcGxlLmNvbQ=="}
            ],
            "AdditionalInfo": {
                "Protocol": "smtp",
                "SMTPFrom": "spam@example.com",
                "Subject": "buy our stuff",
                "DetectionMethod": "spamtrap"
            }
        }
    }"#
}

#[test]
fn parse_round_trip_converts_v3() {
    let reg = registry();
    let result = parse(&reg, v3_spam_text()).unwrap();
    assert!(result.warnings.iter().any(|w| w.message.to_lowercase().contains("v3")));
    assert_eq!(result.warnings[0].message, deprecation_warning());
    let report = result.report.expect("report");
    assert_eq!(report.category.as_str(), "messaging");
    assert_eq!(report.type_, "spam");
    assert_eq!(report.legacy_version.as_deref(), Some("3"));
}

#[test]
fn v3_with_unknown_type_is_a_conversion_error() {
    let reg = registry();
    let t = v3_spam_text().replace("\"ReportType\": \"Spam\"", "\"ReportType\": \"Weird\"");
    let result = parse(&reg, &t).expect("a failed conversion is reported in the result");
    assert!(result.report.is_none());
    assert_eq!(result.errors.len(), 1);
    assert!(result.errors[0].message.starts_with("v3 conversion failed: "), "{:?}", result.errors);
    assert!(result.errors[0].message.contains("Weird"), "{:?}", result.errors);
    assert_eq!(result.warnings[0].message, deprecation_warning());
}

#[test]
fn v3_shaped_object_without_report_type_parses_with_an_error() {
    let reg = registry();
    let result = parse(&reg, r#"{"Version": "3.0.0", "ReporterInfo": {}, "Report": {}}"#).unwrap();
    assert!(result.report.is_none());
    assert_eq!(result.errors.len(), 1);
    assert!(result.errors[0].message.starts_with("v3 conversion failed: "));
}

// ---------------------------------------------------------------------------
// Generation
// ---------------------------------------------------------------------------

#[test]
fn report_builder_auto_fills_metadata() {
    let reg = registry();
    let result = ReportBuilder::new("messaging", "spam", "192.0.2.1")
        .reporter(reporter())
        .sender(reporter())
        .source_port(25)
        .extra("protocol".into(), JsonValue::from_str("smtp"))
        .extra("smtp_from".into(), JsonValue::from_str("spam@bad.example"))
        .build(&reg)
        .expect("ok");
    assert!(result.errors.is_empty(), "errors: {:?}", result.errors);
    let report = result.report.expect("typed report");
    assert_eq!(report.xarf_version, SPEC_VERSION);
    assert!(!report.report_id.is_empty());
    assert!(!report.timestamp.is_empty());
}

#[test]
fn report_builder_caller_provided_metadata_wins() {
    let reg = registry();
    let report = ReportBuilder::new("messaging", "spam", "192.0.2.1")
        .reporter(reporter())
        .sender(reporter())
        .source_port(25)
        .timestamp("2025-01-15T00:00:00Z")
        .report_id("550e8400-e29b-41d4-a716-446655440000")
        .xarf_version("4.0.0")
        .extra("protocol".into(), JsonValue::from_str("smtp"))
        .extra("smtp_from".into(), JsonValue::from_str("spam@bad.example"))
        .build(&reg)
        .unwrap()
        .report
        .unwrap();
    assert_eq!(report.xarf_version, "4.0.0");
    assert_eq!(report.report_id, "550e8400-e29b-41d4-a716-446655440000");
    assert_eq!(report.timestamp, "2025-01-15T00:00:00Z");
}

#[test]
fn report_builder_missing_reporter_yields_error() {
    let reg = registry();
    let err = ReportBuilder::new("messaging", "spam", "192.0.2.1").sender(reporter()).build(&reg).unwrap_err();
    let msg = err.message();
    assert!(msg.contains("reporter") || matches!(err, XarfError::Validation(_)));
    match err {
        XarfError::Validation(v) => {
            assert_eq!(issue_pairs(&v), vec![("reporter".to_string(), "reporter contact is required".to_string())])
        }
        other => panic!("unexpected {other:?}"),
    }
}

#[test]
fn report_builder_missing_sender_yields_error() {
    let reg = registry();
    match ReportBuilder::new("messaging", "spam", "192.0.2.1").reporter(reporter()).build(&reg).unwrap_err() {
        XarfError::Validation(v) => {
            assert_eq!(issue_pairs(&v), vec![("sender".to_string(), "sender contact is required".to_string())])
        }
        other => panic!("unexpected {other:?}"),
    }
}

#[test]
fn report_builder_with_evidence() {
    let reg = registry();
    let ev = create_evidence("text/plain", b"hello, xarf!");
    let report = ReportBuilder::new("messaging", "spam", "192.0.2.1")
        .reporter(reporter())
        .sender(reporter())
        .source_port(25)
        .extra("protocol".into(), JsonValue::from_str("smtp"))
        .extra("smtp_from".into(), JsonValue::from_str("x@bad.example"))
        .add_evidence(ev)
        .build(&reg)
        .unwrap()
        .report
        .unwrap();
    let evidence = report.evidence.unwrap();
    assert_eq!(evidence.len(), 1);
    assert_eq!(evidence[0].content_type, "text/plain");
    assert!(evidence[0].hash.as_ref().unwrap().starts_with("sha256:"));
    assert_eq!(evidence[0].size, Some(12));
}

#[test]
fn create_report_function_accepts_extras_map() {
    let reg = registry();
    let mut extras = JsonMap::new();
    extras.insert("protocol".into(), JsonValue::from_str("smtp"));
    extras.insert("smtp_from".into(), JsonValue::from_str("spam@bad.example"));
    extras.insert("source_port".into(), j("25"));
    let result = create_report(&reg, "messaging", "spam", "192.0.2.1", reporter(), reporter(), extras, CreateReportOptions::default())
        .unwrap();
    assert!(result.errors.is_empty(), "errors: {:?}", result.errors);
    assert!(result.report.is_some());
}

#[test]
fn create_report_routes_evidence_into_typed_field() {
    let reg = registry();
    let ev_json = j(r#"[{
        "content_type": "text/plain",
        "payload": "aGVsbG8=",
        "hash": "sha256:2cf24dba5fb0a30e26e83b2ac5b9e29e1b161e5c1fa7425e73043362938b9824",
        "size": 5
    }]"#);
    let mut extras = JsonMap::new();
    extras.insert("protocol".into(), JsonValue::from_str("smtp"));
    extras.insert("smtp_from".into(), JsonValue::from_str("spam@bad.example"));
    extras.insert("source_port".into(), j("25"));
    extras.insert("evidence".into(), ev_json);
    let report = create_report(&reg, "messaging", "spam", "192.0.2.1", reporter(), reporter(), extras, CreateReportOptions::default())
        .unwrap()
        .report
        .unwrap();
    assert_eq!(report.evidence.unwrap().len(), 1);
}

#[test]
fn report_builder_in_strict_mode_returns_errors_for_missing_recommended() {
    let reg = registry();
    let result = ReportBuilder::new("connection", "ddos", "203.0.113.5")
        .reporter(reporter())
        .sender(reporter())
        .source_port(53)
        .extra("first_seen".into(), JsonValue::from_str("2024-01-15T14:15:00Z"))
        .extra("protocol".into(), JsonValue::from_str("udp"))
        .extra("destination_ip".into(), JsonValue::from_str("192.0.2.42"))
        .build_with_options(&reg, ParseOptions { strict: true, show_missing_optional: false })
        .unwrap();
    assert!(!result.errors.is_empty());
}

#[test]
fn report_builder_tags_round_trip() {
    let reg = registry();
    let report = ReportBuilder::new("messaging", "spam", "192.0.2.1")
        .reporter(reporter())
        .sender(reporter())
        .source_port(25)
        .extra("protocol".into(), JsonValue::from_str("smtp"))
        .extra("smtp_from".into(), JsonValue::from_str("spam@bad.example"))
        .tags(vec!["malware:emotet".to_string(), "campaign:spring".to_string()])
        .build(&reg)
        .unwrap()
        .report
        .unwrap();
    assert_eq!(report.tags.unwrap(), vec!["malware:emotet".to_string(), "campaign:spring".to_string()]);
}

#[test]
fn report_builder_internal_field_round_trip() {
    let reg = registry();
    let mut internal = JsonMap::new();
    internal.insert("ticket".into(), JsonValue::from_str("ABUSE-1"));
    internal.insert("analyst".into(), JsonValue::from_str("you"));
    let report = ReportBuilder::new("messaging", "spam", "192.0.2.1")
        .reporter(reporter())
        .sender(reporter())
        .source_port(25)
        .extra("protocol".into(), JsonValue::from_str("smtp"))
        .extra("smtp_from".into(), JsonValue::from_str("spam@bad.example"))
        .internal(internal)
        .build(&reg)
        .unwrap()
        .report
        .unwrap();
    let i = report.internal.unwrap();
    assert_eq!(i.get_str("ticket").unwrap(), "ABUSE-1");
    assert_eq!(i.get_str("analyst").unwrap(), "you");
}

#[test]
fn report_builder_confidence_is_kept() {
    let reg = registry();
    let report = ReportBuilder::new("messaging", "spam", "192.0.2.1")
        .reporter(reporter())
        .sender(reporter())
        .source_port(25)
        .extra("protocol".into(), JsonValue::from_str("smtp"))
        .extra("smtp_from".into(), JsonValue::from_str("spam@bad.example"))
        .confidence(JsonNumber::Float("0.75".into()))
        .build(&reg)
        .unwrap()
        .report
        .unwrap();
    assert!(matches!(report.confidence, Some(JsonNumber::Float(ref t)) if t == "0.75"));
}

#[test]
fn create_report_routes_well_known_keys() {
    let reg = registry();
    let extras = match j(r#"{
        "protocol": "smtp",
        "smtp_from": "spam@bad.example",
        "source_port": 25,
        "tags": ["a:1", 1, "b:2"],
        "timestamp": "2025-01-15T00:00:00Z",
        "evidence": [{"content_type": "text/plain", "payload": "aGVsbG8=", "size": 5}]
    }"#) {
        JsonValue::Object(m) => m,
        _ => unreachable!(),
    };
    let result = create_report(&reg, "messaging", "spam", "192.0.2.1", reporter(), reporter(), extras, CreateReportOptions::default())
        .unwrap();
    assert!(result.errors.is_empty(), "{:?}", result.errors);
    let report = result.report.unwrap();
    assert_eq!(report.evidence.unwrap().len(), 1);
    assert_eq!(report.tags.unwrap(), vec!["a:1".to_string(), "b:2".to_string()]);
    assert_eq!(report.source_port, Some(25));
    assert_eq!(report.timestamp, "2025-01-15T00:00:00Z");
    assert_eq!(report.extra.get_str("protocol").unwrap(), "smtp");
}

#[test]
fn create_report_keeps_unreadable_evidence_as_an_extra() {
    let reg = registry();
    let extras = match j(r#"{
        "protocol": "smtp",
        "smtp_from": "spam@bad.example",
        "source_port": 70000,
        "evidence": [{"content_type": "text/plain", "payload": "aGVsbG8="}, {"oops": true}]
    }"#) {
        JsonValue::Object(m) => m,
        _ => unreachable!(),
    };
    let result = create_report(&reg, "messaging", "spam", "192.0.2.1", reporter(), reporter(), extras, CreateReportOptions::default())
        .unwrap();
    let errors = issue_pairs(&result.errors);
    assert!(errors.iter().any(|(f, m)| f.is_empty() && m.starts_with("deserialize: ")), "{errors:?}");
    assert!(result.report.is_none());
}

#[test]
fn doc_example_from_readme_compiles_and_runs() {
    let reg = registry();
    let evidence = create_evidence("text/plain", b"log line");
    let result = ReportBuilder::new("messaging", "spam", "192.0.2.1")
        .reporter(reporter())
        .sender(reporter())
        .source_port(25)
        .extra("protocol".into(), JsonValue::from_str("smtp"))
        .extra("smtp_from".into(), JsonValue::from_str("spam@bad.example"))
        .add_evidence(evidence)
        .build(&reg)
        .unwrap();
    assert!(result.errors.is_empty(), "errors: {:?}", result.errors);
    assert!(result.report.is_some());
}

#[test]
fn quick_errors_returns_just_errors() {
    let reg = registry();
    let value = j(r#"{"xarf_version": "4.2.0"}"#);
    let errors = quick_errors(&reg, &value, false).unwrap();
    assert!(!errors.is_empty());
}

// ---------------------------------------------------------------------------
// Round trips
// ---------------------------------------------------------------------------

#[test]
fn build_then_reparse_produces_identical_typed_report() {
    let reg = registry();
    let result = ReportBuilder::new("messaging", "spam", "192.0.2.1")
        .reporter(reporter())
        .sender(reporter())
        .source_port(25)
        .extra("protocol".into(), JsonValue::from_str("smtp"))
        .extra("smtp_from".into(), JsonValue::from_str("spam@bad.example"))
        .extra("subject".into(), JsonValue::from_str("Cheap meds!"))
        .build(&reg)
        .unwrap();
    assert!(result.errors.is_empty());
    let report = result.report.unwrap();
    let serialised = text(&report.to_json_value());
    let reparsed = parse(&reg, &serialised).unwrap().report.unwrap();
    assert_eq!(reparsed.report_id, report.report_id);
    assert_eq!(reparsed.timestamp, report.timestamp);
    assert_eq!(reparsed.source_port, Some(25));
    assert_eq!(reparsed.extra.get_str("subject").unwrap(), "Cheap meds!");
}

fn extension_sample(extra: &str) -> JsonValue {
    let mut v = j(r#"{
        "xarf_version": "4.2.0",
        "report_id": "550e8400-e29b-41d4-a716-446655440000",
        "timestamp": "2024-01-15T14:30:25Z",
        "reporter": {"org": "X", "contact": "x@x.example", "domain": "x.example"},
        "sender": {"org": "X", "contact": "x@x.example", "domain": "x.example"},
        "source_identifier": "192.0.2.1",
        "source_port": 25,
        "category": "messaging",
        "type": "spam",
        "protocol": "smtp",
        "smtp_from": "spam@bad.example"
    }"#);
    if let JsonValue::Object(more) = j(extra) {
        for (k, x) in more.entries() {
            object(&mut v).insert(k.clone(), x.clone());
        }
    }
    v
}

#[test]
fn unknown_extension_fields_survive_round_trip() {
    let reg = registry();
    let data = extension_sample(r#"{"future_field_v5": {"nested": [1, 2, 3]}}"#);
    let report = parse_value(&reg, data, ParseOptions::default()).unwrap().report.unwrap();
    let serialised = back(&report.to_json_value());
    assert_eq!(serialised["future_field_v5"], value(r#"{"nested": [1, 2, 3]}"#));
}

#[test]
fn strip_internal_means_internal_does_not_re_appear() {
    let reg = registry();
    let data = extension_sample(r#"{"_internal": {"ticket": "ABUSE-1", "analyst": "you"}}"#);
    let mut report = parse_value(&reg, data, ParseOptions::default()).unwrap().report.unwrap();
    assert!(report.internal.is_some());
    let stripped = report.strip_internal();
    assert!(stripped.is_some());
    let v = back(&report.to_json_value());
    assert!(v.as_object().unwrap().get("_internal").is_none(), "stripped report still contains _internal");
}

// ---------------------------------------------------------------------------
// Wall-clock budgets: each operation is timed over a batch, the best of three
// batch averages is compared with a generous bound that only a gross
// slowdown (such as recompiling the master schema on every call) exceeds.
// ---------------------------------------------------------------------------

fn measure<F: FnMut()>(iters: u32, mut op: F) -> std::time::Duration {
    op();
    let mut best = std::time::Duration::MAX;
    for _ in 0..3 {
        let start = std::time::Instant::now();
        for _ in 0..iters {
            op();
        }
        let avg = start.elapsed() / iters;
        if avg < best {
            best = avg;
        }
    }
    best
}

fn assert_under_budget(name: &str, actual: std::time::Duration, budget: std::time::Duration) {
    println!("[perf] {:<48} {:>8.2?} (budget {:>8.2?})", name, actual, budget);
    assert!(actual <= budget, "perf regression in `{name}`: {actual:.2?} exceeds budget {budget:.2?}");
}

fn small_spam_json() -> String {
    r#"{
        "xarf_version": "4.2.0",
        "report_id": "550e8400-e29b-41d4-a716-446655440000",
        "timestamp": "2024-01-15T14:30:25Z",
        "reporter": {"org": "Acme", "contact": "abuse@acme.example", "domain": "acme.example"},
        "sender": {"org": "Acme", "contact": "abuse@acme.example", "domain": "acme.example"},
        "source_identifier": "192.0.2.1",
        "source_port": 25,
        "category": "messaging",
        "type": "spam",
        "protocol": "smtp",
        "smtp_from": "spam@bad.example",
        "subject": "Cheap meds!",
        "evidence_source": "spamtrap",
        "tags": ["scam:advance_fee"],
        "confidence": 0.95
    }"#
    .to_string()
}

fn large_spam_json() -> String {
    let payload: String = "A".repeat(4_096);
    let evidence: Vec<String> = (0..10)
        .map(|i| {
            format!(
                r#"{{"content_type": "text/plain", "payload": "{payload}", "description": "evidence chunk {i}"}}"#
            )
        })
        .collect();
    format!(
        r#"{{
        "xarf_version": "4.2.0",
        "report_id": "550e8400-e29b-41d4-a716-446655440000",
        "timestamp": "2024-01-15T14:30:25Z",
        "reporter": {{"org": "Acme", "contact": "abuse@acme.example", "domain": "acme.example"}},
        "sender": {{"org": "Acme", "contact": "abuse@acme.example", "domain": "acme.example"}},
        "source_identifier": "192.0.2.1",
        "source_port": 25,
        "category": "messaging",
        "type": "spam",
        "protocol": "smtp",
        "smtp_from": "spam@bad.example",
        "evidence_source": "spamtrap",
        "evidence": [{}]
    }}"#,
        evidence.join(",")
    )
}

fn v3_spam_json() -> String {
    r#"{
        "Version": "3.0.0",
        "ReporterInfo": {
            "ReporterOrg": "Anti-Spam",
            "ReporterContactEmail": "abuse@antispam.example"
        },
        "Report": {
            "ReportType": "Spam",
            "Date": "2024-01-15T14:30:25Z",
            "Source": {"IP": "192.0.2.1", "Port": 25},
            "Attachment": [{
                "ContentType": "message/rfc822",
                "Description": "spam",
                "Data": "RnJvbTogc3BhbUBleGFtcGxlLmNvbQ=="
            }],
            "AdditionalInfo": {
                "Protocol": "smtp",
                "SMTPFrom": "spam@example.com",
                "DetectionMethod": "spamtrap"
            }
        }
    }"#
    .to_string()
}

#[test]
fn parse_small_spam_under_1ms() {
    let reg = registry();
    let json = small_spam_json();
    let avg = measure(500, || {
        let r = parse(&reg, &json).unwrap();
        std::hint::black_box(r);
    });
    assert_under_budget("parse small_spam", avg, std::time::Duration::from_millis(1));
}

#[test]
fn parse_large_spam_under_5ms() {
    let reg = registry();
    let json = large_spam_json();
    let avg = measure(100, || {
        let r = parse(&reg, &json).unwrap();
        std::hint::black_box(r);
    });
    assert_under_budget("parse large_spam (40KB)", avg, std::time::Duration::from_millis(5));
}

#[test]
fn parse_strict_mode_under_1ms() {
    let reg = registry();
    let json = small_spam_json();
    let avg = measure(500, || {
        let r = parse_with_options(&reg, &json, ParseOptions { strict: true, show_missing_optional: false })
            .unwrap();
        std::hint::black_box(r);
    });
    assert_under_budget("parse strict", avg, std::time::Duration::from_millis(1));
}

#[test]
fn validate_small_spam_under_500us() {
    let reg = registry();
    let value = j(&small_spam_json());
    let avg = measure(500, || {
        let r = validate(&reg, &value, ValidateOptions::default()).unwrap();
        std::hint::black_box(r);
    });
    assert_under_budget("validate small_spam", avg, std::time::Duration::from_micros(500));
}

#[test]
fn is_v3_report_under_2us() {
    let value = j(&v3_spam_json());
    let avg = measure(50_000, || {
        let is = is_v3_report(&value);
        std::hint::black_box(is);
    });
    assert_under_budget("is_v3_report detection", avg, std::time::Duration::from_micros(2));
}

#[test]
fn convert_v3_to_v4_under_500us() {
    let value = j(&v3_spam_json());
    let avg = measure(500, || {
        let mut warnings = Vec::new();
        let r = convert_v3_to_v4(value.clone(), &mut warnings).unwrap();
        std::hint::black_box(r);
    });
    assert_under_budget("convert_v3_to_v4", avg, std::time::Duration::from_micros(500));
}

#[test]
fn parse_v3_full_pipeline_under_5ms() {
    let reg = registry();
    let json = v3_spam_json();
    let avg = measure(100, || {
        let r = parse(&reg, &json).unwrap();
        std::hint::black_box(r);
    });
    assert_under_budget("parse v3 -> v4 full", avg, std::time::Duration::from_millis(5));
}

#[test]
fn create_evidence_sha256_64kib_under_5ms() {
    let payload: Vec<u8> = (0..65_536u32).map(|i| (i % 251) as u8).collect();
    let avg = measure(50, || {
        let ev = create_evidence_with_options(
            "application/octet-stream",
            &payload,
            EvidenceOptions { description: None, hash_algorithm: HashAlgorithm::Sha256 },
        );
        std::hint::black_box(ev);
    });
    assert_under_budget("create_evidence sha256 64KiB", avg, std::time::Duration::from_millis(5));
}

#[test]
fn create_evidence_md5_64kib_under_10ms() {
    let payload: Vec<u8> = (0..65_536u32).map(|i| (i % 251) as u8).collect();
    let avg = measure(50, || {
        let ev = create_evidence_with_options(
            "application/octet-stream",
            &payload,
            EvidenceOptions { description: None, hash_algorithm: HashAlgorithm::Md5 },
        );
        std::hint::black_box(ev);
    });
    assert_under_budget("create_evidence md5 64KiB", avg, std::time::Duration::from_millis(10));
}

#[test]
fn builder_minimal_spam_under_1ms() {
    let reg = registry();
    let avg = measure(500, || {
        let r = ReportBuilder::new("messaging", "spam", "192.0.2.1")
            .reporter(reporter())
            .sender(reporter())
            .timestamp("2024-01-15T14:30:25Z")
            .report_id("550e8400-e29b-41d4-a716-446655440000")
            .source_port(25)
            .extra("protocol".into(), JsonValue::from_str("smtp"))
            .extra("smtp_from".into(), JsonValue::from_str("spam@bad.example"))
            .build(&reg)
            .unwrap();
        std::hint::black_box(r);
    });
    assert_under_budget("builder minimal_spam", avg, std::time::Duration::from_millis(1));
}

#[test]
fn registry_known_combination_under_2us() {
    let reg = registry();
    let avg = measure(100_000, || {
        let hit = reg.is_known_combination("messaging", "spam");
        std::hint::black_box(hit);
    });
    assert_under_budget("registry is_known_combination hit", avg, std::time::Duration::from_micros(2));
}

#[test]
fn meets_spec_throughput_target_of_1000_reports_per_second() {
    let reg = registry();
    let json = small_spam_json();
    let iters = 1000u32;
    parse(&reg, &json).unwrap();
    let start = std::time::Instant::now();
    for _ in 0..iters {
        let r = parse(&reg, &json).unwrap();
        std::hint::black_box(r);
    }
    let elapsed = start.elapsed();
    let rps = iters as f64 / elapsed.as_secs_f64();
    println!("[perf] throughput: {rps:.0} reports/s ({elapsed:.2?} for {iters} reports)");
    assert!(rps >= 1_000.0, "spec target is >= 1000 reports/s, observed {rps:.0}/s");
}

#[test]
fn written_report_parses_back_to_itself() {
    let reg = registry();
    let first = parse(&reg, &small_spam_json()).unwrap().report.unwrap();
    let written = first.to_json_value();
    let again = parse_value(&reg, written.clone(), ParseOptions::default()).unwrap();
    let second = again.report.unwrap();
    assert_eq!(back(&second.to_json_value()), back(&written));
    assert_eq!(second.report_id, "550e8400-e29b-41d4-a716-446655440000");
    assert_eq!(second.extra.get_str("subject").unwrap(), "Cheap meds!");
}

#[test]
fn report_builder_fills_a_uuid_and_a_utc_time() {
    let reg = registry();
    let report = ReportBuilder::new("messaging", "spam", "192.0.2.1")
        .reporter(reporter())
        .sender(reporter())
        .source_port(25)
        .extra("protocol".into(), JsonValue::from_str("smtp"))
        .extra("smtp_from".into(), JsonValue::from_str("spam@bad.example"))
        .build(&reg)
        .unwrap()
        .report
        .unwrap();
    let id = report.report_id.as_str();
    assert_eq!(id.len(), 36);
    for i in [8, 13, 18, 23] {
        assert_eq!(&id[i..i + 1], "-");
    }
    assert_eq!(&id[14..15], "4");
    assert!(["8", "9", "a", "b"].contains(&&id[19..20]));
    let ts = report.timestamp.as_str();
    assert_eq!(ts.len(), 20, "{ts}");
    assert_eq!(&ts[4..5], "-");
    assert_eq!(&ts[10..11], "T");
    assert!(ts.ends_with('Z'), "{ts}");
}

#[test]
fn registry_refuses_a_short_list_of_type_texts() {
    let mut s = sources();
    s.types.pop();
    match SchemaRegistry::build(&s) {
        Err(XarfError::Schema(m)) => assert_eq!(m, "expected 32 type schema texts, got 31"),
        other => panic!("unexpected {:?}", other.map(|_| ())),
    }
}

#[test]
fn promotion_reaches_nested_schemas() {
    let mut node = j(r#"{
        "properties": {"outer": {"properties": {"n": {"x-recommended": true}}}},
        "$defs": {"d": {"properties": {"m": {"x-recommended": true}}, "required": ["z"]}},
        "anyOf": [{"properties": {"a": {"x-recommended": true}}}],
        "not": {"properties": {"b": {"x-recommended": true}}}
    }"#);
    promote_recommended_to_required(&mut node);
    let v = back(&node);
    assert_eq!(v["properties"]["outer"]["required"], value(r#"["n"]"#));
    assert_eq!(v["$defs"]["d"]["required"], value(r#"["z", "m"]"#));
    assert_eq!(v["anyOf"][0]["required"], value(r#"["a"]"#));
    assert_eq!(v["not"]["required"], value(r#"["b"]"#));
}

#[test]
fn duplicate_members_keep_the_last_value() {
    let reg = registry();
    let result = parse(&reg, r#"{"xarf_version": "1", "xarf_version": "4.2.0", "category": "messaging"}"#).unwrap();
    assert!(result.errors.iter().all(|e| !e.message.contains("\"1\"")), "{:?}", result.errors);
}

#[test]
fn core_optional_fields_are_sorted_by_name() {
    let reg = registry();
    let names: Vec<String> = reg.core_optional_fields().iter().map(|m| m.name.clone()).collect();
    let mut sorted = names.clone();
    sorted.sort();
    sorted.dedup();
    assert_eq!(names, sorted);
}

#[test]
fn builder_extra_overrides_a_typed_member() {
    let reg = registry();
    let result = ReportBuilder::new("messaging", "spam", "192.0.2.1")
        .reporter(reporter())
        .sender(reporter())
        .source_port(25)
        .extra("protocol".into(), JsonValue::from_str("smtp"))
        .extra("smtp_from".into(), JsonValue::from_str("spam@bad.example"))
        .extra("source_port".into(), j("587"))
        .build(&reg)
        .unwrap();
    assert_eq!(result.report.unwrap().source_port, Some(587));
}

#[test]
fn create_report_takes_a_timestamp_from_the_extras() {
    let reg = registry();
    let mut extras = JsonMap::new();
    extras.insert("protocol".into(), JsonValue::from_str("smtp"));
    extras.insert("smtp_from".into(), JsonValue::from_str("spam@bad.example"));
    extras.insert("source_port".into(), j("25"));
    extras.insert("timestamp".into(), JsonValue::from_str("2024-02-01T00:00:00Z"));
    let result = create_report(&reg, "messaging", "spam", "192.0.2.1", reporter(), reporter(), extras, CreateReportOptions::default())
        .unwrap();
    assert_eq!(result.report.unwrap().timestamp, "2024-02-01T00:00:00Z");
}

#[test]
fn promotion_twice_is_promotion_once() {
    let mut node = j(r#"{
        "properties": {"a": {"x-recommended": true, "properties": {"n": {"x-recommended": true}}}, "b": {}},
        "required": ["b"],
        "if": {"properties": {"c": {"x-recommended": true}}}
    }"#);
    promote_recommended_to_required(&mut node);
    let once = back(&node);
    promote_recommended_to_required(&mut node);
    assert_eq!(back(&node), once);
    let mut scalar = j("7");
    promote_recommended_to_required(&mut scalar);
    assert_eq!(back(&scalar), value("7"));
}

#[test]
fn registry_hands_out_compiled_validators() {
    let reg = registry();
    let master = reg.master_validator(false).unwrap();
    assert!(master.errors(&j(&small_spam_json())).is_empty());
    assert!(!master.errors(&j(r#"{"category": "messaging"}"#)).is_empty());
    let strict = reg.master_validator(true).unwrap();
    assert!(!strict.errors(&j(r#"{}"#)).is_empty());
    let core = reg.core_validator().unwrap();
    assert!(!core.errors(&j(r#"{"xarf_version": 5}"#)).is_empty());
    assert!(reg.type_validator("messaging", "spam").unwrap().is_some());
    assert!(reg.type_validator("messaging", "nonsense").unwrap().is_none());
}
