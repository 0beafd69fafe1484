use xarf::json::{JsonMap, JsonNumber, JsonValue};
use xarf::{convert_v3_to_v4, deprecation_warning, is_v3_report};

fn conv(v: serde_json::Value) -> JsonValue {
    match v {
        serde_json::Value::Null => JsonValue::Null,
        serde_json::Value::Bool(b) => JsonValue::Bool(b),
        serde_json::Value::Number(n) => JsonValue::Number(if let Some(u) = n.as_u64() {
            JsonNumber::PosInt(u)
        } else if let Some(i) = n.as_i64() {
            JsonNumber::NegInt(i)
        } else {
            JsonNumber::Float(n.to_string())
        }),
        serde_json::Value::String(s) => JsonValue::String(s),
        serde_json::Value::Array(a) => JsonValue::Array(a.into_iter().map(conv).collect()),
        serde_json::Value::Object(o) => {
            let mut m = JsonMap::new();
            for (k, x) in o {
                m.insert(k, conv(x));
            }
            JsonValue::Object(m)
        }
    }
}

fn back(v: &JsonValue) -> serde_json::Value {
    match v {
        JsonValue::Null => serde_json::Value::Null,
        JsonValue::Bool(b) => serde_json::Value::Bool(*b),
        JsonValue::Number(JsonNumber::PosInt(u)) => serde_json::Value::from(*u),
        JsonValue::Number(JsonNumber::NegInt(i)) => serde_json::Value::from(*i),
        JsonValue::Number(JsonNumber::Float(t)) => serde_json::from_str(t).unwrap(),
        JsonValue::String(s) => serde_json::Value::String(s.clone()),
        JsonValue::Array(a) => serde_json::Value::Array(a.iter().map(back).collect()),
        JsonValue::Object(m) => {
            let mut o = serde_json::Map::new();
            for (k, x) in m.entries() {
                o.insert(k.clone(), back(x));
            }
            serde_json::Value::Object(o)
        }
    }
}

fn j(text: &str) -> JsonValue {
    conv(serde_json::from_str(text).unwrap())
}

fn v3_spam() -> JsonValue {
    j(r#"{
        "Version": "3.0.0",
        "ReporterInfo": {
            "ReporterOrg": "Anti-Spam",
            "ReporterOrgDomain": "antispam.example",
            "ReporterContactEmail": "abuse@antispam.example"
        },
        "Report": {
            "ReportClass": "Messaging",
            "ReportType": "Spam",
            "Date": "2024-01-15T14:30:25Z",
            "Source": {"IP": "192.0.2.1", "Port": 25, "Type": "ip"},
            "Attachment": [
                {
                    "ContentType": "message/rfc822",
                    "Description": "Spam email",
                    "Data": "RnJvbTogc3BhbUBleGFtcGxlLmNvbQ=="
                }
            ],
            "AdditionalInfo": {
                "Protocol": "smtp",
                "SMTPFrom": "spam@example.com",
                "Subject": "buy our stuff",
                "DetectionMethod": "spamtrap"
            }
        }
    }"#)
}

fn v3_phishing() -> JsonValue {
    j(r#"{
        "Version": "3.0.0",
        "ReporterInfo": {
            "ReporterOrg": "Sec",
            "ReporterContactEmail": "abuse@sec.example"
        },
        "Report": {
            "ReportClass": "Content",
            "ReportType": "Phishing",
            "Date": "2024-01-15T14:30:25Z",
            "Source": {"URL": "https://phish.example/login", "Type": "uri"},
            "AdditionalInfo": {}
        }
    }"#)
}

fn object(v: &mut JsonValue) -> &mut JsonMap {
    match v {
        JsonValue::Object(m) => m,
        _ => panic!("not an object"),
    }
}

/// The object member `k` of `v`, for editing: taken out, edited, put back.
fn edit_member(v: &mut JsonValue, k: &str, f: impl FnOnce(&mut JsonMap)) {
    let top = object(v);
    let mut inner = match top.remove(k) {
        Some(JsonValue::Object(m)) => m,
        _ => panic!("no object member {k}"),
    };
    f(&mut inner);
    top.insert(k.to_string(), JsonValue::Object(inner));
}

#[test]
fn detects_v3_with_three_zero_zero_version() {
    assert!(is_v3_report(&v3_spam()));
}

#[test]
fn detects_v3_with_short_version_strings() {
    let mut v = v3_spam();
    object(&mut v).insert("Version".into(), JsonValue::from_str("3"));
    assert!(is_v3_report(&v));
    object(&mut v).insert("Version".into(), JsonValue::from_str("3.0"));
    assert!(is_v3_report(&v));
}

#[test]
fn rejects_v4_report_as_v3() {
    let v4 = j(r#"{"xarf_version": "4.2.0", "category": "messaging"}"#);
    assert!(!is_v3_report(&v4));
}

#[test]
fn rejects_v3_missing_reporter_info() {
    let mut v = v3_spam();
    object(&mut v).remove("ReporterInfo");
    assert!(!is_v3_report(&v));
}

#[test]
fn rejects_v3_missing_report() {
    let mut v = v3_spam();
    object(&mut v).remove("Report");
    assert!(!is_v3_report(&v));
}

#[test]
fn rejects_non_object() {
    assert!(!is_v3_report(&j("[1, 2, 3]")));
    assert!(!is_v3_report(&j(r#""hello""#)));
}

#[test]
fn converts_spam_to_v4() {
    let mut warnings = Vec::new();
    let v4 = back(&convert_v3_to_v4(v3_spam(), &mut warnings).unwrap());
    assert_eq!(v4["category"], "messaging");
    assert_eq!(v4["type"], "spam");
    assert_eq!(v4["source_identifier"], "192.0.2.1");
    assert_eq!(v4["protocol"], "smtp");
    assert_eq!(v4["smtp_from"], "spam@example.com");
    assert_eq!(v4["subject"], "buy our stuff");
    assert_eq!(v4["evidence_source"], "spamtrap");
    assert_eq!(v4["source_port"], 25);
    assert_eq!(v4["legacy_version"], "3");
    assert_eq!(v4["reporter"]["org"], "Anti-Spam");
    assert_eq!(v4["reporter"]["contact"], "abuse@antispam.example");
    assert_eq!(v4["reporter"]["domain"], "antispam.example");
    assert!(v4["evidence"].is_array());
    assert_eq!(v4["evidence"][0]["content_type"], "message/rfc822");
    assert_eq!(v4["_internal"]["original_report_type"], "Spam");
}

#[test]
fn converts_phishing_to_v4() {
    let mut warnings = Vec::new();
    let v4 = back(&convert_v3_to_v4(v3_phishing(), &mut warnings).unwrap());
    assert_eq!(v4["category"], "content");
    assert_eq!(v4["type"], "phishing");
    assert_eq!(v4["url"], "https://phish.example/login");
    assert_eq!(v4["source_identifier"], "https://phish.example/login");
}

#[test]
fn missing_reporter_org_emits_warning() {
    let mut v = v3_spam();
    edit_member(&mut v, "ReporterInfo", |m| {
        m.remove("ReporterOrg");
    });
    let mut warnings = Vec::new();
    let v4 = back(&convert_v3_to_v4(v, &mut warnings).unwrap());
    assert_eq!(v4["reporter"]["org"], "Unknown Organization");
    assert!(!warnings.is_empty());
    assert!(warnings[0].contains("Unknown Organization"));
}

#[test]
fn unknown_v3_type_yields_error() {
    let mut v = v3_spam();
    edit_member(&mut v, "Report", |m| {
        m.insert("ReportType".into(), JsonValue::from_str("MadeUpType"));
    });
    let mut warnings = Vec::new();
    let err = convert_v3_to_v4(v, &mut warnings).unwrap_err();
    let msg = err.message();
    assert!(msg.contains("unknown ReportType"));
}

#[test]
fn missing_contact_email_yields_error() {
    let mut v = v3_spam();
    edit_member(&mut v, "ReporterInfo", |m| {
        m.remove("ReporterContactEmail");
        m.remove("ReporterOrgEmail");
    });
    let mut warnings = Vec::new();
    let err = convert_v3_to_v4(v, &mut warnings).unwrap_err();
    assert!(err.message().contains("reporter email"));
}

#[test]
fn malformed_contact_email_yields_error() {
    let mut v = v3_spam();
    edit_member(&mut v, "ReporterInfo", |m| {
        m.insert("ReporterContactEmail".into(), JsonValue::from_str("notanemail"));
        m.insert("ReporterOrgEmail".into(), JsonValue::from_str("notanemail"));
    });
    let mut warnings = Vec::new();
    let err = convert_v3_to_v4(v, &mut warnings).unwrap_err();
    assert!(err.message().contains("not a valid email"));
}

#[test]
fn missing_source_identifier_yields_error() {
    let mut v = v3_spam();
    edit_member(&mut v, "Report", |m| {
        m.remove("Source");
    });
    let mut warnings = Vec::new();
    let err = convert_v3_to_v4(v, &mut warnings).unwrap_err();
    assert!(err.message().contains("source identifier"));
}

#[test]
fn samples_fallback_when_attachment_missing() {
    let mut v = v3_spam();
    edit_member(&mut v, "Report", |m| {
        let att = m.remove("Attachment").unwrap();
        m.insert("Samples".into(), att);
    });
    let mut warnings = Vec::new();
    let v4 = back(&convert_v3_to_v4(v, &mut warnings).unwrap());
    assert!(v4["evidence"].is_array());
    assert_eq!(v4["evidence"].as_array().unwrap().len(), 1);
}

#[test]
fn evidence_hash_and_size_computed_from_decoded_bytes() {
    let mut warnings = Vec::new();
    let v4 = back(&convert_v3_to_v4(v3_spam(), &mut warnings).unwrap());
    let ev = &v4["evidence"][0];
    assert!(ev["hash"].as_str().unwrap().starts_with("sha256:"));
    assert_eq!(ev["size"], 22);
}

#[test]
fn deprecation_warning_text_mentions_v3() {
    let w = deprecation_warning();
    assert!(w.to_lowercase().contains("v3"));
    assert!(w.to_lowercase().contains("deprecat"));
}

#[test]
fn pascal_and_lower_case_v3_types_both_mapped() {
    for t in ["Spam", "spam"] {
        let mut v = v3_spam();
        edit_member(&mut v, "Report", |m| {
            m.insert("ReportType".into(), JsonValue::from_str(t));
        });
        let mut warnings = Vec::new();
        let v4 = back(&convert_v3_to_v4(v, &mut warnings).unwrap());
        assert_eq!(v4["category"], "messaging");
        assert_eq!(v4["type"], "spam");
    }
}

#[test]
fn v3_connection_with_protocol_at_top_level_works() {
    let v = j(r#"{
        "Version": "3.0.0",
        "ReporterInfo": {
            "ReporterOrg": "CERT",
            "ReporterContactEmail": "cert@cert.example"
        },
        "Report": {
            "ReportClass": "Network",
            "ReportType": "Login-Attack",
            "Date": "2024-01-15T14:30:25Z",
            "Source": {"IP": "203.0.113.5", "Port": 22, "Type": "ip"},
            "Protocol": "tcp",
            "DestinationIp": "192.0.2.42",
            "DestinationPort": 22
        }
    }"#);
    let mut warnings = Vec::new();
    let v4 = back(&convert_v3_to_v4(v, &mut warnings).unwrap());
    assert_eq!(v4["category"], "connection");
    assert_eq!(v4["type"], "login_attack");
    assert_eq!(v4["protocol"], "tcp");
    assert_eq!(v4["destination_ip"], "192.0.2.42");
    assert_eq!(v4["destination_port"], 22);
    assert_eq!(v4["source_port"], 22);
}

#[test]
fn v3_copyright_with_url_source_works() {
    let v = j(r#"{
        "Version": "3.0.0",
        "ReporterInfo": {
            "ReporterOrg": "Rights",
            "ReporterContactEmail": "dmca@rights.example"
        },
        "Report": {
            "ReportClass": "Copyright",
            "ReportType": "Copyright",
            "Date": "2024-01-15T14:30:25Z",
            "Source": {"URL": "https://pirated.example/movie.mp4"}
        }
    }"#);
    let mut warnings = Vec::new();
    let v4 = back(&convert_v3_to_v4(v, &mut warnings).unwrap());
    assert_eq!(v4["category"], "copyright");
    assert_eq!(v4["type"], "copyright");
    assert_eq!(v4["source_identifier"], "https://pirated.example/movie.mp4");
}

#[test]
fn v3_infrastructure_botnet_converts_without_extras() {
    let v = j(r#"{
        "Version": "3.0.0",
        "ReporterInfo": {
            "ReporterOrg": "CERT",
            "ReporterContactEmail": "cert@cert.example"
        },
        "Report": {
            "ReportType": "Botnet",
            "Date": "2024-01-15T11:30:15Z",
            "Source": {"IP": "198.51.100.25"},
            "AdditionalInfo": {"MalwareFamily": "Conficker"}
        }
    }"#);
    let mut warnings = Vec::new();
    let v4 = back(&convert_v3_to_v4(v, &mut warnings).unwrap());
    assert_eq!(v4["category"], "infrastructure");
    assert_eq!(v4["type"], "botnet");
    assert!(v4.get("compromise_evidence").is_none());
}

#[test]
fn conversion_at_a_given_time_is_deterministic() {
    let mut w1 = Vec::new();
    let mut w2 = Vec::new();
    let a = xarf::v3_compat::convert_v3_to_v4_at(
        v3_spam(),
        "00000000-0000-4000-8000-000000000000".to_string(),
        "2024-02-01T00:00:00Z".to_string(),
        &mut w1,
    )
    .unwrap();
    let b = xarf::v3_compat::convert_v3_to_v4_at(
        v3_spam(),
        "00000000-0000-4000-8000-000000000000".to_string(),
        "2024-02-01T00:00:00Z".to_string(),
        &mut w2,
    )
    .unwrap();
    assert_eq!(back(&a), back(&b));
    let v = back(&a);
    assert_eq!(v["report_id"], "00000000-0000-4000-8000-000000000000");
    assert_eq!(v["_internal"]["converted_at"], "2024-02-01T00:00:00Z");
    assert_eq!(w1, w2);
    let _ = JsonNumber::PosInt(0);
}

fn is_uuid_text(s: &str) -> bool {
    s.len() == 36
        && s.chars().enumerate().all(|(i, c)| {
            if i == 8 || i == 13 || i == 18 || i == 23 {
                c == '-'
            } else {
                c.is_ascii_digit() || ('a'..='f').contains(&c)
            }
        })
        && &s[14..15] == "4"
        && ["8", "9", "a", "b"].contains(&&s[19..20])
}

fn is_utc_time_text(s: &str) -> bool {
    let b = s.as_bytes();
    let n = b.len();
    if n != 20 {
        return false;
    }
    let digit = |i: usize| b[i].is_ascii_digit();
    (0..4).all(digit)
        && b[4] == b'-' && digit(5) && digit(6)
        && b[7] == b'-' && digit(8) && digit(9)
        && b[10] == b'T' && digit(11) && digit(12)
        && b[13] == b':' && digit(14) && digit(15)
        && b[16] == b':' && digit(17) && digit(18)
        && b[19] == b'Z'
}

#[test]
fn conversion_fills_a_uuid_and_a_utc_time() {
    let mut warnings = vec!["earlier".to_string()];
    let v4 = back(&convert_v3_to_v4(v3_spam(), &mut warnings).unwrap());
    assert!(is_uuid_text(v4["report_id"].as_str().unwrap()), "{}", v4["report_id"]);
    let at = v4["_internal"]["converted_at"].as_str().unwrap();
    assert!(is_utc_time_text(at), "{at}");
    assert_eq!(v4["xarf_version"], "4.2.0");
    assert_eq!(v4["legacy_version"], "3");
    assert_eq!(v4["reporter"], v4["sender"]);
    assert_eq!(warnings[0], "earlier");
}

#[test]
fn attachment_hash_has_sixty_four_hex_digits() {
    let mut warnings = Vec::new();
    let v4 = back(&convert_v3_to_v4(v3_spam(), &mut warnings).unwrap());
    let hash = v4["evidence"][0]["hash"].as_str().unwrap();
    assert!(hash.starts_with("sha256:"));
    assert_eq!(hash.len(), 7 + 64);
}
