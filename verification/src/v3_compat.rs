//! XARF v3 compatibility: detect v3 reports and convert them to v4 JSON.

use vstd::prelude::*;

use crate::crypto::{base64_decode, base64_decoded, sha256, sha256_of};
use crate::error::XarfError;
use crate::fresh::{fresh_uuid, utc_now_rfc3339, utc_time_text, uuid_text};
use crate::generator::SPEC_VERSION;
use crate::hex::{encode, hex_lower};
use crate::json::{
    json_view, json_view_seq, lemma_view_seq, obj_from, obj_get, obj_get_obj, obj_get_str,
    obj_has, opt_pair, Json, JsonMap, JsonNumber, JsonValue, Num,
};
use crate::model::{
    contact_json, opt_str_json, put_opt, put_tracked, strings_view, Contact, ContactModel,
};
use crate::text::{concat, find_char, first_index_of, lemma_first_index_of_found, owned, str_eq};

verus! {

/// The deprecation notice attached to every v3 → v4 conversion.
pub open spec fn deprecation_text() -> Seq<char> {
    "DEPRECATION WARNING: XARF v3 format detected. The v3 format has been automatically converted to v4. Please update your systems to generate v4 reports directly. v3 support will be removed in a future major version."@
}

/// The canonical deprecation message.
pub fn deprecation_warning() -> (r: &'static str)
    ensures
        r@ == deprecation_text(),
{
    let text = "DEPRECATION WARNING: XARF v3 format detected. The v3 format has been automatically converted to v4. Please update your systems to generate v4 reports directly. v3 support will be removed in a future major version.";
    proof {
        reveal_strlit(
            "DEPRECATION WARNING: XARF v3 format detected. The v3 format has been automatically converted to v4. Please update your systems to generate v4 reports directly. v3 support will be removed in a future major version.",
        );
    }
    text
}

/// A v3 report: an object whose `Version` is the string `"3"`, `"3.0"` or
/// `"3.0.0"`, with `ReporterInfo` and `Report` members.
pub open spec fn is_v3(j: Json) -> bool {
    match j {
        Json::Object(es) => {
            &&& (obj_get_str(es, "Version"@) == Some("3"@) || obj_get_str(es, "Version"@) == Some(
                "3.0"@,
            ) || obj_get_str(es, "Version"@) == Some("3.0.0"@))
            &&& obj_has(es, "ReporterInfo"@)
            &&& obj_has(es, "Report"@)
        },
        _ => false,
    }
}

/// Detect the v3 format.
pub fn is_v3_report(value: &JsonValue) -> (r: bool)
    ensures
        r == is_v3(value@),
{
    match value {
        JsonValue::Object(m) => {
            let version_ok = match m.get_str("Version") {
                Some(v) => str_eq(v.as_str(), "3") || str_eq(v.as_str(), "3.0") || str_eq(
                    v.as_str(),
                    "3.0.0",
                ),
                None => false,
            };
            version_ok && m.contains_key("ReporterInfo") && m.contains_key("Report")
        },
        _ => false,
    }
}

/// The v4 (category, type) of a v3 `ReportType`.
pub open spec fn v3_type_mapping(t: Seq<char>) -> Option<(Seq<char>, Seq<char>)> {
    if t == "Spam"@ || t == "spam"@ {
        Some(("messaging"@, "spam"@))
    } else if t == "Login-Attack"@ || t == "login-attack"@ {
        Some(("connection"@, "login_attack"@))
    } else if t == "Port-Scan"@ || t == "port-scan"@ {
        Some(("connection"@, "port_scan"@))
    } else if t == "DDoS"@ || t == "ddos"@ {
        Some(("connection"@, "ddos"@))
    } else if t == "Phishing"@ || t == "phishing"@ {
        Some(("content"@, "phishing"@))
    } else if t == "Malware"@ || t == "malware"@ {
        Some(("content"@, "malware"@))
    } else if t == "Botnet"@ || t == "botnet"@ {
        Some(("infrastructure"@, "botnet"@))
    } else if t == "Copyright"@ || t == "copyright"@ {
        Some(("copyright"@, "copyright"@))
    } else {
        None
    }
}

fn map_v3_type(t: &str) -> (r: Option<(&'static str, &'static str)>)
    ensures
        match r {
            Some((c, ty)) => v3_type_mapping(t@) == Some((c@, ty@)),
            None => v3_type_mapping(t@) is None,
        },
{
    if str_eq(t, "Spam") || str_eq(t, "spam") {
        Some(("messaging", "spam"))
    } else if str_eq(t, "Login-Attack") || str_eq(t, "login-attack") {
        Some(("connection", "login_attack"))
    } else if str_eq(t, "Port-Scan") || str_eq(t, "port-scan") {
        Some(("connection", "port_scan"))
    } else if str_eq(t, "DDoS") || str_eq(t, "ddos") {
        Some(("connection", "ddos"))
    } else if str_eq(t, "Phishing") || str_eq(t, "phishing") {
        Some(("content", "phishing"))
    } else if str_eq(t, "Malware") || str_eq(t, "malware") {
        Some(("content", "malware"))
    } else if str_eq(t, "Botnet") || str_eq(t, "botnet") {
        Some(("infrastructure", "botnet"))
    } else if str_eq(t, "Copyright") || str_eq(t, "copyright") {
        Some(("copyright", "copyright"))
    } else {
        None
    }
}

pub open spec fn unknown_type_msg(t: Seq<char>) -> Seq<char> {
    "unknown ReportType '"@ + t
        + "'. Supported types: Spam, spam, Login-Attack, login-attack, Port-Scan, port-scan, DDoS, ddos, Phishing, phishing, Malware, malware, Botnet, botnet, Copyright, copyright"@
}

pub open spec fn no_source_msg() -> Seq<char> {
    "no source identifier found (expected Source.IP, SourceIp, Source.URL, or Url)"@
}

pub open spec fn missing_email_msg() -> Seq<char> {
    "missing reporter email (ReporterContactEmail and ReporterOrgEmail are both absent)"@
}

pub open spec fn bad_email_msg(c: Seq<char>) -> Seq<char> {
    "reporter email '"@ + c + "' is not a valid email address"@
}

pub open spec fn no_org_warning() -> Seq<char> {
    "No ReporterOrg found in v3 report, using \"Unknown Organization\""@
}

pub open spec fn no_description_warning() -> Seq<char> {
    "Evidence attachment has no description, omitting field"@
}

pub open spec fn not_object_msg() -> Seq<char> {
    "v3 report must be a JSON object"@
}

/// The first of two optional values that is present.
pub open spec fn first_some<T>(a: Option<T>, b: Option<T>) -> Option<T> {
    match a {
        Some(x) => Some(x),
        None => b,
    }
}

pub open spec fn obj_or_empty(o: Option<Seq<(Seq<char>, Json)>>) -> Seq<(Seq<char>, Json)> {
    match o {
        Some(m) => m,
        None => Seq::empty(),
    }
}

pub open spec fn str_or(o: Option<Seq<char>>, d: Seq<char>) -> Seq<char> {
    match o {
        Some(s) => s,
        None => d,
    }
}

/// The source identifier of a v3 report: `Source.IP`, `SourceIp`,
/// `Source.URL` or `Url`, the first that is a string.
pub open spec fn source_identifier_of(report: Seq<(Seq<char>, Json)>) -> Option<Seq<char>> {
    let src = obj_or_empty(obj_get_obj(report, "Source"@));
    first_some(
        obj_get_str(src, "IP"@),
        first_some(
            obj_get_str(report, "SourceIp"@),
            first_some(obj_get_str(src, "URL"@), obj_get_str(report, "Url"@)),
        ),
    )
}

fn extract_source_identifier(report: &JsonMap) -> (r: Result<String, XarfError>)
    ensures
        match r {
            Ok(s) => source_identifier_of(report@) == Some(s@),
            Err(e) => source_identifier_of(report@) is None && e@ == crate::error::XarfErrorModel::V3Conversion(
                no_source_msg(),
            ),
        },
{
    if let Some(source) = report.get_obj("Source") {
        if let Some(ip) = source.get_str("IP") {
            return Ok(ip.clone());
        }
    }
    if let Some(ip) = report.get_str("SourceIp") {
        return Ok(ip.clone());
    }
    if let Some(source) = report.get_obj("Source") {
        if let Some(url) = source.get_str("URL") {
            return Ok(url.clone());
        }
    }
    if let Some(url) = report.get_str("Url") {
        return Ok(url.clone());
    }
    Err(
        XarfError::V3Conversion(
            owned("no source identifier found (expected Source.IP, SourceIp, Source.URL, or Url)"),
        ),
    )
}

/// The reporter's email: `ReporterContactEmail`, else `ReporterOrgEmail`.
pub open spec fn reporter_email(info: Seq<(Seq<char>, Json)>) -> Option<Seq<char>> {
    first_some(obj_get_str(info, "ReporterContactEmail"@), obj_get_str(info, "ReporterOrgEmail"@))
}

/// The part after the first `@`, when there is one and it is not empty.
pub open spec fn email_domain(c: Seq<char>) -> Option<Seq<char>> {
    match first_index_of(c, '@') {
        Some(p) => if p + 1 < c.len() {
            Some(c.skip(p + 1))
        } else {
            None
        },
        None => None,
    }
}

/// `ReporterOrg` when it is a non-empty string.
pub open spec fn reporter_org(info: Seq<(Seq<char>, Json)>) -> Option<Seq<char>> {
    match obj_get_str(info, "ReporterOrg"@) {
        Some(s) => if s.len() > 0 {
            Some(s)
        } else {
            None
        },
        None => None,
    }
}

/// The v4 contact built from v3 `ReporterInfo`, with the warnings it
/// raises.
pub open spec fn contact_info(info: Seq<(Seq<char>, Json)>) -> (Result<Json, Seq<char>>, Seq<Seq<char>>) {
    match reporter_email(info) {
        None => (Err(missing_email_msg()), Seq::empty()),
        Some(c) => match email_domain(c) {
            None => (Err(bad_email_msg(c)), Seq::empty()),
            Some(d) => match reporter_org(info) {
                Some(o) => (Ok(contact_json(ContactModel { org: o, contact: c, domain: d })), Seq::empty()),
                None => (
                    Ok(contact_json(ContactModel { org: "Unknown Organization"@, contact: c, domain: d })),
                    seq![no_org_warning()],
                ),
            },
        },
    }
}

fn push_warning(ws: &mut Vec<String>, s: String)
    ensures
        strings_view(final(ws)@) == strings_view(old(ws)@).push(s@),
{
    let ghost before = strings_view(ws@);
    let ghost sv = s@;
    ws.push(s);
    assert(strings_view(ws@) =~= before.push(sv));
}

fn extract_contact_info(info: &JsonMap, warnings: &mut Vec<String>) -> (r: Result<JsonValue, XarfError>)
    ensures
        strings_view(final(warnings)@) == strings_view(old(warnings)@) + contact_info(info@).1,
        match r {
            Ok(j) => contact_info(info@).0 == Ok::<Json, Seq<char>>(j@),
            Err(e) => exists|m: Seq<char>|
                contact_info(info@).0 == Err::<Json, Seq<char>>(m) && e@
                    == crate::error::XarfErrorModel::V3Conversion(m),
        },
{
    let contact = match info.get_str("ReporterContactEmail") {
        Some(s) => s.clone(),
        None => match info.get_str("ReporterOrgEmail") {
            Some(s) => s.clone(),
            None => {
                assert(strings_view(warnings@) + Seq::<Seq<char>>::empty() =~= strings_view(warnings@));
                return Err(
                    XarfError::V3Conversion(
                        owned(
                            "missing reporter email (ReporterContactEmail and ReporterOrgEmail are both absent)",
                        ),
                    ),
                );
            },
        },
    };
    let len = contact.as_str().unicode_len();
    proof {
        lemma_first_index_of_found(contact@, '@');
    }
    let domain = match find_char(contact.as_str(), '@') {
        Some(p) => {
            if p + 1 < len {
                owned(contact.as_str().substring_char(p + 1, len))
            } else {
                assert(strings_view(warnings@) + Seq::<Seq<char>>::empty() =~= strings_view(warnings@));
                let head = concat("reporter email '", contact.as_str());
                return Err(XarfError::V3Conversion(concat(head.as_str(), "' is not a valid email address")));
            }
        },
        None => {
            assert(strings_view(warnings@) + Seq::<Seq<char>>::empty() =~= strings_view(warnings@));
            let head = concat("reporter email '", contact.as_str());
            return Err(XarfError::V3Conversion(concat(head.as_str(), "' is not a valid email address")));
        },
    };
    assert(domain@ =~= contact@.skip(first_index_of(contact@, '@')->0 + 1));
    let org = match info.get_str("ReporterOrg") {
        Some(s) if s.as_str().unicode_len() > 0 => {
            assert(strings_view(warnings@) + Seq::<Seq<char>>::empty() =~= strings_view(warnings@));
            s.clone()
        },
        _ => {
            let ghost before = strings_view(warnings@);
            push_warning(warnings, owned("No ReporterOrg found in v3 report, using \"Unknown Organization\""));
            assert(before.push(no_org_warning()) =~= before + seq![no_org_warning()]);
            owned("Unknown Organization")
        },
    };
    let c = Contact { org, contact, domain };
    Ok(c.to_json())
}

/// The attachments of a v3 report: `Attachment` when present, else
/// `Samples`; only a non-empty array counts.
pub open spec fn attachments_of(report: Seq<(Seq<char>, Json)>) -> Option<Seq<Json>> {
    let v = if obj_has(report, "Attachment"@) {
        obj_get(report, "Attachment"@)
    } else {
        obj_get(report, "Samples"@)
    };
    match v {
        Some(Json::Array(a)) => if a.len() > 0 {
            Some(a)
        } else {
            None
        },
        _ => None,
    }
}

/// The bytes a base64 text decodes to, or none when it does not decode.
pub open spec fn decoded_or_empty(raw: Seq<char>) -> Seq<u8> {
    match base64_decoded(raw) {
        Some(b) => b,
        None => Seq::empty(),
    }
}

/// The v4 evidence item of one v3 attachment object.
pub open spec fn attachment_evidence(att: Seq<(Seq<char>, Json)>) -> Json {
    let raw = str_or(obj_get_str(att, "Data"@), Seq::empty());
    let bytes = decoded_or_empty(raw);
    Json::Object(
        obj_from(
            seq![
                (
                    "content_type"@,
                    Json::Str(str_or(obj_get_str(att, "ContentType"@), "application/octet-stream"@)),
                ),
                ("payload"@, Json::Str(raw)),
                ("hash"@, Json::Str("sha256:"@ + hex_lower(sha256_of(bytes)))),
                ("size"@, Json::Number(Num::PosInt(bytes.len() as u64))),
            ] + opt_pair("description"@, opt_str_json(obj_get_str(att, "Description"@))),
        ),
    )
}

/// The bytes of an attachment's `Data`, when it is an object.
pub open spec fn attachment_bytes(att: Json) -> Seq<u8> {
    match att {
        Json::Object(m) => decoded_or_empty(str_or(obj_get_str(m, "Data"@), Seq::empty())),
        _ => Seq::empty(),
    }
}

/// Every attachment object of the v3 report `v3` hashes to a 32-byte
/// SHA-256 digest (64 hex digits in its evidence item).
pub open spec fn attachment_digests_full(v3: Json) -> bool {
    match v3 {
        Json::Object(top) => match attachments_of(obj_or_empty(obj_get_obj(top, "Report"@))) {
            Some(a) => forall|j: int|
                0 <= j < a.len() && a[j] is Object ==> #[trigger] sha256_of(attachment_bytes(a[j])).len() == 32,
            None => true,
        },
        _ => true,
    }
}

/// The evidence items of the attachment objects (other elements are
/// skipped), with a warning for each attachment without a description.
pub open spec fn converted_attachments(a: Seq<Json>) -> (Seq<Json>, Seq<Seq<char>>)
    decreases a.len(),
{
    if a.len() == 0 {
        (Seq::empty(), Seq::empty())
    } else {
        let prev = converted_attachments(a.drop_last());
        match a.last() {
            Json::Object(att) => (
                prev.0.push(attachment_evidence(att)),
                if obj_get_str(att, "Description"@) is None {
                    prev.1.push(no_description_warning())
                } else {
                    prev.1
                },
            ),
            _ => prev,
        }
    }
}

fn attachment_item(att: &JsonMap, warnings: &mut Vec<String>) -> (r: JsonValue)
    ensures
        r@ == attachment_evidence(att@),
        strings_view(final(warnings)@) == strings_view(old(warnings)@) + (if obj_get_str(
            att@,
            "Description"@,
        ) is None {
            seq![no_description_warning()]
        } else {
            Seq::empty()
        }),
        sha256_of(attachment_bytes(Json::Object(att@))).len() == 32,
{
    let description = att.get_str("Description");
    let ghost before = strings_view(warnings@);
    if description.is_none() {
        push_warning(warnings, owned("Evidence attachment has no description, omitting field"));
        assert(before.push(no_description_warning()) =~= before + seq![no_description_warning()]);
    } else {
        assert(before + Seq::<Seq<char>>::empty() =~= before);
    }
    let raw: String = match att.get_str("Data") {
        Some(s) => s.clone(),
        None => String::new(),
    };
    let bytes: Vec<u8> = match base64_decode(raw.as_str()) {
        Some(b) => b,
        None => Vec::new(),
    };
    assert(bytes@ == decoded_or_empty(raw@));
    let digest = sha256(bytes.as_slice());
    let hash = concat("sha256:", encode(digest.as_slice()).as_str());
    let content_type: String = match att.get_str("ContentType") {
        Some(s) => s.clone(),
        None => owned("application/octet-stream"),
    };
    let mut item = JsonMap::new();
    let ghost p0 = Seq::<(Seq<char>, Json)>::empty();
    put_tracked(&mut item, "content_type", JsonValue::String(content_type), Ghost(p0));
    let ghost p1 = p0.push(
        (
            "content_type"@,
            Json::Str(str_or(obj_get_str(att@, "ContentType"@), "application/octet-stream"@)),
        ),
    );
    let ghost rawv = raw@;
    put_tracked(&mut item, "payload", JsonValue::String(raw), Ghost(p1));
    let ghost p2 = p1.push(("payload"@, Json::Str(rawv)));
    put_tracked(&mut item, "hash", JsonValue::String(hash), Ghost(p2));
    let ghost p3 = p2.push(("hash"@, Json::Str("sha256:"@ + hex_lower(sha256_of(bytes@)))));
    put_tracked(
        &mut item,
        "size",
        JsonValue::Number(JsonNumber::PosInt(bytes.len() as u64)),
        Ghost(p3),
    );
    let ghost p4 = p3.push(("size"@, Json::Number(Num::PosInt(bytes@.len() as u64))));
    let desc = match description {
        Some(d) => Some(JsonValue::String(d.clone())),
        None => None,
    };
    put_opt(&mut item, "description", desc, Ghost(p4));
    assert(p4 =~= seq![
        (
            "content_type"@,
            Json::Str(str_or(obj_get_str(att@, "ContentType"@), "application/octet-stream"@)),
        ),
        ("payload"@, Json::Str(rawv)),
        ("hash"@, Json::Str("sha256:"@ + hex_lower(sha256_of(bytes@)))),
        ("size"@, Json::Number(Num::PosInt(bytes@.len() as u64))),
    ]);
    JsonValue::Object(item)
}

fn convert_attachments(report: &JsonMap, warnings: &mut Vec<String>) -> (r: Option<Vec<JsonValue>>)
    ensures
        match attachments_of(report@) {
            None => r is None && strings_view(final(warnings)@) == strings_view(old(warnings)@),
            Some(a) => r matches Some(items) && json_view_seq(items@) == converted_attachments(a).0
                && strings_view(final(warnings)@) == strings_view(old(warnings)@)
                + converted_attachments(a).1 && forall|j: int|
                0 <= j < a.len() && a[j] is Object ==> #[trigger] sha256_of(attachment_bytes(a[j])).len() == 32,
        },
{
    let v = if report.contains_key("Attachment") {
        report.get("Attachment")
    } else {
        report.get("Samples")
    };
    let arr = match v {
        Some(JsonValue::Array(a)) => a,
        _ => {
            return None;
        },
    };
    proof {
        lemma_view_seq(arr@);
    }
    let ghost av = json_view_seq(arr@);
    let n = arr.len();
    if n == 0 {
        return None;
    }
    let ghost w0 = strings_view(warnings@);
    let mut out: Vec<JsonValue> = Vec::new();
    let mut i: usize = 0;
    assert(av.take(0) =~= Seq::<Json>::empty());
    proof {
        lemma_view_seq(out@);
    }
    assert(json_view_seq(out@) =~= Seq::<Json>::empty());
    assert(w0 + Seq::<Seq<char>>::empty() =~= w0);
    while i < n
        invariant
            n == arr@.len(),
            av == json_view_seq(arr@),
            av.len() == n,
            forall|j: int| 0 <= j < n ==> #[trigger] av[j] == json_view(arr@[j]),
            i <= n,
            json_view_seq(out@) == converted_attachments(av.take(i as int)).0,
            strings_view(warnings@) == w0 + converted_attachments(av.take(i as int)).1,
            forall|j: int|
                0 <= j < i && av[j] is Object ==> #[trigger] sha256_of(attachment_bytes(av[j])).len() == 32,
        decreases n - i,
    {
        assert(av.take(i + 1).drop_last() =~= av.take(i as int));
        assert(av.take(i + 1).last() == av[i as int]);
        match &arr[i] {
            JsonValue::Object(att) => {
                let ghost ws = strings_view(warnings@);
                let ghost ob = out@;
                let ghost prev_out = json_view_seq(out@);
                let item = attachment_item(att, warnings);
                let ghost iv = item@;
                out.push(item);
                proof {
                    lemma_view_seq(out@);
                    lemma_view_seq(ob);
                    assert(out@ =~= ob.push(out@.last()));
                    assert(json_view_seq(out@) =~= prev_out.push(iv));
                    let extra = if obj_get_str(att@, "Description"@) is None {
                        seq![no_description_warning()]
                    } else {
                        Seq::empty()
                    };
                    let prevw = converted_attachments(av.take(i as int)).1;
                    if obj_get_str(att@, "Description"@) is None {
                        assert(w0 + prevw + extra =~= w0 + prevw.push(no_description_warning()));
                    } else {
                        assert(w0 + prevw + extra =~= w0 + prevw);
                    }
                }
            },
            _ => {},
        }
        i = i + 1;
    }
    assert(av.take(n as int) =~= av);
    Some(out)
}

/// `Report.AdditionalInfo` as an object, or no members.
pub open spec fn additional_info(report: Seq<(Seq<char>, Json)>) -> Seq<(Seq<char>, Json)> {
    obj_or_empty(obj_get_obj(report, "AdditionalInfo"@))
}

/// `Report.Source.Port` when `Source` is an object with a `Port`, else
/// `Report.SourcePort`; either may be any JSON value.
pub open spec fn source_port_of(report: Seq<(Seq<char>, Json)>) -> Option<Json> {
    match obj_get_obj(report, "Source"@) {
        Some(src) => match obj_get(src, "Port"@) {
            Some(p) => Some(p),
            None => obj_get(report, "SourcePort"@),
        },
        None => obj_get(report, "SourcePort"@),
    }
}

/// The members a messaging report adds.
pub open spec fn messaging_pairs(report: Seq<(Seq<char>, Json)>) -> Result<
    Seq<(Seq<char>, Json)>,
    Seq<char>,
> {
    let add = additional_info(report);
    match first_some(obj_get_str(report, "Protocol"@), obj_get_str(add, "Protocol"@)) {
        None => Err("missing protocol for messaging type"@),
        Some(p) => Ok(
            seq![("protocol"@, Json::Str(p))] + opt_pair(
                "smtp_from"@,
                opt_str_json(
                    first_some(
                        obj_get_str(report, "SmtpMailFromAddress"@),
                        obj_get_str(add, "SMTPFrom"@),
                    ),
                ),
            ) + opt_pair("smtp_to"@, opt_str_json(obj_get_str(report, "SmtpRcptToAddress"@)))
                + opt_pair(
                "subject"@,
                opt_str_json(
                    first_some(
                        obj_get_str(report, "SmtpMessageSubject"@),
                        obj_get_str(add, "Subject"@),
                    ),
                ),
            ) + opt_pair("source_port"@, source_port_of(report)),
        ),
    }
}

/// The members a connection report adds.
pub open spec fn connection_pairs(report: Seq<(Seq<char>, Json)>) -> Result<
    Seq<(Seq<char>, Json)>,
    Seq<char>,
> {
    match obj_get_str(report, "Protocol"@) {
        None => Err("missing protocol for connection type"@),
        Some(p) => Ok(
            seq![("protocol"@, Json::Str(p))] + opt_pair("first_seen"@, obj_get(report, "Date"@))
                + opt_pair("destination_ip"@, obj_get(report, "DestinationIp"@)) + opt_pair(
                "source_port"@,
                source_port_of(report),
            ) + opt_pair("destination_port"@, obj_get(report, "DestinationPort"@)) + opt_pair(
                "attack_count"@,
                obj_get(report, "AttackCount"@),
            ),
        ),
    }
}

/// The member a content report adds: its URL.
pub open spec fn content_pairs(report: Seq<(Seq<char>, Json)>, v4_type: Seq<char>) -> Result<
    Seq<(Seq<char>, Json)>,
    Seq<char>,
> {
    let add = additional_info(report);
    let src = obj_or_empty(obj_get_obj(report, "Source"@));
    match first_some(
        obj_get_str(report, "Url"@),
        first_some(obj_get_str(add, "URL"@), obj_get_str(src, "URL"@)),
    ) {
        None => Err(
            "missing URL for content type '"@ + v4_type
                + "'. Content reports require a URL field"@,
        ),
        Some(u) => Ok(seq![("url"@, Json::Str(u))]),
    }
}

/// The category-specific members.
pub open spec fn category_pairs(
    category: Seq<char>,
    report: Seq<(Seq<char>, Json)>,
    v4_type: Seq<char>,
) -> Result<Seq<(Seq<char>, Json)>, Seq<char>> {
    if category == "messaging"@ {
        messaging_pairs(report)
    } else if category == "connection"@ {
        connection_pairs(report)
    } else if category == "content"@ {
        content_pairs(report, v4_type)
    } else {
        Ok(Seq::empty())
    }
}

/// `Report.AdditionalInfo.DetectionMethod` when it is a string.
pub open spec fn detection_method(report: Seq<(Seq<char>, Json)>) -> Option<Seq<char>> {
    match obj_get_obj(report, "AdditionalInfo"@) {
        Some(ai) => obj_get_str(ai, "DetectionMethod"@),
        None => None,
    }
}

/// The members every converted report has.
pub open spec fn v3_core_pairs(
    report: Seq<(Seq<char>, Json)>,
    report_type: Seq<char>,
    category: Seq<char>,
    v4_type: Seq<char>,
    source_identifier: Seq<char>,
    contact: Json,
    report_id: Seq<char>,
    now: Seq<char>,
    evidence: Option<Seq<Json>>,
) -> Seq<(Seq<char>, Json)> {
    seq![
        ("xarf_version"@, Json::Str("4.2.0"@)),
        ("report_id"@, Json::Str(report_id)),
        (
            "timestamp"@,
            match obj_get(report, "Date"@) {
                Some(d) => d,
                None => Json::Str(now),
            },
        ),
        ("reporter"@, contact),
        ("sender"@, contact),
        ("source_identifier"@, Json::Str(source_identifier)),
        ("category"@, Json::Str(category)),
        ("type"@, Json::Str(v4_type)),
        ("legacy_version"@, Json::Str("3"@)),
        (
            "_internal"@,
            Json::Object(
                obj_from(
                    seq![
                        ("original_report_type"@, Json::Str(report_type)),
                        ("converted_at"@, Json::Str(now)),
                    ],
                ),
            ),
        ),
    ] + opt_pair("description"@, opt_str_json(obj_get_str(report, "AttackDescription"@)))
        + opt_pair("evidence_source"@, opt_str_json(detection_method(report))) + opt_pair(
        "evidence"@,
        match evidence {
            Some(items) => Some(Json::Array(items)),
            None => None,
        },
    )
}

/// The v4 object a v3 report converts to, given the fresh report id and
/// the conversion time, and the warnings raised on the way (also when the
/// conversion then fails).
pub open spec fn v3_conversion(v3: Json, report_id: Seq<char>, now: Seq<char>) -> (
    Result<Json, Seq<char>>,
    Seq<Seq<char>>,
) {
    match v3 {
        Json::Object(top) => {
            let report = obj_or_empty(obj_get_obj(top, "Report"@));
            let info = obj_or_empty(obj_get_obj(top, "ReporterInfo"@));
            let rt = str_or(obj_get_str(report, "ReportType"@), Seq::empty());
            match v3_type_mapping(rt) {
                None => (Err(unknown_type_msg(rt)), Seq::empty()),
                Some((cat, ty)) => match source_identifier_of(report) {
                    None => (Err(no_source_msg()), Seq::empty()),
                    Some(sid) => {
                        let ci = contact_info(info);
                        match ci.0 {
                            Err(e) => (Err(e), ci.1),
                            Ok(contact) => {
                                let ev = match attachments_of(report) {
                                    Some(a) => Some(converted_attachments(a).0),
                                    None => None,
                                };
                                let ws = ci.1 + match attachments_of(report) {
                                    Some(a) => converted_attachments(a).1,
                                    None => Seq::empty(),
                                };
                                match category_pairs(cat, report, ty) {
                                    Err(e) => (Err(e), ws),
                                    Ok(extra) => (
                                        Ok(
                                            Json::Object(
                                                obj_from(
                                                    v3_core_pairs(
                                                        report,
                                                        rt,
                                                        cat,
                                                        ty,
                                                        sid,
                                                        contact,
                                                        report_id,
                                                        now,
                                                        ev,
                                                    ) + extra,
                                                ),
                                            ),
                                        ),
                                        ws,
                                    ),
                                }
                            },
                        }
                    },
                },
            }
        },
        _ => (Err(not_object_msg()), Seq::empty()),
    }
}

fn clone_opt_value(v: Option<&JsonValue>) -> (r: Option<JsonValue>)
    ensures
        match r {
            Some(x) => Some(x@),
            None => None,
        } == match v {
            Some(x) => Some(x@),
            None => None,
        },
{
    match v {
        Some(x) => Some(x.clone()),
        None => None,
    }
}

fn clone_opt_str_value(v: Option<&String>) -> (r: Option<JsonValue>)
    ensures
        match r {
            Some(x) => Some(x@),
            None => None,
        } == opt_str_json(
            match v {
                Some(s) => Some(s@),
                None => None,
            },
        ),
{
    match v {
        Some(s) => Some(JsonValue::String(s.clone())),
        None => None,
    }
}

fn first_str<'a>(a: Option<&'a String>, b: Option<&'a String>) -> (r: Option<&'a String>)
    ensures
        match r {
            Some(s) => Some(s@),
            None => None,
        } == first_some(
            match a {
                Some(s) => Some(s@),
                None => None,
            },
            match b {
                Some(s) => Some(s@),
                None => None,
            },
        ),
{
    match a {
        Some(s) => Some(s),
        None => b,
    }
}

fn source_port_value(report: &JsonMap) -> (r: Option<JsonValue>)
    ensures
        match r {
            Some(x) => Some(x@),
            None => None,
        } == source_port_of(report@),
{
    match report.get_obj("Source") {
        Some(src) => match src.get("Port") {
            Some(p) => Some(p.clone()),
            None => clone_opt_value(report.get("SourcePort")),
        },
        None => clone_opt_value(report.get("SourcePort")),
    }
}

fn additional_of(report: &JsonMap) -> (r: JsonMap)
    ensures
        r@ == additional_info(report@),
{
    match report.get_obj("AdditionalInfo") {
        Some(a) => a.clone(),
        None => JsonMap::new(),
    }
}

/// Add the members of a messaging report to `out`.
#[verifier::spinoff_prover]
#[verifier::rlimit(40)]
fn add_messaging_fields(out: &mut JsonMap, report: &JsonMap, Ghost(pairs): Ghost<Seq<(Seq<char>, Json)>>) -> (r: Result<(), XarfError>)
    requires
        old(out)@ == obj_from(pairs),
    ensures
        match r {
            Ok(()) => messaging_pairs(report@) matches Ok(extra) && final(out)@ == obj_from(pairs + extra),
            Err(e) => exists|m: Seq<char>|
                messaging_pairs(report@) == Err::<Seq<(Seq<char>, Json)>, Seq<char>>(m) && e@
                    == crate::error::XarfErrorModel::V3Conversion(m),
        },
{
    let add = additional_of(report);
    let protocol = match first_str(report.get_str("Protocol"), add.get_str("Protocol")) {
        Some(p) => p,
        None => {
            return Err(XarfError::V3Conversion(owned("missing protocol for messaging type")));
        },
    };
    put_tracked(out, "protocol", JsonValue::String(protocol.clone()), Ghost(pairs));
    let ghost q0 = pairs.push(("protocol"@, Json::Str(protocol@)));
    put_opt(
        out,
        "smtp_from",
        clone_opt_str_value(first_str(report.get_str("SmtpMailFromAddress"), add.get_str("SMTPFrom"))),
        Ghost(q0),
    );
    let ghost q1 = q0 + opt_pair(
        "smtp_from"@,
        opt_str_json(
            first_some(obj_get_str(report@, "SmtpMailFromAddress"@), obj_get_str(add@, "SMTPFrom"@)),
        ),
    );
    put_opt(out, "smtp_to", clone_opt_str_value(report.get_str("SmtpRcptToAddress")), Ghost(q1));
    let ghost q2 = q1 + opt_pair("smtp_to"@, opt_str_json(obj_get_str(report@, "SmtpRcptToAddress"@)));
    put_opt(
        out,
        "subject",
        clone_opt_str_value(first_str(report.get_str("SmtpMessageSubject"), add.get_str("Subject"))),
        Ghost(q2),
    );
    let ghost q3 = q2 + opt_pair(
        "subject"@,
        opt_str_json(
            first_some(obj_get_str(report@, "SmtpMessageSubject"@), obj_get_str(add@, "Subject"@)),
        ),
    );
    put_opt(out, "source_port", source_port_value(report), Ghost(q3));
    proof {
        let extra = messaging_pairs(report@)->Ok_0;
        assert(pairs + extra =~= q3 + opt_pair("source_port"@, source_port_of(report@)));
    }
    Ok(())
}

/// Add the members of a connection report to `out`.
fn add_connection_fields(out: &mut JsonMap, report: &JsonMap, Ghost(pairs): Ghost<Seq<(Seq<char>, Json)>>) -> (r: Result<(), XarfError>)
    requires
        old(out)@ == obj_from(pairs),
    ensures
        match r {
            Ok(()) => connection_pairs(report@) matches Ok(extra) && final(out)@ == obj_from(pairs + extra),
            Err(e) => exists|m: Seq<char>|
                connection_pairs(report@) == Err::<Seq<(Seq<char>, Json)>, Seq<char>>(m) && e@
                    == crate::error::XarfErrorModel::V3Conversion(m),
        },
{
    let protocol = match report.get_str("Protocol") {
        Some(p) => p,
        None => {
            return Err(XarfError::V3Conversion(owned("missing protocol for connection type")));
        },
    };
    put_tracked(out, "protocol", JsonValue::String(protocol.clone()), Ghost(pairs));
    let ghost q0 = pairs.push(("protocol"@, Json::Str(protocol@)));
    put_opt(out, "first_seen", clone_opt_value(report.get("Date")), Ghost(q0));
    let ghost q1 = q0 + opt_pair("first_seen"@, obj_get(report@, "Date"@));
    put_opt(out, "destination_ip", clone_opt_value(report.get("DestinationIp")), Ghost(q1));
    let ghost q2 = q1 + opt_pair("destination_ip"@, obj_get(report@, "DestinationIp"@));
    put_opt(out, "source_port", source_port_value(report), Ghost(q2));
    let ghost q3 = q2 + opt_pair("source_port"@, source_port_of(report@));
    put_opt(out, "destination_port", clone_opt_value(report.get("DestinationPort")), Ghost(q3));
    let ghost q4 = q3 + opt_pair("destination_port"@, obj_get(report@, "DestinationPort"@));
    put_opt(out, "attack_count", clone_opt_value(report.get("AttackCount")), Ghost(q4));
    proof {
        let extra = connection_pairs(report@)->Ok_0;
        assert(pairs + extra =~= q4 + opt_pair("attack_count"@, obj_get(report@, "AttackCount"@)));
    }
    Ok(())
}

/// Add the URL member of a content report to `out`.
fn add_content_fields(out: &mut JsonMap, report: &JsonMap, v4_type: &str, Ghost(pairs): Ghost<Seq<(Seq<char>, Json)>>) -> (r: Result<(), XarfError>)
    requires
        old(out)@ == obj_from(pairs),
    ensures
        match r {
            Ok(()) => content_pairs(report@, v4_type@) matches Ok(extra) && final(out)@ == obj_from(pairs + extra),
            Err(e) => exists|m: Seq<char>|
                content_pairs(report@, v4_type@) == Err::<Seq<(Seq<char>, Json)>, Seq<char>>(m) && e@
                    == crate::error::XarfErrorModel::V3Conversion(m),
        },
{
    let add = additional_of(report);
    let src = match report.get_obj("Source") {
        Some(s) => s.clone(),
        None => JsonMap::new(),
    };
    let url = match first_str(report.get_str("Url"), first_str(add.get_str("URL"), src.get_str("URL"))) {
        Some(u) => u,
        None => {
            let head = concat("missing URL for content type '", v4_type);
            return Err(
                XarfError::V3Conversion(concat(head.as_str(), "'. Content reports require a URL field")),
            );
        },
    };
    put_tracked(out, "url", JsonValue::String(url.clone()), Ghost(pairs));
    proof {
        assert(pairs + seq![("url"@, Json::Str(url@))] =~= pairs.push(("url"@, Json::Str(url@))));
    }
    Ok(())
}

/// Add the category-specific members to `out`.
fn add_category_fields(
    out: &mut JsonMap,
    category: &str,
    v4_type: &str,
    report: &JsonMap,
    Ghost(pairs): Ghost<Seq<(Seq<char>, Json)>>,
) -> (r: Result<(), XarfError>)
    requires
        old(out)@ == obj_from(pairs),
    ensures
        match r {
            Ok(()) => category_pairs(category@, report@, v4_type@) matches Ok(extra)
                && final(out)@ == obj_from(pairs + extra),
            Err(e) => exists|m: Seq<char>|
                category_pairs(category@, report@, v4_type@) == Err::<Seq<(Seq<char>, Json)>, Seq<char>>(
                    m,
                ) && e@ == crate::error::XarfErrorModel::V3Conversion(m),
        },
{
    if str_eq(category, "messaging") {
        add_messaging_fields(out, report, Ghost(pairs))
    } else if str_eq(category, "connection") {
        add_connection_fields(out, report, Ghost(pairs))
    } else if str_eq(category, "content") {
        add_content_fields(out, report, v4_type, Ghost(pairs))
    } else {
        assert(pairs + Seq::<(Seq<char>, Json)>::empty() =~= pairs);
        Ok(())
    }
}

/// Convert a v3 report to a v4 object, given the fresh report id and the
/// conversion time. Warnings go to `conversion_warnings`.
#[verifier::rlimit(80)]
pub fn convert_v3_to_v4_at(
    v3_data: JsonValue,
    report_id: String,
    now: String,
    conversion_warnings: &mut Vec<String>,
) -> (r: Result<JsonValue, XarfError>)
    ensures
        strings_view(final(conversion_warnings)@) == strings_view(old(conversion_warnings)@)
            + v3_conversion(v3_data@, report_id@, now@).1,
        r is Ok ==> attachment_digests_full(v3_data@),
        match r {
            Ok(j) => v3_conversion(v3_data@, report_id@, now@).0 == Ok::<Json, Seq<char>>(j@),
            Err(e) => exists|m: Seq<char>|
                v3_conversion(v3_data@, report_id@, now@).0 == Err::<Json, Seq<char>>(m) && e@
                    == crate::error::XarfErrorModel::V3Conversion(m),
        },
{
    let ghost w0 = strings_view(conversion_warnings@);
    assert(w0 + Seq::<Seq<char>>::empty() =~= w0);
    let top = match &v3_data {
        JsonValue::Object(m) => m,
        _ => {
            return Err(XarfError::V3Conversion(owned("v3 report must be a JSON object")));
        },
    };
    let empty = JsonMap::new();
    let report = match top.get_obj("Report") {
        Some(r) => r,
        None => &empty,
    };
    let reporter_info = match top.get_obj("ReporterInfo") {
        Some(r) => r,
        None => &empty,
    };
    let report_type: String = match report.get_str("ReportType") {
        Some(s) => s.clone(),
        None => String::new(),
    };
    let (category, v4_type) = match map_v3_type(report_type.as_str()) {
        Some(pair) => pair,
        None => {
            let head = concat("unknown ReportType '", report_type.as_str());
            return Err(
                XarfError::V3Conversion(
                    concat(
                        head.as_str(),
                        "'. Supported types: Spam, spam, Login-Attack, login-attack, Port-Scan, port-scan, DDoS, ddos, Phishing, phishing, Malware, malware, Botnet, botnet, Copyright, copyright",
                    ),
                ),
            );
        },
    };
    let source_identifier = extract_source_identifier(report)?;
    let contact = extract_contact_info(reporter_info, conversion_warnings)?;
    let ghost w1 = strings_view(conversion_warnings@);
    let evidence = convert_attachments(report, conversion_warnings);
    let ghost ev = match &evidence {
        Some(items) => Some(json_view_seq(items@)),
        None => None::<Seq<Json>>,
    };
    let ghost contact_v = contact@;
    let mut out = JsonMap::new();
    let ghost p0 = Seq::<(Seq<char>, Json)>::empty();
    put_tracked(&mut out, "xarf_version", JsonValue::String(owned(SPEC_VERSION)), Ghost(p0));
    let ghost p1 = p0.push(("xarf_version"@, Json::Str("4.2.0"@)));
    let ghost idv = report_id@;
    put_tracked(&mut out, "report_id", JsonValue::String(report_id), Ghost(p1));
    let ghost p2 = p1.push(("report_id"@, Json::Str(idv)));
    let ts = match report.get("Date") {
        Some(d) => d.clone(),
        None => JsonValue::String(now.clone()),
    };
    let ghost tsv = ts@;
    put_tracked(&mut out, "timestamp", ts, Ghost(p2));
    let ghost p3 = p2.push(("timestamp"@, tsv));
    put_tracked(&mut out, "reporter", contact.clone(), Ghost(p3));
    let ghost p4 = p3.push(("reporter"@, contact_v));
    put_tracked(&mut out, "sender", contact, Ghost(p4));
    let ghost p5 = p4.push(("sender"@, contact_v));
    let ghost sidv = source_identifier@;
    put_tracked(&mut out, "source_identifier", JsonValue::String(source_identifier), Ghost(p5));
    let ghost p6 = p5.push(("source_identifier"@, Json::Str(sidv)));
    put_tracked(&mut out, "category", JsonValue::String(owned(category)), Ghost(p6));
    let ghost p7 = p6.push(("category"@, Json::Str(category@)));
    put_tracked(&mut out, "type", JsonValue::String(owned(v4_type)), Ghost(p7));
    let ghost p8 = p7.push(("type"@, Json::Str(v4_type@)));
    put_tracked(&mut out, "legacy_version", JsonValue::String(owned("3")), Ghost(p8));
    let ghost p9 = p8.push(("legacy_version"@, Json::Str("3"@)));
    let mut internal = JsonMap::new();
    let ghost rtv = report_type@;
    put_tracked(
        &mut internal,
        "original_report_type",
        JsonValue::String(report_type),
        Ghost(Seq::empty()),
    );
    let ghost i1 = Seq::<(Seq<char>, Json)>::empty().push(("original_report_type"@, Json::Str(rtv)));
    let ghost nowv = now@;
    put_tracked(&mut internal, "converted_at", JsonValue::String(now), Ghost(i1));
    let ghost iv = Json::Object(internal@);
    put_tracked(&mut out, "_internal", JsonValue::Object(internal), Ghost(p9));
    let ghost p10 = p9.push(("_internal"@, iv));
    put_opt(&mut out, "description", clone_opt_str_value(report.get_str("AttackDescription")), Ghost(p10));
    let ghost p11 = p10 + opt_pair("description"@, opt_str_json(obj_get_str(report@, "AttackDescription"@)));
    let method = match report.get_obj("AdditionalInfo") {
        Some(ai) => ai.get_str("DetectionMethod"),
        None => None,
    };
    put_opt(&mut out, "evidence_source", clone_opt_str_value(method), Ghost(p11));
    let ghost p12 = p11 + opt_pair("evidence_source"@, opt_str_json(detection_method(report@)));
    let ev_value = match evidence {
        Some(items) => Some(JsonValue::Array(items)),
        None => None,
    };
    put_opt(&mut out, "evidence", ev_value, Ghost(p12));
    let ghost p13 = p12 + opt_pair(
        "evidence"@,
        match ev {
            Some(items) => Some(Json::Array(items)),
            None => None,
        },
    );
    proof {
        assert(i1.push(("converted_at"@, Json::Str(nowv))) =~= seq![
            ("original_report_type"@, Json::Str(rtv)),
            ("converted_at"@, Json::Str(nowv)),
        ]);
        assert(p13 =~= v3_core_pairs(report@, rtv, category@, v4_type@, sidv, contact_v, idv, nowv, ev));
    }
    add_category_fields(&mut out, category, v4_type, report, Ghost(p13))?;
    Ok(JsonValue::Object(out))
}

/// Convert a v3 report to a v4 object. The report id is a fresh random
/// UUID and the conversion time the current time; the outcome is the
/// conversion's for some such id and time.
pub fn convert_v3_to_v4(v3_data: JsonValue, conversion_warnings: &mut Vec<String>) -> (r: Result<
    JsonValue,
    XarfError,
>)
    ensures
        exists|id: Seq<char>, now: Seq<char>|
            {
                &&& uuid_text(id)
                &&& utc_time_text(now)
                &&& (r is Ok ==> attachment_digests_full(v3_data@))
                &&& strings_view(final(conversion_warnings)@) == strings_view(
                    old(conversion_warnings)@,
                ) + v3_conversion(v3_data@, id, now).1
                &&& match r {
                    Ok(j) => v3_conversion(v3_data@, id, now).0 == Ok::<Json, Seq<char>>(j@),
                    Err(e) => exists|m: Seq<char>|
                        v3_conversion(v3_data@, id, now).0 == Err::<Json, Seq<char>>(m) && e@
                            == crate::error::XarfErrorModel::V3Conversion(m),
                }
            },
{
    let id = fresh_uuid();
    let now = utc_now_rfc3339();
    let ghost idv = id@;
    let ghost nowv = now@;
    let r = convert_v3_to_v4_at(v3_data, id, now, conversion_warnings);
    assert(strings_view(conversion_warnings@) == strings_view(old(conversion_warnings)@)
        + v3_conversion(v3_data@, idv, nowv).1);
    r
}

} // verus!
