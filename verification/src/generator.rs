//! Report generation: `ReportBuilder`, `create_report`, `create_evidence`.

use vstd::prelude::*;

use crate::crypto::{base64_encode, base64_std, md5, md5_of, sha1, sha1_of, sha256, sha256_of, sha512, sha512_of};
use crate::error::{errors_view, Issue, ValidationError, XarfError, XarfErrorModel};
use crate::fresh::{fresh_uuid, utc_now_rfc3339, utc_time_text, uuid_text};
use crate::hex::{encode, hex_lower, lemma_hex_len};
use crate::json::{
    keys_sorted, entries_view, json_view, json_view_seq, lemma_entries_view, lemma_view_seq, obj_from, obj_insert,
    opt_pair, Json, JsonMap, JsonNumber, JsonValue, Num,
};
use crate::model::{
    contact_json, evidence_array, evidence_from_json, evidence_json, evidence_list_view,
    opt_num_json, opt_obj_json, opt_port_json, opt_str_json, opt_str_view, put_opt, put_tracked,
    string_array, strings_view, Contact, ContactModel, Evidence, EvidenceModel,
};
use crate::parser::{parse_reply_view, parse_value, parse_value_reply, ParseOptions, ParseResult};
use crate::schemas::{string_items, SchemaRegistry};
use crate::text::{concat, owned, str_eq};

verus! {

/// The XARF specification version this crate targets.
pub const SPEC_VERSION: &'static str = "4.2.0";

/// The digest algorithms evidence can be hashed with.
#[derive(Debug, Clone, Copy, PartialEq, Eq, Structural)]
pub enum HashAlgorithm {
    Sha256,
    Sha512,
    Sha1,
    Md5,
}

impl Default for HashAlgorithm {
    fn default() -> (r: Self)
        ensures
            r == HashAlgorithm::Sha256,
    {
        HashAlgorithm::Sha256
    }
}

/// The label of an algorithm in a `hash` value.
pub open spec fn algorithm_label(a: HashAlgorithm) -> Seq<char> {
    match a {
        HashAlgorithm::Sha256 => "sha256"@,
        HashAlgorithm::Sha512 => "sha512"@,
        HashAlgorithm::Sha1 => "sha1"@,
        HashAlgorithm::Md5 => "md5"@,
    }
}

/// The digest of `data` under `a`.
pub open spec fn digest_of(a: HashAlgorithm, data: Seq<u8>) -> Seq<u8> {
    match a {
        HashAlgorithm::Sha256 => sha256_of(data),
        HashAlgorithm::Sha512 => sha512_of(data),
        HashAlgorithm::Sha1 => sha1_of(data),
        HashAlgorithm::Md5 => md5_of(data),
    }
}

/// The length in bytes of a digest: 32 for SHA-256, 64 for SHA-512, 20
/// for SHA-1, 16 for MD5.
pub open spec fn digest_len(a: HashAlgorithm) -> nat {
    match a {
        HashAlgorithm::Sha256 => 32,
        HashAlgorithm::Sha512 => 64,
        HashAlgorithm::Sha1 => 20,
        HashAlgorithm::Md5 => 16,
    }
}

impl HashAlgorithm {
    /// The label written before the hex digest.
    pub fn prefix(self) -> (r: &'static str)
        ensures
            r@ == algorithm_label(self),
    {
        match self {
            HashAlgorithm::Sha256 => "sha256",
            HashAlgorithm::Sha512 => "sha512",
            HashAlgorithm::Sha1 => "sha1",
            HashAlgorithm::Md5 => "md5",
        }
    }
}

/// Options of [`create_evidence_with_options`].
#[derive(Debug)]
pub struct EvidenceOptions {
    pub description: Option<String>,
    pub hash_algorithm: HashAlgorithm,
}

impl Default for EvidenceOptions {
    fn default() -> (r: Self)
        ensures
            r.description is None,
            r.hash_algorithm == HashAlgorithm::Sha256,
    {
        EvidenceOptions { description: None, hash_algorithm: HashAlgorithm::Sha256 }
    }
}

/// The evidence item for `payload`: the payload in standard base64, its
/// digest as `label:hex`, and its size in bytes.
pub open spec fn evidence_for(
    content_type: Seq<char>,
    payload: Seq<u8>,
    description: Option<Seq<char>>,
    a: HashAlgorithm,
) -> EvidenceModel {
    EvidenceModel {
        content_type,
        payload: base64_std(payload),
        description,
        hash: Some(algorithm_label(a) + ":"@ + hex_lower(digest_of(a, payload))),
        size: Some(payload.len() as u64),
    }
}

/// Lower-case hex of `bytes`.
pub fn hex(bytes: &[u8]) -> (r: String)
    ensures
        r@ == hex_lower(bytes@),
{
    encode(bytes)
}

/// Evidence for `payload`, hashed with SHA-256 and without description.
pub fn create_evidence(content_type: &str, payload: &[u8]) -> (r: Evidence)
    ensures
        r@ == evidence_for(content_type@, payload@, None, HashAlgorithm::Sha256),
        hex_lower(digest_of(HashAlgorithm::Sha256, payload@)).len() == 64,
{
    create_evidence_with_options(content_type, payload, EvidenceOptions::default())
}

/// Evidence for `payload` with the given description and hash algorithm.
pub fn create_evidence_with_options(content_type: &str, payload: &[u8], options: EvidenceOptions) -> (r:
    Evidence)
    ensures
        r@ == evidence_for(
            content_type@,
            payload@,
            opt_str_view(options.description),
            options.hash_algorithm,
        ),
        digest_of(options.hash_algorithm, payload@).len() == digest_len(options.hash_algorithm),
        hex_lower(digest_of(options.hash_algorithm, payload@)).len() == 2 * digest_len(
            options.hash_algorithm,
        ),
{
    let digest = match options.hash_algorithm {
        HashAlgorithm::Sha256 => sha256(payload),
        HashAlgorithm::Sha512 => sha512(payload),
        HashAlgorithm::Sha1 => sha1(payload),
        HashAlgorithm::Md5 => md5(payload),
    };
    proof {
        lemma_hex_len(digest@);
    }
    let hex_digest = hex(digest.as_slice());
    let head = concat(options.hash_algorithm.prefix(), ":");
    let hash = concat(head.as_str(), hex_digest.as_str());
    let encoded = base64_encode(payload);
    Evidence {
        content_type: owned(content_type),
        payload: encoded,
        description: options.description,
        hash: Some(hash),
        size: Some(payload.len() as u64),
    }
}

// ---------------------------------------------------------------------------
// ReportBuilder
// ---------------------------------------------------------------------------

/// Builder for reports: the core fields, optional ones, and category
/// extras; `build` fills in the metadata left unset and validates.
#[derive(Debug)]
pub struct ReportBuilder {
    category: String,
    type_: String,
    source_identifier: String,
    reporter: Option<Contact>,
    sender: Option<Contact>,
    timestamp: Option<String>,
    report_id: Option<String>,
    xarf_version: Option<String>,
    evidence_source: Option<String>,
    evidence: Vec<Evidence>,
    tags: Vec<String>,
    confidence: Option<JsonNumber>,
    description: Option<String>,
    source_port: Option<u16>,
    internal: Option<JsonMap>,
    extras: JsonMap,
}

/// The model of a [`ReportBuilder`].
pub ghost struct BuilderModel {
    pub category: Seq<char>,
    pub type_: Seq<char>,
    pub source_identifier: Seq<char>,
    pub reporter: Option<ContactModel>,
    pub sender: Option<ContactModel>,
    pub timestamp: Option<Seq<char>>,
    pub report_id: Option<Seq<char>>,
    pub xarf_version: Option<Seq<char>>,
    pub evidence_source: Option<Seq<char>>,
    pub evidence: Seq<EvidenceModel>,
    pub tags: Seq<Seq<char>>,
    pub confidence: Option<Num>,
    pub description: Option<Seq<char>>,
    pub source_port: Option<u16>,
    pub internal: Option<Seq<(Seq<char>, Json)>>,
    pub extras: Seq<(Seq<char>, Json)>,
}

impl ReportBuilder {
    pub closed spec fn model(self) -> BuilderModel {
        BuilderModel {
            category: self.category@,
            type_: self.type_@,
            source_identifier: self.source_identifier@,
            reporter: match self.reporter {
                Some(c) => Some(c@),
                None => None,
            },
            sender: match self.sender {
                Some(c) => Some(c@),
                None => None,
            },
            timestamp: opt_str_view(self.timestamp),
            report_id: opt_str_view(self.report_id),
            xarf_version: opt_str_view(self.xarf_version),
            evidence_source: opt_str_view(self.evidence_source),
            evidence: evidence_list_view(self.evidence@),
            tags: strings_view(self.tags@),
            confidence: match self.confidence {
                Some(n) => Some(n@),
                None => None,
            },
            description: opt_str_view(self.description),
            source_port: self.source_port,
            internal: match self.internal {
                Some(m) => Some(m@),
                None => None,
            },
            extras: self.extras@,
        }
    }
}

impl View for ReportBuilder {
    type V = BuilderModel;

    open spec fn view(&self) -> BuilderModel {
        self.model()
    }
}

/// The members of the report object a builder assembles, in the order they
/// are written; the extras come last and win over a core member.
pub open spec fn builder_pairs(
    b: BuilderModel,
    reporter: ContactModel,
    sender: ContactModel,
    timestamp: Seq<char>,
    report_id: Seq<char>,
    xarf_version: Seq<char>,
) -> Seq<(Seq<char>, Json)> {
    builder_core_pairs(b, reporter, sender, timestamp, report_id, xarf_version)
        + builder_optional_pairs(b) + b.extras
}

/// The core members a builder writes.
pub open spec fn builder_core_pairs(
    b: BuilderModel,
    reporter: ContactModel,
    sender: ContactModel,
    timestamp: Seq<char>,
    report_id: Seq<char>,
    xarf_version: Seq<char>,
) -> Seq<(Seq<char>, Json)> {
    seq![
        ("xarf_version"@, Json::Str(xarf_version)),
        ("report_id"@, Json::Str(report_id)),
        ("timestamp"@, Json::Str(timestamp)),
        ("reporter"@, contact_json(reporter)),
        ("sender"@, contact_json(sender)),
        ("source_identifier"@, Json::Str(b.source_identifier)),
        ("category"@, Json::Str(b.category)),
        ("type"@, Json::Str(b.type_)),
    ]
}

/// The evidence items as JSON.
pub open spec fn evidence_values(v: Seq<EvidenceModel>) -> Seq<Json> {
    v.map_values(|e: EvidenceModel| evidence_json(e))
}

/// The evidence member, when there is evidence.
pub open spec fn opt_evidence_values(v: Seq<EvidenceModel>) -> Option<Json> {
    if v.len() > 0 {
        Some(Json::Array(evidence_values(v)))
    } else {
        None
    }
}

/// The tags as JSON.
pub open spec fn tag_values(v: Seq<Seq<char>>) -> Seq<Json> {
    v.map_values(|t: Seq<char>| Json::Str(t))
}

/// The tags member, when there are tags.
pub open spec fn opt_tag_values(v: Seq<Seq<char>>) -> Option<Json> {
    if v.len() > 0 {
        Some(Json::Array(tag_values(v)))
    } else {
        None
    }
}

pub open spec fn optional_head_pairs(b: BuilderModel) -> Seq<(Seq<char>, Json)> {
    opt_pair("source_port"@, opt_port_json(b.source_port)) + opt_pair(
        "evidence_source"@,
        opt_str_json(b.evidence_source),
    ) + opt_pair("evidence"@, opt_evidence_values(b.evidence))
}

pub open spec fn optional_tail_pairs(b: BuilderModel) -> Seq<(Seq<char>, Json)> {
    opt_pair("tags"@, opt_tag_values(b.tags)) + opt_pair("confidence"@, opt_num_json(b.confidence))
        + opt_pair("description"@, opt_str_json(b.description)) + opt_pair(
        "_internal"@,
        opt_obj_json(b.internal),
    )
}

/// The optional members a builder writes when they are set (evidence and
/// tags when non-empty).
pub open spec fn builder_optional_pairs(b: BuilderModel) -> Seq<(Seq<char>, Json)> {
    optional_head_pairs(b) + optional_tail_pairs(b)
}

/// The version a builder writes: its own, or [`SPEC_VERSION`].
pub open spec fn version_or_default(v: Option<Seq<char>>) -> Seq<char> {
    match v {
        Some(x) => x,
        None => "4.2.0"@,
    }
}

/// The document a builder assembles with the given contacts and metadata.
pub open spec fn built_document(
    b: BuilderModel,
    reporter: ContactModel,
    sender: ContactModel,
    timestamp: Seq<char>,
    report_id: Seq<char>,
) -> Json {
    Json::Object(
        obj_from(
            builder_pairs(b, reporter, sender, timestamp, report_id, version_or_default(b.xarf_version)),
        ),
    )
}

/// What building gives: the reply for the assembled document, the
/// timestamp and report id defaulting to some current UTC time (text ending
/// in `Z`) and some fresh hyphenated UUID, the version to
/// [`SPEC_VERSION`]; or the error for a missing contact.
pub open spec fn build_reply(
    reg: crate::schemas::RegistryModel,
    b: BuilderModel,
    options: ParseOptions,
    r: Result<crate::parser::ParseResultModel, XarfErrorModel>,
) -> bool {
    match (b.reporter, b.sender) {
        (None, _) => r == Err::<crate::parser::ParseResultModel, XarfErrorModel>(
            XarfErrorModel::Validation(seq![("reporter"@, "reporter contact is required"@)]),
        ),
        (Some(_), None) => r == Err::<crate::parser::ParseResultModel, XarfErrorModel>(
            XarfErrorModel::Validation(seq![("sender"@, "sender contact is required"@)]),
        ),
        (Some(rep), Some(snd)) => exists|ts: Seq<char>, id: Seq<char>|
            {
                &&& (b.timestamp matches Some(t) ==> ts == t)
                &&& (b.timestamp is None ==> utc_time_text(ts))
                &&& (b.report_id matches Some(i) ==> id == i)
                &&& (b.report_id is None ==> uuid_text(id))
                &&& parse_value_reply(
                    reg,
                    #[trigger] built_document(b, rep, snd, ts, id),
                    options,
                    r,
                )
            },
    }
}

impl ReportBuilder {
    /// A builder for a report of `category`/`type_` about `source_identifier`.
    pub fn new(category: &str, type_: &str, source_identifier: &str) -> (r: Self)
        ensures
            r@ == (BuilderModel {
                category: category@,
                type_: type_@,
                source_identifier: source_identifier@,
                reporter: None,
                sender: None,
                timestamp: None,
                report_id: None,
                xarf_version: None,
                evidence_source: None,
                evidence: Seq::empty(),
                tags: Seq::empty(),
                confidence: None,
                description: None,
                source_port: None,
                internal: None,
                extras: Seq::empty(),
            }),
    {
        let r = ReportBuilder {
            category: owned(category),
            type_: owned(type_),
            source_identifier: owned(source_identifier),
            reporter: None,
            sender: None,
            timestamp: None,
            report_id: None,
            xarf_version: None,
            evidence_source: None,
            evidence: Vec::new(),
            tags: Vec::new(),
            confidence: None,
            description: None,
            source_port: None,
            internal: None,
            extras: JsonMap::new(),
        };
        assert(r@.evidence =~= Seq::<EvidenceModel>::empty());
        assert(r@.tags =~= Seq::<Seq<char>>::empty());
        r
    }

    pub fn reporter(self, contact: Contact) -> (r: Self)
        ensures
            r@ == (BuilderModel { reporter: Some(contact@), ..self@ }),
    {
        let mut b = self;
        b.reporter = Some(contact);
        b
    }

    pub fn sender(self, contact: Contact) -> (r: Self)
        ensures
            r@ == (BuilderModel { sender: Some(contact@), ..self@ }),
    {
        let mut b = self;
        b.sender = Some(contact);
        b
    }

    pub fn timestamp(self, ts: &str) -> (r: Self)
        ensures
            r@ == (BuilderModel { timestamp: Some(ts@), ..self@ }),
    {
        let mut b = self;
        b.timestamp = Some(owned(ts));
        b
    }

    pub fn report_id(self, id: &str) -> (r: Self)
        ensures
            r@ == (BuilderModel { report_id: Some(id@), ..self@ }),
    {
        let mut b = self;
        b.report_id = Some(owned(id));
        b
    }

    pub fn xarf_version(self, v: &str) -> (r: Self)
        ensures
            r@ == (BuilderModel { xarf_version: Some(v@), ..self@ }),
    {
        let mut b = self;
        b.xarf_version = Some(owned(v));
        b
    }

    pub fn evidence_source(self, s: &str) -> (r: Self)
        ensures
            r@ == (BuilderModel { evidence_source: Some(s@), ..self@ }),
    {
        let mut b = self;
        b.evidence_source = Some(owned(s));
        b
    }

    pub fn add_evidence(self, evidence: Evidence) -> (r: Self)
        ensures
            r@ == (BuilderModel { evidence: self@.evidence.push(evidence@), ..self@ }),
    {
        let mut b = self;
        let ghost e0 = b.evidence@;
        let ghost ev = evidence@;
        b.evidence.push(evidence);
        assert(evidence_list_view(b.evidence@) =~= evidence_list_view(e0).push(ev));
        b
    }

    pub fn tags(self, tags: Vec<String>) -> (r: Self)
        ensures
            r@ == (BuilderModel { tags: strings_view(tags@), ..self@ }),
    {
        let mut b = self;
        b.tags = tags;
        b
    }

    pub fn confidence(self, c: JsonNumber) -> (r: Self)
        ensures
            r@ == (BuilderModel { confidence: Some(c@), ..self@ }),
    {
        let mut b = self;
        b.confidence = Some(c);
        b
    }

    pub fn description(self, d: &str) -> (r: Self)
        ensures
            r@ == (BuilderModel { description: Some(d@), ..self@ }),
    {
        let mut b = self;
        b.description = Some(owned(d));
        b
    }

    pub fn source_port(self, p: u16) -> (r: Self)
        ensures
            r@ == (BuilderModel { source_port: Some(p), ..self@ }),
    {
        let mut b = self;
        b.source_port = Some(p);
        b
    }

    /// Set the extra field `key`, replacing an earlier value.
    pub fn extra(self, key: String, value: JsonValue) -> (r: Self)
        ensures
            r@ == (BuilderModel { extras: obj_insert(self@.extras, key@, value@), ..self@ }),
    {
        let mut b = self;
        b.extras.insert(key, value);
        b
    }

    pub fn internal(self, internal: JsonMap) -> (r: Self)
        ensures
            r@ == (BuilderModel { internal: Some(internal@), ..self@ }),
    {
        let mut b = self;
        b.internal = Some(internal);
        b
    }
}

/// Insert every member of `extra`, in order, tracking the pairs inserted.
fn put_all(m: &mut JsonMap, extra: &JsonMap, Ghost(pairs): Ghost<Seq<(Seq<char>, Json)>>)
    requires
        old(m)@ == obj_from(pairs),
    ensures
        final(m)@ == obj_from(pairs + extra@),
{
    let xs = extra.entries();
    let ghost xv = extra@;
    proof {
        lemma_entries_view(xs@);
    }
    let n = xs.len();
    let mut i: usize = 0;
    assert(pairs + xv.take(0) =~= pairs);
    while i < n
        invariant
            n == xs@.len(),
            xv == extra@,
            xv == entries_view(xs@),
            xv.len() == n,
            forall|j: int| 0 <= j < n ==> #[trigger] xv[j] == (xs@[j].0@, json_view(xs@[j].1)),
            i <= n,
            m@ == obj_from(pairs + xv.take(i as int)),
        decreases n - i,
    {
        let ghost before = pairs + xv.take(i as int);
        put_tracked(m, xs[i].0.as_str(), xs[i].1.clone(), Ghost(before));
        assert(before.push(xv[i as int]) =~= pairs + xv.take(i + 1));
        i = i + 1;
    }
    assert(xv.take(n as int) =~= xv);
}

impl ReportBuilder {
    /// The core members, written into a new object.
    fn assemble_core(&self, reporter: &Contact, sender: &Contact, timestamp: &str, report_id: &str) -> (r:
        JsonMap)
        ensures
            r@ == obj_from(
                builder_core_pairs(
                    self@,
                    reporter@,
                    sender@,
                    timestamp@,
                    report_id@,
                    version_or_default(self@.xarf_version),
                ),
            ),
    {
        let ghost b = self@;
        let version = match &self.xarf_version {
            Some(v) => v.clone(),
            None => owned(SPEC_VERSION),
        };
        let mut m = JsonMap::new();
        let ghost p0 = Seq::<(Seq<char>, Json)>::empty();
        put_tracked(&mut m, "xarf_version", JsonValue::String(version), Ghost(p0));
        let ghost p1 = p0.push(("xarf_version"@, Json::Str(version_or_default(b.xarf_version))));
        put_tracked(&mut m, "report_id", JsonValue::String(owned(report_id)), Ghost(p1));
        let ghost p2 = p1.push(("report_id"@, Json::Str(report_id@)));
        put_tracked(&mut m, "timestamp", JsonValue::String(owned(timestamp)), Ghost(p2));
        let ghost p3 = p2.push(("timestamp"@, Json::Str(timestamp@)));
        put_tracked(&mut m, "reporter", reporter.to_json(), Ghost(p3));
        let ghost p4 = p3.push(("reporter"@, contact_json(reporter@)));
        put_tracked(&mut m, "sender", sender.to_json(), Ghost(p4));
        let ghost p5 = p4.push(("sender"@, contact_json(sender@)));
        put_tracked(
            &mut m,
            "source_identifier",
            JsonValue::String(self.source_identifier.clone()),
            Ghost(p5),
        );
        let ghost p6 = p5.push(("source_identifier"@, Json::Str(b.source_identifier)));
        put_tracked(&mut m, "category", JsonValue::String(self.category.clone()), Ghost(p6));
        let ghost p7 = p6.push(("category"@, Json::Str(b.category)));
        put_tracked(&mut m, "type", JsonValue::String(self.type_.clone()), Ghost(p7));
        let ghost p8 = p7.push(("type"@, Json::Str(b.type_)));
        assert(p8 =~= builder_core_pairs(
            b,
            reporter@,
            sender@,
            timestamp@,
            report_id@,
            version_or_default(b.xarf_version),
        ));
        m
    }

    /// Write the source port, evidence source and evidence when set.
    fn assemble_optional_head(&self, m: &mut JsonMap, Ghost(p8): Ghost<Seq<(Seq<char>, Json)>>)
        requires
            old(m)@ == obj_from(p8),
        ensures
            final(m)@ == obj_from(p8 + optional_head_pairs(self@)),
    {
        let ghost b = self@;
        let port = match self.source_port {
            Some(p) => Some(JsonValue::Number(JsonNumber::PosInt(p as u64))),
            None => None,
        };
        put_opt(m, "source_port", port, Ghost(p8));
        let ghost p9 = p8 + opt_pair("source_port"@, opt_port_json(b.source_port));
        let es = match &self.evidence_source {
            Some(s) => Some(JsonValue::String(s.clone())),
            None => None,
        };
        put_opt(m, "evidence_source", es, Ghost(p9));
        let ghost p10 = p9 + opt_pair("evidence_source"@, opt_str_json(b.evidence_source));
        let ev = if self.evidence.len() > 0 {
            let a = evidence_array(&self.evidence);
            assert(a@ == Json::Array(evidence_values(b.evidence)));
            Some(a)
        } else {
            None
        };
        put_opt(m, "evidence", ev, Ghost(p10));
        assert(p10 + opt_pair("evidence"@, opt_evidence_values(b.evidence)) =~= p8 + optional_head_pairs(b));
    }

    /// Write the tags, confidence, description and internal block when set.
    fn assemble_optional_tail(&self, m: &mut JsonMap, Ghost(p): Ghost<Seq<(Seq<char>, Json)>>)
        requires
            old(m)@ == obj_from(p),
        ensures
            final(m)@ == obj_from(p + optional_tail_pairs(self@)),
    {
        let ghost b = self@;
        let tags = if self.tags.len() > 0 {
            let a = string_array(&self.tags);
            assert(a@ == Json::Array(tag_values(b.tags)));
            Some(a)
        } else {
            None
        };
        put_opt(m, "tags", tags, Ghost(p));
        let ghost p12 = p + opt_pair("tags"@, opt_tag_values(b.tags));
        let conf = match &self.confidence {
            Some(n) => Some(JsonValue::Number(n.clone())),
            None => None,
        };
        put_opt(m, "confidence", conf, Ghost(p12));
        let ghost p13 = p12 + opt_pair("confidence"@, opt_num_json(b.confidence));
        let desc = match &self.description {
            Some(s) => Some(JsonValue::String(s.clone())),
            None => None,
        };
        put_opt(m, "description", desc, Ghost(p13));
        let ghost p14 = p13 + opt_pair("description"@, opt_str_json(b.description));
        let internal = match &self.internal {
            Some(i) => Some(JsonValue::Object(i.clone())),
            None => None,
        };
        put_opt(m, "_internal", internal, Ghost(p14));
        assert(p14 + opt_pair("_internal"@, opt_obj_json(b.internal)) =~= p + optional_tail_pairs(b));
    }

    /// The report document with the given contacts and metadata.
    fn assemble(&self, reporter: &Contact, sender: &Contact, timestamp: &str, report_id: &str) -> (r:
        JsonMap)
        ensures
            r@ == obj_from(
                builder_pairs(
                    self@,
                    reporter@,
                    sender@,
                    timestamp@,
                    report_id@,
                    version_or_default(self@.xarf_version),
                ),
            ),
    {
        let ghost b = self@;
        let ghost core = builder_core_pairs(
            b,
            reporter@,
            sender@,
            timestamp@,
            report_id@,
            version_or_default(b.xarf_version),
        );
        let mut m = self.assemble_core(reporter, sender, timestamp, report_id);
        self.assemble_optional_head(&mut m, Ghost(core));
        self.assemble_optional_tail(&mut m, Ghost(core + optional_head_pairs(b)));
        assert(core + optional_head_pairs(b) + optional_tail_pairs(b) =~= core + builder_optional_pairs(b));
        put_all(&mut m, &self.extras, Ghost(core + builder_optional_pairs(b)));
        m
    }

    /// Build and validate with the default options.
    pub fn build(self, reg: &SchemaRegistry) -> (r: Result<ParseResult, XarfError>)
        ensures
            build_reply(
                reg@,
                self@,
                ParseOptions { strict: false, show_missing_optional: false },
                parse_reply_view(r),
            ),
    {
        self.build_with_options(reg, ParseOptions::default())
    }

    /// Build and validate: a missing reporter or sender is an error; an
    /// unset timestamp becomes the current time, an unset report id a fresh
    /// UUID, an unset version [`SPEC_VERSION`]; the document is then parsed
    /// as [`parse_value`] does.
    pub fn build_with_options(self, reg: &SchemaRegistry, options: ParseOptions) -> (r: Result<
        ParseResult,
        XarfError,
    >)
        ensures
            build_reply(reg@, self@, options, parse_reply_view(r)),
    {
        let reporter = match &self.reporter {
            Some(c) => c,
            None => {
                let mut issues: Vec<ValidationError> = Vec::new();
                issues.push(
                    ValidationError::new(owned("reporter"), owned("reporter contact is required")),
                );
                assert(errors_view(issues@) =~= seq![("reporter"@, "reporter contact is required"@)]);
                return Err(XarfError::Validation(issues));
            },
        };
        let sender = match &self.sender {
            Some(c) => c,
            None => {
                let mut issues: Vec<ValidationError> = Vec::new();
                issues.push(ValidationError::new(owned("sender"), owned("sender contact is required")));
                assert(errors_view(issues@) =~= seq![("sender"@, "sender contact is required"@)]);
                return Err(XarfError::Validation(issues));
            },
        };
        let timestamp = match &self.timestamp {
            Some(t) => t.clone(),
            None => utc_now_rfc3339(),
        };
        let report_id = match &self.report_id {
            Some(i) => i.clone(),
            None => fresh_uuid(),
        };
        let data = self.assemble(reporter, sender, timestamp.as_str(), report_id.as_str());
        let r = parse_value(reg, JsonValue::Object(data), options);
        assert(parse_value_reply(
            reg@,
            built_document(self@, reporter@, sender@, timestamp@, report_id@),
            options,
            parse_reply_view(r),
        ));
        r
    }
}

// ---------------------------------------------------------------------------
// create_report
// ---------------------------------------------------------------------------

/// Options of [`create_report`].
#[derive(Debug, Clone, Copy)]
pub struct CreateReportOptions {
    pub strict: bool,
    pub show_missing_optional: bool,
}

impl Default for CreateReportOptions {
    fn default() -> (r: Self)
        ensures
            !r.strict && !r.show_missing_optional,
    {
        CreateReportOptions { strict: false, show_missing_optional: false }
    }
}

impl From<CreateReportOptions> for ParseOptions {
    fn from(o: CreateReportOptions) -> (r: ParseOptions) {
        ParseOptions { strict: o.strict, show_missing_optional: o.show_missing_optional }
    }
}

impl vstd::std_specs::convert::FromSpecImpl<CreateReportOptions> for ParseOptions {
    open spec fn obeys_from_spec() -> bool {
        true
    }

    open spec fn from_spec(o: CreateReportOptions) -> ParseOptions {
        ParseOptions { strict: o.strict, show_missing_optional: o.show_missing_optional }
    }
}

/// Evidence items added to the builder in order until one does not read as
/// evidence; then the whole member goes to the extras instead (the items
/// added before it stay).
pub open spec fn route_evidence(b: BuilderModel, items: Seq<Json>, whole: Json) -> BuilderModel
    decreases items.len(),
{
    if items.len() == 0 {
        b
    } else {
        match evidence_from_json(items[0]) {
            Ok(e) => route_evidence(
                BuilderModel { evidence: b.evidence.push(e), ..b },
                items.drop_first(),
                whole,
            ),
            Err(_) => BuilderModel { extras: obj_insert(b.extras, "evidence"@, whole), ..b },
        }
    }
}

/// The builder after the member `k: v` of the extras map is routed: the
/// well-known keys go to their setters (a value of the wrong shape being
/// dropped), every other key to the extras.
pub open spec fn route_member(b: BuilderModel, k: Seq<char>, v: Json) -> BuilderModel {
    if k == "timestamp"@ {
        match v {
            Json::Str(s) => BuilderModel { timestamp: Some(s), ..b },
            _ => b,
        }
    } else if k == "report_id"@ {
        match v {
            Json::Str(s) => BuilderModel { report_id: Some(s), ..b },
            _ => b,
        }
    } else if k == "xarf_version"@ {
        match v {
            Json::Str(s) => BuilderModel { xarf_version: Some(s), ..b },
            _ => b,
        }
    } else if k == "evidence_source"@ {
        match v {
            Json::Str(s) => BuilderModel { evidence_source: Some(s), ..b },
            _ => b,
        }
    } else if k == "evidence"@ {
        match v {
            Json::Array(items) => route_evidence(b, items, v),
            _ => b,
        }
    } else if k == "tags"@ {
        match v {
            Json::Array(items) => BuilderModel { tags: string_items(items), ..b },
            _ => b,
        }
    } else if k == "confidence"@ {
        match v {
            Json::Number(n) => BuilderModel { confidence: Some(n), ..b },
            _ => b,
        }
    } else if k == "description"@ {
        match v {
            Json::Str(s) => BuilderModel { description: Some(s), ..b },
            _ => b,
        }
    } else if k == "source_port"@ {
        match v {
            Json::Number(Num::PosInt(u)) => if u <= 65535 {
                BuilderModel { source_port: Some(u as u16), ..b }
            } else {
                b
            },
            _ => b,
        }
    } else if k == "_internal"@ {
        match v {
            Json::Object(m) => BuilderModel { internal: Some(m), ..b },
            _ => b,
        }
    } else {
        BuilderModel { extras: obj_insert(b.extras, k, v), ..b }
    }
}

/// The builder after every member of `es` is routed, in order.
pub open spec fn route_members(b: BuilderModel, es: Seq<(Seq<char>, Json)>) -> BuilderModel
    decreases es.len(),
{
    if es.len() == 0 {
        b
    } else {
        route_member(route_members(b, es.drop_last()), es.last().0, es.last().1)
    }
}

/// The builder [`create_report`] starts from.
pub open spec fn initial_builder(
    category: Seq<char>,
    type_: Seq<char>,
    source_identifier: Seq<char>,
    reporter: ContactModel,
    sender: ContactModel,
) -> BuilderModel {
    BuilderModel {
        category,
        type_,
        source_identifier,
        reporter: Some(reporter),
        sender: Some(sender),
        timestamp: None,
        report_id: None,
        xarf_version: None,
        evidence_source: None,
        evidence: Seq::empty(),
        tags: Seq::empty(),
        confidence: None,
        description: None,
        source_port: None,
        internal: None,
        extras: Seq::empty(),
    }
}

fn route_evidence_items(builder: ReportBuilder, items: &Vec<JsonValue>, whole: &JsonValue) -> (r:
    ReportBuilder)
    requires
        whole@ == Json::Array(json_view_seq(items@)),
    ensures
        r@ == route_evidence(builder@, json_view_seq(items@), whole@),
{
    let ghost iv = json_view_seq(items@);
    let ghost target = route_evidence(builder@, iv, whole@);
    let n = items.len();
    proof {
        lemma_view_seq(items@);
        assert(iv.skip(0) =~= iv);
    }
    let mut b = builder;
    let mut i: usize = 0;
    while i < n
        invariant
            n == items@.len(),
            target == route_evidence(builder@, iv, whole@),
            iv == json_view_seq(items@),
            iv.len() == n,
            forall|j: int| 0 <= j < n ==> #[trigger] iv[j] == json_view(items@[j]),
            i <= n,
            route_evidence(b@, iv.skip(i as int), whole@) == target,
        decreases n - i,
    {
        assert(iv.skip(i as int)[0] == iv[i as int]);
        assert(iv.skip(i as int).drop_first() =~= iv.skip(i + 1));
        match Evidence::from_json(&items[i]) {
            Ok(ev) => {
                b = b.add_evidence(ev);
            },
            Err(_) => {
                return b.extra(owned("evidence"), whole.clone());
            },
        }
        i = i + 1;
    }
    assert(iv.skip(n as int) =~= Seq::<Json>::empty());
    b
}

fn tag_list(items: &Vec<JsonValue>) -> (r: Vec<String>)
    ensures
        strings_view(r@) == string_items(json_view_seq(items@)),
{
    let ghost iv = json_view_seq(items@);
    let n = items.len();
    proof {
        lemma_view_seq(items@);
        assert(iv.take(0) =~= Seq::<Json>::empty());
    }
    let mut out: Vec<String> = Vec::new();
    assert(strings_view(out@) =~= Seq::<Seq<char>>::empty());
    let mut i: usize = 0;
    while i < n
        invariant
            n == items@.len(),
            iv == json_view_seq(items@),
            iv.len() == n,
            forall|j: int| 0 <= j < n ==> #[trigger] iv[j] == json_view(items@[j]),
            i <= n,
            strings_view(out@) == string_items(iv.take(i as int)),
        decreases n - i,
    {
        assert(iv.take(i + 1).drop_last() =~= iv.take(i as int));
        assert(iv.take(i + 1).last() == iv[i as int]);
        match &items[i] {
            JsonValue::String(s) => {
                out.push(s.clone());
                assert(strings_view(out@) =~= strings_view(out@.drop_last()).push(s@));
            },
            _ => {},
        }
        i = i + 1;
    }
    assert(iv.take(n as int) =~= iv);
    out
}

/// Route one member of the extras map.
fn route_one(b: ReportBuilder, k: &str, v: &JsonValue) -> (r: ReportBuilder)
    ensures
        r@ == route_member(b@, k@, v@),
{
    if str_eq(k, "timestamp") {
        match v {
            JsonValue::String(s) => b.timestamp(s.as_str()),
            _ => b,
        }
    } else if str_eq(k, "report_id") {
        match v {
            JsonValue::String(s) => b.report_id(s.as_str()),
            _ => b,
        }
    } else if str_eq(k, "xarf_version") {
        match v {
            JsonValue::String(s) => b.xarf_version(s.as_str()),
            _ => b,
        }
    } else if str_eq(k, "evidence_source") {
        match v {
            JsonValue::String(s) => b.evidence_source(s.as_str()),
            _ => b,
        }
    } else if str_eq(k, "evidence") {
        match v {
            JsonValue::Array(items) => route_evidence_items(b, items, v),
            _ => b,
        }
    } else if str_eq(k, "tags") {
        match v {
            JsonValue::Array(items) => b.tags(tag_list(items)),
            _ => b,
        }
    } else if str_eq(k, "confidence") {
        match v {
            JsonValue::Number(n) => b.confidence(n.clone()),
            _ => b,
        }
    } else if str_eq(k, "description") {
        match v {
            JsonValue::String(s) => b.description(s.as_str()),
            _ => b,
        }
    } else if str_eq(k, "source_port") {
        match v {
            JsonValue::Number(JsonNumber::PosInt(u)) => if *u <= 65535 {
                b.source_port(*u as u16)
            } else {
                b
            },
            _ => b,
        }
    } else if str_eq(k, "_internal") {
        match v {
            JsonValue::Object(m) => b.internal(m.clone()),
            _ => b,
        }
    } else {
        b.extra(owned(k), v.clone())
    }
}

/// Build and validate a report from its core fields and a map of the
/// rest: well-known keys go to the builder's setters, others are extras.
pub fn create_report(
    reg: &SchemaRegistry,
    category: &str,
    type_: &str,
    source_identifier: &str,
    reporter: Contact,
    sender: Contact,
    extras: JsonMap,
    options: CreateReportOptions,
) -> (r: Result<ParseResult, XarfError>)
    ensures
        build_reply(
            reg@,
            route_members(
                initial_builder(category@, type_@, source_identifier@, reporter@, sender@),
                extras@,
            ),
            ParseOptions { strict: options.strict, show_missing_optional: options.show_missing_optional },
            parse_reply_view(r),
        ),
        keys_sorted(extras@),
{
    let ghost b0 = initial_builder(category@, type_@, source_identifier@, reporter@, sender@);
    let mut b = ReportBuilder::new(category, type_, source_identifier).reporter(reporter).sender(sender);
    assert(b@ == b0);
    let es = extras.entries();
    let ghost xv = extras@;
    proof {
        lemma_entries_view(es@);
        assert(xv.take(0) =~= Seq::<(Seq<char>, Json)>::empty());
    }
    let n = es.len();
    let mut i: usize = 0;
    while i < n
        invariant
            n == es@.len(),
            xv == extras@,
            xv == entries_view(es@),
            xv.len() == n,
            forall|j: int| 0 <= j < n ==> #[trigger] xv[j] == (es@[j].0@, json_view(es@[j].1)),
            i <= n,
            b@ == route_members(b0, xv.take(i as int)),
        decreases n - i,
    {
        assert(xv.take(i + 1).drop_last() =~= xv.take(i as int));
        assert(xv.take(i + 1).last() == xv[i as int]);
        b = route_one(b, es[i].0.as_str(), &es[i].1);
        i = i + 1;
    }
    assert(xv.take(n as int) =~= xv);
    b.build_with_options(reg, ParseOptions::from(options))
}

/// Building with a reporter and a sender fails only when a schema does not
/// compile; in particular [`create_report`], which always supplies both,
/// never fails for a missing contact.
pub proof fn lemma_build_fails_only_on_schema(
    reg: crate::schemas::RegistryModel,
    b: BuilderModel,
    options: ParseOptions,
    r: Result<crate::parser::ParseResultModel, XarfErrorModel>,
)
    requires
        build_reply(reg, b, options, r),
        b.reporter is Some,
        b.sender is Some,
    ensures
        r matches Err(e) ==> e is Schema,
{
    let (ts, id) = choose|ts: Seq<char>, id: Seq<char>|
        {
            &&& (b.timestamp matches Some(t) ==> ts == t)
            &&& (b.timestamp is None ==> utc_time_text(ts))
            &&& (b.report_id matches Some(i) ==> id == i)
            &&& (b.report_id is None ==> uuid_text(id))
            &&& parse_value_reply(
                reg,
                #[trigger] built_document(b, b.reporter->Some_0, b.sender->Some_0, ts, id),
                options,
                r,
            )
        };
    crate::parser::lemma_parse_value_fails_only_on_schema(
        reg,
        built_document(b, b.reporter->Some_0, b.sender->Some_0, ts, id),
        options,
        r,
    );
}

} // verus!
