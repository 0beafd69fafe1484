//! The JSON decoder and the JSON Schema engine: `serde_json` reads text into
//! the library's document model, `jsonschema` checks an instance against a
//! schema. Everything here is trusted; the rest of the library works on what
//! these functions hand back.

use vstd::prelude::*;

use crate::json::{
    entries_view, json_view, json_view_seq, lemma_entries_view, lemma_view_seq, num_view, obj_from, Json,
    JsonMap, JsonNumber, JsonValue,
};

verus! {

#[verifier::external_type_specification]
#[verifier::external_body]
pub struct ExSerdeValue(serde_json::Value);

/// The document model turned into `serde_json`'s, member for member.
#[verifier::external_body]
fn to_serde(v: &JsonValue) -> serde_json::Value {
    match v {
        JsonValue::Null => serde_json::Value::Null,
        JsonValue::Bool(b) => serde_json::Value::Bool(*b),
        JsonValue::Number(n) => number_to_serde(n),
        JsonValue::String(s) => serde_json::Value::String(s.clone()),
        JsonValue::Array(a) => serde_json::Value::Array(a.iter().map(to_serde).collect()),
        JsonValue::Object(m) => serde_json::Value::Object(m.entries().iter().map(|(k, x)| (k.clone(), to_serde(x))).collect()),
    }
}

/// A number turned into `serde_json`'s; a decimal text that
/// `serde_json::Number` does not accept becomes `null`.
#[verifier::external_body]
fn number_to_serde(n: &JsonNumber) -> serde_json::Value {
    match n {
        JsonNumber::PosInt(u) => serde_json::Value::from(*u),
        JsonNumber::NegInt(i) => serde_json::Value::from(*i),
        JsonNumber::Float(t) => t.parse().map_or(serde_json::Value::Null, serde_json::Value::Number),
    }
}

/// A document as the decoder hands it over: each object as its members in
/// the decoder's order.
#[derive(Debug)]
pub enum RawJson {
    Null,
    Bool(bool),
    Number(JsonNumber),
    String(String),
    Array(Vec<RawJson>),
    Object(Vec<(String, RawJson)>),
}

/// A decoded document as a JSON value, objects keeping the decoder's member
/// list as it is.
pub open spec fn raw_view(v: RawJson) -> Json
    decreases v,
{
    match v {
        RawJson::Null => Json::Null,
        RawJson::Bool(b) => Json::Bool(b),
        RawJson::Number(n) => Json::Number(num_view(n)),
        RawJson::String(s) => Json::Str(s@),
        RawJson::Array(a) => Json::Array(raw_view_seq(a@)),
        RawJson::Object(es) => Json::Object(raw_entries_view(es@)),
    }
}

pub open spec fn raw_view_seq(s: Seq<RawJson>) -> Seq<Json>
    decreases s,
{
    if s.len() == 0 {
        Seq::empty()
    } else {
        seq![raw_view(s[0])] + raw_view_seq(s.drop_first())
    }
}

pub open spec fn raw_entries_view(s: Seq<(String, RawJson)>) -> Seq<(Seq<char>, Json)>
    decreases s,
{
    if s.len() == 0 {
        Seq::empty()
    } else {
        seq![(s[0].0@, raw_view(s[0].1))] + raw_entries_view(s.drop_first())
    }
}

proof fn lemma_raw_view_seq(s: Seq<RawJson>)
    ensures
        raw_view_seq(s).len() == s.len(),
        forall|i: int| 0 <= i < s.len() ==> #[trigger] raw_view_seq(s)[i] == raw_view(s[i]),
    decreases s.len(),
{
    if s.len() > 0 {
        lemma_raw_view_seq(s.drop_first());
        assert forall|i: int| 0 <= i < s.len() implies #[trigger] raw_view_seq(s)[i] == raw_view(s[i]) by {
            if i > 0 {
                assert(s.drop_first()[i - 1] == s[i]);
            }
        }
    }
}

proof fn lemma_raw_entries_view(s: Seq<(String, RawJson)>)
    ensures
        raw_entries_view(s).len() == s.len(),
        forall|i: int|
            0 <= i < s.len() ==> #[trigger] raw_entries_view(s)[i] == (s[i].0@, raw_view(s[i].1)),
    decreases s.len(),
{
    if s.len() > 0 {
        lemma_raw_entries_view(s.drop_first());
        assert forall|i: int| 0 <= i < s.len() implies #[trigger] raw_entries_view(s)[i] == (
            s[i].0@,
            raw_view(s[i].1),
        ) by {
            if i > 0 {
                assert(s.drop_first()[i - 1] == s[i]);
            }
        }
    }
}

/// The library's form of a decoded document: each object's members
/// inserted in the decoder's order, a later member of a name replacing an
/// earlier one, keys then ascending.
pub open spec fn normalized(j: Json) -> Json
    decreases j,
{
    match j {
        Json::Array(a) => Json::Array(normalized_seq(a)),
        Json::Object(es) => Json::Object(obj_from(normalized_entries(es))),
        _ => j,
    }
}

pub open spec fn normalized_seq(a: Seq<Json>) -> Seq<Json>
    decreases a,
{
    if a.len() == 0 {
        a
    } else {
        seq![normalized(a[0])] + normalized_seq(a.drop_first())
    }
}

pub open spec fn normalized_entries(es: Seq<(Seq<char>, Json)>) -> Seq<(Seq<char>, Json)>
    decreases es,
{
    if es.len() == 0 {
        es
    } else {
        seq![(es[0].0, normalized(es[0].1))] + normalized_entries(es.drop_first())
    }
}

proof fn lemma_normalized_seq(a: Seq<Json>)
    ensures
        normalized_seq(a).len() == a.len(),
        forall|i: int| 0 <= i < a.len() ==> #[trigger] normalized_seq(a)[i] == normalized(a[i]),
    decreases a.len(),
{
    if a.len() > 0 {
        lemma_normalized_seq(a.drop_first());
        assert forall|i: int| 0 <= i < a.len() implies #[trigger] normalized_seq(a)[i] == normalized(a[i]) by {
            if i > 0 {
                assert(a.drop_first()[i - 1] == a[i]);
            }
        }
    }
}

proof fn lemma_normalized_entries(es: Seq<(Seq<char>, Json)>)
    ensures
        normalized_entries(es).len() == es.len(),
        forall|i: int|
            0 <= i < es.len() ==> #[trigger] normalized_entries(es)[i] == (es[i].0, normalized(es[i].1)),
    decreases es.len(),
{
    if es.len() > 0 {
        lemma_normalized_entries(es.drop_first());
        assert forall|i: int| 0 <= i < es.len() implies #[trigger] normalized_entries(es)[i] == (
            es[i].0,
            normalized(es[i].1),
        ) by {
            if i > 0 {
                assert(es.drop_first()[i - 1] == es[i]);
            }
        }
    }
}

/// `serde_json`'s document model as the decoder's raw form, member for
/// member.
#[verifier::external_body]
fn raw_from_serde(v: serde_json::Value) -> RawJson {
    match v {
        serde_json::Value::Null => RawJson::Null,
        serde_json::Value::Bool(b) => RawJson::Bool(b),
        serde_json::Value::Number(n) => RawJson::Number(match (n.as_u64(), n.as_i64()) {
            (Some(u), _) => JsonNumber::PosInt(u),
            (None, Some(i)) => JsonNumber::NegInt(i),
            _ => JsonNumber::Float(n.to_string()),
        }),
        serde_json::Value::String(s) => RawJson::String(s),
        serde_json::Value::Array(a) => RawJson::Array(a.into_iter().map(raw_from_serde).collect()),
        serde_json::Value::Object(o) => RawJson::Object(o.into_iter().map(|(k, x)| (k, raw_from_serde(x))).collect()),
    }
}

/// What `serde_json` makes of `text`: the document as it hands it over,
/// or the text of its error.
pub uninterp spec fn decoded_raw(text: Seq<char>) -> Result<Json, Seq<char>>;

/// What decoding `text` gives in the library's form.
pub open spec fn decoded_json(text: Seq<char>) -> Result<Json, Seq<char>> {
    match decoded_raw(text) {
        Ok(j) => Ok(normalized(j)),
        Err(e) => Err(e),
    }
}

/// Calls `serde_json::from_str::<serde_json::Value>`. Trusted: the result is
/// the named decoding of `text`, the error being the decoder's message. What
/// the decoder accepts (RFC 8259 JSON, a single document, no trailing
/// characters but white space) is left to its own source.
#[verifier::external_body]
fn decode_raw(text: &str) -> (r: Result<RawJson, String>)
    ensures
        match r {
            Ok(v) => decoded_raw(text@) == Ok::<Json, Seq<char>>(raw_view(v)),
            Err(e) => decoded_raw(text@) == Err::<Json, Seq<char>>(e@),
        },
{
    serde_json::from_str::<serde_json::Value>(text).map(raw_from_serde).map_err(|e| e.to_string())
}

/// A decoded document in the library's form.
fn from_raw(v: &RawJson) -> (r: JsonValue)
    ensures
        r@ == normalized(raw_view(*v)),
    decreases v,
{
    match v {
        RawJson::Null => JsonValue::Null,
        RawJson::Bool(b) => JsonValue::Bool(*b),
        RawJson::Number(n) => JsonValue::Number(n.clone()),
        RawJson::String(s) => JsonValue::String(s.clone()),
        RawJson::Array(a) => {
            let mut out: Vec<JsonValue> = Vec::new();
            let n = a.len();
            let mut i: usize = 0;
            while i < n
                invariant
                    n == a@.len(),
                    *v == RawJson::Array(*a),
                    i <= n,
                    out@.len() == i,
                    forall|j: int|
                        0 <= j < i ==> #[trigger] json_view(out@[j]) == normalized(raw_view(a@[j])),
                decreases n - i,
            {
                proof {
                    assert(decreases_to!(*v => v->Array_0));
                    assert(decreases_to!(*a => a@[i as int]));
                }
                let c = from_raw(&a[i]);
                out.push(c);
                i = i + 1;
            }
            proof {
                lemma_view_seq(out@);
                lemma_raw_view_seq(a@);
                lemma_normalized_seq(raw_view_seq(a@));
                assert(json_view_seq(out@) =~= normalized_seq(raw_view_seq(a@)));
            }
            JsonValue::Array(out)
        },
        RawJson::Object(es) => {
            let mut out: Vec<(String, JsonValue)> = Vec::new();
            let n = es.len();
            let mut i: usize = 0;
            while i < n
                invariant
                    n == es@.len(),
                    *v == RawJson::Object(*es),
                    i <= n,
                    out@.len() == i,
                    forall|j: int|
                        0 <= j < i ==> #[trigger] out@[j].0@ == es@[j].0@ && json_view(out@[j].1)
                            == normalized(raw_view(es@[j].1)),
                decreases n - i,
            {
                proof {
                    assert(decreases_to!(*v => v->Object_0));
                    assert(decreases_to!(*es => es@[i as int]));
                    assert(decreases_to!(es@[i as int] => es@[i as int].1));
                }
                let c = from_raw(&es[i].1);
                out.push((es[i].0.clone(), c));
                i = i + 1;
            }
            proof {
                lemma_entries_view(out@);
                lemma_raw_entries_view(es@);
                lemma_normalized_entries(raw_entries_view(es@));
                assert(entries_view(out@) =~= normalized_entries(raw_entries_view(es@)));
            }
            JsonValue::Object(JsonMap::from_pairs(&out))
        },
    }
}

/// Decode `text` into the library's form: the decoder's document with each
/// object's members inserted in order, or the decoder's error message.
pub(crate) fn decode_json(text: &str) -> (r: Result<JsonValue, String>)
    ensures
        match r {
            Ok(v) => decoded_json(text@) == Ok::<Json, Seq<char>>(v@),
            Err(e) => decoded_json(text@) == Err::<Json, Seq<char>>(e@),
        },
{
    match decode_raw(text) {
        Ok(raw) => Ok(from_raw(&raw)),
        Err(e) => Err(e),
    }
}

/// The pairs of a list of string pairs, as text.
pub open spec fn pairs_view(v: Seq<(String, String)>) -> Seq<(Seq<char>, Seq<char>)> {
    v.map_values(|p: (String, String)| (p.0@, p.1@))
}

/// What `jsonschema` reports when `instance` is checked against `schema`,
/// the documents being registered under their URIs: each violation as its
/// instance location (a JSON pointer) and its message, in the engine's order;
/// or the text of the error that stopped the schema from compiling.
pub uninterp spec fn schema_errors(
    schema: Json,
    documents: Seq<(Seq<char>, Json)>,
    instance: Json,
) -> Result<Seq<(Seq<char>, Seq<char>)>, Seq<char>>;

/// A validator compiled by `jsonschema`, opaque to Verus. It is held in a
/// private field of a struct of the library's own because Verus cannot
/// declare `jsonschema::Validator`, whose parameter is bound by the outside
/// trait `jsonschema::json::Json`.
#[verifier::external_body]
#[derive(Debug)]
pub struct EngineValidator {
    inner: jsonschema::Validator,
}

/// Calls `jsonschema::Registry::new().extend(..)` and `prepare`, then
/// `jsonschema::options().with_registry(..).should_validate_formats(true).build(..)`.
/// Trusted: when compiling fails, its message is the named outcome of
/// checking any instance against `schema` with `documents`. What a compiled
/// validator reports is stated by [`CompiledSchema::violations`].
#[verifier::external_body]
fn compile_validator(schema: &JsonValue, documents: &Vec<(String, JsonValue)>) -> (r: Result<
    EngineValidator,
    String,
>)
    ensures
        match r {
            Ok(_) => true,
            Err(e) => forall|instance: Json|
                #[trigger] schema_errors(schema@, entries_view(documents@), instance) == Err::<
                    Seq<(Seq<char>, Seq<char>)>,
                    Seq<char>,
                >(e@),
        },
{
    let docs = documents.iter().map(|(u, d)| (u.as_str(), to_serde(d)));
    let registry = jsonschema::Registry::new().extend(docs).and_then(|b| b.prepare()).map_err(|e| e.to_string())?;
    let options = jsonschema::options().with_registry(&registry).should_validate_formats(true);
    match options.build(&to_serde(schema)) {
        Ok(inner) => Ok(EngineValidator { inner }),
        Err(e) => Err(e.to_string()),
    }
}

/// A schema compiled by the engine, kept with the schema and the documents
/// it was compiled from. Only [`CompiledSchema::compile`] makes one.
#[derive(Debug)]
pub struct CompiledSchema {
    validator: EngineValidator,
    schema: JsonValue,
    documents: Vec<(String, JsonValue)>,
}

impl CompiledSchema {
    /// The schema this was compiled from.
    pub closed spec fn schema(self) -> Json {
        self.schema@
    }

    /// The documents this was compiled with.
    pub closed spec fn documents(self) -> Seq<(Seq<char>, Json)> {
        entries_view(self.documents@)
    }

    /// Compile `schema` with `documents` resolvable by URI; on failure, the
    /// engine's message, which is then what checking any instance gives.
    pub fn compile(schema: JsonValue, documents: Vec<(String, JsonValue)>) -> (r: Result<
        CompiledSchema,
        String,
    >)
        ensures
            match r {
                Ok(c) => c.schema() == schema@ && c.documents() == entries_view(documents@),
                Err(e) => forall|instance: Json|
                    #[trigger] schema_errors(schema@, entries_view(documents@), instance) == Err::<
                        Seq<(Seq<char>, Seq<char>)>,
                        Seq<char>,
                    >(e@),
            },
    {
        match compile_validator(&schema, &documents) {
            Ok(validator) => Ok(CompiledSchema { validator, schema, documents }),
            Err(e) => Err(e),
        }
    }

    /// The violations found in `instance`, as (instance location, message)
    /// pairs in the engine's order.
    pub fn errors(&self, instance: &JsonValue) -> (r: Vec<(String, String)>)
        ensures
            schema_errors(self.schema(), self.documents(), instance@) == Ok::<
                Seq<(Seq<char>, Seq<char>)>,
                Seq<char>,
            >(pairs_view(r@)),
    {
        self.violations(instance)
    }

    /// Calls `jsonschema::Validator::iter_errors` on the compiled validator.
    /// Trusted: the violations, as (instance location, message) pairs, are
    /// the named outcome of checking `instance` against the schema and
    /// documents this value was compiled from.
    #[verifier::external_body]
    pub(crate) fn violations(&self, instance: &JsonValue) -> (r: Vec<(String, String)>)
        ensures
            match schema_errors(self.schema(), self.documents(), instance@) {
                Ok(found) => found == pairs_view(r@),
                Err(_) => false,
            },
    {
        let instance = to_serde(instance);
        self.validator.inner.iter_errors(&instance).map(|e| (e.instance_path().as_str().to_string(), e.to_string())).collect()
    }
}

} // verus!
