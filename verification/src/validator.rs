//! Validation of raw report JSON against the XARF v4 schemas: schema
//! violations, unknown-field detection (warnings, or errors in strict mode)
//! and, on request, the optional fields a report leaves out.

use vstd::prelude::*;

use crate::engine::{pairs_view, schema_errors};
use crate::error::{
    errors_view, infos_view, warnings_view, Issue, ValidationError, ValidationInfo,
    ValidationWarning, XarfError, XarfErrorModel,
};
use crate::json::{entries_view, json_view, lemma_entries_view, obj_has, Json, JsonMap, JsonValue};
use crate::model::strings_view;
use crate::schemas::{
    is_core_field, is_core_name, metas_view, type_index, vec_contains_str, FieldMeta,
    FieldMetaModel, RegistryModel, SchemaRegistry,
};
use crate::text::{concat, replace_all_char, replace_char, str_eq, trim_leading, trim_leading_char};

verus! {

/// Outcome of [`validate`]. `valid` is `true` iff `errors` is empty.
#[derive(Debug)]
pub struct ValidationResult {
    pub valid: bool,
    pub errors: Vec<ValidationError>,
    pub warnings: Vec<ValidationWarning>,
    pub info: Option<Vec<ValidationInfo>>,
}

/// The model of a [`ValidationResult`].
pub ghost struct ValidationResultModel {
    pub valid: bool,
    pub errors: Seq<Issue>,
    pub warnings: Seq<Issue>,
    pub info: Option<Seq<Issue>>,
}

impl View for ValidationResult {
    type V = ValidationResultModel;

    open spec fn view(&self) -> ValidationResultModel {
        ValidationResultModel {
            valid: self.valid,
            errors: errors_view(self.errors@),
            warnings: warnings_view(self.warnings@),
            info: match self.info {
                Some(v) => Some(infos_view(v@)),
                None => None,
            },
        }
    }
}

/// Options for [`validate`].
#[derive(Debug, Clone, Copy)]
pub struct ValidateOptions {
    /// Treat recommended fields as required, and unknown fields as errors.
    pub strict: bool,
    /// List every absent optional or recommended field in the result's `info`.
    pub show_missing_optional: bool,
}

impl Default for ValidateOptions {
    fn default() -> (r: Self)
        ensures
            !r.strict && !r.show_missing_optional,
    {
        ValidateOptions { strict: false, show_missing_optional: false }
    }
}

// ---------------------------------------------------------------------------
// What validation reports
// ---------------------------------------------------------------------------

/// The field of a violation: its JSON pointer without the leading slashes,
/// each remaining slash turned into a dot.
pub open spec fn field_of_pointer(p: Seq<char>) -> Seq<char> {
    replace_char(trim_leading(p, '/'), '/', '.')
}

/// The schema violations as issues.
pub open spec fn violation_issues(raw: Seq<(Seq<char>, Seq<char>)>) -> Seq<Issue> {
    raw.map_values(|p: (Seq<char>, Seq<char>)| (field_of_pointer(p.0), p.1))
}

/// `acc` followed by each issue of `items` not yet present.
pub open spec fn add_unique(acc: Seq<Issue>, items: Seq<Issue>) -> Seq<Issue>
    decreases items.len(),
{
    if items.len() == 0 {
        acc
    } else {
        let r = add_unique(acc, items.drop_last());
        if r.contains(items.last()) {
            r
        } else {
            r.push(items.last())
        }
    }
}

/// The message for a top-level key the schemas do not define.
pub open spec fn unknown_message(k: Seq<char>) -> Seq<char> {
    "Unknown field '"@ + k + "' is not defined in the XARF schema"@
}

/// Whether `k` is a known field of `(category, type)`: one of the type's
/// fields when the combination is defined, a core field otherwise.
pub open spec fn known_field(reg: RegistryModel, category: Seq<char>, type_: Seq<char>, k: Seq<char>) -> bool {
    match type_index(reg.types, category, type_) {
        Some(i) => reg.types[i].known_fields.contains(k),
        None => is_core_name(k),
    }
}

/// A warning for each key of `es`, in order, that is neither `_internal`
/// nor a known field.
pub open spec fn unknown_fields(
    es: Seq<(Seq<char>, Json)>,
    reg: RegistryModel,
    category: Seq<char>,
    type_: Seq<char>,
) -> Seq<Issue>
    decreases es.len(),
{
    if es.len() == 0 {
        Seq::empty()
    } else {
        let r = unknown_fields(es.drop_last(), reg, category, type_);
        let k = es.last().0;
        if k == "_internal"@ || known_field(reg, category, type_, k) {
            r
        } else {
            r.push((k, unknown_message(k)))
        }
    }
}

/// The string member `k` of the data, or the empty string.
pub open spec fn text_member(data: Json, k: Seq<char>) -> Seq<char> {
    match data.get_str(k) {
        Some(s) => s,
        None => Seq::empty(),
    }
}

/// Whether the data names both a category and a type.
pub open spec fn names_combination(data: Json) -> bool {
    text_member(data, "category"@).len() > 0 && text_member(data, "type"@).len() > 0
}

/// The unknown-field warnings for `data`.
pub open spec fn unknown_field_warnings(reg: RegistryModel, data: Json) -> Seq<Issue> {
    if names_combination(data) {
        match data {
            Json::Object(es) => unknown_fields(
                es,
                reg,
                text_member(data, "category"@),
                text_member(data, "type"@),
            ),
            _ => Seq::empty(),
        }
    } else {
        Seq::empty()
    }
}

/// The information entry for an absent optional field.
pub open spec fn info_of(meta: FieldMetaModel) -> Issue {
    (
        meta.name,
        (if meta.recommended {
            "RECOMMENDED"@
        } else {
            "OPTIONAL"@
        }) + ": "@ + meta.description,
    )
}

/// An entry for each field of `metas`, in order, that `es` lacks.
pub open spec fn missing_infos(metas: Seq<FieldMetaModel>, es: Seq<(Seq<char>, Json)>) -> Seq<Issue>
    decreases metas.len(),
{
    if metas.len() == 0 {
        Seq::empty()
    } else {
        let r = missing_infos(metas.drop_last(), es);
        if obj_has(es, metas.last().name) {
            r
        } else {
            r.push(info_of(metas.last()))
        }
    }
}

/// The absent optional fields of `data`: core ones first, then those of
/// `(category, type)` when that combination is defined.
pub open spec fn missing_optional(reg: RegistryModel, data: Json, category: Seq<char>, type_: Seq<char>) -> Seq<
    Issue,
> {
    match data {
        Json::Object(es) => missing_infos(reg.core_optional, es) + match type_index(
            reg.types,
            category,
            type_,
        ) {
            Some(i) => missing_infos(reg.types[i].optional_fields, es),
            None => Seq::empty(),
        },
        _ => Seq::empty(),
    }
}

/// What validating `data` reports, given the schema engine's violations
/// `raw` (each an instance pointer and a message).
pub open spec fn validation_outcome(
    reg: RegistryModel,
    data: Json,
    options: ValidateOptions,
    raw: Seq<(Seq<char>, Seq<char>)>,
) -> ValidationResultModel {
    let errors0 = add_unique(Seq::empty(), violation_issues(raw));
    let warnings0 = unknown_field_warnings(reg, data);
    let promoted = options.strict && warnings0.len() > 0;
    let errors = if promoted {
        add_unique(errors0, warnings0)
    } else {
        errors0
    };
    ValidationResultModel {
        valid: errors.len() == 0,
        errors,
        warnings: if promoted {
            Seq::empty()
        } else {
            warnings0
        },
        info: if options.show_missing_optional && names_combination(data) {
            Some(
                missing_optional(
                    reg,
                    data,
                    text_member(data, "category"@),
                    text_member(data, "type"@),
                ),
            )
        } else {
            None
        },
    }
}

// ---------------------------------------------------------------------------
// Laws
// ---------------------------------------------------------------------------

proof fn lemma_add_unique_distinct(acc: Seq<Issue>, items: Seq<Issue>)
    requires
        acc.no_duplicates(),
    ensures
        add_unique(acc, items).no_duplicates(),
    decreases items.len(),
{
    if items.len() > 0 {
        lemma_add_unique_distinct(acc, items.drop_last());
        let r = add_unique(acc, items.drop_last());
        if !r.contains(items.last()) {
            assert forall|i: int, j: int| 0 <= i < j < r.push(items.last()).len() implies r.push(
                items.last(),
            )[i] != r.push(items.last())[j] by {
                if j == r.len() {
                    assert(r[i] == r.push(items.last())[i]);
                }
            }
        }
    }
}

/// A validation outcome is valid exactly when it lists no error; its errors
/// are pairwise distinct; in strict mode it carries no warning; and it
/// carries information exactly when asked for and the data names a category
/// and a type.
pub proof fn lemma_outcome_laws(
    reg: RegistryModel,
    data: Json,
    options: ValidateOptions,
    raw: Seq<(Seq<char>, Seq<char>)>,
)
    ensures
        validation_outcome(reg, data, options, raw).valid == (validation_outcome(
            reg,
            data,
            options,
            raw,
        ).errors.len() == 0),
        validation_outcome(reg, data, options, raw).errors.no_duplicates(),
        options.strict ==> validation_outcome(reg, data, options, raw).warnings.len() == 0,
        validation_outcome(reg, data, options, raw).info is Some == (options.show_missing_optional
            && names_combination(data)),
{
    let e0 = add_unique(Seq::empty(), violation_issues(raw));
    lemma_add_unique_distinct(Seq::empty(), violation_issues(raw));
    lemma_add_unique_distinct(e0, unknown_field_warnings(reg, data));
}

/// `add_unique` keeps what it started with, adds every item, and adds
/// nothing else.
proof fn lemma_add_unique_members(acc: Seq<Issue>, items: Seq<Issue>)
    ensures
        forall|i: int| 0 <= i < acc.len() ==> add_unique(acc, items).contains(#[trigger] acc[i]),
        forall|i: int| 0 <= i < items.len() ==> add_unique(acc, items).contains(#[trigger] items[i]),
        forall|x: Issue| #[trigger] add_unique(acc, items).contains(x) ==> acc.contains(x) || items.contains(x),
    decreases items.len(),
{
    if items.len() > 0 {
        let init = items.drop_last();
        lemma_add_unique_members(acc, init);
        let r = add_unique(acc, init);
        assert forall|i: int| 0 <= i < items.len() implies add_unique(acc, items).contains(
            #[trigger] items[i],
        ) by {
            if i < items.len() - 1 {
                assert(init[i] == items[i]);
                assert(r.contains(init[i]));
                if !r.contains(items.last()) {
                    let k = choose|k: int| 0 <= k < r.len() && r[k] == items[i];
                    assert(r.push(items.last())[k] == items[i]);
                }
            } else {
                if !r.contains(items.last()) {
                    assert(r.push(items.last())[r.len() as int] == items.last());
                }
            }
        }
        assert forall|i: int| 0 <= i < acc.len() implies add_unique(acc, items).contains(#[trigger] acc[i]) by {
            assert(r.contains(acc[i]));
            if !r.contains(items.last()) {
                let k = choose|k: int| 0 <= k < r.len() && r[k] == acc[i];
                assert(r.push(items.last())[k] == acc[i]);
            }
        }
        assert forall|x: Issue| #[trigger] add_unique(acc, items).contains(x) implies acc.contains(x)
            || items.contains(x) by {
            if r.contains(x) {
                if init.contains(x) {
                    let k = choose|k: int| 0 <= k < init.len() && init[k] == x;
                    assert(items[k] == x);
                }
            } else {
                assert(x == items.last());
                assert(items[items.len() - 1] == x);
            }
        }
    }
}

/// Unknown fields: outside strict mode each is one warning and the errors
/// are the engine's violations, each once; in strict mode there is no
/// warning, each unknown-field warning is an error, and every error is a
/// violation or an unknown-field warning.
pub proof fn lemma_unknown_fields_law(
    reg: RegistryModel,
    data: Json,
    options: ValidateOptions,
    raw: Seq<(Seq<char>, Seq<char>)>,
)
    ensures
        !options.strict ==> validation_outcome(reg, data, options, raw).warnings
            == unknown_field_warnings(reg, data),
        !options.strict ==> validation_outcome(reg, data, options, raw).errors == add_unique(
            Seq::empty(),
            violation_issues(raw),
        ),
        options.strict ==> forall|i: int|
            0 <= i < unknown_field_warnings(reg, data).len() ==> validation_outcome(
                reg,
                data,
                options,
                raw,
            ).errors.contains(#[trigger] unknown_field_warnings(reg, data)[i]),
        options.strict ==> forall|x: Issue| #[trigger]
            validation_outcome(reg, data, options, raw).errors.contains(x) ==> violation_issues(
                raw,
            ).contains(x) || unknown_field_warnings(reg, data).contains(x),
{
    let v = violation_issues(raw);
    let w = unknown_field_warnings(reg, data);
    let e0 = add_unique(Seq::empty(), v);
    lemma_add_unique_members(Seq::empty(), v);
    lemma_add_unique_members(e0, w);
    if options.strict {
        assert forall|x: Issue| #[trigger]
            validation_outcome(reg, data, options, raw).errors.contains(x) implies v.contains(x)
            || w.contains(x) by {
            if e0.contains(x) {
                assert(Seq::<Issue>::empty().contains(x) || v.contains(x));
            }
        }
    }
}

proof fn lemma_missing_infos_absent(metas: Seq<FieldMetaModel>, es: Seq<(Seq<char>, Json)>)
    ensures
        forall|i: int|
            0 <= i < missing_infos(metas, es).len() ==> exists|m: FieldMetaModel|
                #[trigger] missing_infos(metas, es)[i] == info_of(m) && !obj_has(es, m.name),
    decreases metas.len(),
{
    if metas.len() > 0 {
        let init = metas.drop_last();
        lemma_missing_infos_absent(init, es);
        let r = missing_infos(init, es);
        assert forall|i: int| 0 <= i < missing_infos(metas, es).len() implies exists|m: FieldMetaModel|
            #[trigger] missing_infos(metas, es)[i] == info_of(m) && !obj_has(es, m.name) by {
            if i < r.len() {
                assert(missing_infos(metas, es)[i] == r[i]);
            } else {
                assert(missing_infos(metas, es)[i] == info_of(metas.last()));
            }
        }
    }
}

/// What `show_missing_optional` adds: it changes neither the errors, nor
/// the warnings, nor validity; and every information item it brings is the
/// entry (`RECOMMENDED: ` or `OPTIONAL: ` and the field's description) of
/// an optional field that the data lacks.
pub proof fn lemma_missing_optional_law(
    reg: RegistryModel,
    data: Json,
    strict: bool,
    raw: Seq<(Seq<char>, Seq<char>)>,
)
    ensures
        validation_outcome(reg, data, ValidateOptions { strict, show_missing_optional: true }, raw).errors
            == validation_outcome(reg, data, ValidateOptions { strict, show_missing_optional: false }, raw).errors,
        validation_outcome(reg, data, ValidateOptions { strict, show_missing_optional: true }, raw).warnings
            == validation_outcome(reg, data, ValidateOptions { strict, show_missing_optional: false }, raw).warnings,
        validation_outcome(reg, data, ValidateOptions { strict, show_missing_optional: true }, raw).valid
            == validation_outcome(reg, data, ValidateOptions { strict, show_missing_optional: false }, raw).valid,
        validation_outcome(reg, data, ValidateOptions { strict, show_missing_optional: false }, raw).info is None,
        match validation_outcome(reg, data, ValidateOptions { strict, show_missing_optional: true }, raw).info {
            Some(items) => forall|i: int|
                0 <= i < items.len() ==> exists|m: FieldMetaModel|
                    #[trigger] items[i] == info_of(m) && !obj_has(data->Object_0, m.name),
            None => true,
        },
{
    let o = ValidateOptions { strict, show_missing_optional: true };
    if let Some(items) = validation_outcome(reg, data, o, raw).info {
        if let Json::Object(es) = data {
            let a = missing_infos(reg.core_optional, es);
            lemma_missing_infos_absent(reg.core_optional, es);
            let b = match type_index(reg.types, text_member(data, "category"@), text_member(data, "type"@)) {
                Some(i) => missing_infos(reg.types[i].optional_fields, es),
                None => Seq::empty(),
            };
            if let Some(k) = type_index(reg.types, text_member(data, "category"@), text_member(data, "type"@)) {
                lemma_missing_infos_absent(reg.types[k].optional_fields, es);
            }
            assert(items == a + b);
            assert forall|i: int| 0 <= i < items.len() implies exists|m: FieldMetaModel|
                #[trigger] items[i] == info_of(m) && !obj_has(es, m.name) by {
                if i < a.len() {
                    assert(items[i] == a[i]);
                } else {
                    assert(items[i] == b[i - a.len()]);
                }
            }
        }
    }
}

// ---------------------------------------------------------------------------
// Computing it
// ---------------------------------------------------------------------------

/// The dotted field of a JSON pointer.
fn field_from_pointer(p: &str) -> (r: String)
    ensures
        r@ == field_of_pointer(p@),
{
    let t = trim_leading_char(p, '/');
    replace_all_char(t.as_str(), '/', '.')
}

fn has_error(v: &Vec<ValidationError>, field: &str, message: &str) -> (r: bool)
    ensures
        r == errors_view(v@).contains((field@, message@)),
{
    let n = v.len();
    let ghost ev = errors_view(v@);
    let mut i: usize = 0;
    while i < n
        invariant
            n == v@.len(),
            ev == errors_view(v@),
            ev.len() == n,
            i <= n,
            forall|j: int| 0 <= j < i ==> ev[j] != (field@, message@),
        decreases n - i,
    {
        assert(ev[i as int] == v@[i as int]@);
        if str_eq(v[i].field.as_str(), field) && str_eq(v[i].message.as_str(), message) {
            return true;
        }
        i = i + 1;
    }
    false
}

fn push_unique(v: &mut Vec<ValidationError>, field: String, message: String)
    ensures
        errors_view(final(v)@) == if errors_view(old(v)@).contains((field@, message@)) {
            errors_view(old(v)@)
        } else {
            errors_view(old(v)@).push((field@, message@))
        },
{
    if !has_error(v, field.as_str(), message.as_str()) {
        let e = ValidationError::new(field, message);
        v.push(e);
        assert(errors_view(v@) =~= errors_view(old(v)@).push(e@));
    }
}

/// Whether `key` is a known field: one of `type_fields` when given, a core
/// field otherwise.
pub fn is_known_field(key: &str, type_fields: Option<&Vec<String>>) -> (r: bool)
    ensures
        r == match type_fields {
            Some(fs) => strings_view(fs@).contains(key@),
            None => is_core_name(key@),
        },
{
    match type_fields {
        Some(fs) => vec_contains_str(fs, key),
        None => is_core_field(key),
    }
}

/// The information entry for an absent optional field.
pub fn meta_to_info(meta: &FieldMeta) -> (r: ValidationInfo)
    ensures
        r@ == info_of(meta@),
{
    let prefix = if meta.recommended {
        "RECOMMENDED"
    } else {
        "OPTIONAL"
    };
    let head = concat(prefix, ": ");
    ValidationInfo::new(meta.name.clone(), concat(head.as_str(), meta.description.as_str()))
}

fn push_missing(info: &mut Vec<ValidationInfo>, metas: &Vec<FieldMeta>, obj: &JsonMap)
    ensures
        infos_view(final(info)@) == infos_view(old(info)@) + missing_infos(metas_view(metas@), obj@),
{
    let n = metas.len();
    let ghost mv = metas_view(metas@);
    assert(mv.take(0) =~= Seq::<FieldMetaModel>::empty());
    assert(infos_view(info@) =~= infos_view(old(info)@) + Seq::<Issue>::empty());
    let mut i: usize = 0;
    while i < n
        invariant
            n == metas@.len(),
            mv == metas_view(metas@),
            i <= n,
            infos_view(info@) == infos_view(old(info)@) + missing_infos(mv.take(i as int), obj@),
        decreases n - i,
    {
        assert(mv.take(i + 1).drop_last() =~= mv.take(i as int));
        assert(mv.take(i + 1).last() == metas@[i as int]@);
        let ghost before = infos_view(info@);
        if !obj.contains_key(metas[i].name.as_str()) {
            let e = meta_to_info(&metas[i]);
            info.push(e);
            assert(infos_view(info@) =~= before.push(e@));
        }
        i = i + 1;
    }
    assert(mv.take(n as int) =~= mv);
}

fn collect_missing_optional(
    reg: &SchemaRegistry,
    data: &JsonValue,
    category: &str,
    type_: &str,
) -> (r: Vec<ValidationInfo>)
    ensures
        infos_view(r@) == missing_optional(reg@, data@, category@, type_@),
{
    let mut info: Vec<ValidationInfo> = Vec::new();
    assert(infos_view(info@) =~= Seq::<Issue>::empty());
    let obj = match data {
        JsonValue::Object(o) => o,
        _ => {
            return info;
        },
    };
    push_missing(&mut info, reg.core_optional_fields(), obj);
    match reg.type_optional_fields(category, type_) {
        Some(opt) => {
            push_missing(&mut info, opt, obj);
        },
        None => {
            assert(infos_view(info@) =~= infos_view(info@) + Seq::<Issue>::empty());
        },
    }
    info
}

fn unknown_field_list(
    reg: &SchemaRegistry,
    obj: &JsonMap,
    category: &str,
    type_: &str,
) -> (r: Vec<ValidationWarning>)
    ensures
        warnings_view(r@) == unknown_fields(obj@, reg@, category@, type_@),
{
    let type_fields = reg.type_known_fields(category, type_);
    let es = obj.entries();
    let ghost oe = obj@;
    let n = es.len();
    proof {
        lemma_entries_view(es@);
        assert(oe.take(0) =~= Seq::<(Seq<char>, Json)>::empty());
    }
    let mut out: Vec<ValidationWarning> = Vec::new();
    assert(warnings_view(out@) =~= Seq::<Issue>::empty());
    let mut i: usize = 0;
    while i < n
        invariant
            n == es@.len(),
            oe == obj@,
            oe == entries_view(es@),
            oe.len() == n,
            forall|j: int| 0 <= j < n ==> #[trigger] oe[j] == (es@[j].0@, json_view(es@[j].1)),
            match type_fields {
                Some(v) => exists|t: int|
                    type_index(reg@.types, category@, type_@) == Some(t) && strings_view(v@)
                        == reg@.types[t].known_fields,
                None => type_index(reg@.types, category@, type_@) is None,
            },
            i <= n,
            warnings_view(out@) == unknown_fields(oe.take(i as int), reg@, category@, type_@),
        decreases n - i,
    {
        assert(oe.take(i + 1).drop_last() =~= oe.take(i as int));
        assert(oe.take(i + 1).last() == oe[i as int]);
        let key = es[i].0.as_str();
        if str_eq(key, "_internal") || is_known_field(key, type_fields) {
        } else {
            let head = concat("Unknown field '", key);
            let msg = concat(head.as_str(), "' is not defined in the XARF schema");
            let w = ValidationWarning::new(es[i].0.clone(), msg);
            out.push(w);
            assert(warnings_view(out@) =~= warnings_view(out@.drop_last()).push(w@));
        }
        i = i + 1;
    }
    assert(oe.take(n as int) =~= oe);
    out
}

/// The string member `k` of the data, or an empty string.
fn text_of(data: &JsonValue, k: &str) -> (r: String)
    ensures
        r@ == text_member(data@, k@),
{
    match data.get_str(k) {
        Some(s) => s.clone(),
        None => String::new(),
    }
}

/// Validation of `data` given the violations the schema engine reported
/// for it, each an instance pointer and a message.
pub fn validate_with_violations(
    reg: &SchemaRegistry,
    data: &JsonValue,
    options: ValidateOptions,
    raw: &Vec<(String, String)>,
) -> (r: ValidationResult)
    ensures
        r@ == validation_outcome(reg@, data@, options, pairs_view(raw@)),
{
    let ghost iss = violation_issues(pairs_view(raw@));
    let mut errors: Vec<ValidationError> = Vec::new();
    let n = raw.len();
    assert(iss.take(0) =~= Seq::<Issue>::empty());
    assert(errors_view(errors@) =~= Seq::<Issue>::empty());
    let mut i: usize = 0;
    while i < n
        invariant
            n == raw@.len(),
            iss == violation_issues(pairs_view(raw@)),
            iss.len() == n,
            i <= n,
            errors_view(errors@) == add_unique(Seq::empty(), iss.take(i as int)),
        decreases n - i,
    {
        assert(iss.take(i + 1).drop_last() =~= iss.take(i as int));
        assert(iss.take(i + 1).last() == iss[i as int]);
        let field = field_from_pointer(raw[i].0.as_str());
        push_unique(&mut errors, field, raw[i].1.clone());
        i = i + 1;
    }
    assert(iss.take(n as int) =~= iss);
    let category = text_of(data, "category");
    let type_ = text_of(data, "type");
    let combination = category.unicode_len() > 0 && type_.unicode_len() > 0;
    let mut warnings: Vec<ValidationWarning> = Vec::new();
    if combination {
        match data {
            JsonValue::Object(obj) => {
                warnings = unknown_field_list(reg, obj, category.as_str(), type_.as_str());
            },
            _ => {},
        }
    }
    assert(warnings_view(warnings@) =~= unknown_field_warnings(reg@, data@));
    let ghost w0 = warnings_view(warnings@);
    if options.strict && warnings.len() > 0 {
        let m = warnings.len();
        let ghost e0 = errors_view(errors@);
        assert(w0.take(0) =~= Seq::<Issue>::empty());
        let mut j: usize = 0;
        while j < m
            invariant
                m == warnings@.len(),
                w0 == warnings_view(warnings@),
                j <= m,
                errors_view(errors@) == add_unique(e0, w0.take(j as int)),
            decreases m - j,
        {
            assert(w0.take(j + 1).drop_last() =~= w0.take(j as int));
            assert(w0.take(j + 1).last() == warnings@[j as int]@);
            push_unique(&mut errors, warnings[j].field.clone(), warnings[j].message.clone());
            j = j + 1;
        }
        assert(w0.take(m as int) =~= w0);
        warnings = Vec::new();
        assert(warnings_view(warnings@) =~= Seq::<Issue>::empty());
    }
    let info = if options.show_missing_optional && combination {
        Some(collect_missing_optional(reg, data, category.as_str(), type_.as_str()))
    } else {
        None
    };
    let valid = errors.len() == 0;
    ValidationResult { valid, errors, warnings, info }
}

/// Validate `data` against the master schema of `reg` (promoted in strict
/// mode), then look for unknown fields and, on request, absent optional
/// ones. Fails only when the schema engine cannot compile the schema.
pub fn validate(reg: &SchemaRegistry, data: &JsonValue, options: ValidateOptions) -> (r: Result<
    ValidationResult,
    XarfError,
>)
    ensures
        match schema_errors(
            if options.strict {
                reg@.master_strict
            } else {
                reg@.master
            },
            if options.strict {
                reg@.documents_strict
            } else {
                reg@.documents
            },
            data@,
        ) {
            Ok(raw) => r matches Ok(v) && v@ == validation_outcome(reg@, data@, options, raw),
            Err(m) => r matches Err(e) && e@ == XarfErrorModel::Schema("schema compile: "@ + m),
        },
{
    match reg.violations_for(options.strict, data) {
        Ok(raw) => Ok(validate_with_violations(reg, data, options, &raw)),
        Err(m) => Err(XarfError::Schema(concat("schema compile: ", m.as_str()))),
    }
}

/// The errors of [`validate`] alone.
pub fn quick_errors(reg: &SchemaRegistry, data: &JsonValue, strict: bool) -> (r: Result<
    Vec<ValidationError>,
    XarfError,
>)
    ensures
        match schema_errors(
            if strict {
                reg@.master_strict
            } else {
                reg@.master
            },
            if strict {
                reg@.documents_strict
            } else {
                reg@.documents
            },
            data@,
        ) {
            Ok(raw) => r matches Ok(v) && errors_view(v@) == validation_outcome(
                reg@,
                data@,
                ValidateOptions { strict, show_missing_optional: false },
                raw,
            ).errors,
            Err(m) => r matches Err(e) && e@ == XarfErrorModel::Schema("schema compile: "@ + m),
        },
{
    let options = ValidateOptions { strict, show_missing_optional: false };
    match validate(reg, data, options) {
        Ok(v) => Ok(v.errors),
        Err(e) => Err(e),
    }
}

} // verus!
