//! Parsing: decode the JSON, convert a v3 report to v4 (with a deprecation
//! warning), validate against the v4 schemas, and read the typed report
//! (even from an invalid document, outside strict mode).

use vstd::prelude::*;

use crate::engine::{decode_json, decoded_json, schema_errors};
use crate::error::{
    errors_view, infos_view, warnings_view, Issue, ValidationError, ValidationInfo,
    ValidationWarning, XarfError, XarfErrorModel,
};
use crate::json::{keys_sorted, Json, JsonValue};
use crate::model::{
    category_name, category_of, is_report_field, report_from_json, report_json, Report, ReportModel,
};
use crate::round_trip::lemma_report_round_trip;
use crate::schemas::{RegistryModel, SchemaRegistry};
use crate::fresh::{utc_time_text, uuid_text};
use crate::text::{concat, owned};
use crate::v3_compat::{
    convert_v3_to_v4, deprecation_text, deprecation_warning, is_v3, is_v3_report, v3_conversion,
};
use crate::validator::{
    validate, validation_outcome, ValidateOptions, ValidationResult, ValidationResultModel,
};

verus! {

/// Outcome of [`parse`] and [`parse_value`]: the typed report when one
/// could be read, and every issue found. Errors and a report may come
/// together: outside strict mode the caller decides.
#[derive(Debug)]
pub struct ParseResult {
    pub report: Option<Report>,
    pub errors: Vec<ValidationError>,
    pub warnings: Vec<ValidationWarning>,
    pub info: Option<Vec<ValidationInfo>>,
}

/// The model of a [`ParseResult`].
pub ghost struct ParseResultModel {
    pub report: Option<ReportModel>,
    pub errors: Seq<Issue>,
    pub warnings: Seq<Issue>,
    pub info: Option<Seq<Issue>>,
}

impl View for ParseResult {
    type V = ParseResultModel;

    open spec fn view(&self) -> ParseResultModel {
        ParseResultModel {
            report: match self.report {
                Some(r) => Some(r@),
                None => None,
            },
            errors: errors_view(self.errors@),
            warnings: warnings_view(self.warnings@),
            info: match self.info {
                Some(v) => Some(infos_view(v@)),
                None => None,
            },
        }
    }
}

/// Options of [`parse_with_options`] and [`parse_value`].
#[derive(Debug, Clone, Copy)]
pub struct ParseOptions {
    /// Strict-mode validation; see [`ValidateOptions`].
    pub strict: bool,
    /// List absent optional and recommended fields in the result's `info`.
    pub show_missing_optional: bool,
}

impl Default for ParseOptions {
    fn default() -> (r: Self)
        ensures
            !r.strict && !r.show_missing_optional,
    {
        ParseOptions { strict: false, show_missing_optional: false }
    }
}

impl From<ParseOptions> for ValidateOptions {
    fn from(o: ParseOptions) -> (r: ValidateOptions) {
        ValidateOptions { strict: o.strict, show_missing_optional: o.show_missing_optional }
    }
}

impl vstd::std_specs::convert::FromSpecImpl<ParseOptions> for ValidateOptions {
    open spec fn obeys_from_spec() -> bool {
        true
    }

    open spec fn from_spec(o: ParseOptions) -> ValidateOptions {
        ValidateOptions { strict: o.strict, show_missing_optional: o.show_missing_optional }
    }
}

/// The validation options of parse options.
pub open spec fn validate_options(o: ParseOptions) -> ValidateOptions {
    ValidateOptions { strict: o.strict, show_missing_optional: o.show_missing_optional }
}

/// A result with its models.
pub open spec fn parse_reply_view(r: Result<ParseResult, XarfError>) -> Result<
    ParseResultModel,
    XarfErrorModel,
> {
    match r {
        Ok(p) => Ok(p@),
        Err(e) => Err(e@),
    }
}

/// What parsing the (converted) document `value` gives once validation
/// reported `v`, the warnings `pre` of a v3 conversion coming first.
pub open spec fn parse_outcome(
    value: Json,
    pre: Seq<Issue>,
    v: ValidationResultModel,
    options: ParseOptions,
) -> ParseResultModel {
    let warnings = pre + v.warnings;
    if options.strict && v.errors.len() > 0 {
        ParseResultModel { report: None, errors: v.errors, warnings, info: v.info }
    } else {
        match report_from_json(value) {
            Ok(r) => ParseResultModel { report: Some(r), errors: v.errors, warnings, info: v.info },
            Err(e) => ParseResultModel {
                report: None,
                errors: v.errors.push((Seq::empty(), "deserialize: "@ + e)),
                warnings,
                info: v.info,
            },
        }
    }
}

/// The reply for the v4 document `value`: a schema compile failure, or the
/// outcome of parsing it with the violations the engine reports.
pub open spec fn parse_v4_reply(
    reg: RegistryModel,
    value: Json,
    pre: Seq<Issue>,
    options: ParseOptions,
    r: Result<ParseResultModel, XarfErrorModel>,
) -> bool {
    match schema_errors(
        if options.strict {
            reg.master_strict
        } else {
            reg.master
        },
        if options.strict {
            reg.documents_strict
        } else {
            reg.documents
        },
        value,
    ) {
        Ok(raw) => r == Ok::<ParseResultModel, XarfErrorModel>(
            parse_outcome(
                value,
                pre,
                validation_outcome(reg, value, validate_options(options), raw),
                options,
            ),
        ),
        Err(m) => r == Err::<ParseResultModel, XarfErrorModel>(
            XarfErrorModel::Schema("schema compile: "@ + m),
        ),
    }
}

/// The warnings a v3 conversion contributes: the deprecation notice, then
/// each conversion message, all without a field.
pub open spec fn v3_warnings(msgs: Seq<Seq<char>>) -> Seq<Issue> {
    seq![(Seq::empty(), deprecation_text())] + msgs.map_values(
        |m: Seq<char>| (Seq::<char>::empty(), m),
    )
}

/// What a parse returns for a v3 report whose conversion failed with `m`:
/// no report, the conversion failure as the one error, and the warnings of
/// the conversion.
pub open spec fn conversion_failure(msgs: Seq<Seq<char>>, m: Seq<char>) -> ParseResultModel {
    ParseResultModel {
        report: None,
        errors: seq![(Seq::<char>::empty(), "v3 conversion failed: "@ + m)],
        warnings: v3_warnings(msgs),
        info: None,
    }
}

/// The reply for the v3 report `value`, converted with the report id `id`
/// and the time `now`.
pub open spec fn v3_reply(
    reg: RegistryModel,
    value: Json,
    options: ParseOptions,
    id: Seq<char>,
    now: Seq<char>,
    r: Result<ParseResultModel, XarfErrorModel>,
) -> bool {
    match v3_conversion(value, id, now).0 {
        Err(m) => r == Ok::<ParseResultModel, XarfErrorModel>(
            conversion_failure(v3_conversion(value, id, now).1, m),
        ),
        Ok(v4) => parse_v4_reply(reg, v4, v3_warnings(v3_conversion(value, id, now).1), options, r),
    }
}

/// The reply for the decoded document `value`: a v3 report is converted
/// first (with a fresh report id and the current time); a failed
/// conversion is reported among the errors of the result.
pub open spec fn parse_value_reply(
    reg: RegistryModel,
    value: Json,
    options: ParseOptions,
    r: Result<ParseResultModel, XarfErrorModel>,
) -> bool {
    if is_v3(value) {
        exists|id: Seq<char>, now: Seq<char>|
            uuid_text(id) && utc_time_text(now) && #[trigger] v3_reply(reg, value, options, id, now, r)
    } else {
        parse_v4_reply(reg, value, Seq::empty(), options, r)
    }
}

/// Assemble the parse result of the (converted) document `value` from the
/// conversion warnings `pre` and the validation result.
pub fn parse_outcome_of(
    value: &JsonValue,
    pre: Vec<ValidationWarning>,
    validation: ValidationResult,
    options: ParseOptions,
) -> (r: ParseResult)
    ensures
        r@ == parse_outcome(value@, warnings_view(pre@), validation@, options),
{
    let ghost pv = warnings_view(pre@);
    let ghost vv = validation@;
    let mut warnings = pre;
    let mut more = validation.warnings;
    warnings.append(&mut more);
    assert(warnings_view(warnings@) =~= pv + vv.warnings);
    let mut errors = validation.errors;
    if options.strict && errors.len() > 0 {
        return ParseResult { report: None, errors, warnings, info: validation.info };
    }
    let report = match Report::from_json(value) {
        Ok(r) => Some(r),
        Err(e) => {
            let err = ValidationError::new(String::new(), concat("deserialize: ", e.as_str()));
            errors.push(err);
            assert(errors_view(errors@) =~= vv.errors.push(err@));
            None
        },
    };
    ParseResult { report, errors, warnings, info: validation.info }
}

/// Validate the v4 document `value` and read the report from it.
fn parse_v4(
    reg: &SchemaRegistry,
    value: JsonValue,
    pre: Vec<ValidationWarning>,
    options: ParseOptions,
) -> (r: Result<ParseResult, XarfError>)
    ensures
        parse_v4_reply(reg@, value@, warnings_view(pre@), options, parse_reply_view(r)),
{
    let validation = match validate(reg, &value, ValidateOptions::from(options)) {
        Ok(v) => v,
        Err(e) => {
            return Err(e);
        },
    };
    Ok(parse_outcome_of(&value, pre, validation, options))
}

/// Parse an already decoded document.
pub fn parse_value(reg: &SchemaRegistry, value: JsonValue, options: ParseOptions) -> (r: Result<
    ParseResult,
    XarfError,
>)
    ensures
        parse_value_reply(reg@, value@, options, parse_reply_view(r)),
{
    if is_v3_report(&value) {
        let ghost v3 = value@;
        let mut msgs: Vec<String> = Vec::new();
        let converted = convert_v3_to_v4(value, &mut msgs);
        let ghost mv = crate::model::strings_view(msgs@);
        let ghost (id, now): (Seq<char>, Seq<char>) = choose|id: Seq<char>, now: Seq<char>|
            {
                &&& uuid_text(id)
                &&& utc_time_text(now)
                &&& mv == crate::model::strings_view(Seq::<String>::empty()) + v3_conversion(v3, id, now).1
                &&& match converted {
                    Ok(j) => v3_conversion(v3, id, now).0 == Ok::<Json, Seq<char>>(j@),
                    Err(e) => exists|m: Seq<char>|
                        v3_conversion(v3, id, now).0 == Err::<Json, Seq<char>>(m) && e@
                            == XarfErrorModel::V3Conversion(m),
                }
            };
        let mut pre: Vec<ValidationWarning> = Vec::new();
        pre.push(ValidationWarning::new(String::new(), owned(deprecation_warning())));
        let n = msgs.len();
        let mut i: usize = 0;
        while i < n
            invariant
                n == msgs@.len(),
                i <= n,
                pre@.len() == i + 1,
                pre@[0]@ == (Seq::<char>::empty(), deprecation_text()),
                forall|j: int| 1 <= j <= i ==> #[trigger] pre@[j]@ == (Seq::<char>::empty(), msgs@[j - 1]@),
            decreases n - i,
        {
            pre.push(ValidationWarning::new(String::new(), msgs[i].clone()));
            i = i + 1;
        }
        proof {
            assert(crate::model::strings_view(Seq::<String>::empty()) =~= Seq::<Seq<char>>::empty());
            assert(mv =~= v3_conversion(v3, id, now).1);
            let w = v3_warnings(v3_conversion(v3, id, now).1);
            assert(w.len() == pre@.len());
            assert forall|k: int| 0 <= k < w.len() implies #[trigger] warnings_view(pre@)[k] == w[k] by {
                if k > 0 {
                    assert(mv[k - 1] == msgs@[k - 1]@);
                }
            }
            assert(warnings_view(pre@) =~= w);
        }
        match converted {
            Ok(v4) => {
                let r = parse_v4(reg, v4, pre, options);
                assert(v3_reply(reg@, v3, options, id, now, parse_reply_view(r)));
                r
            },
            Err(e) => {
                let ghost m = choose|m: Seq<char>|
                    v3_conversion(v3, id, now).0 == Err::<Json, Seq<char>>(m) && e@
                        == XarfErrorModel::V3Conversion(m);
                let mut errors: Vec<ValidationError> = Vec::new();
                errors.push(ValidationError::new(String::new(), e.message()));
                let r = ParseResult { report: None, errors, warnings: pre, info: None };
                assert(errors_view(r.errors@) =~= seq![(Seq::<char>::empty(), "v3 conversion failed: "@ + m)]);
                let res: Result<ParseResult, XarfError> = Ok(r);
                assert(v3_reply(reg@, v3, options, id, now, parse_reply_view(res)));
                res
            },
        }
    } else {
        let pre: Vec<ValidationWarning> = Vec::new();
        assert(warnings_view(pre@) =~= Seq::<Issue>::empty());
        parse_v4(reg, value, pre, options)
    }
}

/// The name of a JSON value's type.
pub open spec fn json_type_name(j: Json) -> Seq<char> {
    match j {
        Json::Null => "null"@,
        Json::Bool(_) => "boolean"@,
        Json::Number(_) => "number"@,
        Json::Str(_) => "string"@,
        Json::Array(_) => "array"@,
        Json::Object(_) => "object"@,
    }
}

fn value_type_name(v: &JsonValue) -> (r: &'static str)
    ensures
        r@ == json_type_name(v@),
{
    match v {
        JsonValue::Null => "null",
        JsonValue::Bool(_) => "boolean",
        JsonValue::Number(_) => "number",
        JsonValue::String(_) => "string",
        JsonValue::Array(_) => "array",
        JsonValue::Object(_) => "object",
    }
}

/// The reply for the text `json`: a decoding error, a document that is
/// not an object, or the reply for the decoded document.
pub open spec fn parse_text_reply(
    reg: RegistryModel,
    json: Seq<char>,
    options: ParseOptions,
    r: Result<ParseResultModel, XarfErrorModel>,
) -> bool {
    match decoded_json(json) {
        Err(e) => r == Err::<ParseResultModel, XarfErrorModel>(XarfErrorModel::InvalidJson(e)),
        Ok(j) => if j is Object {
            parse_value_reply(reg, j, options, r)
        } else {
            r == Err::<ParseResultModel, XarfErrorModel>(
                XarfErrorModel::InvalidJson("expected a JSON object, got "@ + json_type_name(j)),
            )
        },
    }
}

/// Parse a report from JSON text with explicit options.
pub fn parse_with_options(reg: &SchemaRegistry, json: &str, options: ParseOptions) -> (r: Result<
    ParseResult,
    XarfError,
>)
    ensures
        parse_text_reply(reg@, json@, options, parse_reply_view(r)),
{
    let value = match decode_json(json) {
        Ok(v) => v,
        Err(e) => {
            return Err(XarfError::InvalidJson(e));
        },
    };
    if !value.is_object() {
        let msg = concat("expected a JSON object, got ", value_type_name(&value));
        return Err(XarfError::InvalidJson(msg));
    }
    parse_value(reg, value, options)
}

/// Parse a report from JSON text with the default options.
pub fn parse(reg: &SchemaRegistry, json: &str) -> (r: Result<ParseResult, XarfError>)
    ensures
        parse_text_reply(
            reg@,
            json@,
            ParseOptions { strict: false, show_missing_optional: false },
            parse_reply_view(r),
        ),
{
    parse_with_options(reg, json, ParseOptions::default())
}

// ---------------------------------------------------------------------------
// Laws
// ---------------------------------------------------------------------------

/// Parsing text fails with `InvalidJson` exactly when the text is not JSON
/// or not a JSON object; the only other failure is a schema that does not
/// compile. Everything else (a failed v3 conversion included) is reported
/// in the result.
pub proof fn lemma_invalid_json_only_for_bad_text(
    reg: RegistryModel,
    json: Seq<char>,
    options: ParseOptions,
    r: Result<ParseResultModel, XarfErrorModel>,
)
    requires
        parse_text_reply(reg, json, options, r),
    ensures
        (r matches Err(XarfErrorModel::InvalidJson(_))) <==> (match decoded_json(json) {
            Ok(j) => !(j is Object),
            Err(_) => true,
        }),
        r matches Err(e) ==> e is InvalidJson || e is Schema,
{
    match decoded_json(json) {
        Ok(j) => {
            if j is Object {
                if is_v3(j) {
                    let (id, now) = choose|id: Seq<char>, now: Seq<char>|
                        uuid_text(id) && utc_time_text(now) && #[trigger] v3_reply(
                            reg,
                            j,
                            options,
                            id,
                            now,
                            r,
                        );
                }
            }
        },
        Err(_) => {},
    }
}

/// In strict mode a parse that finds errors returns no report. Otherwise a
/// report comes back exactly when the document reads as one; when it does
/// not, the reading error is added to the validation errors. The warnings
/// are the conversion warnings followed by the validation warnings.
pub proof fn lemma_parse_outcome_report(
    value: Json,
    pre: Seq<Issue>,
    v: ValidationResultModel,
    options: ParseOptions,
)
    ensures
        options.strict && v.errors.len() > 0 ==> parse_outcome(value, pre, v, options).report is None
            && parse_outcome(value, pre, v, options).errors == v.errors,
        !(options.strict && v.errors.len() > 0) ==> (parse_outcome(value, pre, v, options).report is Some
            <==> report_from_json(value) is Ok),
        !(options.strict && v.errors.len() > 0) && report_from_json(value) is Ok ==> parse_outcome(
            value,
            pre,
            v,
            options,
        ).errors == v.errors,
        parse_outcome(value, pre, v, options).warnings == pre + v.warnings,
        parse_outcome(value, pre, v, options).info == v.info,
{
}

/// Parsing a v3 document, whether or not its conversion succeeds, puts the
/// deprecation notice first among the warnings of a result.
pub proof fn lemma_v3_parse_warns(
    reg: RegistryModel,
    value: Json,
    options: ParseOptions,
    r: Result<ParseResultModel, XarfErrorModel>,
)
    requires
        is_v3(value),
        parse_value_reply(reg, value, options, r),
        r is Ok,
    ensures
        r->Ok_0.warnings.len() > 0,
        r->Ok_0.warnings[0] == (Seq::<char>::empty(), deprecation_text()),
{
    let (id, now) = choose|id: Seq<char>, now: Seq<char>|
        uuid_text(id) && utc_time_text(now) && #[trigger] v3_reply(reg, value, options, id, now, r);
    let w = v3_warnings(v3_conversion(value, id, now).1);
    assert(w[0] == (Seq::<char>::empty(), deprecation_text()));
    match v3_conversion(value, id, now).0 {
        Ok(v4) => {
            let p = r->Ok_0;
            assert((w + p.warnings.skip(w.len() as int))[0] == w[0]);
        },
        Err(_) => {},
    }
}

/// A report written as JSON and parsed again comes back as itself: a parse
/// that succeeds returns the report written, with nothing added to the
/// validation errors, unless strict mode found errors. This holds of every
/// report a parse can return (whose extras are sorted and never name a
/// report field) whose JSON does not read as a v3 report.
pub proof fn lemma_parse_written_report(
    reg: RegistryModel,
    r: ReportModel,
    options: ParseOptions,
    reply: Result<ParseResultModel, XarfErrorModel>,
)
    requires
        keys_sorted(r.extra),
        forall|t: int| 0 <= t < r.extra.len() ==> !is_report_field(#[trigger] r.extra[t].0),
        category_of(category_name(r.category)) == r.category,
        !is_v3(report_json(r)),
        parse_value_reply(reg, report_json(r), options, reply),
        reply is Ok,
    ensures
        !options.strict || reply->Ok_0.errors.len() == 0 ==> reply->Ok_0.report == Some(r),
        !options.strict ==> reply->Ok_0.errors == validation_outcome(
            reg,
            report_json(r),
            validate_options(options),
            schema_errors(
                reg.master,
                reg.documents,
                report_json(r),
            )->Ok_0,
        ).errors,
{
    lemma_report_round_trip(r);
}

/// Parsing a decoded document fails only when a schema does not compile:
/// a failed v3 conversion, schema violations and an unreadable report are
/// all reported in the result.
pub proof fn lemma_parse_value_fails_only_on_schema(
    reg: RegistryModel,
    value: Json,
    options: ParseOptions,
    r: Result<ParseResultModel, XarfErrorModel>,
)
    requires
        parse_value_reply(reg, value, options, r),
    ensures
        r matches Err(e) ==> e is Schema,
{
    if is_v3(value) {
        let (id, now) = choose|id: Seq<char>, now: Seq<char>|
            uuid_text(id) && utc_time_text(now) && #[trigger] v3_reply(reg, value, options, id, now, r);
    }
}

} // verus!
