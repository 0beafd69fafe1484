//! Error and issue types.

use vstd::prelude::*;

use crate::text::{concat, decimal, decimal_string};

verus! {

/// A single structured validation issue. `field` is a dotted path to the
/// offending location (empty for whole-document failures).
#[derive(Debug, PartialEq, Eq)]
pub struct ValidationError {
    pub field: String,
    pub message: String,
}

/// A non-fatal warning surfaced alongside validation results.
#[derive(Debug, PartialEq, Eq)]
pub struct ValidationWarning {
    pub field: String,
    pub message: String,
}

/// Information about an absent optional or recommended field.
#[derive(Debug, PartialEq, Eq)]
pub struct ValidationInfo {
    pub field: String,
    pub message: String,
}

/// The fatal failures of parsing, validation and conversion.
#[derive(Debug, PartialEq, Eq)]
pub enum XarfError {
    /// The input was not valid JSON, or not a JSON object.
    InvalidJson(String),
    /// A report could not be produced at all; the issues say why.
    Validation(Vec<ValidationError>),
    /// A schema document could not be read or compiled.
    Schema(String),
    /// A v3 report could not be converted to v4.
    V3Conversion(String),
    /// Evidence payload encoding/decoding or size-limit failure.
    Evidence(String),
}

/// An issue as a (field, message) pair.
pub type Issue = (Seq<char>, Seq<char>);

impl View for ValidationError {
    type V = Issue;

    open spec fn view(&self) -> Issue {
        (self.field@, self.message@)
    }
}

impl View for ValidationWarning {
    type V = Issue;

    open spec fn view(&self) -> Issue {
        (self.field@, self.message@)
    }
}

impl View for ValidationInfo {
    type V = Issue;

    open spec fn view(&self) -> Issue {
        (self.field@, self.message@)
    }
}

/// The issues of a list of errors.
pub open spec fn errors_view(v: Seq<ValidationError>) -> Seq<Issue> {
    v.map_values(|e: ValidationError| e@)
}

/// The issues of a list of warnings.
pub open spec fn warnings_view(v: Seq<ValidationWarning>) -> Seq<Issue> {
    v.map_values(|e: ValidationWarning| e@)
}

/// The issues of a list of information entries.
pub open spec fn infos_view(v: Seq<ValidationInfo>) -> Seq<Issue> {
    v.map_values(|e: ValidationInfo| e@)
}

impl ValidationError {
    pub fn new(field: String, message: String) -> (r: Self)
        ensures
            r@ == (field@, message@),
    {
        ValidationError { field, message }
    }
}

impl ValidationWarning {
    pub fn new(field: String, message: String) -> (r: Self)
        ensures
            r@ == (field@, message@),
    {
        ValidationWarning { field, message }
    }
}

impl ValidationInfo {
    pub fn new(field: String, message: String) -> (r: Self)
        ensures
            r@ == (field@, message@),
    {
        ValidationInfo { field, message }
    }
}

impl Clone for ValidationError {
    fn clone(&self) -> (r: Self)
        ensures
            r@ == self@,
    {
        ValidationError { field: self.field.clone(), message: self.message.clone() }
    }
}

impl Clone for ValidationWarning {
    fn clone(&self) -> (r: Self)
        ensures
            r@ == self@,
    {
        ValidationWarning { field: self.field.clone(), message: self.message.clone() }
    }
}

impl Clone for ValidationInfo {
    fn clone(&self) -> (r: Self)
        ensures
            r@ == self@,
    {
        ValidationInfo { field: self.field.clone(), message: self.message.clone() }
    }
}

/// The model of an error: its variant and the text it carries (for
/// `Validation`, the issues).
pub ghost enum XarfErrorModel {
    InvalidJson(Seq<char>),
    Validation(Seq<Issue>),
    Schema(Seq<char>),
    V3Conversion(Seq<char>),
    Evidence(Seq<char>),
}

impl View for XarfError {
    type V = XarfErrorModel;

    open spec fn view(&self) -> XarfErrorModel {
        match self {
            XarfError::InvalidJson(s) => XarfErrorModel::InvalidJson(s@),
            XarfError::Validation(v) => XarfErrorModel::Validation(errors_view(v@)),
            XarfError::Schema(s) => XarfErrorModel::Schema(s@),
            XarfError::V3Conversion(s) => XarfErrorModel::V3Conversion(s@),
            XarfError::Evidence(s) => XarfErrorModel::Evidence(s@),
        }
    }
}

/// The human-readable text of an error.
pub open spec fn error_message(e: XarfErrorModel) -> Seq<char> {
    match e {
        XarfErrorModel::InvalidJson(s) => "invalid JSON: "@ + s,
        XarfErrorModel::Validation(v) => "schema validation failed ("@ + decimal(v.len()) + " error(s))"@,
        XarfErrorModel::Schema(s) => "schema error: "@ + s,
        XarfErrorModel::V3Conversion(s) => "v3 conversion failed: "@ + s,
        XarfErrorModel::Evidence(s) => "evidence error: "@ + s,
    }
}

impl XarfError {
    /// The human-readable text of the error.
    pub fn message(&self) -> (r: String)
        ensures
            r@ == error_message(self@),
    {
        match self {
            XarfError::InvalidJson(s) => concat("invalid JSON: ", s.as_str()),
            XarfError::Validation(v) => {
                let n = decimal_string(v.len() as u64);
                let head = concat("schema validation failed (", n.as_str());
                concat(head.as_str(), " error(s))")
            },
            XarfError::Schema(s) => concat("schema error: ", s.as_str()),
            XarfError::V3Conversion(s) => concat("v3 conversion failed: ", s.as_str()),
            XarfError::Evidence(s) => concat("evidence error: ", s.as_str()),
        }
    }
}

} // verus!
