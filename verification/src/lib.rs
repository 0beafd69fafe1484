//! XARF v4 parser, validator, and generator.

pub mod crypto;
pub mod engine;
pub mod error;
mod fresh;
pub mod generator;
pub mod hex;
pub mod json;
pub mod laws;
pub mod model;
pub mod parser;
pub mod round_trip;
pub mod schemas;
pub mod text;
pub mod v3_compat;
pub mod v3_laws;
pub mod validator;

pub use error::{ValidationError, ValidationInfo, ValidationWarning, XarfError};
pub use generator::{
    create_evidence, create_evidence_with_options, create_report, CreateReportOptions,
    EvidenceOptions, HashAlgorithm, ReportBuilder, SPEC_VERSION,
};
pub use model::{Category, Contact, Evidence, Report};
pub use parser::{parse, parse_value, parse_with_options, ParseOptions, ParseResult};
pub use v3_compat::{convert_v3_to_v4, deprecation_warning, is_v3_report};
pub use validator::{quick_errors, validate, ValidateOptions, ValidationResult};
