#[test]
fn root_namespace_exposes_canonical_types() {
    let _: Option<xarf::Report> = None;
    let _: Option<xarf::Contact> = None;
    let _: Option<xarf::Evidence> = None;
    let _: Option<xarf::Category> = None;
    let _: Option<xarf::ParseResult> = None;
    let _: Option<xarf::ValidationResult> = None;
    let _: Option<xarf::ValidationError> = None;
    let _: Option<xarf::ValidationWarning> = None;
    let _: Option<xarf::ValidationInfo> = None;
    let _: Option<xarf::XarfError> = None;
    let _: Option<xarf::HashAlgorithm> = None;
    let _: Option<xarf::EvidenceOptions> = None;
    let _: Option<xarf::CreateReportOptions> = None;
    let _: Option<xarf::ParseOptions> = None;
    let _: Option<xarf::ValidateOptions> = None;
    let _: Option<xarf::ReportBuilder> = None;
}

#[test]
fn spec_version_constant_is_4_2_0() {
    assert_eq!(xarf::SPEC_VERSION, "4.2.0");
}
