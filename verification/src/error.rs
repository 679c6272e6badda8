use vstd::prelude::*;

verus! {

/// Every failure the library reports.  Parse failures carry the offending
/// input so callers can surface it; build failures point at the preserved
/// compile log.
#[derive(Debug, PartialEq, Eq)]
pub enum KiwiError {
    /// A source file's extension is neither `.tex` nor `.md`.
    UnsupportedExtension(String),
    /// A source path does not have the `docs/<class>/<month>/<type>/<name>` shape.
    PathShapeMismatch(String),
    /// The embedded preamble lacks a required key (`created` or `root`).
    MissingRequiredField(String),
    /// The `created` value is not a valid `YYYY-MM-DD` calendar date.
    InvalidDateFormat(String),
    /// A path directory segment names no known document type.
    UnknownDocumentType(String),
    /// A path directory segment names no class of the configuration.
    UnknownClass(String),
    /// A template filename does not end in the expected `.hbs` suffix.
    InvalidTemplateName(String),
    /// The template engine rejected a template or its context.
    TemplateRender(String),
    /// The external compile step exited with a failure; the payload is the
    /// path of the log that preserves its output.
    BuildFailed(String),
    /// An external read, write or move failed; the payload describes it.
    Io(String),
    /// The build driver handed the pipeline an event its current stage
    /// cannot accept.
    ProtocolViolation,
}

impl KiwiError {
    /// A short human-readable description of the failure.
    pub fn message(&self) -> String {
        match self {
            KiwiError::UnsupportedExtension(p) => {
                let mut m = "unsupported file extension: ".to_owned();
                m.append(p.as_str());
                m
            },
            KiwiError::PathShapeMismatch(p) => {
                let mut m = "path does not match the document layout: ".to_owned();
                m.append(p.as_str());
                m
            },
            KiwiError::MissingRequiredField(k) => {
                let mut m = "missing required key: ".to_owned();
                m.append(k.as_str());
                m
            },
            KiwiError::InvalidDateFormat(v) => {
                let mut m = "invalid date: ".to_owned();
                m.append(v.as_str());
                m
            },
            KiwiError::UnknownDocumentType(v) => {
                let mut m = "unknown document type: ".to_owned();
                m.append(v.as_str());
                m
            },
            KiwiError::UnknownClass(v) => {
                let mut m = "unknown class: ".to_owned();
                m.append(v.as_str());
                m
            },
            KiwiError::InvalidTemplateName(v) => {
                let mut m = "invalid template filename: ".to_owned();
                m.append(v.as_str());
                m
            },
            KiwiError::TemplateRender(v) => {
                let mut m = "template rendering failed: ".to_owned();
                m.append(v.as_str());
                m
            },
            KiwiError::BuildFailed(log) => {
                let mut m = "PDF build failed; please check ".to_owned();
                m.append(log.as_str());
                m
            },
            KiwiError::Io(v) => {
                let mut m = "i/o failure: ".to_owned();
                m.append(v.as_str());
                m
            },
            KiwiError::ProtocolViolation => {
                "build event does not match the current build stage".to_owned()
            },
        }
    }
}

} // verus!
