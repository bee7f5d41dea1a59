//! Error kinds of the generation pipeline. Every kind is fatal to a
//! run: callers surface the first error and exit non-zero.
use vstd::prelude::*;

verus! {

#[derive(Debug, Clone)]
pub enum GenError {
    /// Malformed expansions, unknown variant, missing required
    /// generator var, or an unresolved `${id}` expansion.
    InvalidInput(String),
    /// A suite document without a mapping at its root, with a
    /// non-mapping executor, or that cannot be parsed.
    InvalidSuiteConfig,
    /// A test-runner probe exited non-zero or printed unusable output.
    ExternalProcess(String),
    /// The CI service client failed.
    RemoteService(String),
    /// A file could not be read or written.
    Io(String),
}

impl GenError {
    pub open spec fn is_invalid_suite_config(&self) -> bool {
        self is InvalidSuiteConfig
    }

    /// A short label for the error kind, for log lines.
    pub fn kind_label(&self) -> (r: String)
        ensures
            r@ == match self {
                GenError::InvalidInput(_) => "invalid input"@,
                GenError::InvalidSuiteConfig => "invalid suite config"@,
                GenError::ExternalProcess(_) => "external process failure"@,
                GenError::RemoteService(_) => "remote service failure"@,
                GenError::Io(_) => "io failure"@,
            },
    {
        match self {
            GenError::InvalidInput(_) => "invalid input".to_owned(),
            GenError::InvalidSuiteConfig => "invalid suite config".to_owned(),
            GenError::ExternalProcess(_) => "external process failure".to_owned(),
            GenError::RemoteService(_) => "remote service failure".to_owned(),
            GenError::Io(_) => "io failure".to_owned(),
        }
    }
}

} // verus!
