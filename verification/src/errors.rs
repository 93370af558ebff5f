//! Error taxonomy of the agent. Causes coming from outside the library are
//! carried as plain message strings.

use vstd::prelude::*;

use crate::text::{spec_u64_dec, u64_to_string};

verus! {

/// Configuration errors: the agent refuses to start on these.
#[derive(Debug, Clone)]
pub enum ConfigError {
    /// The configuration file is missing; carries its path.
    NotFound(String),
    /// The configuration is structurally invalid; carries a description.
    Invalid(String),
    /// The configuration text failed to parse; carries the parser message.
    Parse(String),
    /// A required field is absent; carries the field name.
    MissingField(String),
}

/// Watch-path errors; per instrument, they demote the watcher to poll mode.
#[derive(Debug, Clone)]
pub enum WatcherError {
    PathNotFound(String),
    PathNotAccessible(String),
    /// The event subsystem failed; carries its message.
    Notify(String),
    FinalizationTimeout(String),
}

/// Classification errors.
#[derive(Debug, Clone)]
pub enum ClassificationError {
    /// The path has no representable file-name component.
    FilenameParse(String),
    UnknownControlType(String),
    InvalidWellPosition(String),
}

/// Extraction errors.
#[derive(Debug, Clone)]
pub enum ExtractionError {
    /// The extractor binary was not found; carries the path looked at.
    SkylineNotFound(String),
    /// The extractor subprocess failed; carries its output.
    SkylineExecution(String),
    /// The extractor exceeded its wall-clock budget, in seconds.
    SkylineTimeout(u64),
    TemplateNotFound(String),
    VendorReaderMissing(String),
    ReportParse(String),
}

impl ExtractionError {
    /// Render the error as the reason string recorded for it.
    pub fn message(&self) -> (r: String)
        ensures
            r@ == match *self {
                ExtractionError::SkylineNotFound(ref p) => "skyline not found at: "@ + p@,
                ExtractionError::SkylineExecution(ref m) => "skyline execution failed: "@ + m@,
                ExtractionError::SkylineTimeout(n) => "skyline timeout after "@ + spec_u64_dec(
                    n as int,
                ) + " seconds"@,
                ExtractionError::TemplateNotFound(ref p) => "template not found: "@ + p@,
                ExtractionError::VendorReaderMissing(ref v) => "vendor reader not available for: "@
                    + v@,
                ExtractionError::ReportParse(ref m) => "report parse error: "@ + m@,
            },
    {
        match self {
            ExtractionError::SkylineNotFound(p) => String::from_str(
                "skyline not found at: ",
            ).concat(p.as_str()),
            ExtractionError::SkylineExecution(m) => String::from_str(
                "skyline execution failed: ",
            ).concat(m.as_str()),
            ExtractionError::SkylineTimeout(n) => String::from_str(
                "skyline timeout after ",
            ).concat(u64_to_string(*n).as_str()).concat(" seconds"),
            ExtractionError::TemplateNotFound(p) => String::from_str(
                "template not found: ",
            ).concat(p.as_str()),
            ExtractionError::VendorReaderMissing(v) => String::from_str(
                "vendor reader not available for: ",
            ).concat(v.as_str()),
            ExtractionError::ReportParse(m) => String::from_str("report parse error: ").concat(
                m.as_str(),
            ),
        }
    }
}

/// Spool errors.
#[derive(Debug, Clone)]
pub enum SpoolError {
    NotWritable(String),
    /// The pending directory is over its size cap: used and limit, in MB.
    Full(u64, u64),
    /// Payload serialization failed; carries the serializer message.
    Serialization(String),
    /// A file operation failed; carries the OS message.
    FileOperation(String),
}

impl SpoolError {
    /// Render the error as the reason string recorded for it.
    pub fn message(&self) -> (r: String)
        ensures
            r@ == match *self {
                SpoolError::NotWritable(ref p) => "spool directory not writable: "@ + p@,
                SpoolError::Full(used, cap) => "spool full: "@ + spec_u64_dec(used as int)
                    + " MB used of "@ + spec_u64_dec(cap as int) + " MB limit"@,
                SpoolError::Serialization(ref m) => "serialization error: "@ + m@,
                SpoolError::FileOperation(ref m) => "file operation failed: "@ + m@,
            },
    {
        match self {
            SpoolError::NotWritable(p) => String::from_str(
                "spool directory not writable: ",
            ).concat(p.as_str()),
            SpoolError::Full(used, cap) => String::from_str("spool full: ").concat(
                u64_to_string(*used).as_str(),
            ).concat(" MB used of ").concat(u64_to_string(*cap).as_str()).concat(" MB limit"),
            SpoolError::Serialization(m) => String::from_str("serialization error: ").concat(
                m.as_str(),
            ),
            SpoolError::FileOperation(m) => String::from_str("file operation failed: ").concat(
                m.as_str(),
            ),
        }
    }
}

/// Upload errors.
#[derive(Debug, Clone)]
pub enum UploadError {
    /// A transport failure; carries the client message.
    Network(String),
    /// The server answered 401 or 403; carries status and body.
    Authentication(String),
    /// The server answered another non-success status.
    Server { status: u16, message: String },
    Certificate(String),
    /// The retry ladder was exhausted after the given number of attempts.
    RetryExhausted(u32),
}

/// Baseline errors.
#[derive(Debug, Clone)]
pub enum BaselineError {
    NoActiveBaseline(String),
    ValidationFailed(String),
    ResetFailed(String),
}

/// Top-level error of the agent.
#[derive(Debug, Clone)]
pub enum AgentError {
    Config(ConfigError),
    Watcher(WatcherError),
    Classification(ClassificationError),
    Extraction(ExtractionError),
    Spool(SpoolError),
    Upload(UploadError),
    Baseline(BaselineError),
    /// An I/O failure outside the taxonomy above; carries the OS message.
    Io(String),
    Service(String),
}

} // verus!
