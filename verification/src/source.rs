use vstd::prelude::*;

verus! {

use vstd::string::StringExecFns;

/// Failures reported by a sample source collaborator (a radio device or a
/// capture file). The store performs no device or file work itself; these
/// are vocabulary for the ingestion layer. Input/output failures carry
/// their rendered message rather than a live handle.
#[derive(Debug, Clone, PartialEq)]
pub enum SourceError {
    StartError(String),
    StopError(String),
    DeviceError(String),
    IOError(String),
    StreamError(String),
}

/// The message a source error renders to.
pub open spec fn spec_source_message(e: SourceError) -> Seq<char> {
    match e {
        SourceError::StartError(msg) => "Source Start Error: "@ + msg@,
        SourceError::StopError(msg) => "Source Stop Error: "@ + msg@,
        SourceError::DeviceError(msg) => "Source Device Error: "@ + msg@,
        SourceError::IOError(msg) => "Source IO Error: "@ + msg@,
        SourceError::StreamError(msg) => "Source Stream Error: "@ + msg@,
    }
}

impl SourceError {
    /// Human-readable description of the failure.
    pub fn message(&self) -> (r: String)
        ensures
            r@ == spec_source_message(*self),
    {
        let mut s = String::new();
        match self {
            SourceError::StartError(msg) => {
                s.append("Source Start Error: ");
                s.append(msg.as_str());
            },
            SourceError::StopError(msg) => {
                s.append("Source Stop Error: ");
                s.append(msg.as_str());
            },
            SourceError::DeviceError(msg) => {
                s.append("Source Device Error: ");
                s.append(msg.as_str());
            },
            SourceError::IOError(msg) => {
                s.append("Source IO Error: ");
                s.append(msg.as_str());
            },
            SourceError::StreamError(msg) => {
                s.append("Source Stream Error: ");
                s.append(msg.as_str());
            },
        }
        proof {
            assert(s@ =~= spec_source_message(*self));
        }
        s
    }
}

} // verus!
