use vstd::prelude::*;

verus! {

use crate::render::micro_string;
use crate::render::milli_string;
use crate::render::push_micro;
use crate::render::push_milli;
use vstd::string::StringExecFns;

/// Validation failures raised by the fallible factories of the value types.
/// Queries and aggregation never fail, so no further variants are needed.
/// Numeric payloads carry the rejected value in the library's fixed-point
/// units (microdegrees for angles, millihertz for frequencies).
#[derive(Debug, Clone, PartialEq)]
pub enum ValidationError {
    InvalidLatitude(i64),
    InvalidLongitude(i64),
    InvalidFrequency(i64),
    InvalidBoundingBox(String),
    EmptyDataset,
}

/// The message a validation error renders to, with the rejected value in
/// natural units: degrees for angles, hertz for frequencies.
pub open spec fn spec_message(e: ValidationError) -> Seq<char> {
    match e {
        ValidationError::InvalidLatitude(v) => "Invalid latitude: "@ + micro_string(v as int)
            + " (must be between -90 and 90)"@,
        ValidationError::InvalidLongitude(v) => "Invalid longitude: "@ + micro_string(v as int)
            + " (must be between -180 and 180)"@,
        ValidationError::InvalidFrequency(v) => "Invalid frequency: "@ + milli_string(v as int)
            + " (must be positive)"@,
        ValidationError::InvalidBoundingBox(reason) => "Invalid bounding box: "@ + reason@,
        ValidationError::EmptyDataset => "Dataset is empty"@,
    }
}

impl ValidationError {
    /// Human-readable description of the failure.
    pub fn message(&self) -> (r: String)
        ensures
            r@ == spec_message(*self),
    {
        let mut s = String::new();
        match self {
            ValidationError::InvalidLatitude(v) => {
                s.append("Invalid latitude: ");
                push_micro(&mut s, *v);
                s.append(" (must be between -90 and 90)");
            },
            ValidationError::InvalidLongitude(v) => {
                s.append("Invalid longitude: ");
                push_micro(&mut s, *v);
                s.append(" (must be between -180 and 180)");
            },
            ValidationError::InvalidFrequency(v) => {
                s.append("Invalid frequency: ");
                push_milli(&mut s, *v);
                s.append(" (must be positive)");
            },
            ValidationError::InvalidBoundingBox(reason) => {
                s.append("Invalid bounding box: ");
                s.append(reason.as_str());
            },
            ValidationError::EmptyDataset => {
                s.append("Dataset is empty");
            },
        }
        proof {
            assert(s@ =~= spec_message(*self));
        }
        s
    }
}

/// Failures reported by a persistence collaborator. The store itself never
/// produces these; they are vocabulary for callers that map measurements to
/// and from a relational backend.
#[derive(Debug, Clone, PartialEq)]
pub enum DatabaseError {
    ConnectionError(String),
    QueryError(String),
    NotFound(String),
    DuplicateEntry(String),
}

} // verus!
