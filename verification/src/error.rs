//! Structured errors for document validation and artifact export.

use vstd::prelude::*;

verus! {

/// Every failure carries the identity of the offending field or content,
/// never a bare message.
#[derive(Debug, Clone, PartialEq, Eq)]
pub enum SlinkyError {
    /// A required field was absent (or explicitly null where a value is needed).
    MissingValue { name: String },
    /// A required field was present but empty.
    EmptyValue { name: String },
    /// Two mutually-exclusive fields were populated together.
    InvalidFieldCombo { field1: String, field2: String },
    /// A segment referenced an address class that the document does not declare.
    MissingVramClassForSegment { segment: String, vram_class: String },
    /// Writing a finished artifact to its sink failed.
    FailedWrite { description: String, contents: String },
    /// Converting accumulated bytes into text failed.
    FailedStringConversion { description: String },
}

} // verus!
