//! A boolean check the linker evaluates over the finished layout, with the
//! message reported when it fails.

use vstd::prelude::*;

verus! {

pub struct AssertEntry {
    /// The boolean expression handed to the linker.
    pub check: String,
    /// The message reported when the check fails.
    pub error_message: String,
    pub exclude_if_any: Vec<String>,
    pub exclude_if_all: Vec<String>,
    pub include_if_any: Vec<String>,
    pub include_if_all: Vec<String>,
}

impl AssertEntry {
    pub fn new(check: String, error_message: String) -> (r: AssertEntry)
        ensures
            r.check == check,
            r.error_message == error_message,
            r.exclude_if_any.len() == 0,
            r.exclude_if_all.len() == 0,
            r.include_if_any.len() == 0,
            r.include_if_all.len() == 0,
    {
        AssertEntry {
            check,
            error_message,
            exclude_if_any: Vec::new(),
            exclude_if_all: Vec::new(),
            include_if_any: Vec::new(),
            include_if_all: Vec::new(),
        }
    }
}

} // verus!
