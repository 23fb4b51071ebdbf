//! The closed set of file-descriptor kinds, and kind inference from a path's
//! suffix.

use vstd::prelude::*;

use crate::str_utils::{spec_ends_with, str_ends_with};

verus! {

#[derive(Clone, Copy, Debug, PartialEq, Eq, Structural)]
pub enum FileKind {
    /// A single relocatable object whose sections are placed directly.
    Object,
    /// An archive of objects; a member selector picks which ones.
    Archive,
    /// A raw advance of the address counter.
    Pad,
    /// A single address-marker symbol inside a section.
    LinkerOffset,
    /// A nested directory with its own descriptor list, flattened in place.
    Group,
}

/// Kind inference for a record that gives no explicit kind: the known archive
/// suffix selects `Archive`, every other suffix falls back to `Object`.
pub open spec fn spec_kind_from_path(path: Seq<char>) -> FileKind {
    if spec_ends_with(path, ".a"@) {
        FileKind::Archive
    } else {
        FileKind::Object
    }
}

impl FileKind {
    pub fn from_path(path: &str) -> (r: FileKind)
        ensures
            r == spec_kind_from_path(path@),
    {
        if str_ends_with(path, ".a") {
            FileKind::Archive
        } else {
            FileKind::Object
        }
    }
}

} // verus!
