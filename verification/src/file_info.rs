//! Validated file descriptors. A raw, optionally-populated record
//! (`FileInfoSerial`) plus an explicit or inferred kind tag is normalized into
//! a strict `FileInfo` whose field population is determined exactly by its
//! kind; every disallowed field combination is rejected with the pair of
//! field identifiers involved.

use vstd::prelude::*;
use vstd::string::{StrSliceExecFns, StringExecFns};

use crate::absent_nullable::AbsentNullable;
use crate::error::SlinkyError;
use crate::file_kind::{spec_kind_from_path, FileKind};
use crate::settings::Settings;

verus! {

/// Whether a linker `KEEP` wrapper is emitted for a file's input sections:
/// never, for every section, or for a named subset.
#[derive(Debug, PartialEq)]
pub enum KeepSections {
    Absent,
    All(bool),
    WhichOnes(Vec<String>),
}

/// A validated file descriptor. The kind determines which fields carry
/// information; all others stay at their defaults (see `shallow_wf`).
#[derive(Debug, PartialEq)]
pub struct FileInfo {
    pub path: String,
    pub kind: FileKind,
    /// Which archive members are selected; `*` outside `Archive`.
    pub subfile: String,
    pub pad_amount: u32,
    pub section: String,
    pub linker_offset_name: String,
    /// Redirections: each pair maps one of the file's own sections to the
    /// destination section its content is folded into.
    pub section_order: Vec<(String, String)>,
    /// Extra directory prefix of a `Group`.
    pub dir: String,
    /// Nested descriptors of a `Group`.
    pub files: Vec<FileInfo>,
    pub keep_sections: KeepSections,
    pub exclude_if_any: Vec<String>,
    pub exclude_if_all: Vec<String>,
    pub include_if_any: Vec<String>,
    pub include_if_all: Vec<String>,
}

impl FileInfo {
    /// Field population determined by the kind, at this descriptor alone.
    pub open spec fn shallow_wf(self) -> bool {
        match self.kind {
            FileKind::Object => {
                &&& self.path@.len() > 0
                &&& self.subfile@ == "*"@
                &&& self.pad_amount == 0
                &&& self.section@ == Seq::<char>::empty()
                &&& self.linker_offset_name@ == Seq::<char>::empty()
                &&& self.dir@ == Seq::<char>::empty()
                &&& self.files.len() == 0
            },
            FileKind::Archive => {
                &&& self.path@.len() > 0
                &&& self.pad_amount == 0
                &&& self.section@ == Seq::<char>::empty()
                &&& self.linker_offset_name@ == Seq::<char>::empty()
                &&& self.dir@ == Seq::<char>::empty()
                &&& self.files.len() == 0
            },
            FileKind::Pad => {
                &&& self.path@ == Seq::<char>::empty()
                &&& self.subfile@ == "*"@
                &&& self.linker_offset_name@ == Seq::<char>::empty()
                &&& self.section_order.len() == 0
                &&& self.dir@ == Seq::<char>::empty()
                &&& self.files.len() == 0
            },
            FileKind::LinkerOffset => {
                &&& self.path@ == Seq::<char>::empty()
                &&& self.subfile@ == "*"@
                &&& self.pad_amount == 0
                &&& self.section_order.len() == 0
                &&& self.dir@ == Seq::<char>::empty()
                &&& self.files.len() == 0
            },
            FileKind::Group => {
                &&& self.path@ == Seq::<char>::empty()
                &&& self.subfile@ == "*"@
                &&& self.pad_amount == 0
                &&& self.section@ == Seq::<char>::empty()
                &&& self.linker_offset_name@ == Seq::<char>::empty()
                &&& self.section_order.len() == 0
            },
        }
    }

    /// `shallow_wf` at every level of nesting.
    pub open spec fn wf(self) -> bool
        decreases self,
    {
        &&& self.shallow_wf()
        &&& forall|i: int| 0 <= i < self.files.len() ==> #[trigger] self.files[i].wf()
    }
}

/// A raw input record: every field may be absent, explicitly null, or given.
/// Nested descriptors of a group arrive already validated, bottom-up.
#[derive(Debug, PartialEq)]
pub struct FileInfoSerial {
    pub path: AbsentNullable<String>,
    pub kind: AbsentNullable<FileKind>,
    pub subfile: AbsentNullable<String>,
    pub pad_amount: AbsentNullable<u32>,
    pub section: AbsentNullable<String>,
    pub linker_offset_name: AbsentNullable<String>,
    pub section_order: AbsentNullable<Vec<(String, String)>>,
    pub dir: AbsentNullable<String>,
    pub files: AbsentNullable<Vec<FileInfo>>,
    pub keep_sections: AbsentNullable<KeepSections>,
    pub exclude_if_any: AbsentNullable<Vec<String>>,
    pub exclude_if_all: AbsentNullable<Vec<String>>,
    pub include_if_any: AbsentNullable<Vec<String>>,
    pub include_if_all: AbsentNullable<Vec<String>>,
}

/// The first rule a raw record breaks, if any, in validation order.
#[derive(Debug, Clone, Copy, PartialEq, Eq, Structural)]
pub enum FileInfoFault {
    KindNull,
    PathMissing,
    PathEmpty,
    PathForbiddenPadLinkerOffset,
    PathForbiddenGroup,
    SubfileForbidden,
    SubfileNull,
    PadAmountForbidden,
    PadAmountMissing,
    SectionForbidden,
    SectionMissing,
    LinkerOffsetNameForbidden,
    LinkerOffsetNameMissing,
    SectionOrderForbidden,
    SectionOrderNull,
    DirForbidden,
    DirMissing,
    FilesForbidden,
    FilesMissing,
    KeepSectionsNull,
    ExcludeIfAnyNull,
    ExcludeIfAllNull,
    IncludeIfAnyNull,
    IncludeIfAllNull,
}

/// The error each fault is reported as: the variant and the exact field
/// identifiers it names.
pub open spec fn fault_to_error(fl: FileInfoFault, e: SlinkyError) -> bool {
    match fl {
        FileInfoFault::KindNull => e matches SlinkyError::MissingValue { name } && name@
            == "kind"@,
        FileInfoFault::PathMissing => e matches SlinkyError::MissingValue { name } && name@
            == "path"@,
        FileInfoFault::PathEmpty => e matches SlinkyError::EmptyValue { name } && name@
            == "path"@,
        FileInfoFault::PathForbiddenPadLinkerOffset => e matches SlinkyError::InvalidFieldCombo {
            field1,
            field2,
        } && field1@ == "kind: pad or kind: linker_offset"@ && field2@ == "path"@,
        FileInfoFault::PathForbiddenGroup => e matches SlinkyError::InvalidFieldCombo {
            field1,
            field2,
        } && field1@ == "kind: group"@ && field2@ == "path"@,
        FileInfoFault::SubfileForbidden => e matches SlinkyError::InvalidFieldCombo {
            field1,
            field2,
        } && field1@ == "subfile"@ && field2@ == "non `kind: archive`"@,
        FileInfoFault::SubfileNull => e matches SlinkyError::MissingValue { name } && name@
            == "subfile"@,
        FileInfoFault::PadAmountForbidden => e matches SlinkyError::InvalidFieldCombo {
            field1,
            field2,
        } && field1@ == "pad_amount"@ && field2@ == "non `kind: pad`"@,
        FileInfoFault::PadAmountMissing => e matches SlinkyError::MissingValue { name } && name@
            == "pad_amount"@,
        FileInfoFault::SectionForbidden => e matches SlinkyError::InvalidFieldCombo {
            field1,
            field2,
        } && field1@ == "section"@ && field2@ == "non `kind: pad or kind: linker_offset`"@,
        FileInfoFault::SectionMissing => e matches SlinkyError::MissingValue { name } && name@
            == "section"@,
        FileInfoFault::LinkerOffsetNameForbidden => e matches SlinkyError::InvalidFieldCombo {
            field1,
            field2,
        } && field1@ == "linker_offset_name"@ && field2@ == "non `kind: linker_offset`"@,
        FileInfoFault::LinkerOffsetNameMissing => e matches SlinkyError::MissingValue { name }
            && name@ == "linker_offset_name"@,
        FileInfoFault::SectionOrderForbidden => e matches SlinkyError::InvalidFieldCombo {
            field1,
            field2,
        } && field1@ == "section_order"@ && field2@ == "non `kind: object` or `kind: archive`"@,
        FileInfoFault::SectionOrderNull => e matches SlinkyError::MissingValue { name } && name@
            == "section_order"@,
        FileInfoFault::DirForbidden => e matches SlinkyError::InvalidFieldCombo { field1, field2 }
            && field1@ == "dir"@ && field2@ == "non `kind: group`"@,
        FileInfoFault::DirMissing => e matches SlinkyError::MissingValue { name } && name@
            == "dir"@,
        FileInfoFault::FilesForbidden => e matches SlinkyError::InvalidFieldCombo {
            field1,
            field2,
        } && field1@ == "files"@ && field2@ == "non `kind: group`"@,
        FileInfoFault::FilesMissing => e matches SlinkyError::MissingValue { name } && name@
            == "files"@,
        FileInfoFault::KeepSectionsNull => e matches SlinkyError::MissingValue { name } && name@
            == "keep_sections"@,
        FileInfoFault::ExcludeIfAnyNull => e matches SlinkyError::MissingValue { name } && name@
            == "exclude_if_any"@,
        FileInfoFault::ExcludeIfAllNull => e matches SlinkyError::MissingValue { name } && name@
            == "exclude_if_all"@,
        FileInfoFault::IncludeIfAnyNull => e matches SlinkyError::MissingValue { name } && name@
            == "include_if_any"@,
        FileInfoFault::IncludeIfAllNull => e matches SlinkyError::MissingValue { name } && name@
            == "include_if_all"@,
    }
}

impl FileInfoSerial {
    /// The kind an error-free record resolves to: the explicit tag if given,
    /// else the kind inferred from the path's suffix.
    pub open spec fn spec_resolved_kind(self) -> FileKind {
        match self.kind {
            AbsentNullable::Value(k) => k,
            _ => match self.path {
                AbsentNullable::Value(p) => spec_kind_from_path(p@),
                _ => FileKind::Object,
            },
        }
    }

    /// Whether the record's kind resolution demands a non-empty path.
    pub open spec fn spec_kind_requires_path(self) -> bool {
        match self.kind {
            AbsentNullable::Value(k) => k == FileKind::Object || k == FileKind::Archive,
            AbsentNullable::Absent => true,
            AbsentNullable::Null => false,
        }
    }

    /// The first rule this record breaks, if any, in validation order: kind
    /// and path together, then subfile, pad_amount, section,
    /// linker_offset_name, section_order, dir, files, and the pass-through
    /// fields.
    pub open spec fn spec_fault(self) -> Option<FileInfoFault> {
        let k = self.spec_resolved_kind();
        if self.kind is Null {
            Some(FileInfoFault::KindNull)
        } else if self.spec_kind_requires_path() && !(self.path is Value) {
            Some(FileInfoFault::PathMissing)
        } else if self.spec_kind_requires_path() && self.path.value()@.len() == 0 {
            Some(FileInfoFault::PathEmpty)
        } else if (self.kind matches AbsentNullable::Value(
            FileKind::Pad
            | FileKind::LinkerOffset,
        )) && self.path is Value {
            Some(FileInfoFault::PathForbiddenPadLinkerOffset)
        } else if (self.kind matches AbsentNullable::Value(FileKind::Group)) && self.path
            is Value {
            Some(FileInfoFault::PathForbiddenGroup)
        } else if k != FileKind::Archive && self.subfile is Value {
            Some(FileInfoFault::SubfileForbidden)
        } else if k == FileKind::Archive && self.subfile is Null {
            Some(FileInfoFault::SubfileNull)
        } else if k != FileKind::Pad && self.pad_amount is Value {
            Some(FileInfoFault::PadAmountForbidden)
        } else if k == FileKind::Pad && !(self.pad_amount is Value) {
            Some(FileInfoFault::PadAmountMissing)
        } else if (k == FileKind::Object || k == FileKind::Archive || k == FileKind::Group)
            && self.section is Value {
            Some(FileInfoFault::SectionForbidden)
        } else if (k == FileKind::Pad || k == FileKind::LinkerOffset) && !(self.section
            is Value) {
            Some(FileInfoFault::SectionMissing)
        } else if k != FileKind::LinkerOffset && self.linker_offset_name is Value {
            Some(FileInfoFault::LinkerOffsetNameForbidden)
        } else if k == FileKind::LinkerOffset && !(self.linker_offset_name is Value) {
            Some(FileInfoFault::LinkerOffsetNameMissing)
        } else if (k == FileKind::Pad || k == FileKind::LinkerOffset || k == FileKind::Group)
            && self.section_order is Value {
            Some(FileInfoFault::SectionOrderForbidden)
        } else if (k == FileKind::Object || k == FileKind::Archive) && self.section_order
            is Null {
            Some(FileInfoFault::SectionOrderNull)
        } else if k != FileKind::Group && self.dir is Value {
            Some(FileInfoFault::DirForbidden)
        } else if k == FileKind::Group && !(self.dir is Value) {
            Some(FileInfoFault::DirMissing)
        } else if k != FileKind::Group && self.files is Value {
            Some(FileInfoFault::FilesForbidden)
        } else if k == FileKind::Group && !(self.files is Value) {
            Some(FileInfoFault::FilesMissing)
        } else if self.keep_sections is Null {
            Some(FileInfoFault::KeepSectionsNull)
        } else if self.exclude_if_any is Null {
            Some(FileInfoFault::ExcludeIfAnyNull)
        } else if self.exclude_if_all is Null {
            Some(FileInfoFault::ExcludeIfAllNull)
        } else if self.include_if_any is Null {
            Some(FileInfoFault::IncludeIfAnyNull)
        } else if self.include_if_all is Null {
            Some(FileInfoFault::IncludeIfAllNull)
        } else {
            None
        }
    }

    /// What each field of the validated descriptor holds, for an error-free
    /// record.
    pub open spec fn spec_result_ok(self, f: FileInfo) -> bool {
        let k = self.spec_resolved_kind();
        &&& f.kind == k
        &&& f.path@ == if k == FileKind::Object || k == FileKind::Archive {
            self.path.value()@
        } else {
            Seq::<char>::empty()
        }
        &&& f.subfile@ == if k == FileKind::Archive && self.subfile is Value {
            self.subfile.value()@
        } else {
            "*"@
        }
        &&& f.pad_amount == if k == FileKind::Pad {
            self.pad_amount.value()
        } else {
            0u32
        }
        &&& f.section@ == if k == FileKind::Pad || k == FileKind::LinkerOffset {
            self.section.value()@
        } else {
            Seq::<char>::empty()
        }
        &&& f.linker_offset_name@ == if k == FileKind::LinkerOffset {
            self.linker_offset_name.value()@
        } else {
            Seq::<char>::empty()
        }
        &&& if (k == FileKind::Object || k == FileKind::Archive) && self.section_order
            is Value {
            f.section_order == self.section_order.value()
        } else {
            f.section_order.len() == 0
        }
        &&& f.dir@ == if k == FileKind::Group {
            self.dir.value()@
        } else {
            Seq::<char>::empty()
        }
        &&& if k == FileKind::Group {
            f.files == self.files.value()
        } else {
            f.files.len() == 0
        }
        &&& f.keep_sections == if self.keep_sections is Value {
            self.keep_sections.value()
        } else {
            KeepSections::Absent
        }
        &&& if self.exclude_if_any is Value {
            f.exclude_if_any == self.exclude_if_any.value()
        } else {
            f.exclude_if_any.len() == 0
        }
        &&& if self.exclude_if_all is Value {
            f.exclude_if_all == self.exclude_if_all.value()
        } else {
            f.exclude_if_all.len() == 0
        }
        &&& if self.include_if_any is Value {
            f.include_if_any == self.include_if_any.value()
        } else {
            f.include_if_any.len() == 0
        }
        &&& if self.include_if_all is Value {
            f.include_if_all == self.include_if_all.value()
        } else {
            f.include_if_all.len() == 0
        }
        &&& f.shallow_wf()
    }

    /// Normalizes this raw record into a strict descriptor, or reports the
    /// first broken rule. The settings take no part in the decision today;
    /// the parameter keeps the call shape stable.
    pub fn unserialize(self, _settings: &Settings) -> (r: Result<FileInfo, SlinkyError>)
        ensures
            match self.spec_fault() {
                Some(fl) => r matches Err(e) && fault_to_error(fl, e),
                None => r matches Ok(f) && self.spec_result_ok(f),
            },
    {
        let FileInfoSerial {
            path: s_path,
            kind: s_kind,
            subfile: s_subfile,
            pad_amount: s_pad_amount,
            section: s_section,
            linker_offset_name: s_linker_offset_name,
            section_order: s_section_order,
            dir: s_dir,
            files: s_files,
            keep_sections: s_keep_sections,
            exclude_if_any: s_exclude_if_any,
            exclude_if_all: s_exclude_if_all,
            include_if_any: s_include_if_any,
            include_if_all: s_include_if_all,
        } = self;

        // A kind can be inferred from a path, and an explicit kind decides
        // whether a path may be present at all, so both resolve together.
        let (path, kind) = match s_kind.get_non_null_no_default("kind")? {
            Some(k) => match k {
                FileKind::Object | FileKind::Archive => {
                    let p = s_path.get("path")?;
                    if p.as_str().unicode_len() == 0 {
                        return Err(SlinkyError::EmptyValue { name: String::from_str("path") });
                    }
                    (p, k)
                },
                FileKind::Pad | FileKind::LinkerOffset => {
                    if s_path.has_value() {
                        return Err(combo_err("kind: pad or kind: linker_offset", "path"));
                    }
                    (String::new(), k)
                },
                FileKind::Group => {
                    if s_path.has_value() {
                        return Err(combo_err("kind: group", "path"));
                    }
                    (String::new(), k)
                },
            },
            None => {
                let p = s_path.get("path")?;
                if p.as_str().unicode_len() == 0 {
                    return Err(SlinkyError::EmptyValue { name: String::from_str("path") });
                }
                let k = FileKind::from_path(p.as_str());
                (p, k)
            },
        };

        let subfile = match kind {
            FileKind::Object | FileKind::LinkerOffset | FileKind::Pad | FileKind::Group => {
                if s_subfile.has_value() {
                    return Err(combo_err("subfile", "non `kind: archive`"));
                }
                String::from_str("*")
            },
            FileKind::Archive => s_subfile.get_non_null("subfile", String::from_str("*"))?,
        };

        let pad_amount = match kind {
            FileKind::Object | FileKind::LinkerOffset | FileKind::Archive | FileKind::Group => {
                if s_pad_amount.has_value() {
                    return Err(combo_err("pad_amount", "non `kind: pad`"));
                }
                0
            },
            FileKind::Pad => s_pad_amount.get("pad_amount")?,
        };

        let section = match kind {
            FileKind::Object | FileKind::Archive | FileKind::Group => {
                if s_section.has_value() {
                    return Err(combo_err("section", "non `kind: pad or kind: linker_offset`"));
                }
                String::new()
            },
            FileKind::Pad | FileKind::LinkerOffset => s_section.get("section")?,
        };

        let linker_offset_name = match kind {
            FileKind::Object | FileKind::Pad | FileKind::Archive | FileKind::Group => {
                if s_linker_offset_name.has_value() {
                    return Err(combo_err("linker_offset_name", "non `kind: linker_offset`"));
                }
                String::new()
            },
            FileKind::LinkerOffset => s_linker_offset_name.get("linker_offset_name")?,
        };

        let section_order = match kind {
            FileKind::Pad | FileKind::LinkerOffset | FileKind::Group => {
                if s_section_order.has_value() {
                    return Err(combo_err("section_order", "non `kind: object` or `kind: archive`"));
                }
                Vec::new()
            },
            FileKind::Object | FileKind::Archive => s_section_order.get_non_null(
                "section_order",
                Vec::new(),
            )?,
        };

        let dir = match kind {
            FileKind::Object | FileKind::Archive | FileKind::Pad | FileKind::LinkerOffset => {
                if s_dir.has_value() {
                    return Err(combo_err("dir", "non `kind: group`"));
                }
                String::new()
            },
            FileKind::Group => s_dir.get("dir")?,
        };

        let files = match kind {
            FileKind::Object | FileKind::Archive | FileKind::Pad | FileKind::LinkerOffset => {
                if s_files.has_value() {
                    return Err(combo_err("files", "non `kind: group`"));
                }
                Vec::new()
            },
            FileKind::Group => s_files.get("files")?,
        };

        let keep_sections = s_keep_sections.get_non_null("keep_sections", KeepSections::Absent)?;
        let exclude_if_any = s_exclude_if_any.get_non_null("exclude_if_any", Vec::new())?;
        let exclude_if_all = s_exclude_if_all.get_non_null("exclude_if_all", Vec::new())?;
        let include_if_any = s_include_if_any.get_non_null("include_if_any", Vec::new())?;
        let include_if_all = s_include_if_all.get_non_null("include_if_all", Vec::new())?;

        Ok(
            FileInfo {
                path,
                kind,
                subfile,
                pad_amount,
                section,
                linker_offset_name,
                section_order,
                dir,
                files,
                keep_sections,
                exclude_if_any,
                exclude_if_all,
                include_if_any,
                include_if_all,
            },
        )
    }
}

/// The error reported for a pair of mutually-exclusive fields.
fn combo_err(field1: &str, field2: &str) -> (e: SlinkyError)
    ensures
        e matches SlinkyError::InvalidFieldCombo { field1: f1, field2: f2 } && f1@ == field1@ && f2@
            == field2@,
{
    SlinkyError::InvalidFieldCombo {
        field1: String::from_str(field1),
        field2: String::from_str(field2),
    }
}

} // verus!
