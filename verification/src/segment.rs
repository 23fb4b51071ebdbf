//! A named, contiguously laid-out region: its address anchoring, alignment,
//! ordered section lists, subgroup rules and file descriptors.

use vstd::prelude::*;

use crate::file_info::FileInfo;

verus! {

/// Where the global pointer is planted: at a byte offset into one section.
pub struct GpInfo {
    pub section: String,
    pub offset: u32,
    pub provide: bool,
    pub hidden: bool,
    pub exclude_if_any: Vec<String>,
    pub exclude_if_all: Vec<String>,
    pub include_if_any: Vec<String>,
    pub include_if_all: Vec<String>,
}

pub struct Segment {
    /// Unique name of the segment.
    pub name: String,
    /// Directory prefix put in front of this segment's file paths.
    pub dir: String,
    /// A fixed virtual address the segment is placed at, if given.
    pub fixed_vram: Option<u32>,
    /// An existing symbol the segment is anchored to, if given.
    pub fixed_symbol: Option<String>,
    /// The segment this one is placed immediately after, if given.
    pub follows_segment: Option<String>,
    /// The address class the segment belongs to, if any.
    pub vram_class: Option<String>,
    /// Ordered section names of the loaded sub-region.
    pub alloc_sections: Vec<String>,
    /// Ordered section names of the zero-initialized sub-region.
    pub noload_sections: Vec<String>,
    /// `SUBALIGN` value of the output blocks, if given.
    pub subalign: Option<u32>,
    /// Alignment applied before the segment starts, if given.
    pub segment_start_align: Option<u32>,
    /// Alignment applied after the segment ends, if given.
    pub segment_end_align: Option<u32>,
    /// Alignment applied before every section boundary, if given.
    pub section_start_align: Option<u32>,
    /// Alignment applied after every section boundary, if given.
    pub section_end_align: Option<u32>,
    /// Per-section start alignment, overriding nothing, added to the common one.
    pub sections_start_alignment: Vec<(String, u32)>,
    /// Per-section end alignment.
    pub sections_end_alignment: Vec<(String, u32)>,
    /// Whether input-section selectors carry a trailing glob.
    pub wildcard_sections: bool,
    /// Byte value the linker fills unallocated gaps with, if given.
    pub fill_value: Option<u32>,
    /// For a section name, the ordered section names inlined right after it.
    pub sections_subgroups: Vec<(String, Vec<String>)>,
    /// Global-pointer placement, if this segment carries it.
    pub gp_info: Option<GpInfo>,
    /// Ordered file descriptors of the segment.
    pub files: Vec<FileInfo>,
    pub exclude_if_any: Vec<String>,
    pub exclude_if_all: Vec<String>,
    pub include_if_any: Vec<String>,
    pub include_if_all: Vec<String>,
}

impl Segment {
    /// Every file descriptor of the segment is validated.
    pub open spec fn wf(self) -> bool {
        forall|i: int| 0 <= i < self.files.len() ==> (#[trigger] self.files[i]).wf()
    }

    /// A segment with the given name and every option at its default.
    pub fn new(name: String) -> (r: Segment)
        ensures
            r.name == name,
            r.dir@ == Seq::<char>::empty(),
            r.fixed_vram matches None::<u32>,
            r.fixed_symbol matches None::<String>,
            r.follows_segment matches None::<String>,
            r.vram_class matches None::<String>,
            r.alloc_sections.len() == 0,
            r.noload_sections.len() == 0,
            r.subalign matches None::<u32>,
            r.segment_start_align matches None::<u32>,
            r.segment_end_align matches None::<u32>,
            r.section_start_align matches None::<u32>,
            r.section_end_align matches None::<u32>,
            r.sections_start_alignment.len() == 0,
            r.sections_end_alignment.len() == 0,
            !r.wildcard_sections,
            r.fill_value matches None::<u32>,
            r.sections_subgroups.len() == 0,
            r.gp_info matches None::<GpInfo>,
            r.files.len() == 0,
            r.exclude_if_any.len() == 0,
            r.exclude_if_all.len() == 0,
            r.include_if_any.len() == 0,
            r.include_if_all.len() == 0,
    {
        Segment {
            name,
            dir: String::new(),
            fixed_vram: None,
            fixed_symbol: None,
            follows_segment: None,
            vram_class: None,
            alloc_sections: Vec::new(),
            noload_sections: Vec::new(),
            subalign: None,
            segment_start_align: None,
            segment_end_align: None,
            section_start_align: None,
            section_end_align: None,
            sections_start_alignment: Vec::new(),
            sections_end_alignment: Vec::new(),
            wildcard_sections: false,
            fill_value: None,
            sections_subgroups: Vec::new(),
            gp_info: None,
            files: Vec::new(),
            exclude_if_any: Vec::new(),
            exclude_if_all: Vec::new(),
            include_if_any: Vec::new(),
            include_if_all: Vec::new(),
        }
    }
}

} // verus!
