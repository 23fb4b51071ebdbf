//! The validated in-memory representation of a whole configuration.

use vstd::prelude::*;

use crate::assert_entry::AssertEntry;
use crate::required_symbol::RequiredSymbol;
use crate::segment::Segment;
use crate::settings::Settings;
use crate::symbol_assignment::SymbolAssignment;
use crate::vram_class::VramClass;

verus! {

pub struct Document {
    pub settings: Settings,
    /// Ordered segments; document order drives emission order.
    pub segments: Vec<Segment>,
    /// Address classes, each with a unique name.
    pub vram_classes: Vec<VramClass>,
    pub symbol_assignments: Vec<SymbolAssignment>,
    pub required_symbols: Vec<RequiredSymbol>,
    pub asserts: Vec<AssertEntry>,
    /// The entry-point symbol, if configured.
    pub entry: Option<String>,
}

impl Document {
    /// Every segment's descriptors are validated.
    pub open spec fn wf(self) -> bool {
        forall|i: int| 0 <= i < self.segments.len() ==> (#[trigger] self.segments[i]).wf()
    }

    /// Single-segment mode admits exactly one segment; any other count is a
    /// configuration fault the caller must treat as fatal before any output
    /// is written.
    pub fn single_segment_conflict(&self) -> (r: bool)
        ensures
            r == (self.settings.single_segment_mode && self.segments.len() != 1),
    {
        self.settings.single_segment_mode && self.segments.len() != 1
    }

    /// A document over the given settings, otherwise empty.
    pub fn new(settings: Settings) -> (r: Document)
        ensures
            r.settings == settings,
            r.segments.len() == 0,
            r.vram_classes.len() == 0,
            r.symbol_assignments.len() == 0,
            r.required_symbols.len() == 0,
            r.asserts.len() == 0,
            r.entry matches None::<String>,
    {
        Document {
            settings,
            segments: Vec::new(),
            vram_classes: Vec::new(),
            symbol_assignments: Vec::new(),
            required_symbols: Vec::new(),
            asserts: Vec::new(),
            entry: None,
        }
    }
}

} // verus!
