//! Process-wide options of one document: paths, section allow/deny lists and
//! output-artifact configuration. Read-only during emission.

use vstd::prelude::*;
use vstd::string::StringExecFns;

use crate::linker_symbols_style::LinkerSymbolsStyle;

verus! {

pub struct Settings {
    /// Prefix put in front of every input file path.
    pub base_path: String,
    /// How emitted symbols are spelt.
    pub linker_symbols_style: LinkerSymbolsStyle,
    /// A fixed global-pointer value, emitted right after the placement block
    /// opens.
    pub hardcoded_gp_value: Option<u32>,
    /// Sections that get a single-entry placeholder block after the segments.
    pub sections_allowlist: Vec<String>,
    /// Further placeholder sections, kept apart from the main allow list.
    pub sections_allowlist_extra: Vec<String>,
    /// Sections discarded explicitly at the end of the placement block.
    pub sections_denylist: Vec<String>,
    /// Whether everything not placed elsewhere is discarded by a wildcard.
    pub discard_wildcard_section: bool,
    /// One segment placed directly at a fixed address, without address-class
    /// anchoring.
    pub single_segment_mode: bool,
    /// Where the dependency listing goes, if anywhere.
    pub d_path: Option<String>,
    /// The build target named by the dependency listing's rule.
    pub target_path: Option<String>,
    /// Where the symbol header goes, if anywhere.
    pub symbols_header_path: Option<String>,
    /// Element type of each declaration in the symbol header.
    pub symbols_header_type: String,
    /// Whether header declarations carry an array suffix.
    pub symbols_header_as_array: bool,
}

impl Settings {
    /// The configuration every document starts from.
    pub fn new_default() -> (r: Settings)
        ensures
            r.base_path@ == Seq::<char>::empty(),
            r.linker_symbols_style == LinkerSymbolsStyle::Splat,
            r.hardcoded_gp_value matches None::<u32>,
            r.sections_allowlist.len() == 0,
            r.sections_allowlist_extra.len() == 0,
            r.sections_denylist.len() == 0,
            !r.discard_wildcard_section,
            !r.single_segment_mode,
            r.d_path matches None::<String>,
            r.target_path matches None::<String>,
            r.symbols_header_path matches None::<String>,
            r.symbols_header_type@ == "char"@,
            r.symbols_header_as_array,
    {
        Settings {
            base_path: String::new(),
            linker_symbols_style: LinkerSymbolsStyle::Splat,
            hardcoded_gp_value: None,
            sections_allowlist: Vec::new(),
            sections_allowlist_extra: Vec::new(),
            sections_denylist: Vec::new(),
            discard_wildcard_section: false,
            single_segment_mode: false,
            d_path: None,
            target_path: None,
            symbols_header_path: None,
            symbols_header_type: String::from_str("char"),
            symbols_header_as_array: true,
        }
    }
}

} // verus!
