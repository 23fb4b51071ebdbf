//! Generation of linker control scripts from a declarative description of a
//! program's memory layout: named segments, input object and archive files,
//! padding, alignment, shared address classes and conditional directives.

use vstd::prelude::*;

mod absent_nullable;
mod assert_entry;
mod assoc;
mod document;
mod emission;
mod error;
mod exporters;
mod file_info;
mod file_kind;
pub mod laws;
mod linker_symbols_style;
mod linker_writer;
mod numfmt;
mod ordered_set;
mod required_symbol;
mod runtime_settings;
mod script_buffer;
mod section_resolution;
mod segment;
mod segment_emit;
mod settings;
mod str_utils;
mod symbol_assignment;
mod vram_class;

pub use absent_nullable::AbsentNullable;
pub use assert_entry::AssertEntry;
pub use document::Document;
pub use error::SlinkyError;
pub use file_info::{FileInfo, FileInfoFault, FileInfoSerial, KeepSections};
pub use file_kind::FileKind;
pub use linker_symbols_style::LinkerSymbolsStyle;
pub use linker_writer::{LinkerWriter, Phase};
pub use section_resolution::resolve_sections_for_file;
pub use required_symbol::RequiredSymbol;
pub use runtime_settings::RuntimeSettings;
pub use segment::{GpInfo, Segment};
pub use settings::Settings;
pub use symbol_assignment::SymbolAssignment;
pub use vram_class::VramClass;

verus! {

} // verus!
