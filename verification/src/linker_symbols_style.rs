//! Canonical names for the symbols the script emits: segment, section and
//! address-class markers. Pure functions from identifiers to symbol strings,
//! selectable by style.

use vstd::prelude::*;
use vstd::string::{StrSliceExecFns, StringExecFns};

use crate::str_utils::push_char;

verus! {

/// How emitted symbols are spelt: `Splat` appends upper-case suffixes to the
/// bare name, `Makerom` wraps the name in an underscore prefix and a
/// camel-case suffix.
#[derive(Clone, Copy, Debug, PartialEq, Eq, Structural)]
pub enum LinkerSymbolsStyle {
    Splat,
    Makerom,
}

/// Section names carry a leading dot; symbol names replace every dot with an
/// underscore.
pub open spec fn mangle_section(s: Seq<char>) -> Seq<char> {
    s.map_values(|c: char| if c == '.' { '_' } else { c })
}

/// One symbol name: the bare name with a style-dependent suffix, and for
/// `Makerom` a leading underscore.
pub open spec fn spec_style_sym(
    style: LinkerSymbolsStyle,
    name: Seq<char>,
    splat_suffix: Seq<char>,
    makerom_suffix: Seq<char>,
) -> Seq<char> {
    match style {
        LinkerSymbolsStyle::Splat => name + splat_suffix,
        LinkerSymbolsStyle::Makerom => seq!['_'] + name + makerom_suffix,
    }
}

/// One per-section symbol name: as `spec_style_sym`, with the mangled section
/// name appended to the segment name.
pub open spec fn spec_style_section_sym(
    style: LinkerSymbolsStyle,
    segment: Seq<char>,
    section: Seq<char>,
    splat_suffix: Seq<char>,
    makerom_suffix: Seq<char>,
) -> Seq<char> {
    spec_style_sym(style, segment + mangle_section(section), splat_suffix, makerom_suffix)
}

pub open spec fn spec_segment_rom_start(style: LinkerSymbolsStyle, name: Seq<char>) -> Seq<char> {
    spec_style_sym(style, name, "_ROM_START"@, "SegmentRomStart"@)
}

pub open spec fn spec_segment_rom_end(style: LinkerSymbolsStyle, name: Seq<char>) -> Seq<char> {
    spec_style_sym(style, name, "_ROM_END"@, "SegmentRomEnd"@)
}

pub open spec fn spec_segment_rom_size(style: LinkerSymbolsStyle, name: Seq<char>) -> Seq<char> {
    spec_style_sym(style, name, "_ROM_SIZE"@, "SegmentRomSize"@)
}

pub open spec fn spec_segment_vram_start(style: LinkerSymbolsStyle, name: Seq<char>) -> Seq<char> {
    spec_style_sym(style, name, "_VRAM"@, "SegmentStart"@)
}

pub open spec fn spec_segment_vram_end(style: LinkerSymbolsStyle, name: Seq<char>) -> Seq<char> {
    spec_style_sym(style, name, "_VRAM_END"@, "SegmentEnd"@)
}

pub open spec fn spec_segment_vram_size(style: LinkerSymbolsStyle, name: Seq<char>) -> Seq<char> {
    spec_style_sym(style, name, "_VRAM_SIZE"@, "SegmentSize"@)
}

pub open spec fn spec_segment_section_start(
    style: LinkerSymbolsStyle,
    segment: Seq<char>,
    section: Seq<char>,
) -> Seq<char> {
    spec_style_section_sym(style, segment, section, "_START"@, "SectionStart"@)
}

pub open spec fn spec_segment_section_end(
    style: LinkerSymbolsStyle,
    segment: Seq<char>,
    section: Seq<char>,
) -> Seq<char> {
    spec_style_section_sym(style, segment, section, "_END"@, "SectionEnd"@)
}

pub open spec fn spec_segment_section_size(
    style: LinkerSymbolsStyle,
    segment: Seq<char>,
    section: Seq<char>,
) -> Seq<char> {
    spec_style_section_sym(style, segment, section, "_SIZE"@, "SectionSize"@)
}

pub open spec fn spec_vram_class_start(style: LinkerSymbolsStyle, name: Seq<char>) -> Seq<char> {
    spec_style_sym(style, name, "_CLASS_START"@, "ClassStart"@)
}

pub open spec fn spec_vram_class_end(style: LinkerSymbolsStyle, name: Seq<char>) -> Seq<char> {
    spec_style_sym(style, name, "_CLASS_END"@, "ClassEnd"@)
}

pub open spec fn spec_vram_class_size(style: LinkerSymbolsStyle, name: Seq<char>) -> Seq<char> {
    spec_style_sym(style, name, "_CLASS_SIZE"@, "ClassSize"@)
}

pub open spec fn spec_linker_offset(style: LinkerSymbolsStyle, name: Seq<char>) -> Seq<char> {
    spec_style_sym(style, name, "_OFFSET"@, "Offset"@)
}

/// Appends `section` to `dst` with every dot replaced by an underscore.
fn push_mangled(dst: &mut String, section: &str)
    ensures
        final(dst)@ == old(dst)@ + mangle_section(section@),
{
    let len = section.unicode_len();
    let mut i: usize = 0;
    while i < len
        invariant
            len == section@.len(),
            i <= len,
            dst@ == old(dst)@ + mangle_section(section@.subrange(0, i as int)),
        decreases len - i,
    {
        let c = section.get_char(i);
        if c == '.' {
            push_char(dst, '_');
        } else {
            push_char(dst, c);
        }
        proof {
            assert(mangle_section(section@.subrange(0, i + 1)) =~= mangle_section(
                section@.subrange(0, i as int),
            ).push(if section@[i as int] == '.' {
                '_'
            } else {
                section@[i as int]
            }));
        }
        i += 1;
    }
    proof {
        assert(section@.subrange(0, section@.len() as int) =~= section@);
    }
}

impl LinkerSymbolsStyle {
    fn sym(&self, name: &str, splat_suffix: &str, makerom_suffix: &str) -> (r: String)
        ensures
            r@ == spec_style_sym(*self, name@, splat_suffix@, makerom_suffix@),
    {
        match self {
            LinkerSymbolsStyle::Splat => {
                let mut r = String::from_str(name);
                r.append(splat_suffix);
                r
            },
            LinkerSymbolsStyle::Makerom => {
                let mut r = String::new();
                push_char(&mut r, '_');
                r.append(name);
                r.append(makerom_suffix);
                proof {
                    assert(r@ =~= seq!['_'] + name@ + makerom_suffix@);
                }
                r
            },
        }
    }

    fn section_sym(&self, segment: &str, section: &str, splat_suffix: &str, makerom_suffix: &str) -> (r:
        String)
        ensures
            r@ == spec_style_section_sym(*self, segment@, section@, splat_suffix@, makerom_suffix@),
    {
        let mut base = String::from_str(segment);
        push_mangled(&mut base, section);
        self.sym(base.as_str(), splat_suffix, makerom_suffix)
    }

    pub fn segment_rom_start(&self, name: &str) -> (r: String)
        ensures
            r@ == spec_segment_rom_start(*self, name@),
    {
        self.sym(name, "_ROM_START", "SegmentRomStart")
    }

    pub fn segment_rom_end(&self, name: &str) -> (r: String)
        ensures
            r@ == spec_segment_rom_end(*self, name@),
    {
        self.sym(name, "_ROM_END", "SegmentRomEnd")
    }

    pub fn segment_rom_size(&self, name: &str) -> (r: String)
        ensures
            r@ == spec_segment_rom_size(*self, name@),
    {
        self.sym(name, "_ROM_SIZE", "SegmentRomSize")
    }

    pub fn segment_vram_start(&self, name: &str) -> (r: String)
        ensures
            r@ == spec_segment_vram_start(*self, name@),
    {
        self.sym(name, "_VRAM", "SegmentStart")
    }

    pub fn segment_vram_end(&self, name: &str) -> (r: String)
        ensures
            r@ == spec_segment_vram_end(*self, name@),
    {
        self.sym(name, "_VRAM_END", "SegmentEnd")
    }

    pub fn segment_vram_size(&self, name: &str) -> (r: String)
        ensures
            r@ == spec_segment_vram_size(*self, name@),
    {
        self.sym(name, "_VRAM_SIZE", "SegmentSize")
    }

    pub fn segment_section_start(&self, segment: &str, section: &str) -> (r: String)
        ensures
            r@ == spec_segment_section_start(*self, segment@, section@),
    {
        self.section_sym(segment, section, "_START", "SectionStart")
    }

    pub fn segment_section_end(&self, segment: &str, section: &str) -> (r: String)
        ensures
            r@ == spec_segment_section_end(*self, segment@, section@),
    {
        self.section_sym(segment, section, "_END", "SectionEnd")
    }

    pub fn segment_section_size(&self, segment: &str, section: &str) -> (r: String)
        ensures
            r@ == spec_segment_section_size(*self, segment@, section@),
    {
        self.section_sym(segment, section, "_SIZE", "SectionSize")
    }

    pub fn vram_class_start(&self, name: &str) -> (r: String)
        ensures
            r@ == spec_vram_class_start(*self, name@),
    {
        self.sym(name, "_CLASS_START", "ClassStart")
    }

    pub fn vram_class_end(&self, name: &str) -> (r: String)
        ensures
            r@ == spec_vram_class_end(*self, name@),
    {
        self.sym(name, "_CLASS_END", "ClassEnd")
    }

    pub fn vram_class_size(&self, name: &str) -> (r: String)
        ensures
            r@ == spec_vram_class_size(*self, name@),
    {
        self.sym(name, "_CLASS_SIZE", "ClassSize")
    }

    pub fn linker_offset(&self, name: &str) -> (r: String)
        ensures
            r@ == spec_linker_offset(*self, name@),
    {
        self.sym(name, "_OFFSET", "Offset")
    }
}

} // verus!
