//! Per-segment emission: the symbol pairs around each segment, section and
//! address class, and the output block headers.

use vstd::prelude::*;

use crate::assoc::{assoc_find, assoc_get};
use crate::linker_symbols_style::{
    spec_segment_section_end, spec_segment_section_size, spec_segment_section_start,
    spec_segment_vram_end, spec_segment_vram_size, spec_segment_vram_start, spec_vram_class_start,
    LinkerSymbolsStyle,
};
use crate::emission::emit_section_model;
use crate::linker_writer::{m_empty, m_line, m_lines, m_marker, EmitCtx, EngineModel, LinkerWriter};
use crate::numfmt::{dec_str, hex_str, hex_str_w, push_dec, push_hex, push_hex_w};
use crate::ordered_set::set_elems;
use crate::runtime_settings::spec_should_emit;
use crate::error::SlinkyError;
use crate::linker_symbols_style::spec_vram_class_end;
use crate::linker_writer::Phase;
use crate::ordered_set::{lemma_prefix_contains, lemma_prefix_from_eqlen};
use crate::script_buffer::{align_line, assignment_line, spec_line, syms_after};
use crate::segment::Segment;
use crate::str_utils::str_eq;
use vstd::string::{StrSliceExecFns, StringExecFns};

verus! {

/// The marker-name suffix distinguishing a segment's loaded sub-region from
/// its zero-initialized one.
pub open spec fn kind_seg_name(name: Seq<char>, noload: bool) -> Seq<char> {
    name + if noload {
        "_noload"@
    } else {
        "_alloc"@
    }
}

/// The two lines that close a start/end/size symbol triple: the end marker at
/// `value`, then the size as the absolute difference.
pub open spec fn sym_end_size_lines(
    indent: nat,
    start: Seq<char>,
    end: Seq<char>,
    size: Seq<char>,
    value: Seq<char>,
) -> Seq<Seq<char>> {
    seq![
        spec_line(indent, assignment_line(end, value, false, false)),
        spec_line(
            indent,
            assignment_line(size, "ABSOLUTE("@ + end + " - "@ + start + ")"@, false, false),
        ),
    ]
}

/// The alignment lines opening one section: the segment-wide boundary
/// alignment, then the per-section one, where configured.
pub open spec fn section_start_align_lines(
    indent: nat,
    segment: Segment,
    section: Seq<char>,
) -> Seq<Seq<char>> {
    (match segment.section_start_align {
        Some(a) => seq![spec_line(indent, align_line("."@, a as nat))],
        None => Seq::<Seq<char>>::empty(),
    }) + (match assoc_find(segment.sections_start_alignment.deep_view(), section) {
        Some(a) => seq![spec_line(indent, align_line("."@, a as nat))],
        None => Seq::<Seq<char>>::empty(),
    })
}

/// The alignment lines closing one section.
pub open spec fn section_end_align_lines(
    indent: nat,
    segment: Segment,
    section: Seq<char>,
) -> Seq<Seq<char>> {
    (match segment.section_end_align {
        Some(a) => seq![spec_line(indent, align_line("."@, a as nat))],
        None => Seq::<Seq<char>>::empty(),
    }) + (match assoc_find(segment.sections_end_alignment.deep_view(), section) {
        Some(a) => seq![spec_line(indent, align_line("."@, a as nat))],
        None => Seq::<Seq<char>>::empty(),
    })
}

/// The global-pointer assignment, where this segment plants it in `section`
/// and its predicate passes.
pub open spec fn gp_lines(
    indent: nat,
    segment: Segment,
    section: Seq<char>,
    active: Seq<Seq<char>>,
) -> Seq<Seq<char>> {
    match segment.gp_info {
        Some(g) => if spec_should_emit(
            g.exclude_if_any.deep_view(),
            g.exclude_if_all.deep_view(),
            g.include_if_any.deep_view(),
            g.include_if_all.deep_view(),
            active,
        ) && g.section@ == section {
            seq![
                spec_line(
                    indent,
                    assignment_line("_gp"@, ". + 0x"@ + hex_str(g.offset as nat), g.provide, g.hidden),
                ),
            ]
        } else {
            Seq::<Seq<char>>::empty()
        },
        None => Seq::<Seq<char>>::empty(),
    }
}

/// The address part of a loaded block's header: the fixed address, the anchor
/// symbol, the end of the followed segment, or the class start, in that order
/// of preference.
pub open spec fn segment_vram_part(segment: Segment, style: LinkerSymbolsStyle) -> Seq<char> {
    match segment.fixed_vram {
        Some(v) => " 0x"@ + hex_str_w(v as nat, 8),
        None => match segment.fixed_symbol {
            Some(s) => " "@ + s@,
            None => match segment.follows_segment {
                Some(f) => " "@ + spec_segment_vram_end(style, f@),
                None => match segment.vram_class {
                    Some(c) => " "@ + spec_vram_class_start(style, c@),
                    None => Seq::<char>::empty(),
                },
            },
        },
    }
}

/// The `SUBALIGN` tail of a block header, where configured.
pub open spec fn subalign_part(subalign: Option<u32>) -> Seq<char> {
    match subalign {
        Some(v) => " SUBALIGN("@ + dec_str(v as nat) + ")"@,
        None => Seq::<char>::empty(),
    }
}

/// One output block's header line: the block name, its address anchoring and
/// load address for loaded content, or the `NOLOAD` mark.
pub open spec fn segment_block_header(segment: Segment, noload: bool, style: LinkerSymbolsStyle) -> Seq<
    char,
> {
    "."@ + segment.name@ + (if noload {
        ".noload (NOLOAD) :"@
    } else {
        segment_vram_part(segment, style) + " : AT("@
            + crate::linker_symbols_style::spec_segment_rom_start(style, segment.name@) + ")"@
    }) + subalign_part(segment.subalign)
}

/// Whether the document declares an address class named `name`.
pub open spec fn spec_class_found(d: crate::document::Document, name: Seq<char>) -> bool {
    exists|i: int| 0 <= i < d.vram_classes.len() && d.vram_classes[i].name@ == name
}

/// Whether one segment's class reference, if it is emitted at all, names a
/// declared address class.
pub open spec fn segment_class_ok(
    d: crate::document::Document,
    seg: Segment,
    active: Seq<Seq<char>>,
) -> bool {
    spec_should_emit(
        seg.exclude_if_any.deep_view(),
        seg.exclude_if_all.deep_view(),
        seg.include_if_any.deep_view(),
        seg.include_if_all.deep_view(),
        active,
    ) ==> match seg.vram_class {
        None => true,
        Some(c) => spec_class_found(d, c@),
    }
}

/// `segment_class_ok` over a whole segment list.
pub open spec fn segment_classes_ok(
    d: crate::document::Document,
    segments: Seq<Segment>,
    active: Seq<Seq<char>>,
) -> bool {
    forall|i: int| 0 <= i < segments.len() ==> segment_class_ok(d, segments[i], active)
}


/// An end/size pair appended and both names registered.
pub open spec fn m_end_size(
    m: EngineModel,
    ind: nat,
    start: Seq<char>,
    end: Seq<char>,
    size: Seq<char>,
    value: Seq<char>,
) -> EngineModel {
    EngineModel {
        lines: m.lines + sym_end_size_lines(ind, start, end, size, value),
        syms: syms_after(syms_after(m.syms, end), size),
        ..m
    }
}

/// The opening marker of a sub-region, when those markers are enabled.
pub open spec fn kind_start_model(
    m: EngineModel,
    segment: Segment,
    noload: bool,
    ind: nat,
    ctx: EmitCtx,
) -> EngineModel {
    if ctx.emit_sections_kind_symbols {
        m_empty(
            m_marker(
                m,
                ind,
                spec_segment_vram_start(ctx.style, kind_seg_name(segment.name@, noload)),
                "."@,
            ),
        )
    } else {
        m
    }
}

/// The closing end/size pair of a sub-region marker, when enabled.
pub open spec fn kind_end_model(
    m: EngineModel,
    segment: Segment,
    noload: bool,
    ind: nat,
    ctx: EmitCtx,
) -> EngineModel {
    if ctx.emit_sections_kind_symbols {
        m_end_size(
            m_empty(m),
            ind,
            spec_segment_vram_start(ctx.style, kind_seg_name(segment.name@, noload)),
            spec_segment_vram_end(ctx.style, kind_seg_name(segment.name@, noload)),
            spec_segment_vram_size(ctx.style, kind_seg_name(segment.name@, noload)),
            "."@,
        )
    } else {
        m
    }
}

/// One section opened: boundary alignments, the global pointer when it lands
/// here, and the start marker — when section markers are enabled.
pub open spec fn sec_start_model(
    m: EngineModel,
    segment: Segment,
    section: Seq<char>,
    ind: nat,
    ctx: EmitCtx,
) -> EngineModel {
    if ctx.emit_section_symbols {
        EngineModel {
            lines: m.lines + section_start_align_lines(ind, segment, section) + gp_lines(
                ind,
                segment,
                section,
                ctx.active,
            ) + seq![
                spec_line(
                    ind,
                    assignment_line(
                        spec_segment_section_start(ctx.style, segment.name@, section),
                        "."@,
                        false,
                        false,
                    ),
                ),
            ],
            syms: syms_after(m.syms, spec_segment_section_start(ctx.style, segment.name@, section)),
            ..m
        }
    } else {
        m
    }
}

/// One section closed: boundary alignments and the end/size pair, when
/// enabled.
pub open spec fn sec_end_model(
    m: EngineModel,
    segment: Segment,
    section: Seq<char>,
    ind: nat,
    ctx: EmitCtx,
) -> EngineModel {
    if ctx.emit_section_symbols {
        EngineModel {
            lines: m.lines + section_end_align_lines(ind, segment, section) + sym_end_size_lines(
                ind,
                spec_segment_section_start(ctx.style, segment.name@, section),
                spec_segment_section_end(ctx.style, segment.name@, section),
                spec_segment_section_size(ctx.style, segment.name@, section),
                "."@,
            ),
            syms: syms_after(
                syms_after(m.syms, spec_segment_section_end(ctx.style, segment.name@, section)),
                spec_segment_section_size(ctx.style, segment.name@, section),
            ),
            ..m
        }
    } else {
        m
    }
}

/// The `FILL` directive of a block.
pub open spec fn fill_line(v: u32) -> Seq<char> {
    "FILL(0x"@ + hex_str_w(v as nat, 8) + ");"@
}

/// The raise `name = MAX(name, other);`.
pub open spec fn max_line(name: Seq<char>, other: Seq<char>) -> Seq<char> {
    name + " = MAX("@ + name + ", "@ + other + ");"@
}

/// The first `k` sections of a normal-mode block: markers, file content, and
/// a separating blank between sections.
pub open spec fn seg_sections_model(
    m: EngineModel,
    settings_base: Seq<char>,
    segment: Segment,
    sections: Seq<Seq<char>>,
    k: int,
    ctx: EmitCtx,
) -> EngineModel
    decreases k,
{
    if k <= 0 {
        m
    } else {
        let prev = seg_sections_model(m, settings_base, segment, sections, k - 1, ctx);
        let ms = sec_start_model(prev, segment, sections[k - 1], 2, ctx);
        let me = emit_section_model(ms, settings_base, segment, sections[k - 1], sections, 2, ctx);
        let mz = sec_end_model(me, segment, sections[k - 1], 2, ctx);
        if k < sections.len() {
            m_empty(mz)
        } else {
            mz
        }
    }
}

/// One whole sub-region in normal mode: the marker, the block header and
/// brace, the fill value, every section, and the closing marker pair.
pub open spec fn write_segment_model(
    m: EngineModel,
    settings_base: Seq<char>,
    segment: Segment,
    sections: Seq<Seq<char>>,
    noload: bool,
    ctx: EmitCtx,
) -> EngineModel {
    let m1 = kind_start_model(m, segment, noload, 1, ctx);
    let m2 = m_lines(
        m1,
        seq![
            spec_line(1, segment_block_header(segment, noload, ctx.style)),
            spec_line(1, "{"@),
        ],
    );
    let m3 = match segment.fill_value {
        Some(f) => m_line(m2, 2, fill_line(f)),
        None => m2,
    };
    let m4 = seg_sections_model(m3, settings_base, segment, sections, sections.len() as int, ctx);
    kind_end_model(m_line(m4, 1, "}"@), segment, noload, 1, ctx)
}

/// The index of the first address class carrying `name`, if any.
pub open spec fn spec_find_class(classes: Seq<crate::vram_class::VramClass>, name: Seq<char>) -> Option<
    int,
>
    decreases classes.len(),
{
    if classes.len() == 0 {
        None
    } else if classes[0].name@ == name {
        Some(0int)
    } else {
        match spec_find_class(classes.drop_first(), name) {
            Some(i) => Some(i + 1),
            None => None,
        }
    }
}

/// A first match at `i` is what `spec_find_class` returns.
pub proof fn lemma_spec_find_class_at(
    classes: Seq<crate::vram_class::VramClass>,
    name: Seq<char>,
    i: int,
)
    requires
        0 <= i < classes.len(),
        classes[i].name@ == name,
        forall|j: int| 0 <= j < i ==> classes[j].name@ != name,
    ensures
        spec_find_class(classes, name) == Some(i),
    decreases i,
{
    if i > 0 {
        lemma_spec_find_class_at(classes.drop_first(), name, i - 1);
    }
}

/// No match anywhere means `spec_find_class` returns nothing.
pub proof fn lemma_spec_find_class_none(classes: Seq<crate::vram_class::VramClass>, name: Seq<char>)
    requires
        forall|j: int| 0 <= j < classes.len() ==> classes[j].name@ != name,
    ensures
        spec_find_class(classes, name) is None,
    decreases classes.len(),
{
    if classes.len() > 0 {
        lemma_spec_find_class_none(classes.drop_first(), name);
    }
}

/// The raises over the followed classes' ends, in declared order.
pub open spec fn follows_model(
    m: EngineModel,
    follows: Seq<Seq<char>>,
    k: int,
    start_sym: Seq<char>,
    ctx: EmitCtx,
) -> EngineModel
    decreases k,
{
    if k <= 0 {
        m
    } else {
        m_line(
            follows_model(m, follows, k - 1, start_sym, ctx),
            1,
            max_line(start_sym, spec_vram_class_end(ctx.style, follows[k - 1])),
        )
    }
}

/// An address class resolved at first reference: the start symbol from the
/// fixed address, the anchor symbol, or zero raised over every followed
/// class's end; the end symbol at zero; the emitted flag set.
pub open spec fn class_model(
    m: EngineModel,
    i: int,
    vc: crate::vram_class::VramClass,
    cname: Seq<char>,
    ctx: EmitCtx,
) -> EngineModel {
    let start_sym = spec_vram_class_start(ctx.style, cname);
    let m1 = match vc.fixed_vram {
        Some(v) => m_marker(m, 1, start_sym, "0x"@ + hex_str_w(v as nat, 8)),
        None => match vc.fixed_symbol {
            Some(s) => m_marker(m, 1, start_sym, s@),
            None => follows_model(
                m_marker(m, 1, start_sym, "0x00000000"@),
                vc.follows_classes.deep_view(),
                vc.follows_classes.len() as int,
                start_sym,
                ctx,
            ),
        },
    };
    let m2 = m_empty(m_marker(m1, 1, spec_vram_class_end(ctx.style, cname), "0x00000000"@));
    EngineModel { emitted: m2.emitted.update(i, true), ..m2 }
}

/// Everything one segment appends after its class is resolved: aligns, the
/// start markers, both blocks, the counter advance, the closing triples and
/// the optional class-end raise.
pub open spec fn add_segment_rest_model(
    m: EngineModel,
    settings_base: Seq<char>,
    segment: Segment,
    cname_opt: Option<Seq<char>>,
    ctx: EmitCtx,
) -> EngineModel {
    let ma = match segment.segment_start_align {
        Some(a) => m_lines(
            m,
            seq![
                spec_line(1, align_line("__romPos"@, a as nat)),
                spec_line(1, align_line("."@, a as nat)),
            ],
        ),
        None => m,
    };
    let mb = m_marker(
        ma,
        1,
        crate::linker_symbols_style::spec_segment_rom_start(ctx.style, segment.name@),
        "__romPos"@,
    );
    let mc = m_marker(
        mb,
        1,
        spec_segment_vram_start(ctx.style, segment.name@),
        "ADDR(."@ + segment.name@ + ")"@,
    );
    let md = m_empty(
        write_segment_model(mc, settings_base, segment, segment.alloc_sections.deep_view(), false, ctx),
    );
    let me = m_empty(
        write_segment_model(md, settings_base, segment, segment.noload_sections.deep_view(), true, ctx),
    );
    let mf = m_line(me, 1, "__romPos += SIZEOF(."@ + segment.name@ + ");"@);
    let mg = match segment.segment_end_align {
        Some(a) => m_lines(
            mf,
            seq![
                spec_line(1, align_line("__romPos"@, a as nat)),
                spec_line(1, align_line("."@, a as nat)),
            ],
        ),
        None => mf,
    };
    let mh = m_end_size(
        mg,
        1,
        spec_segment_vram_start(ctx.style, segment.name@),
        spec_segment_vram_end(ctx.style, segment.name@),
        spec_segment_vram_size(ctx.style, segment.name@),
        "."@,
    );
    let mi = m_end_size(
        mh,
        1,
        crate::linker_symbols_style::spec_segment_rom_start(ctx.style, segment.name@),
        crate::linker_symbols_style::spec_segment_rom_end(ctx.style, segment.name@),
        crate::linker_symbols_style::spec_segment_rom_size(ctx.style, segment.name@),
        "__romPos"@,
    );
    let mj = match cname_opt {
        Some(cn) => m_line(
            m_empty(mi),
            1,
            max_line(
                spec_vram_class_end(ctx.style, cn),
                spec_segment_vram_end(ctx.style, segment.name@),
            ),
        ),
        None => mi,
    };
    m_empty(mj)
}

/// What one segment appends: nothing when filtered out or when its class is
/// undeclared (the error case); otherwise the first-reference class
/// resolution followed by the whole per-segment sequence.
pub open spec fn add_segment_model(
    m: EngineModel,
    d: crate::document::Document,
    segment: Segment,
    ctx: EmitCtx,
) -> EngineModel {
    if !spec_should_emit(
        segment.exclude_if_any.deep_view(),
        segment.exclude_if_all.deep_view(),
        segment.include_if_any.deep_view(),
        segment.include_if_all.deep_view(),
        ctx.active,
    ) {
        m
    } else {
        match segment.vram_class {
            None => add_segment_rest_model(m, d.settings.base_path@, segment, None, ctx),
            Some(c) => match spec_find_class(d.vram_classes@, c@) {
                None => m,
                Some(i) => {
                    let mc = if m.emitted[i] {
                        m
                    } else {
                        class_model(m, i, d.vram_classes@[i], c@, ctx)
                    };
                    add_segment_rest_model(mc, d.settings.base_path@, segment, Some(c@), ctx)
                },
            },
        }
    }
}


/// The size line of every emitted class, in document class order.
pub open spec fn class_sizes_model(
    m: EngineModel,
    d: crate::document::Document,
    k: int,
    ctx: EmitCtx,
) -> EngineModel
    decreases k,
{
    if k <= 0 {
        m
    } else {
        let prev = class_sizes_model(m, d, k - 1, ctx);
        if 0 <= k - 1 < m.emitted.len() && m.emitted[k - 1] {
            m_marker(
                prev,
                1,
                crate::linker_symbols_style::spec_vram_class_size(
                    ctx.style,
                    d.vram_classes@[k - 1].name@,
                ),
                spec_vram_class_end(ctx.style, d.vram_classes@[k - 1].name@) + " - "@
                    + spec_vram_class_start(ctx.style, d.vram_classes@[k - 1].name@),
            )
        } else {
            prev
        }
    }
}

/// A one-line placeholder section at address zero.
pub open spec fn placeholder_line(section: Seq<char>) -> Seq<char> {
    section + " "@ + "0"@ + " : { *("@ + section + "); }"@
}

/// The first `k` placeholder sections of an allow list.
pub open spec fn placeholders_model(m: EngineModel, list: Seq<Seq<char>>, k: int) -> EngineModel
    decreases k,
{
    if k <= 0 {
        m
    } else {
        m_line(placeholders_model(m, list, k - 1), 1, placeholder_line(list[k - 1]))
    }
}

/// The first `k` deny-listed selectors of the discard block.
pub open spec fn denylist_model(m: EngineModel, list: Seq<Seq<char>>, k: int) -> EngineModel
    decreases k,
{
    if k <= 0 {
        m
    } else {
        m_line(denylist_model(m, list, k - 1), 2, "*("@ + list[k - 1] + ");"@)
    }
}

/// Whether any address class was emitted.
pub open spec fn any_class_emitted(m: EngineModel, d: crate::document::Document) -> bool {
    exists|i: int| 0 <= i < d.vram_classes.len() && 0 <= i < m.emitted.len() && m.emitted[i]
}

/// Everything that closes the placement block: the emitted classes' size
/// lines, the placeholder sections of both allow lists, the discard block
/// when configured, and the closing brace — blank-separated exactly as
/// written.
pub open spec fn end_sections_model(
    m: EngineModel,
    d: crate::document::Document,
    ctx: EmitCtx,
) -> EngineModel {
    let m1 = class_sizes_model(m, d, d.vram_classes.len() as int, ctx);
    let need1 = any_class_emitted(m, d);
    let m2 = if d.settings.sections_allowlist.len() > 0 {
        placeholders_model(
            if need1 {
                m_empty(m1)
            } else {
                m1
            },
            d.settings.sections_allowlist.deep_view(),
            d.settings.sections_allowlist.len() as int,
        )
    } else {
        m1
    };
    let need2 = need1 || d.settings.sections_allowlist.len() > 0;
    let m3 = if d.settings.sections_allowlist_extra.len() > 0 {
        placeholders_model(
            if need2 {
                m_empty(m2)
            } else {
                m2
            },
            d.settings.sections_allowlist_extra.deep_view(),
            d.settings.sections_allowlist_extra.len() as int,
        )
    } else {
        m2
    };
    let need3 = need2 || d.settings.sections_allowlist_extra.len() > 0;
    let m4 = if d.settings.discard_wildcard_section || d.settings.sections_denylist.len() > 0 {
        let mq = if need3 {
            m_empty(m3)
        } else {
            m3
        };
        let mr = m_lines(mq, seq![spec_line(1, "/DISCARD/ :"@), spec_line(1, "{"@)]);
        let ms = denylist_model(
            mr,
            d.settings.sections_denylist.deep_view(),
            d.settings.sections_denylist.len() as int,
        );
        let mt = if d.settings.discard_wildcard_section {
            m_line(ms, 2, "*(*);"@)
        } else {
            ms
        };
        m_line(mt, 1, "}"@)
    } else {
        m3
    };
    m_line(m4, 0, "}"@)
}

/// One top-level block header of single-segment mode.
pub open spec fn single_header(section: Seq<char>, noload: bool, subalign: Option<u32>) -> Seq<char> {
    section + (if noload {
        " (NOLOAD)"@
    } else {
        Seq::<char>::empty()
    }) + " :"@ + subalign_part(subalign)
}

/// The first `k` sections of a single-segment sub-region: each is its own
/// top-level block with its markers and file content.
pub open spec fn single_sections_model(
    m: EngineModel,
    settings_base: Seq<char>,
    segment: Segment,
    sections: Seq<Seq<char>>,
    k: int,
    noload: bool,
    ctx: EmitCtx,
) -> EngineModel
    decreases k,
{
    if k <= 0 {
        m
    } else {
        let prev = single_sections_model(m, settings_base, segment, sections, k - 1, noload, ctx);
        let ms = sec_start_model(prev, segment, sections[k - 1], 1, ctx);
        let mh = m_lines(
            ms,
            seq![
                spec_line(1, single_header(sections[k - 1], noload, segment.subalign)),
                spec_line(1, "{"@),
            ],
        );
        let mf = match segment.fill_value {
            Some(f) => m_line(mh, 2, fill_line(f)),
            None => mh,
        };
        let me = emit_section_model(mf, settings_base, segment, sections[k - 1], sections, 2, ctx);
        let mz = sec_end_model(m_line(me, 1, "}"@), segment, sections[k - 1], 1, ctx);
        if k < sections.len() {
            m_empty(mz)
        } else {
            mz
        }
    }
}

/// One sub-region in single-segment mode.
pub open spec fn write_single_segment_model(
    m: EngineModel,
    settings_base: Seq<char>,
    segment: Segment,
    sections: Seq<Seq<char>>,
    noload: bool,
    ctx: EmitCtx,
) -> EngineModel {
    kind_end_model(
        single_sections_model(
            kind_start_model(m, segment, noload, 1, ctx),
            settings_base,
            segment,
            sections,
            sections.len() as int,
            noload,
            ctx,
        ),
        segment,
        noload,
        1,
        ctx,
    )
}

/// The whole single-segment pass: the block opened, the one segment placed
/// directly (at its fixed address when given), and the block closed.
pub open spec fn add_single_segment_model(
    m: EngineModel,
    d: crate::document::Document,
    segment: Segment,
    ctx: EmitCtx,
) -> EngineModel {
    let m1 = m_lines(m, seq![spec_line(0, "SECTIONS"@), spec_line(0, "{"@)]);
    let m2 = match segment.fixed_vram {
        Some(v) => m_empty(m_line(m1, 1, ". = 0x"@ + hex_str_w(v as nat, 8) + ";"@)),
        None => m1,
    };
    let m3 = m_empty(
        write_single_segment_model(
            m2,
            d.settings.base_path@,
            segment,
            segment.alloc_sections.deep_view(),
            false,
            ctx,
        ),
    );
    let m4 = m_empty(
        write_single_segment_model(
            m3,
            d.settings.base_path@,
            segment,
            segment.noload_sections.deep_view(),
            true,
            ctx,
        ),
    );
    end_sections_model(m4, d, ctx)
}

/// The first `k` segments of the document, in order.
pub open spec fn segments_model(
    m: EngineModel,
    d: crate::document::Document,
    segments: Seq<Segment>,
    k: int,
    ctx: EmitCtx,
) -> EngineModel
    decreases k,
{
    if k <= 0 {
        m
    } else {
        add_segment_model(segments_model(m, d, segments, k - 1, ctx), d, segments[k - 1], ctx)
    }
}

/// One whole emission pass over the document's segments: single-segment mode
/// places the one segment directly; normal mode opens the block, writes every
/// segment in order and closes it.
pub open spec fn add_all_segments_model(
    m: EngineModel,
    d: crate::document::Document,
    segments: Seq<Segment>,
    ctx: EmitCtx,
) -> EngineModel {
    if d.settings.single_segment_mode {
        add_single_segment_model(m, d, segments[0], ctx)
    } else {
        end_sections_model(
            segments_model(
                m_lines(m, crate::linker_writer::begin_sections_lines(d.settings.hardcoded_gp_value)),
                d,
                segments,
                segments.len() as int,
                ctx,
            ),
            d,
            ctx,
        )
    }
}

impl<'a> LinkerWriter<'a> {
    /// Closes a start/end/size triple: writes the end marker at `value` and
    /// the size as the absolute difference, registering both names.
    pub(crate) fn write_sym_end_size(&mut self, start: &str, end: &str, size: &str, value: &str)
        requires
            old(self).wf(),
        ensures
            final(self).wf(),
            old(self).same_config(*final(self)),
            final(self).phase == old(self).phase,
            final(self).buffer.indent_level == old(self).buffer.indent_level,
            set_elems(final(self).files_paths) == set_elems(old(self).files_paths),
            final(self).class_emitted == old(self).class_emitted,
            old(self).buffer.lines().is_prefix_of(final(self).buffer.lines()),
            old(self).buffer.syms().is_prefix_of(final(self).buffer.syms()),
            final(self).buffer.lines() == old(self).buffer.lines() + sym_end_size_lines(
                old(self).buffer.indent_level as nat,
                start@,
                end@,
                size@,
                value@,
            ),
            final(self).buffer.syms() == syms_after(syms_after(old(self).buffer.syms(), end@), size@),
            final(self).model() == m_end_size(
                old(self).model(),
                old(self).buffer.indent_level as nat,
                start@,
                end@,
                size@,
                value@,
            ),
    {
        self.buffer.write_linker_symbol(end, value);
        let mut sz = String::from_str("ABSOLUTE(");
        sz.append(end);
        sz.append(" - ");
        sz.append(start);
        sz.append(")");
        self.buffer.write_linker_symbol(size, sz.as_str());
        proof {
            assert(self.buffer.lines() =~= old(self).buffer.lines() + sym_end_size_lines(
                old(self).buffer.indent_level as nat,
                start@,
                end@,
                size@,
                value@,
            ));
            lemma_prefix_from_eqlen(old(self).buffer.lines(), self.buffer.lines());
            lemma_prefix_from_eqlen(old(self).buffer.syms(), self.buffer.syms());
            assert(self.model() =~= m_end_size(
                old(self).model(),
                old(self).buffer.indent_level as nat,
                start@,
                end@,
                size@,
                value@,
            ));
        }
    }

    /// Opens the per-kind marker of a segment's loaded or zero-initialized
    /// sub-region, when those markers are enabled.
    pub(crate) fn write_sections_kind_start(&mut self, segment: &Segment, noload: bool)
        requires
            old(self).wf(),
        ensures
            final(self).wf(),
            old(self).same_config(*final(self)),
            final(self).phase == old(self).phase,
            final(self).buffer.indent_level == old(self).buffer.indent_level,
            set_elems(final(self).files_paths) == set_elems(old(self).files_paths),
            final(self).class_emitted == old(self).class_emitted,
            old(self).buffer.lines().is_prefix_of(final(self).buffer.lines()),
            old(self).buffer.syms().is_prefix_of(final(self).buffer.syms()),
            ({
                let style = old(self).d.settings.linker_symbols_style;
                let sym = spec_segment_vram_start(style, kind_seg_name(segment.name@, noload));
                if old(self).emit_sections_kind_symbols {
                    &&& final(self).buffer.lines() == old(self).buffer.lines() + seq![
                        spec_line(
                            old(self).buffer.indent_level as nat,
                            assignment_line(sym, "."@, false, false),
                        ),
                        Seq::<char>::empty(),
                    ]
                    &&& final(self).buffer.syms() == syms_after(old(self).buffer.syms(), sym)
                } else {
                    &&& final(self).buffer.lines() == old(self).buffer.lines()
                    &&& final(self).buffer.syms() == old(self).buffer.syms()
                }
            }),
            final(self).model() == kind_start_model(
                old(self).model(),
                *segment,
                noload,
                old(self).buffer.indent_level as nat,
                old(self).ctx(),
            ),
    {
        if self.emit_sections_kind_symbols {
            let seg_sym = self.kind_seg_name_exec(segment, noload);
            let sym = self.d.settings.linker_symbols_style.segment_vram_start(seg_sym.as_str());
            self.buffer.write_linker_symbol(sym.as_str(), ".");
            self.buffer.write_empty_line();
            proof {
                let style = old(self).d.settings.linker_symbols_style;
                let symv = spec_segment_vram_start(style, kind_seg_name(segment.name@, noload));
                assert(final(self).buffer.lines() =~= old(self).buffer.lines() + seq![
                    spec_line(
                        old(self).buffer.indent_level as nat,
                        assignment_line(symv, "."@, false, false),
                    ),
                    Seq::<char>::empty(),
                ]);
            }
        }
        proof {
            lemma_prefix_from_eqlen(old(self).buffer.lines(), self.buffer.lines());
            lemma_prefix_from_eqlen(old(self).buffer.syms(), self.buffer.syms());
            assert(self.model() =~= kind_start_model(
                old(self).model(),
                *segment,
                noload,
                old(self).buffer.indent_level as nat,
                old(self).ctx(),
            ));
        }
    }

    /// Closes the per-kind marker with its end/size pair, when enabled.
    pub(crate) fn write_sections_kind_end(&mut self, segment: &Segment, noload: bool)
        requires
            old(self).wf(),
        ensures
            final(self).wf(),
            old(self).same_config(*final(self)),
            final(self).phase == old(self).phase,
            final(self).buffer.indent_level == old(self).buffer.indent_level,
            set_elems(final(self).files_paths) == set_elems(old(self).files_paths),
            final(self).class_emitted == old(self).class_emitted,
            old(self).buffer.lines().is_prefix_of(final(self).buffer.lines()),
            old(self).buffer.syms().is_prefix_of(final(self).buffer.syms()),
            ({
                let style = old(self).d.settings.linker_symbols_style;
                let kname = kind_seg_name(segment.name@, noload);
                let start = spec_segment_vram_start(style, kname);
                let end = spec_segment_vram_end(style, kname);
                let size = spec_segment_vram_size(style, kname);
                if old(self).emit_sections_kind_symbols {
                    &&& final(self).buffer.lines() == old(self).buffer.lines() + seq![
                        Seq::<char>::empty(),
                    ] + sym_end_size_lines(
                        old(self).buffer.indent_level as nat,
                        start,
                        end,
                        size,
                        "."@,
                    )
                    &&& final(self).buffer.syms() == syms_after(
                        syms_after(old(self).buffer.syms(), end),
                        size,
                    )
                } else {
                    &&& final(self).buffer.lines() == old(self).buffer.lines()
                    &&& final(self).buffer.syms() == old(self).buffer.syms()
                }
            }),
            final(self).model() == kind_end_model(
                old(self).model(),
                *segment,
                noload,
                old(self).buffer.indent_level as nat,
                old(self).ctx(),
            ),
    {
        if self.emit_sections_kind_symbols {
            self.buffer.write_empty_line();
            let seg_sym = self.kind_seg_name_exec(segment, noload);
            let style = &self.d.settings.linker_symbols_style;
            let start = style.segment_vram_start(seg_sym.as_str());
            let end = style.segment_vram_end(seg_sym.as_str());
            let size = style.segment_vram_size(seg_sym.as_str());
            self.write_sym_end_size(start.as_str(), end.as_str(), size.as_str(), ".");
            proof {
                assert(final(self).buffer.lines() =~= old(self).buffer.lines() + seq![
                    Seq::<char>::empty(),
                ] + sym_end_size_lines(
                    old(self).buffer.indent_level as nat,
                    spec_segment_vram_start(
                        old(self).d.settings.linker_symbols_style,
                        kind_seg_name(segment.name@, noload),
                    ),
                    spec_segment_vram_end(
                        old(self).d.settings.linker_symbols_style,
                        kind_seg_name(segment.name@, noload),
                    ),
                    spec_segment_vram_size(
                        old(self).d.settings.linker_symbols_style,
                        kind_seg_name(segment.name@, noload),
                    ),
                    "."@,
                ));
            }
        }
        proof {
            lemma_prefix_from_eqlen(old(self).buffer.lines(), self.buffer.lines());
            lemma_prefix_from_eqlen(old(self).buffer.syms(), self.buffer.syms());
            assert(self.model() =~= kind_end_model(
                old(self).model(),
                *segment,
                noload,
                old(self).buffer.indent_level as nat,
                old(self).ctx(),
            ));
        }
    }

    /// The marker base name of one sub-region.
    fn kind_seg_name_exec(&self, segment: &Segment, noload: bool) -> (r: String)
        ensures
            r@ == kind_seg_name(segment.name@, noload),
    {
        let mut s = String::new();
        s.append(segment.name.as_str());
        if noload {
            s.append("_noload");
        } else {
            s.append("_alloc");
        }
        s
    }

    /// Opens one section: boundary alignments, the global-pointer assignment
    /// when it lands here, and the section's start marker.
    pub(crate) fn write_section_symbol_start(&mut self, segment: &Segment, section: &str)
        requires
            old(self).wf(),
        ensures
            final(self).wf(),
            old(self).same_config(*final(self)),
            final(self).phase == old(self).phase,
            final(self).buffer.indent_level == old(self).buffer.indent_level,
            set_elems(final(self).files_paths) == set_elems(old(self).files_paths),
            final(self).class_emitted == old(self).class_emitted,
            old(self).buffer.lines().is_prefix_of(final(self).buffer.lines()),
            old(self).buffer.syms().is_prefix_of(final(self).buffer.syms()),
            ({
                let ind = old(self).buffer.indent_level as nat;
                let style = old(self).d.settings.linker_symbols_style;
                let sym = spec_segment_section_start(style, segment.name@, section@);
                if old(self).emit_section_symbols {
                    &&& final(self).buffer.lines() == old(self).buffer.lines()
                        + section_start_align_lines(ind, *segment, section@) + gp_lines(
                        ind,
                        *segment,
                        section@,
                        old(self).rs.active_tags.deep_view(),
                    ) + seq![spec_line(ind, assignment_line(sym, "."@, false, false))]
                    &&& final(self).buffer.syms() == syms_after(old(self).buffer.syms(), sym)
                } else {
                    &&& final(self).buffer.lines() == old(self).buffer.lines()
                    &&& final(self).buffer.syms() == old(self).buffer.syms()
                }
            }),
            final(self).model() == sec_start_model(
                old(self).model(),
                *segment,
                section@,
                old(self).buffer.indent_level as nat,
                old(self).ctx(),
            ),
    {
        if self.emit_section_symbols {
            if let Some(a) = segment.section_start_align {
                self.buffer.align_symbol(".", a);
            }
            match assoc_get(&segment.sections_start_alignment, section) {
                Some(av) => {
                    self.buffer.align_symbol(".", *av);
                },
                None => {},
            }
            if let Some(g) = &segment.gp_info {
                if self.rs.should_emit_entry(
                    &g.exclude_if_any,
                    &g.exclude_if_all,
                    &g.include_if_any,
                    &g.include_if_all,
                ) && str_eq(g.section.as_str(), section) {
                    let mut v = String::from_str(". + 0x");
                    push_hex(&mut v, g.offset);
                    self.buffer.write_symbol_assignment("_gp", v.as_str(), g.provide, g.hidden);
                }
            }
            let sym = self.d.settings.linker_symbols_style.segment_section_start(
                segment.name.as_str(),
                section,
            );
            self.buffer.write_linker_symbol(sym.as_str(), ".");
            proof {
                let ind = old(self).buffer.indent_level as nat;
                let style = old(self).d.settings.linker_symbols_style;
                let symv = spec_segment_section_start(style, segment.name@, section@);
                assert(final(self).buffer.lines() =~= old(self).buffer.lines()
                    + section_start_align_lines(ind, *segment, section@) + gp_lines(
                    ind,
                    *segment,
                    section@,
                    old(self).rs.active_tags.deep_view(),
                ) + seq![spec_line(ind, assignment_line(symv, "."@, false, false))]);
            }
        }
        proof {
            lemma_prefix_from_eqlen(old(self).buffer.lines(), self.buffer.lines());
            lemma_prefix_from_eqlen(old(self).buffer.syms(), self.buffer.syms());
            assert(self.model() =~= sec_start_model(
                old(self).model(),
                *segment,
                section@,
                old(self).buffer.indent_level as nat,
                old(self).ctx(),
            ));
        }
    }

    /// Closes one section: boundary alignments and the end/size pair of its
    /// marker triple.
    pub(crate) fn write_section_symbol_end(&mut self, segment: &Segment, section: &str)
        requires
            old(self).wf(),
        ensures
            final(self).wf(),
            old(self).same_config(*final(self)),
            final(self).phase == old(self).phase,
            final(self).buffer.indent_level == old(self).buffer.indent_level,
            set_elems(final(self).files_paths) == set_elems(old(self).files_paths),
            final(self).class_emitted == old(self).class_emitted,
            old(self).buffer.lines().is_prefix_of(final(self).buffer.lines()),
            old(self).buffer.syms().is_prefix_of(final(self).buffer.syms()),
            ({
                let ind = old(self).buffer.indent_level as nat;
                let style = old(self).d.settings.linker_symbols_style;
                let start = spec_segment_section_start(style, segment.name@, section@);
                let end = spec_segment_section_end(style, segment.name@, section@);
                let size = spec_segment_section_size(style, segment.name@, section@);
                if old(self).emit_section_symbols {
                    &&& final(self).buffer.lines() == old(self).buffer.lines()
                        + section_end_align_lines(ind, *segment, section@) + sym_end_size_lines(
                        ind,
                        start,
                        end,
                        size,
                        "."@,
                    )
                    &&& final(self).buffer.syms() == syms_after(
                        syms_after(old(self).buffer.syms(), end),
                        size,
                    )
                } else {
                    &&& final(self).buffer.lines() == old(self).buffer.lines()
                    &&& final(self).buffer.syms() == old(self).buffer.syms()
                }
            }),
            final(self).model() == sec_end_model(
                old(self).model(),
                *segment,
                section@,
                old(self).buffer.indent_level as nat,
                old(self).ctx(),
            ),
    {
        if self.emit_section_symbols {
            if let Some(a) = segment.section_end_align {
                self.buffer.align_symbol(".", a);
            }
            match assoc_get(&segment.sections_end_alignment, section) {
                Some(av) => {
                    self.buffer.align_symbol(".", *av);
                },
                None => {},
            }
            let style = &self.d.settings.linker_symbols_style;
            let start = style.segment_section_start(segment.name.as_str(), section);
            let end = style.segment_section_end(segment.name.as_str(), section);
            let size = style.segment_section_size(segment.name.as_str(), section);
            self.write_sym_end_size(start.as_str(), end.as_str(), size.as_str(), ".");
            proof {
                let ind = old(self).buffer.indent_level as nat;
                let style = old(self).d.settings.linker_symbols_style;
                assert(final(self).buffer.lines() =~= old(self).buffer.lines()
                    + section_end_align_lines(ind, *segment, section@) + sym_end_size_lines(
                    ind,
                    spec_segment_section_start(style, segment.name@, section@),
                    spec_segment_section_end(style, segment.name@, section@),
                    spec_segment_section_size(style, segment.name@, section@),
                    "."@,
                ));
            }
        }
        proof {
            lemma_prefix_from_eqlen(old(self).buffer.lines(), self.buffer.lines());
            lemma_prefix_from_eqlen(old(self).buffer.syms(), self.buffer.syms());
            assert(self.model() =~= sec_end_model(
                old(self).model(),
                *segment,
                section@,
                old(self).buffer.indent_level as nat,
                old(self).ctx(),
            ));
        }
    }

    /// Opens one output block: the sub-region marker, the header line and the
    /// brace.
    #[verifier::rlimit(60)]
    pub(crate) fn write_segment_start(&mut self, segment: &Segment, noload: bool)
        requires
            old(self).wf(),
            old(self).buffer.indent_level < 8,
        ensures
            final(self).wf(),
            old(self).same_config(*final(self)),
            final(self).phase == old(self).phase,
            final(self).buffer.indent_level == old(self).buffer.indent_level + 1,
            set_elems(final(self).files_paths) == set_elems(old(self).files_paths),
            final(self).class_emitted == old(self).class_emitted,
            old(self).buffer.lines().is_prefix_of(final(self).buffer.lines()),
            old(self).buffer.syms().is_prefix_of(final(self).buffer.syms()),
            ({
                let ind = old(self).buffer.indent_level as nat;
                let style = old(self).d.settings.linker_symbols_style;
                let ksym = spec_segment_vram_start(style, kind_seg_name(segment.name@, noload));
                let header = seq![
                    spec_line(ind, segment_block_header(*segment, noload, style)),
                    spec_line(ind, "{"@),
                ];
                if old(self).emit_sections_kind_symbols {
                    &&& final(self).buffer.lines() == old(self).buffer.lines() + seq![
                        spec_line(ind, assignment_line(ksym, "."@, false, false)),
                        Seq::<char>::empty(),
                    ] + header
                    &&& final(self).buffer.syms() == syms_after(old(self).buffer.syms(), ksym)
                } else {
                    &&& final(self).buffer.lines() == old(self).buffer.lines() + header
                    &&& final(self).buffer.syms() == old(self).buffer.syms()
                }
            }),
            final(self).model() == m_lines(
                kind_start_model(
                    old(self).model(),
                    *segment,
                    noload,
                    old(self).buffer.indent_level as nat,
                    old(self).ctx(),
                ),
                seq![
                    spec_line(
                        old(self).buffer.indent_level as nat,
                        segment_block_header(*segment, noload, old(self).ctx().style),
                    ),
                    spec_line(old(self).buffer.indent_level as nat, "{"@),
                ],
            ),
    {
        self.write_sections_kind_start(segment, noload);

        let mut line = String::from_str(".");
        line.append(segment.name.as_str());
        if noload {
            line.append(".noload (NOLOAD) :");
        } else {
            if let Some(v) = segment.fixed_vram {
                line.append(" 0x");
                push_hex_w(&mut line, v, 8);
            } else if let Some(s) = &segment.fixed_symbol {
                line.append(" ");
                line.append(s.as_str());
            } else if let Some(f) = &segment.follows_segment {
                line.append(" ");
                let e = self.d.settings.linker_symbols_style.segment_vram_end(f.as_str());
                line.append(e.as_str());
            } else if let Some(c) = &segment.vram_class {
                line.append(" ");
                let cs = self.d.settings.linker_symbols_style.vram_class_start(c.as_str());
                line.append(cs.as_str());
            }
            line.append(" : AT(");
            let rs_sym = self.d.settings.linker_symbols_style.segment_rom_start(
                segment.name.as_str(),
            );
            line.append(rs_sym.as_str());
            line.append(")");
        }
        if let Some(sub) = segment.subalign {
            line.append(" SUBALIGN(");
            push_dec(&mut line, sub);
            line.append(")");
        }
        proof {
            assert(line@ =~= segment_block_header(
                *segment,
                noload,
                old(self).d.settings.linker_symbols_style,
            ));
        }
        self.buffer.writeln(line.as_str());
        self.buffer.begin_block();
        proof {
            let ind = old(self).buffer.indent_level as nat;
            let style = old(self).d.settings.linker_symbols_style;
            let ksym = spec_segment_vram_start(style, kind_seg_name(segment.name@, noload));
            if old(self).emit_sections_kind_symbols {
                assert(final(self).buffer.lines() =~= old(self).buffer.lines() + seq![
                    spec_line(ind, assignment_line(ksym, "."@, false, false)),
                    Seq::<char>::empty(),
                ] + seq![
                    spec_line(ind, segment_block_header(*segment, noload, style)),
                    spec_line(ind, "{"@),
                ]);
            } else {
                assert(final(self).buffer.lines() =~= old(self).buffer.lines() + seq![
                    spec_line(ind, segment_block_header(*segment, noload, style)),
                    spec_line(ind, "{"@),
                ]);
            }
        }
        proof {
            lemma_prefix_from_eqlen(old(self).buffer.lines(), self.buffer.lines());
            lemma_prefix_from_eqlen(old(self).buffer.syms(), self.buffer.syms());
            assert(self.model() =~= m_lines(
                kind_start_model(
                    old(self).model(),
                    *segment,
                    noload,
                    old(self).buffer.indent_level as nat,
                    old(self).ctx(),
                ),
                seq![
                    spec_line(
                        old(self).buffer.indent_level as nat,
                        segment_block_header(*segment, noload, old(self).ctx().style),
                    ),
                    spec_line(old(self).buffer.indent_level as nat, "{"@),
                ],
            ));
        }
    }

    /// Closes one output block and its sub-region marker.
    pub(crate) fn write_segment_end(&mut self, segment: &Segment, noload: bool)
        requires
            old(self).wf(),
            old(self).buffer.indent_level >= 1,
        ensures
            final(self).wf(),
            old(self).same_config(*final(self)),
            final(self).phase == old(self).phase,
            final(self).buffer.indent_level == old(self).buffer.indent_level - 1,
            set_elems(final(self).files_paths) == set_elems(old(self).files_paths),
            final(self).class_emitted == old(self).class_emitted,
            old(self).buffer.lines().is_prefix_of(final(self).buffer.lines()),
            old(self).buffer.syms().is_prefix_of(final(self).buffer.syms()),
            ({
                let ind = (old(self).buffer.indent_level - 1) as nat;
                let style = old(self).d.settings.linker_symbols_style;
                let kname = kind_seg_name(segment.name@, noload);
                let start = spec_segment_vram_start(style, kname);
                let end = spec_segment_vram_end(style, kname);
                let size = spec_segment_vram_size(style, kname);
                if old(self).emit_sections_kind_symbols {
                    &&& final(self).buffer.lines() == old(self).buffer.lines() + seq![
                        spec_line(ind, "}"@),
                        Seq::<char>::empty(),
                    ] + sym_end_size_lines(ind, start, end, size, "."@)
                    &&& final(self).buffer.syms() == syms_after(
                        syms_after(old(self).buffer.syms(), end),
                        size,
                    )
                } else {
                    &&& final(self).buffer.lines() == old(self).buffer.lines() + seq![
                        spec_line(ind, "}"@),
                    ]
                    &&& final(self).buffer.syms() == old(self).buffer.syms()
                }
            }),
            final(self).model() == kind_end_model(
                m_line(old(self).model(), (old(self).buffer.indent_level - 1) as nat, "}"@),
                *segment,
                noload,
                (old(self).buffer.indent_level - 1) as nat,
                old(self).ctx(),
            ),
    {
        self.buffer.end_block();
        self.write_sections_kind_end(segment, noload);
        proof {
            if old(self).emit_sections_kind_symbols {
                let ind = (old(self).buffer.indent_level - 1) as nat;
                let style = old(self).d.settings.linker_symbols_style;
                let kname = kind_seg_name(segment.name@, noload);
                assert(final(self).buffer.lines() =~= old(self).buffer.lines() + seq![
                    spec_line(ind, "}"@),
                    Seq::<char>::empty(),
                ] + sym_end_size_lines(
                    ind,
                    spec_segment_vram_start(style, kname),
                    spec_segment_vram_end(style, kname),
                    spec_segment_vram_size(style, kname),
                    "."@,
                ));
            }
        }
        proof {
            lemma_prefix_from_eqlen(old(self).buffer.lines(), self.buffer.lines());
            lemma_prefix_from_eqlen(old(self).buffer.syms(), self.buffer.syms());
            assert(self.model() =~= kind_end_model(
                m_line(old(self).model(), (old(self).buffer.indent_level - 1) as nat, "}"@),
                *segment,
                noload,
                (old(self).buffer.indent_level - 1) as nat,
                old(self).ctx(),
            ));
        }
    }

    /// Writes one sub-region of a segment in normal mode: the block with its
    /// fill value, then every section with its markers and file content.
    pub(crate) fn write_segment(
        &mut self,
        segment: &Segment,
        sections: &Vec<String>,
        noload: bool,
    ) -> (r: Result<(), SlinkyError>)
        requires
            old(self).wf(),
            old(self).buffer.indent_level == 1,
        ensures
            final(self).wf(),
            r is Ok,
            old(self).same_config(*final(self)),
            final(self).phase == old(self).phase,
            final(self).buffer.indent_level == 1,
            final(self).class_emitted == old(self).class_emitted,
            old(self).grows(*final(self)),
            final(self).model() == write_segment_model(
                old(self).model(),
                old(self).d.settings.base_path@,
                *segment,
                sections.deep_view(),
                noload,
                old(self).ctx(),
            ),
    {
        let ghost m0 = old(self).model();
        let ghost ctx = old(self).ctx();
        let ghost secs_dv = sections.deep_view();
        let ghost sbase = old(self).d.settings.base_path@;
        self.write_segment_start(segment, noload);
        proof {
            Self::lemma_buffer_only_step(*old(self), *self);
        }
        let ghost m2 = self.model();
        proof {
            assert(m2 == m_lines(
                kind_start_model(m0, *segment, noload, 1, ctx),
                seq![
                    spec_line(1, segment_block_header(*segment, noload, ctx.style)),
                    spec_line(1, "{"@),
                ],
            ));
        }

        let ghost bf = *self;
        if let Some(fill) = segment.fill_value {
            let mut line = String::from_str("FILL(0x");
            push_hex_w(&mut line, fill, 8);
            line.append(");");
            proof {
                assert(line@ =~= fill_line(fill));
            }
            self.buffer.writeln(line.as_str());
            proof {
                Self::lemma_buffer_only_step(bf, *self);
                Self::lemma_grows_trans(*old(self), bf, *self);
                assert(self.model() =~= m_line(m2, 2, fill_line(fill)));
            }
        }
        let ghost m3 = self.model();
        proof {
            assert(m3 == (match segment.fill_value {
                Some(f) => m_line(m2, 2, fill_line(f)),
                None => m2,
            }));
        }

        let mut i: usize = 0;
        while i < sections.len()
            invariant
                i <= sections.len(),
                self.wf(),
                old(self).same_config(*self),
                self.phase == old(self).phase,
                self.buffer.indent_level == 2,
                self.class_emitted == old(self).class_emitted,
                old(self).grows(*self),
                ctx == old(self).ctx(),
                secs_dv == sections.deep_view(),
                sbase == old(self).d.settings.base_path@,
                self.model() == seg_sections_model(m3, sbase, *segment, secs_dv, i as int, ctx),
            decreases sections.len() - i,
        {
            proof {
                assert(sections.deep_view()[i as int] == sections[i as int]@);
            }
            let ghost b0 = *self;
            self.write_section_symbol_start(segment, sections[i].as_str());
            proof {
                Self::lemma_buffer_only_step(b0, *self);
                Self::lemma_grows_trans(*old(self), b0, *self);
            }
            let ghost b1 = *self;
            self.emit_section(segment, sections[i].as_str(), sections)?;
            proof {
                Self::lemma_grows_trans(*old(self), b1, *self);
            }
            let ghost b2 = *self;
            self.write_section_symbol_end(segment, sections[i].as_str());
            proof {
                Self::lemma_buffer_only_step(b2, *self);
                Self::lemma_grows_trans(*old(self), b2, *self);
            }
            if i + 1 < sections.len() {
                let ghost b3 = *self;
                self.buffer.write_empty_line();
                proof {
                    Self::lemma_buffer_only_step(b3, *self);
                    Self::lemma_grows_trans(*old(self), b3, *self);
                }
            }
            proof {
                assert(self.model() =~= seg_sections_model(
                    m3,
                    sbase,
                    *segment,
                    secs_dv,
                    i + 1,
                    ctx,
                ));
            }
            i += 1;
        }

        let ghost b4 = *self;
        self.write_segment_end(segment, noload);
        proof {
            Self::lemma_buffer_only_step(b4, *self);
            Self::lemma_grows_trans(*old(self), b4, *self);
            assert(self.model() =~= write_segment_model(m0, sbase, *segment, secs_dv, noload, ctx));
        }
        Ok(())
    }

    /// The first index of the document's address classes carrying `name`.
    fn find_class(&self, name: &str) -> (r: Option<usize>)
        ensures
            match r {
                Some(i) => i < self.d.vram_classes.len() && self.d.vram_classes[i as int].name@
                    == name@ && (forall|j: int|
                    0 <= j < i ==> self.d.vram_classes[j].name@ != name@),
                None => forall|j: int|
                    0 <= j < self.d.vram_classes.len() ==> self.d.vram_classes[j].name@ != name@,
            },
    {
        let d = self.d;
        let mut i: usize = 0;
        while i < d.vram_classes.len()
            invariant
                i <= d.vram_classes.len(),
                d == self.d,
                forall|j: int| 0 <= j < i ==> d.vram_classes[j].name@ != name@,
            decreases d.vram_classes.len() - i,
        {
            if str_eq(d.vram_classes[i].name.as_str(), name) {
                return Some(i);
            }
            i += 1;
        }
        None
    }

    /// Resolves the address class the first time a segment references it:
    /// its start symbol from the fixed address, the anchor symbol, or zero
    /// raised over every followed class's end; its end symbol starts at zero.
    fn emit_vram_class(&mut self, class_name: &str, ci: usize)
        requires
            old(self).wf(),
            old(self).buffer.indent_level == 1,
            ci < old(self).d.vram_classes.len(),
            old(self).d.vram_classes[ci as int].name@ == class_name@,
            !old(self).class_emitted[ci as int],
        ensures
            final(self).wf(),
            old(self).same_config(*final(self)),
            final(self).phase == old(self).phase,
            final(self).buffer.indent_level == old(self).buffer.indent_level,
            set_elems(final(self).files_paths) == set_elems(old(self).files_paths),
            final(self).class_emitted@ == old(self).class_emitted@.update(ci as int, true),
            old(self).grows(*final(self)),
            final(self).buffer.syms().contains(
                spec_vram_class_start(old(self).d.settings.linker_symbols_style, class_name@),
            ),
            final(self).buffer.syms().contains(
                spec_vram_class_end(old(self).d.settings.linker_symbols_style, class_name@),
            ),
            final(self).model() == class_model(
                old(self).model(),
                ci as int,
                old(self).d.vram_classes@[ci as int],
                class_name@,
                old(self).ctx(),
            ),
    {
        let d = self.d;
        let style = &d.settings.linker_symbols_style;
        let vc = &d.vram_classes[ci];
        let class_sym = style.vram_class_start(class_name);
        let ghost m0 = old(self).model();
        let ghost ctx = old(self).ctx();

        if let Some(fv) = vc.fixed_vram {
            let mut v = String::from_str("0x");
            push_hex_w(&mut v, fv, 8);
            self.buffer.write_linker_symbol(class_sym.as_str(), v.as_str());
            proof {
                assert(self.model() =~= m_marker(m0, 1, class_sym@, "0x"@ + hex_str_w(fv as nat, 8)));
            }
        } else if let Some(fs) = &vc.fixed_symbol {
            self.buffer.write_linker_symbol(class_sym.as_str(), fs.as_str());
            proof {
                assert(self.model() =~= m_marker(m0, 1, class_sym@, fs@));
            }
        } else {
            self.buffer.write_linker_symbol(class_sym.as_str(), "0x00000000");
            let ghost mzero = self.model();
            let ghost follows_dv = vc.follows_classes.deep_view();
            proof {
                assert(mzero == m_marker(m0, 1, class_sym@, "0x00000000"@));
            }
            let mut k: usize = 0;
            while k < vc.follows_classes.len()
                invariant
                    k <= vc.follows_classes.len(),
                    self.wf(),
                    old(self).same_config(*self),
                    self.phase == old(self).phase,
                    self.buffer.indent_level == old(self).buffer.indent_level,
                    self.buffer.indent_level == 1,
                    set_elems(self.files_paths) == set_elems(old(self).files_paths),
                    self.class_emitted == old(self).class_emitted,
                    old(self).buffer.lines().is_prefix_of(self.buffer.lines()),
                    self.buffer.syms() == syms_after(old(self).buffer.syms(), class_sym@),
                    d == self.d,
                    vc == &d.vram_classes[ci as int],
                    class_sym@ == spec_vram_class_start(
                        old(self).d.settings.linker_symbols_style,
                        class_name@,
                    ),
                    ctx == old(self).ctx(),
                    follows_dv == vc.follows_classes.deep_view(),
                    mzero == m_marker(m0, 1, class_sym@, "0x00000000"@),
                    self.model() == follows_model(mzero, follows_dv, k as int, class_sym@, ctx),
                decreases vc.follows_classes.len() - k,
            {
                let other_end = self.d.settings.linker_symbols_style.vram_class_end(
                    vc.follows_classes[k].as_str(),
                );
                let ghost bk = *self;
                self.buffer.write_symbol_max_self(class_sym.as_str(), other_end.as_str());
                proof {
                    crate::ordered_set::lemma_prefix_trans(
                        old(self).buffer.lines(),
                        bk.buffer.lines(),
                        self.buffer.lines(),
                    );
                    assert(vc.follows_classes.deep_view()[k as int] == vc.follows_classes[k as int]@);
                    assert(self.model() =~= follows_model(
                        mzero,
                        follows_dv,
                        k + 1,
                        class_sym@,
                        ctx,
                    ));
                }
                k += 1;
            }
        }
        let ghost m1 = self.model();
        proof {
            assert(m1 == (match vc.fixed_vram {
                Some(v) => m_marker(m0, 1, class_sym@, "0x"@ + hex_str_w(v as nat, 8)),
                None => match vc.fixed_symbol {
                    Some(s) => m_marker(m0, 1, class_sym@, s@),
                    None => follows_model(
                        m_marker(m0, 1, class_sym@, "0x00000000"@),
                        vc.follows_classes.deep_view(),
                        vc.follows_classes.len() as int,
                        class_sym@,
                        ctx,
                    ),
                },
            }));
        }
        let ghost s_mid = *self;
        proof {
            crate::script_buffer::lemma_syms_after_contains(old(self).buffer.syms(), class_sym@);
            assert(s_mid.buffer.syms().contains(class_sym@));
        }
        let class_end_sym = style.vram_class_end(class_name);
        self.buffer.write_linker_symbol(class_end_sym.as_str(), "0x00000000");
        self.buffer.write_empty_line();
        proof {
            Self::lemma_syms_after_prefix(s_mid.buffer.syms(), class_end_sym@);
            lemma_prefix_contains(s_mid.buffer.syms(), self.buffer.syms(), class_sym@);
            crate::script_buffer::lemma_syms_after_contains(s_mid.buffer.syms(), class_end_sym@);
            assert(self.buffer.syms().contains(class_end_sym@));
            lemma_prefix_from_eqlen(old(self).buffer.lines(), self.buffer.lines());
            lemma_prefix_from_eqlen(old(self).buffer.syms(), self.buffer.syms());
            lemma_prefix_from_eqlen(
                set_elems(old(self).files_paths),
                set_elems(self.files_paths),
            );
        }
        self.class_emitted.set(ci, true);
        proof {
            assert(self.model() =~= class_model(
                m0,
                ci as int,
                old(self).d.vram_classes@[ci as int],
                class_name@,
                ctx,
            ));
        }
    }

    /// Writes one segment: address-class resolution on first reference, the
    /// alignment and start markers, the loaded and zero-initialized blocks,
    /// the counter advance, the closing marker triples, and the raise of the
    /// owning class's end. A reference to an undeclared class is the one
    /// error, reported before anything is written.
    #[verifier::spinoff_prover]
    #[verifier::rlimit(100)]
    pub fn add_segment(&mut self, segment: &Segment) -> (r: Result<(), SlinkyError>)
        requires
            old(self).wf(),
            old(self).phase == Phase::Open,
            old(self).buffer.indent_level == 1,
        ensures
            final(self).wf(),
            old(self).same_config(*final(self)),
            final(self).phase == Phase::Open,
            final(self).buffer.indent_level == 1,
            old(self).grows(*final(self)),
            ({
                let active = old(self).rs.active_tags.deep_view();
                let style = old(self).d.settings.linker_symbols_style;
                if !crate::runtime_settings::spec_should_emit(
                    segment.exclude_if_any.deep_view(),
                    segment.exclude_if_all.deep_view(),
                    segment.include_if_any.deep_view(),
                    segment.include_if_all.deep_view(),
                    active,
                ) {
                    r is Ok && old(self).same_state(*final(self))
                } else {
                    match segment.vram_class {
                        None => r is Ok && final(self).class_emitted == old(self).class_emitted,
                        Some(c) => {
                            if spec_class_found(*old(self).d, c@) {
                                &&& r is Ok
                                &&& (exists|i: int| #![auto]
                                    0 <= i < old(self).d.vram_classes.len() && old(
                                        self,
                                    ).d.vram_classes[i].name@ == c@ && final(self).class_emitted@
                                        == old(self).class_emitted@.update(i, true) && (!old(
                                        self,
                                    ).class_emitted[i] ==> final(self).buffer.syms().contains(
                                        spec_vram_class_start(style, c@),
                                    ) && final(self).buffer.syms().contains(
                                        spec_vram_class_end(style, c@),
                                    )))
                            } else {
                                &&& r matches Err(SlinkyError::MissingVramClassForSegment {
                                    segment: s,
                                    vram_class: v,
                                }) && s@ == segment.name@ && v@ == c@
                                &&& old(self).same_state(*final(self))
                            }
                        },
                    }
                }
            }),
            final(self).model() == add_segment_model(
                old(self).model(),
                *old(self).d,
                *segment,
                old(self).ctx(),
            ),
    {
        if !self.rs.should_emit_entry(
            &segment.exclude_if_any,
            &segment.exclude_if_all,
            &segment.include_if_any,
            &segment.include_if_all,
        ) {
            proof {
                Self::lemma_grows_refl(*self);
                assert(self.model() =~= old(self).model());
            }
            return Ok(());
        }
        let ghost m0 = old(self).model();
        let ghost ctx = old(self).ctx();
        let ghost sbase = old(self).d.settings.base_path@;
        let ghost cname_opt: Option<Seq<char>> = (match segment.vram_class {
            Some(ref c) => Some(c@),
            None => None,
        });

        let d = self.d;
        let style = &d.settings.linker_symbols_style;
        let name = segment.name.as_str();

        let rom_start = style.segment_rom_start(name);
        let rom_end = style.segment_rom_end(name);
        let rom_size = style.segment_rom_size(name);
        let vram_start = style.segment_vram_start(name);
        let vram_end = style.segment_vram_end(name);
        let vram_size = style.segment_vram_size(name);

        let ghost mut newly_emitted: bool = false;
        let ghost mut g_start: Seq<char> = Seq::empty();
        let ghost mut g_end: Seq<char> = Seq::empty();
        if let Some(class_name) = &segment.vram_class {
            match self.find_class(class_name.as_str()) {
                None => {
                    proof {
                        Self::lemma_grows_refl(*self);
                        lemma_spec_find_class_none(old(self).d.vram_classes@, class_name@);
                        assert(self.model() =~= m0);
                    }
                    return Err(
                        SlinkyError::MissingVramClassForSegment {
                            segment: segment.name.clone(),
                            vram_class: class_name.clone(),
                        },
                    );
                },
                Some(ci) => {
                    proof {
                        lemma_spec_find_class_at(old(self).d.vram_classes@, class_name@, ci as int);
                    }
                    if !self.class_emitted[ci] {
                        self.emit_vram_class(class_name.as_str(), ci);
                        proof {
                            newly_emitted = true;
                            g_start = crate::linker_symbols_style::spec_vram_class_start(
                                old(self).d.settings.linker_symbols_style,
                                class_name@,
                            );
                            g_end = spec_vram_class_end(
                                old(self).d.settings.linker_symbols_style,
                                class_name@,
                            );
                            assert(self.buffer.syms().contains(g_start));
                            assert(self.buffer.syms().contains(g_end));
                        }
                    } else {
                        proof {
                            Self::lemma_grows_refl(*self);
                            assert(self.class_emitted@.update(ci as int, true)
                                =~= self.class_emitted@);
                        }
                    }
                },
            }
        }
        let ghost s_class = *self;
        let ghost mclass = self.model();
        proof {
            assert(newly_emitted ==> s_class.buffer.syms().contains(g_start)
                && s_class.buffer.syms().contains(g_end));
            assert(mclass == (match segment.vram_class {
                None => m0,
                Some(c) => match spec_find_class(old(self).d.vram_classes@, c@) {
                    None => m0,
                    Some(i) => if m0.emitted[i] {
                        m0
                    } else {
                        class_model(m0, i, old(self).d.vram_classes@[i], c@, ctx)
                    },
                },
            }));
        }
        proof {
            Self::lemma_grows_refl(*self);
        }

        if let Some(al) = segment.segment_start_align {
            self.buffer.align_symbol("__romPos", al);
            self.buffer.align_symbol(".", al);
        }
        self.buffer.write_linker_symbol(rom_start.as_str(), "__romPos");
        let mut addr = String::from_str("ADDR(.");
        addr.append(name);
        addr.append(")");
        self.buffer.write_linker_symbol(vram_start.as_str(), addr.as_str());
        let ghost r_mc = self.model();
        proof {
            Self::lemma_buffer_only_step(s_class, *self);
            Self::lemma_grows_trans(*old(self), s_class, *self);
            assert(addr@ =~= "ADDR(."@ + segment.name@ + ")"@);
            assert(r_mc =~= m_marker(
                m_marker(
                    (match segment.segment_start_align {
                        Some(a) => m_lines(
                            mclass,
                            seq![
                                spec_line(1, align_line("__romPos"@, a as nat)),
                                spec_line(1, align_line("."@, a as nat)),
                            ],
                        ),
                        None => mclass,
                    }),
                    1,
                    crate::linker_symbols_style::spec_segment_rom_start(ctx.style, segment.name@),
                    "__romPos"@,
                ),
                1,
                spec_segment_vram_start(ctx.style, segment.name@),
                "ADDR(."@ + segment.name@ + ")"@,
            ));
        }

        let ghost s1 = *self;
        self.write_segment(segment, &segment.alloc_sections, false)?;
        proof {
            Self::lemma_grows_trans(*old(self), s1, *self);
            Self::lemma_grows_trans(s_class, s1, *self);
        }
        let ghost s2 = *self;
        self.buffer.write_empty_line();
        let ghost r_md = self.model();
        proof {
            Self::lemma_buffer_only_step(s2, *self);
            Self::lemma_grows_trans(*old(self), s2, *self);
            Self::lemma_grows_trans(s_class, s2, *self);
            assert(r_md =~= m_empty(
                write_segment_model(
                    r_mc,
                    sbase,
                    *segment,
                    segment.alloc_sections.deep_view(),
                    false,
                    ctx,
                ),
            ));
        }
        let ghost s3 = *self;
        self.write_segment(segment, &segment.noload_sections, true)?;
        proof {
            Self::lemma_grows_trans(*old(self), s3, *self);
            Self::lemma_grows_trans(s_class, s3, *self);
        }

        let ghost s4 = *self;
        self.buffer.write_empty_line();
        let ghost r_me = self.model();
        proof {
            assert(r_me =~= m_empty(
                write_segment_model(
                    r_md,
                    sbase,
                    *segment,
                    segment.noload_sections.deep_view(),
                    true,
                    ctx,
                ),
            ));
        }

        let mut rp = String::from_str("__romPos += SIZEOF(.");
        rp.append(name);
        rp.append(");");
        proof {
            assert(rp@ =~= "__romPos += SIZEOF(."@ + segment.name@ + ");"@);
        }
        self.buffer.writeln(rp.as_str());

        if let Some(al) = segment.segment_end_align {
            self.buffer.align_symbol("__romPos", al);
            self.buffer.align_symbol(".", al);
        }
        let ghost r_mg = self.model();
        proof {
            Self::lemma_buffer_only_step(s4, *self);
            Self::lemma_grows_trans(*old(self), s4, *self);
            Self::lemma_grows_trans(s_class, s4, *self);
            assert(r_mg =~= (match segment.segment_end_align {
                Some(a) => m_lines(
                    m_line(r_me, 1, "__romPos += SIZEOF(."@ + segment.name@ + ");"@),
                    seq![
                        spec_line(1, align_line("__romPos"@, a as nat)),
                        spec_line(1, align_line("."@, a as nat)),
                    ],
                ),
                None => m_line(r_me, 1, "__romPos += SIZEOF(."@ + segment.name@ + ");"@),
            }));
        }
        let ghost s5 = *self;
        self.write_sym_end_size(vram_start.as_str(), vram_end.as_str(), vram_size.as_str(), ".");
        proof {
            Self::lemma_buffer_only_step(s5, *self);
            Self::lemma_grows_trans(*old(self), s5, *self);
            Self::lemma_grows_trans(s_class, s5, *self);
        }
        let ghost s6 = *self;
        self.write_sym_end_size(rom_start.as_str(), rom_end.as_str(), rom_size.as_str(), "__romPos");
        let ghost r_mi = self.model();
        proof {
            Self::lemma_buffer_only_step(s6, *self);
            Self::lemma_grows_trans(*old(self), s6, *self);
            Self::lemma_grows_trans(s_class, s6, *self);
            assert(r_mi =~= m_end_size(
                m_end_size(
                    r_mg,
                    1,
                    spec_segment_vram_start(ctx.style, segment.name@),
                    spec_segment_vram_end(ctx.style, segment.name@),
                    spec_segment_vram_size(ctx.style, segment.name@),
                    "."@,
                ),
                1,
                crate::linker_symbols_style::spec_segment_rom_start(ctx.style, segment.name@),
                crate::linker_symbols_style::spec_segment_rom_end(ctx.style, segment.name@),
                crate::linker_symbols_style::spec_segment_rom_size(ctx.style, segment.name@),
                "__romPos"@,
            ));
        }

        let ghost s7 = *self;
        if let Some(class_name) = &segment.vram_class {
            self.buffer.write_empty_line();
            let ce = self.d.settings.linker_symbols_style.vram_class_end(class_name.as_str());
            self.buffer.write_symbol_max_self(ce.as_str(), vram_end.as_str());
        }
        self.buffer.write_empty_line();
        proof {
            Self::lemma_buffer_only_step(s7, *self);
            Self::lemma_grows_trans(*old(self), s7, *self);
            Self::lemma_grows_trans(s_class, s7, *self);
            if newly_emitted {
                lemma_prefix_contains(s_class.buffer.syms(), self.buffer.syms(), g_start);
                lemma_prefix_contains(s_class.buffer.syms(), self.buffer.syms(), g_end);
            }
            assert(self.model() =~= m_empty(
                match cname_opt {
                    Some(cn) => m_line(
                        m_empty(r_mi),
                        1,
                        max_line(
                            spec_vram_class_end(ctx.style, cn),
                            spec_segment_vram_end(ctx.style, segment.name@),
                        ),
                    ),
                    None => r_mi,
                },
            ));
            assert(self.model() =~= add_segment_rest_model(mclass, sbase, *segment, cname_opt, ctx));
            assert(self.model() =~= add_segment_model(m0, *old(self).d, *segment, ctx));
        }
        Ok(())
    }

    /// Closes the placement block: the size symbol of every resolved address
    /// class, placeholder sections for allow-listed names, and the discard
    /// block for deny-listed or wildcard-discarded sections.
    #[verifier::spinoff_prover]
    #[verifier::rlimit(100)]
    pub fn end_sections(&mut self) -> (r: Result<(), SlinkyError>)
        requires
            old(self).wf(),
            old(self).phase == Phase::Open,
            old(self).buffer.indent_level == 1,
        ensures
            final(self).wf(),
            r is Ok,
            old(self).same_config(*final(self)),
            final(self).phase == Phase::Closed,
            final(self).buffer.indent_level == 0,
            set_elems(final(self).files_paths) == set_elems(old(self).files_paths),
            final(self).class_emitted == old(self).class_emitted,
            old(self).grows(*final(self)),
            forall|i: int|
                0 <= i < old(self).d.vram_classes.len() && old(self).class_emitted[i]
                    ==> final(self).buffer.syms().contains(
                    crate::linker_symbols_style::spec_vram_class_size(
                        old(self).d.settings.linker_symbols_style,
                        old(self).d.vram_classes[i].name@,
                    ),
                ),
            final(self).model() == end_sections_model(old(self).model(), *old(self).d, old(self).ctx()),
    {
        let d = self.d;
        let ghost style = old(self).d.settings.linker_symbols_style;
        let ghost m0 = old(self).model();
        let ghost ctx = old(self).ctx();
        let ghost dd = *old(self).d;
        let mut need_ln = false;
        proof {
            Self::lemma_grows_refl(*self);
        }
        let mut i: usize = 0;
        while i < d.vram_classes.len()
            invariant
                i <= d.vram_classes.len(),
                d == self.d,
                style == old(self).d.settings.linker_symbols_style,
                self.wf(),
                old(self).same_config(*self),
                self.phase == old(self).phase,
                self.buffer.indent_level == 1,
                set_elems(self.files_paths) == set_elems(old(self).files_paths),
                self.class_emitted == old(self).class_emitted,
                old(self).grows(*self),
                m0 == old(self).model(),
                ctx == old(self).ctx(),
                dd == *old(self).d,
                need_ln == (exists|j: int| 0 <= j < i && old(self).class_emitted[j]),
                self.model() == class_sizes_model(m0, dd, i as int, ctx),
                forall|j: int|
                    0 <= j < i && old(self).class_emitted[j] ==> self.buffer.syms().contains(
                        crate::linker_symbols_style::spec_vram_class_size(
                            style,
                            old(self).d.vram_classes[j].name@,
                        ),
                    ),
            decreases d.vram_classes.len() - i,
        {
            if self.class_emitted[i] {
                let name = d.vram_classes[i].name.as_str();
                let sz = d.settings.linker_symbols_style.vram_class_size(name);
                let mut val = d.settings.linker_symbols_style.vram_class_end(name);
                val.append(" - ");
                let st = d.settings.linker_symbols_style.vram_class_start(name);
                val.append(st.as_str());
                let ghost bk = *self;
                proof {
                    assert(val@ =~= spec_vram_class_end(style, dd.vram_classes@[i as int].name@)
                        + " - "@ + spec_vram_class_start(style, dd.vram_classes@[i as int].name@));
                }
                self.buffer.write_linker_symbol(sz.as_str(), val.as_str());
                need_ln = true;
                proof {
                    Self::lemma_buffer_only_step(bk, *self);
                    Self::lemma_grows_trans(*old(self), bk, *self);
                    crate::script_buffer::lemma_syms_after_contains(bk.buffer.syms(), sz@);
                    assert(self.model() =~= class_sizes_model(m0, dd, i + 1, ctx));
                    assert forall|j: int|
                        0 <= j < i + 1 && old(self).class_emitted[j] implies self.buffer.syms()
                        .contains(
                        crate::linker_symbols_style::spec_vram_class_size(
                            style,
                            old(self).d.vram_classes[j].name@,
                        ),
                    ) by {
                        if j < i {
                            lemma_prefix_contains(
                                bk.buffer.syms(),
                                self.buffer.syms(),
                                crate::linker_symbols_style::spec_vram_class_size(
                                    style,
                                    old(self).d.vram_classes[j].name@,
                                ),
                            );
                        }
                    }
                }
            } else {
                proof {
                    assert(self.model() =~= class_sizes_model(m0, dd, i + 1, ctx));
                }
            }
            i += 1;
        }
        proof {
            assert(need_ln == any_class_emitted(m0, dd));
        }
        let ghost m1 = self.model();
        let ghost need1 = need_ln;

        if self.d.settings.sections_allowlist.len() != 0 {
            if need_ln {
                self.buffer.write_empty_line();
            }
            let ghost b0 = *self;
            proof {
                assert(b0.model() == (if need1 {
                    m_empty(m1)
                } else {
                    m1
                }));
            }
            let mut k: usize = 0;
            while k < d.settings.sections_allowlist.len()
                invariant
                    k <= d.settings.sections_allowlist.len(),
                    d == self.d,
                    self.wf(),
                    b0.same_config(*self),
                    self.phase == b0.phase,
                    self.buffer.indent_level == 1,
                    set_elems(self.files_paths) == set_elems(b0.files_paths),
                    self.class_emitted == b0.class_emitted,
                    b0.buffer.lines().is_prefix_of(self.buffer.lines()),
                    self.buffer.syms() == b0.buffer.syms(),
                    self.model() == placeholders_model(
                        b0.model(),
                        d.settings.sections_allowlist.deep_view(),
                        k as int,
                    ),
                decreases d.settings.sections_allowlist.len() - k,
            {
                let ghost bk = *self;
                proof {
                    assert(d.settings.sections_allowlist.deep_view()[k as int]
                        == d.settings.sections_allowlist[k as int]@);
                }
                self.buffer.write_single_entry_section(
                    d.settings.sections_allowlist[k].as_str(),
                    "0",
                );
                proof {
                    crate::ordered_set::lemma_prefix_trans(
                        b0.buffer.lines(),
                        bk.buffer.lines(),
                        self.buffer.lines(),
                    );
                    assert(self.model() =~= placeholders_model(
                        b0.model(),
                        d.settings.sections_allowlist.deep_view(),
                        k + 1,
                    ));
                }
                k += 1;
            }
            need_ln = true;
            proof {
                Self::lemma_buffer_only_step(b0, *self);
            }
        }
        let ghost m2 = self.model();
        let ghost need2 = need_ln;

        if self.d.settings.sections_allowlist_extra.len() != 0 {
            if need_ln {
                self.buffer.write_empty_line();
            }
            let ghost b1 = *self;
            proof {
                assert(b1.model() == (if need2 {
                    m_empty(m2)
                } else {
                    m2
                }));
            }
            let mut k: usize = 0;
            while k < d.settings.sections_allowlist_extra.len()
                invariant
                    k <= d.settings.sections_allowlist_extra.len(),
                    d == self.d,
                    self.wf(),
                    b1.same_config(*self),
                    self.phase == b1.phase,
                    self.buffer.indent_level == 1,
                    set_elems(self.files_paths) == set_elems(b1.files_paths),
                    self.class_emitted == b1.class_emitted,
                    b1.buffer.lines().is_prefix_of(self.buffer.lines()),
                    self.buffer.syms() == b1.buffer.syms(),
                    self.model() == placeholders_model(
                        b1.model(),
                        d.settings.sections_allowlist_extra.deep_view(),
                        k as int,
                    ),
                decreases d.settings.sections_allowlist_extra.len() - k,
            {
                let ghost bk = *self;
                proof {
                    assert(d.settings.sections_allowlist_extra.deep_view()[k as int]
                        == d.settings.sections_allowlist_extra[k as int]@);
                }
                self.buffer.write_single_entry_section(
                    d.settings.sections_allowlist_extra[k].as_str(),
                    "0",
                );
                proof {
                    crate::ordered_set::lemma_prefix_trans(
                        b1.buffer.lines(),
                        bk.buffer.lines(),
                        self.buffer.lines(),
                    );
                    assert(self.model() =~= placeholders_model(
                        b1.model(),
                        d.settings.sections_allowlist_extra.deep_view(),
                        k + 1,
                    ));
                }
                k += 1;
            }
            need_ln = true;
            proof {
                Self::lemma_buffer_only_step(b1, *self);
            }
        }
        let ghost m3 = self.model();
        let ghost need3 = need_ln;

        if self.d.settings.discard_wildcard_section || self.d.settings.sections_denylist.len()
            != 0 {
            if need_ln {
                self.buffer.write_empty_line();
            }
            self.buffer.writeln("/DISCARD/ :");
            self.buffer.begin_block();
            let ghost b2 = *self;
            proof {
                assert(b2.model() == m_lines(
                    (if need3 {
                        m_empty(m3)
                    } else {
                        m3
                    }),
                    seq![spec_line(1, "/DISCARD/ :"@), spec_line(1, "{"@)],
                ));
            }
            let mut k: usize = 0;
            while k < d.settings.sections_denylist.len()
                invariant
                    k <= d.settings.sections_denylist.len(),
                    d == self.d,
                    self.wf(),
                    b2.same_config(*self),
                    self.phase == b2.phase,
                    self.buffer.indent_level == 2,
                    set_elems(self.files_paths) == set_elems(b2.files_paths),
                    self.class_emitted == b2.class_emitted,
                    b2.buffer.lines().is_prefix_of(self.buffer.lines()),
                    self.buffer.syms() == b2.buffer.syms(),
                    self.model() == denylist_model(
                        b2.model(),
                        d.settings.sections_denylist.deep_view(),
                        k as int,
                    ),
                decreases d.settings.sections_denylist.len() - k,
            {
                let mut line = String::from_str("*(");
                line.append(d.settings.sections_denylist[k].as_str());
                line.append(");");
                proof {
                    assert(d.settings.sections_denylist.deep_view()[k as int]
                        == d.settings.sections_denylist[k as int]@);
                    assert(line@ =~= "*("@ + d.settings.sections_denylist.deep_view()[k as int]
                        + ");"@);
                }
                let ghost bk = *self;
                self.buffer.writeln(line.as_str());
                proof {
                    crate::ordered_set::lemma_prefix_trans(
                        b2.buffer.lines(),
                        bk.buffer.lines(),
                        self.buffer.lines(),
                    );
                    assert(self.model() =~= denylist_model(
                        b2.model(),
                        d.settings.sections_denylist.deep_view(),
                        k + 1,
                    ));
                }
                k += 1;
            }
            if self.d.settings.discard_wildcard_section {
                self.buffer.writeln("*(*);");
            }
            self.buffer.end_block();
            proof {
                Self::lemma_buffer_only_step(b2, *self);
            }
        }

        let ghost b3 = *self;
        self.buffer.end_block();
        self.phase = Phase::Closed;
        proof {
            Self::lemma_buffer_only_step(b3, *self);
            assert forall|i2: int|
                0 <= i2 < old(self).d.vram_classes.len() && old(self).class_emitted[i2] implies self
                .buffer.syms().contains(
                crate::linker_symbols_style::spec_vram_class_size(
                    style,
                    old(self).d.vram_classes[i2].name@,
                ),
            ) by {}
            Self::lemma_grows_trans(*old(self), b3, *self);
            assert(self.model() =~= end_sections_model(m0, dd, ctx));
        }
        Ok(())
    }

    /// Writes one sub-region in single-segment mode: each section is its own
    /// top-level block, placed directly.
    pub(crate) fn write_single_segment(
        &mut self,
        segment: &Segment,
        sections: &Vec<String>,
        noload: bool,
    ) -> (r: Result<(), SlinkyError>)
        requires
            old(self).wf(),
            old(self).buffer.indent_level == 1,
        ensures
            final(self).wf(),
            r is Ok,
            old(self).same_config(*final(self)),
            final(self).phase == old(self).phase,
            final(self).buffer.indent_level == 1,
            final(self).class_emitted == old(self).class_emitted,
            old(self).grows(*final(self)),
            final(self).model() == write_single_segment_model(
                old(self).model(),
                old(self).d.settings.base_path@,
                *segment,
                sections.deep_view(),
                noload,
                old(self).ctx(),
            ),
    {
        let ghost m0 = old(self).model();
        let ghost ctx = old(self).ctx();
        let ghost secs_dv = sections.deep_view();
        let ghost sbase = old(self).d.settings.base_path@;
        self.write_sections_kind_start(segment, noload);
        proof {
            Self::lemma_buffer_only_step(*old(self), *self);
        }
        let ghost mk = self.model();
        proof {
            assert(mk == kind_start_model(m0, *segment, noload, 1, ctx));
        }

        let mut i: usize = 0;
        while i < sections.len()
            invariant
                i <= sections.len(),
                self.wf(),
                old(self).same_config(*self),
                self.phase == old(self).phase,
                self.buffer.indent_level == 1,
                self.class_emitted == old(self).class_emitted,
                old(self).grows(*self),
                ctx == old(self).ctx(),
                secs_dv == sections.deep_view(),
                sbase == old(self).d.settings.base_path@,
                self.model() == single_sections_model(
                    mk,
                    sbase,
                    *segment,
                    secs_dv,
                    i as int,
                    noload,
                    ctx,
                ),
            decreases sections.len() - i,
        {
            proof {
                assert(sections.deep_view()[i as int] == sections[i as int]@);
            }
            let ghost prev = self.model();
            let ghost b0 = *self;
            self.write_section_symbol_start(segment, sections[i].as_str());
            proof {
                Self::lemma_buffer_only_step(b0, *self);
                Self::lemma_grows_trans(*old(self), b0, *self);
            }
            let ghost g_ms = self.model();
            proof {
                assert(g_ms == sec_start_model(prev, *segment, secs_dv[i as int], 1, ctx));
            }

            let mut line = String::from_str(sections[i].as_str());
            if noload {
                line.append(" (NOLOAD)");
            }
            line.append(" :");
            if let Some(sub) = segment.subalign {
                line.append(" SUBALIGN(");
                push_dec(&mut line, sub);
                line.append(")");
            }
            proof {
                assert(line@ =~= single_header(secs_dv[i as int], noload, segment.subalign));
            }
            let ghost b1 = *self;
            self.buffer.writeln(line.as_str());
            self.buffer.begin_block();
            if let Some(fill) = segment.fill_value {
                let mut fl = String::from_str("FILL(0x");
                push_hex_w(&mut fl, fill, 8);
                fl.append(");");
                proof {
                    assert(fl@ =~= fill_line(fill));
                }
                self.buffer.writeln(fl.as_str());
            }
            proof {
                Self::lemma_buffer_only_step(b1, *self);
                Self::lemma_grows_trans(*old(self), b1, *self);
            }
            let ghost g_mf = self.model();
            proof {
                assert(g_mf =~= (match segment.fill_value {
                    Some(f) => m_line(
                        m_lines(
                            g_ms,
                            seq![
                                spec_line(
                                    1,
                                    single_header(secs_dv[i as int], noload, segment.subalign),
                                ),
                                spec_line(1, "{"@),
                            ],
                        ),
                        2,
                        fill_line(f),
                    ),
                    None => m_lines(
                        g_ms,
                        seq![
                            spec_line(1, single_header(secs_dv[i as int], noload, segment.subalign)),
                            spec_line(1, "{"@),
                        ],
                    ),
                }));
            }
            let ghost b2 = *self;
            self.emit_section(segment, sections[i].as_str(), sections)?;
            proof {
                Self::lemma_grows_trans(*old(self), b2, *self);
            }
            let ghost g_me = self.model();
            proof {
                assert(g_me == emit_section_model(
                    g_mf,
                    sbase,
                    *segment,
                    secs_dv[i as int],
                    secs_dv,
                    2,
                    ctx,
                ));
            }
            let ghost b3 = *self;
            self.buffer.end_block();
            self.write_section_symbol_end(segment, sections[i].as_str());
            let ghost g_mz = self.model();
            proof {
                assert(g_mz == sec_end_model(m_line(g_me, 1, "}"@), *segment, secs_dv[i as int], 1, ctx));
            }
            if i + 1 < sections.len() {
                self.buffer.write_empty_line();
            }
            proof {
                Self::lemma_buffer_only_step(b3, *self);
                Self::lemma_grows_trans(*old(self), b3, *self);
                assert(self.model() =~= single_sections_model(
                    mk,
                    sbase,
                    *segment,
                    secs_dv,
                    i + 1,
                    noload,
                    ctx,
                ));
            }
            i += 1;
        }

        let ghost b4 = *self;
        self.write_sections_kind_end(segment, noload);
        proof {
            Self::lemma_buffer_only_step(b4, *self);
            Self::lemma_grows_trans(*old(self), b4, *self);
            assert(self.model() =~= write_single_segment_model(
                m0,
                sbase,
                *segment,
                secs_dv,
                noload,
                ctx,
            ));
        }
        Ok(())
    }

    /// Single-segment mode: the one segment is placed directly, at its fixed
    /// address if given, without address-class anchoring, and the placement
    /// block opens and closes around it in one call.
    pub fn add_single_segment(&mut self, segment: &Segment) -> (r: Result<(), SlinkyError>)
        requires
            old(self).wf(),
            old(self).phase == Phase::Idle,
            old(self).buffer.indent_level == 0,
        ensures
            final(self).wf(),
            r is Ok,
            old(self).same_config(*final(self)),
            final(self).phase == Phase::Closed,
            final(self).buffer.indent_level == 0,
            old(self).grows(*final(self)),
            final(self).model() == add_single_segment_model(
                old(self).model(),
                *old(self).d,
                *segment,
                old(self).ctx(),
            ),
    {
        let ghost m0 = old(self).model();
        let ghost ctx = old(self).ctx();
        let ghost dd = *old(self).d;
        self.buffer.writeln("SECTIONS");
        self.buffer.begin_block();
        self.phase = Phase::Open;

        if let Some(v) = segment.fixed_vram {
            let mut line = String::from_str(". = 0x");
            push_hex_w(&mut line, v, 8);
            line.append(";");
            proof {
                assert(line@ =~= ". = 0x"@ + hex_str_w(v as nat, 8) + ";"@);
            }
            self.buffer.writeln(line.as_str());
            self.buffer.write_empty_line();
        }
        proof {
            Self::lemma_buffer_only_step(*old(self), *self);
        }
        let ghost m2 = self.model();
        proof {
            assert(m2 =~= (match segment.fixed_vram {
                Some(v) => m_empty(
                    m_line(
                        m_lines(m0, seq![spec_line(0, "SECTIONS"@), spec_line(0, "{"@)]),
                        1,
                        ". = 0x"@ + hex_str_w(v as nat, 8) + ";"@,
                    ),
                ),
                None => m_lines(m0, seq![spec_line(0, "SECTIONS"@), spec_line(0, "{"@)]),
            }));
        }

        let ghost b0 = *self;
        self.write_single_segment(segment, &segment.alloc_sections, false)?;
        proof {
            Self::lemma_grows_trans(*old(self), b0, *self);
        }
        let ghost b1 = *self;
        self.buffer.write_empty_line();
        proof {
            Self::lemma_buffer_only_step(b1, *self);
            Self::lemma_grows_trans(*old(self), b1, *self);
        }
        let ghost m3 = self.model();
        proof {
            assert(m3 == m_empty(
                write_single_segment_model(
                    m2,
                    dd.settings.base_path@,
                    *segment,
                    segment.alloc_sections.deep_view(),
                    false,
                    ctx,
                ),
            ));
        }
        let ghost b2 = *self;
        self.write_single_segment(segment, &segment.noload_sections, true)?;
        proof {
            Self::lemma_grows_trans(*old(self), b2, *self);
        }
        let ghost b3 = *self;
        self.buffer.write_empty_line();
        proof {
            Self::lemma_buffer_only_step(b3, *self);
            Self::lemma_grows_trans(*old(self), b3, *self);
        }
        let ghost m4 = self.model();
        proof {
            assert(m4 == m_empty(
                write_single_segment_model(
                    m3,
                    dd.settings.base_path@,
                    *segment,
                    segment.noload_sections.deep_view(),
                    true,
                    ctx,
                ),
            ));
        }
        let ghost b4 = *self;
        self.end_sections()?;
        proof {
            Self::lemma_grows_trans(*old(self), b4, *self);
            assert(self.model() =~= add_single_segment_model(m0, dd, *segment, ctx));
        }
        Ok(())
    }

    /// Walks the document's segments once: single-segment mode places the one
    /// segment directly, normal mode opens the block, writes every segment
    /// and closes it. The one error is a segment referencing an undeclared
    /// address class.
    pub fn add_all_segments(&mut self, segments: &Vec<Segment>) -> (r: Result<(), SlinkyError>)
        requires
            old(self).wf(),
            old(self).phase == Phase::Idle,
            old(self).buffer.indent_level == 0,
            old(self).d.settings.single_segment_mode ==> segments.len() == 1,
        ensures
            final(self).wf(),
            old(self).same_config(*final(self)),
            old(self).grows(*final(self)),
            r is Ok ==> final(self).phase == Phase::Closed && final(self).buffer.indent_level == 0,
            r matches Err(e) ==> e matches SlinkyError::MissingVramClassForSegment { .. },
            r is Ok ==> final(self).model() == add_all_segments_model(
                old(self).model(),
                *old(self).d,
                segments@,
                old(self).ctx(),
            ),
            (old(self).d.settings.single_segment_mode || segment_classes_ok(
                *old(self).d,
                segments@,
                old(self).rs.active_tags.deep_view(),
            )) ==> r is Ok,
            r is Ok ==> (old(self).d.settings.single_segment_mode || segment_classes_ok(
                *old(self).d,
                segments@,
                old(self).rs.active_tags.deep_view(),
            )),
    {
        let ghost m0 = old(self).model();
        let ghost ctx = old(self).ctx();
        let ghost dd = *old(self).d;
        if self.d.settings.single_segment_mode {
            self.add_single_segment(&segments[0])?;
            proof {
                assert(self.model() =~= add_all_segments_model(m0, dd, segments@, ctx));
            }
        } else {
            self.begin_sections()?;
            proof {
                Self::lemma_buffer_only_step(*old(self), *self);
            }
            let ghost mb = self.model();
            proof {
                assert(mb == m_lines(
                    m0,
                    crate::linker_writer::begin_sections_lines(dd.settings.hardcoded_gp_value),
                ));
            }
            let mut i: usize = 0;
            while i < segments.len()
                invariant
                    i <= segments.len(),
                    !old(self).d.settings.single_segment_mode,
                    self.wf(),
                    old(self).same_config(*self),
                    self.phase == Phase::Open,
                    self.buffer.indent_level == 1,
                    old(self).grows(*self),
                    m0 == old(self).model(),
                    ctx == old(self).ctx(),
                    dd == *old(self).d,
                    mb == m_lines(
                        m0,
                        crate::linker_writer::begin_sections_lines(dd.settings.hardcoded_gp_value),
                    ),
                    self.model() == segments_model(mb, dd, segments@, i as int, ctx),
                    forall|j: int|
                        0 <= j < i ==> segment_class_ok(
                            *old(self).d,
                            segments@[j],
                            old(self).rs.active_tags.deep_view(),
                        ),
                decreases segments.len() - i,
            {
                let ghost bk = *self;
                let res = self.add_segment(&segments[i]);
                proof {
                    Self::lemma_grows_trans(*old(self), bk, *self);
                    assert(self.model() =~= segments_model(mb, dd, segments@, i + 1, ctx));
                }
                match res {
                    Ok(()) => {
                        proof {
                            assert(segment_class_ok(
                                *old(self).d,
                                segments@[i as int],
                                old(self).rs.active_tags.deep_view(),
                            ));
                        }
                    },
                    Err(e) => {
                        proof {
                            assert(!segment_class_ok(
                                *old(self).d,
                                segments@[i as int],
                                old(self).rs.active_tags.deep_view(),
                            ));
                            assert(!segment_classes_ok(
                                *old(self).d,
                                segments@,
                                old(self).rs.active_tags.deep_view(),
                            ));
                        }
                        return Err(e);
                    },
                }
                i += 1;
            }
            let ghost bz = *self;
            self.end_sections()?;
            proof {
                Self::lemma_grows_trans(*old(self), bz, *self);
                assert(segment_classes_ok(
                    *old(self).d,
                    segments@,
                    old(self).rs.active_tags.deep_view(),
                ));
                assert(self.model() =~= add_all_segments_model(m0, dd, segments@, ctx));
            }
        }
        Ok(())
    }
}

} // verus!
