//! The script emission engine: walks a document segment by segment, keeps the
//! address-class and symbol bookkeeping, and accumulates the script text.

use vstd::prelude::*;
use vstd::seq_lib::*;

use crate::document::Document;
use crate::ordered_set::{seq_no_dup, set_elems, set_new};
use crate::runtime_settings::{spec_should_emit, RuntimeSettings};
use crate::script_buffer::{assignment_line, spec_line, syms_after, ScriptBuffer};
use crate::numfmt::{hex_str_w, push_hex_w};
use crate::assert_entry::AssertEntry;
use crate::required_symbol::RequiredSymbol;
use crate::symbol_assignment::SymbolAssignment;

verus! {

/// The placement block is entered and left exactly once per document.
#[derive(Clone, Copy, Debug, PartialEq, Eq, Structural)]
pub enum Phase {
    /// Before the placement block opened.
    Idle,
    /// Inside the placement block.
    Open,
    /// After the placement block closed.
    Closed,
}

pub struct LinkerWriter<'a> {
    pub buffer: ScriptBuffer,
    /// Every input path referenced so far, deduplicated, in first-reference
    /// order; the dependency artifact is generated from it.
    pub files_paths: indexmap::IndexSet<String>,
    /// Per-run state of each address class of the document, by index: whether
    /// its start/end symbols have been written already.
    pub class_emitted: Vec<bool>,
    pub phase: Phase,
    /// References pre-linked objects: subgroup inlining is skipped.
    pub reference_partial_objects: bool,
    pub emit_sections_kind_symbols: bool,
    pub emit_section_symbols: bool,
    pub d: &'a Document,
    pub rs: &'a RuntimeSettings,
}

/// The engine state the contracts speak of: the accumulated lines, the
/// symbol registry, the referenced paths and the per-class emitted flags.
/// Every emission step is pinned to a function from model to model.
#[verifier::ext_equal]
pub ghost struct EngineModel {
    pub lines: Seq<Seq<char>>,
    pub syms: Seq<Seq<char>>,
    pub paths: Seq<Seq<char>>,
    pub emitted: Seq<bool>,
}

/// The run-constant inputs emission depends on: the active tags, the symbol
/// style and the three mode flags.
#[verifier::ext_equal]
pub ghost struct EmitCtx {
    pub active: Seq<Seq<char>>,
    pub style: crate::linker_symbols_style::LinkerSymbolsStyle,
    pub reference_partial_objects: bool,
    pub emit_sections_kind_symbols: bool,
    pub emit_section_symbols: bool,
}

/// One plain line appended at `ind`.
pub open spec fn m_line(m: EngineModel, ind: nat, content: Seq<char>) -> EngineModel {
    EngineModel { lines: m.lines.push(spec_line(ind, content)), ..m }
}

/// Several finished lines appended.
pub open spec fn m_lines(m: EngineModel, lines: Seq<Seq<char>>) -> EngineModel {
    EngineModel { lines: m.lines + lines, ..m }
}

/// One separating blank line.
pub open spec fn m_empty(m: EngineModel) -> EngineModel {
    EngineModel { lines: m.lines.push(Seq::<char>::empty()), ..m }
}

/// An address marker `name = value;`: the line, and the name registered.
pub open spec fn m_marker(m: EngineModel, ind: nat, name: Seq<char>, value: Seq<char>) -> EngineModel {
    EngineModel {
        lines: m.lines.push(spec_line(ind, assignment_line(name, value, false, false))),
        syms: syms_after(m.syms, name),
        ..m
    }
}

/// An input-section selector line, and the referenced path recorded.
pub open spec fn m_selector(m: EngineModel, ind: nat, line: Seq<char>, path: Seq<char>) -> EngineModel {
    EngineModel {
        lines: m.lines.push(spec_line(ind, line)),
        paths: syms_after(m.paths, path),
        ..m
    }
}

/// The lines that open the placement block: the address counter, the optional
/// fixed global pointer, and a separating blank.
pub open spec fn begin_sections_lines(hardcoded_gp_value: Option<u32>) -> Seq<Seq<char>> {
    seq![spec_line(0, "SECTIONS"@), spec_line(0, "{"@), spec_line(1, "__romPos = 0x0;"@)] + (
    match hardcoded_gp_value {
        Some(v) => seq![spec_line(1, "_gp = 0x"@ + hex_str_w(v as nat, 8) + ";"@)],
        None => Seq::<Seq<char>>::empty(),
    }) + seq![Seq::<char>::empty()]
}

/// The lines of the symbol-assignment block: one wrapped assignment per
/// directive whose conditional-inclusion predicate holds.
pub open spec fn symbol_assignment_lines(
    list: Seq<SymbolAssignment>,
    active: Seq<Seq<char>>,
) -> Seq<Seq<char>> {
    list.filter_map(
        |sa: SymbolAssignment|
            if spec_should_emit(
                sa.exclude_if_any.deep_view(),
                sa.exclude_if_all.deep_view(),
                sa.include_if_any.deep_view(),
                sa.include_if_all.deep_view(),
                active,
            ) {
                Option::Some(spec_line(0, assignment_line(sa.name@, sa.value@, sa.provide, sa.hidden)))
            } else {
                Option::None
            },
    )
}

/// The lines of the required-symbol block.
pub open spec fn required_symbol_lines(
    list: Seq<RequiredSymbol>,
    active: Seq<Seq<char>>,
) -> Seq<Seq<char>> {
    list.filter_map(
        |r: RequiredSymbol|
            if spec_should_emit(
                r.exclude_if_any.deep_view(),
                r.exclude_if_all.deep_view(),
                r.include_if_any.deep_view(),
                r.include_if_all.deep_view(),
                active,
            ) {
                Option::Some(
                    spec_line(0, ScriptBuffer::undefined_sym_keyword() + "("@ + r.name@ + ");"@),
                )
            } else {
                Option::None
            },
    )
}

/// The lines of the assertion block.
pub open spec fn assert_lines(list: Seq<AssertEntry>, active: Seq<Seq<char>>) -> Seq<Seq<char>> {
    list.filter_map(
        |a: AssertEntry|
            if spec_should_emit(
                a.exclude_if_any.deep_view(),
                a.exclude_if_all.deep_view(),
                a.include_if_any.deep_view(),
                a.include_if_all.deep_view(),
                active,
            ) {
                Option::Some(spec_line(0, "ASSERT(("@ + a.check@ + "), \""@ + a.error_message@ + "\");"@))
            } else {
                Option::None
            },
    )
}

impl<'a> LinkerWriter<'a> {
    /// The engine's running invariant: a well-formed buffer, no duplicated
    /// referenced path, and one emitted flag per address class of the
    /// document.
    pub open spec fn wf(self) -> bool {
        &&& self.buffer.wf()
        &&& seq_no_dup(set_elems(self.files_paths))
        &&& self.class_emitted.len() == self.d.vram_classes.len()
    }

    /// The parts of the engine no method changes: the document, the run
    /// options and the emission flags.
    pub open spec fn same_config(self, other: Self) -> bool {
        &&& self.d == other.d
        &&& self.rs == other.rs
        &&& self.reference_partial_objects == other.reference_partial_objects
        &&& self.emit_sections_kind_symbols == other.emit_sections_kind_symbols
        &&& self.emit_section_symbols == other.emit_section_symbols
    }

    /// Emission only ever appends: lines, registry and referenced paths grow
    /// at the end, and an emitted address class stays emitted.
    pub open spec fn grows(self, other: Self) -> bool {
        &&& self.buffer.lines().is_prefix_of(other.buffer.lines())
        &&& self.buffer.syms().is_prefix_of(other.buffer.syms())
        &&& set_elems(self.files_paths).is_prefix_of(set_elems(other.files_paths))
        &&& self.class_emitted.len() == other.class_emitted.len()
        &&& forall|i: int|
            0 <= i < self.class_emitted.len() && self.class_emitted[i]
                ==> other.class_emitted[i]
    }

    /// What the engine has accumulated, as one value.
    pub open spec fn model(self) -> EngineModel {
        EngineModel {
            lines: self.buffer.lines(),
            syms: self.buffer.syms(),
            paths: set_elems(self.files_paths),
            emitted: self.class_emitted@,
        }
    }

    /// The run-constant inputs of this writer's emission.
    pub open spec fn ctx(self) -> EmitCtx {
        EmitCtx {
            active: self.rs.active_tags.deep_view(),
            style: self.d.settings.linker_symbols_style,
            reference_partial_objects: self.reference_partial_objects,
            emit_sections_kind_symbols: self.emit_sections_kind_symbols,
            emit_section_symbols: self.emit_section_symbols,
        }
    }

    /// The buffer, registry, referenced paths and class flags all unchanged.
    pub open spec fn same_state(self, other: Self) -> bool {
        &&& self.buffer.lines() == other.buffer.lines()
        &&& self.buffer.syms() == other.buffer.syms()
        &&& self.buffer.indent_level == other.buffer.indent_level
        &&& set_elems(self.files_paths) == set_elems(other.files_paths)
        &&& self.class_emitted == other.class_emitted
        &&& self.phase == other.phase
    }

    pub fn new(d: &'a Document, rs: &'a RuntimeSettings) -> (r: Self)
        ensures
            r.wf(),
            r.d == d,
            r.rs == rs,
            r.phase == Phase::Idle,
            r.buffer.indent_level == 0,
            r.buffer.lines() == Seq::<Seq<char>>::empty(),
            r.buffer.syms() == Seq::<Seq<char>>::empty(),
            set_elems(r.files_paths) == Seq::<Seq<char>>::empty(),
            forall|i: int| 0 <= i < r.class_emitted.len() ==> !r.class_emitted[i],
            !r.reference_partial_objects,
            r.emit_sections_kind_symbols,
            r.emit_section_symbols,
    {
        let mut class_emitted: Vec<bool> = Vec::new();
        let mut i: usize = 0;
        while i < d.vram_classes.len()
            invariant
                i <= d.vram_classes.len(),
                class_emitted.len() == i,
                forall|j: int| 0 <= j < i ==> !class_emitted[j],
            decreases d.vram_classes.len() - i,
        {
            class_emitted.push(false);
            i += 1;
        }
        LinkerWriter {
            buffer: ScriptBuffer::new(),
            files_paths: set_new(),
            class_emitted,
            phase: Phase::Idle,
            reference_partial_objects: false,
            emit_sections_kind_symbols: true,
            emit_section_symbols: true,
            d,
            rs,
        }
    }

    /// A writer that references pre-linked partial objects: section subgroup
    /// inlining is skipped, and file paths are taken as they stand.
    pub fn new_reference_partial_objects(d: &'a Document, rs: &'a RuntimeSettings) -> (r: Self)
        ensures
            r.wf(),
            r.d == d,
            r.rs == rs,
            r.phase == Phase::Idle,
            r.buffer.indent_level == 0,
            r.buffer.lines() == Seq::<Seq<char>>::empty(),
            r.buffer.syms() == Seq::<Seq<char>>::empty(),
            set_elems(r.files_paths) == Seq::<Seq<char>>::empty(),
            forall|i: int| 0 <= i < r.class_emitted.len() ==> !r.class_emitted[i],
            r.reference_partial_objects,
            r.emit_sections_kind_symbols,
            r.emit_section_symbols,
    {
        let mut s = Self::new(d, rs);
        s.reference_partial_objects = true;
        s
    }

    #[must_use]
    pub fn get_linker_symbols(&self) -> (r: &indexmap::IndexSet<String>)
        ensures
            r == &self.buffer.linker_symbols,
    {
        &self.buffer.linker_symbols
    }

    pub fn set_emit_sections_kind_symbols(&mut self, value: bool)
        ensures
            *final(self) == (LinkerWriter { emit_sections_kind_symbols: value, ..*old(self) }),
    {
        self.emit_sections_kind_symbols = value;
    }

    #[must_use]
    pub fn get_emit_sections_kind_symbols(&mut self) -> (r: bool)
        ensures
            *final(self) == *old(self),
            r == old(self).emit_sections_kind_symbols,
    {
        self.emit_sections_kind_symbols
    }

    pub fn set_emit_section_symbols(&mut self, value: bool)
        ensures
            *final(self) == (LinkerWriter { emit_section_symbols: value, ..*old(self) }),
    {
        self.emit_section_symbols = value;
    }

    #[must_use]
    pub fn get_emit_section_symbols(&mut self) -> (r: bool)
        ensures
            *final(self) == *old(self),
            r == old(self).emit_section_symbols,
    {
        self.emit_section_symbols
    }

    /// Opens the placement block: address counter at zero, optional fixed
    /// global pointer.
    pub fn begin_sections(&mut self) -> (r: Result<(), crate::error::SlinkyError>)
        requires
            old(self).wf(),
            old(self).phase == Phase::Idle,
            old(self).buffer.indent_level == 0,
        ensures
            final(self).wf(),
            r is Ok,
            old(self).same_config(*final(self)),
            final(self).phase == Phase::Open,
            final(self).buffer.indent_level == 1,
            final(self).buffer.lines() == old(self).buffer.lines() + begin_sections_lines(
                old(self).d.settings.hardcoded_gp_value,
            ),
            final(self).buffer.syms() == old(self).buffer.syms(),
            set_elems(final(self).files_paths) == set_elems(old(self).files_paths),
            final(self).class_emitted == old(self).class_emitted,
            final(self).model() == m_lines(
                old(self).model(),
                begin_sections_lines(old(self).d.settings.hardcoded_gp_value),
            ),
    {
        self.buffer.writeln("SECTIONS");
        self.buffer.begin_block();
        self.buffer.writeln("__romPos = 0x0;");

        if let Some(gp) = self.d.settings.hardcoded_gp_value {
            let mut line = String::new();
            line.append("_gp = 0x");
            push_hex_w(&mut line, gp, 8);
            line.append(";");
            self.buffer.writeln(line.as_str());
        }
        self.buffer.write_empty_line();
        self.phase = Phase::Open;
        proof {
            assert(final(self).buffer.lines() =~= old(self).buffer.lines()
                + begin_sections_lines(old(self).d.settings.hardcoded_gp_value));
            assert(self.model() =~= m_lines(
                old(self).model(),
                begin_sections_lines(old(self).d.settings.hardcoded_gp_value),
            ));
        }
        Ok(())
    }

    /// Writes the `ENTRY` directive, after a separating blank when text
    /// already stands in the buffer.
    pub fn add_entry(&mut self, entry: &str) -> (r: Result<(), crate::error::SlinkyError>)
        requires
            old(self).wf(),
            old(self).phase != Phase::Open,
            old(self).buffer.indent_level == 0,
        ensures
            final(self).wf(),
            r is Ok,
            old(self).same_config(*final(self)),
            final(self).phase == old(self).phase,
            final(self).buffer.indent_level == 0,
            final(self).buffer.lines() == old(self).buffer.lines() + (
            if old(self).buffer.lines().len() > 0 {
                seq![Seq::<char>::empty()]
            } else {
                Seq::<Seq<char>>::empty()
            }) + seq![spec_line(0, "ENTRY("@ + entry@ + ");"@)],
            final(self).buffer.syms() == old(self).buffer.syms(),
            set_elems(final(self).files_paths) == set_elems(old(self).files_paths),
            final(self).class_emitted == old(self).class_emitted,
    {
        if !self.buffer.is_empty() {
            self.buffer.write_empty_line();
        }
        let mut line = String::new();
        line.append("ENTRY(");
        line.append(entry);
        line.append(");");
        self.buffer.writeln(line.as_str());
        proof {
            assert(final(self).buffer.lines() =~= old(self).buffer.lines() + (
            if old(self).buffer.lines().len() > 0 {
                seq![Seq::<char>::empty()]
            } else {
                Seq::<Seq<char>>::empty()
            }) + seq![spec_line(0, "ENTRY("@ + entry@ + ");"@)]);
        }
        Ok(())
    }

    /// Writes every symbol assignment that passes conditional inclusion, as
    /// one block behind a separating blank.
    pub fn add_all_symbol_assignments(&mut self, symbol_assignments: &Vec<SymbolAssignment>) -> (r:
        Result<(), crate::error::SlinkyError>)
        requires
            old(self).wf(),
            old(self).phase != Phase::Open,
            old(self).buffer.indent_level == 0,
        ensures
            final(self).wf(),
            r is Ok,
            old(self).same_config(*final(self)),
            final(self).phase == old(self).phase,
            final(self).buffer.indent_level == 0,
            final(self).buffer.lines() == old(self).buffer.lines() + (
            if symbol_assignments.len() == 0 {
                Seq::<Seq<char>>::empty()
            } else {
                (if old(self).buffer.lines().len() > 0 {
                    seq![Seq::<char>::empty()]
                } else {
                    Seq::<Seq<char>>::empty()
                }) + symbol_assignment_lines(
                    symbol_assignments@,
                    old(self).rs.active_tags.deep_view(),
                )
            }),
            final(self).buffer.syms() == old(self).buffer.syms(),
            set_elems(final(self).files_paths) == set_elems(old(self).files_paths),
            final(self).class_emitted == old(self).class_emitted,
    {
        let ghost active = self.rs.active_tags.deep_view();
        let ghost h = |sa: SymbolAssignment|
            if spec_should_emit(
                sa.exclude_if_any.deep_view(),
                sa.exclude_if_all.deep_view(),
                sa.include_if_any.deep_view(),
                sa.include_if_all.deep_view(),
                active,
            ) {
                Option::Some(spec_line(0, assignment_line(sa.name@, sa.value@, sa.provide, sa.hidden)))
            } else {
                Option::None
            };
        if symbol_assignments.len() == 0 {
            return Ok(());
        }
        if !self.buffer.is_empty() {
            self.buffer.write_empty_line();
        }
        let ghost base = self.buffer.lines();
        let mut i: usize = 0;
        while i < symbol_assignments.len()
            invariant
                i <= symbol_assignments.len(),
                self.wf(),
                self.phase == old(self).phase,
                self.phase != Phase::Open,
                old(self).same_config(*self),
                self.buffer.indent_level == 0,
                self.buffer.lines() == base + symbol_assignments@.subrange(0, i as int).filter_map(
                    h,
                ),
                self.buffer.syms() == old(self).buffer.syms(),
                set_elems(self.files_paths) == set_elems(old(self).files_paths),
                self.class_emitted == old(self).class_emitted,
                active == self.rs.active_tags.deep_view(),
                h == (|sa: SymbolAssignment|
                    if spec_should_emit(
                        sa.exclude_if_any.deep_view(),
                        sa.exclude_if_all.deep_view(),
                        sa.include_if_any.deep_view(),
                        sa.include_if_all.deep_view(),
                        active,
                    ) {
                        Option::Some(
                            spec_line(0, assignment_line(sa.name@, sa.value@, sa.provide, sa.hidden)),
                        )
                    } else {
                        Option::None
                    }),
            decreases symbol_assignments.len() - i,
        {
            let sa = &symbol_assignments[i];
            if self.rs.should_emit_entry(
                &sa.exclude_if_any,
                &sa.exclude_if_all,
                &sa.include_if_any,
                &sa.include_if_all,
            ) {
                self.buffer.write_symbol_assignment(
                    sa.name.as_str(),
                    sa.value.as_str(),
                    sa.provide,
                    sa.hidden,
                );
            }
            proof {
                assert(symbol_assignments@.subrange(0, i + 1).drop_last() =~= symbol_assignments@
                    .subrange(0, i as int));
                assert(symbol_assignments@.subrange(0, i + 1).last() == symbol_assignments@[i as int]);
                assert(self.buffer.lines() =~= base + symbol_assignments@.subrange(
                    0,
                    i + 1,
                ).filter_map(h));
            }
            i += 1;
        }
        proof {
            assert(symbol_assignments@.subrange(0, symbol_assignments@.len() as int)
                =~= symbol_assignments@);
        }
        Ok(())
    }

    /// Writes every required symbol that passes conditional inclusion.
    pub fn add_all_required_symbols(&mut self, required_symbols: &Vec<RequiredSymbol>) -> (r:
        Result<(), crate::error::SlinkyError>)
        requires
            old(self).wf(),
            old(self).phase != Phase::Open,
            old(self).buffer.indent_level == 0,
        ensures
            final(self).wf(),
            r is Ok,
            old(self).same_config(*final(self)),
            final(self).phase == old(self).phase,
            final(self).buffer.indent_level == 0,
            final(self).buffer.lines() == old(self).buffer.lines() + (
            if required_symbols.len() == 0 {
                Seq::<Seq<char>>::empty()
            } else {
                (if old(self).buffer.lines().len() > 0 {
                    seq![Seq::<char>::empty()]
                } else {
                    Seq::<Seq<char>>::empty()
                }) + required_symbol_lines(required_symbols@, old(self).rs.active_tags.deep_view())
            }),
            final(self).buffer.syms() == old(self).buffer.syms(),
            set_elems(final(self).files_paths) == set_elems(old(self).files_paths),
            final(self).class_emitted == old(self).class_emitted,
    {
        let ghost active = self.rs.active_tags.deep_view();
        let ghost h = |rq: RequiredSymbol|
            if spec_should_emit(
                rq.exclude_if_any.deep_view(),
                rq.exclude_if_all.deep_view(),
                rq.include_if_any.deep_view(),
                rq.include_if_all.deep_view(),
                active,
            ) {
                Option::Some(
                    spec_line(0, ScriptBuffer::undefined_sym_keyword() + "("@ + rq.name@ + ");"@),
                )
            } else {
                Option::None
            };
        if required_symbols.len() == 0 {
            return Ok(());
        }
        if !self.buffer.is_empty() {
            self.buffer.write_empty_line();
        }
        let ghost base = self.buffer.lines();
        let mut i: usize = 0;
        while i < required_symbols.len()
            invariant
                i <= required_symbols.len(),
                self.wf(),
                self.phase == old(self).phase,
                self.phase != Phase::Open,
                old(self).same_config(*self),
                self.buffer.indent_level == 0,
                self.buffer.lines() == base + required_symbols@.subrange(0, i as int).filter_map(h),
                self.buffer.syms() == old(self).buffer.syms(),
                set_elems(self.files_paths) == set_elems(old(self).files_paths),
                self.class_emitted == old(self).class_emitted,
                active == self.rs.active_tags.deep_view(),
                h == (|rq: RequiredSymbol|
                    if spec_should_emit(
                        rq.exclude_if_any.deep_view(),
                        rq.exclude_if_all.deep_view(),
                        rq.include_if_any.deep_view(),
                        rq.include_if_all.deep_view(),
                        active,
                    ) {
                        Option::Some(
                            spec_line(
                                0,
                                ScriptBuffer::undefined_sym_keyword() + "("@ + rq.name@ + ");"@,
                            ),
                        )
                    } else {
                        Option::None
                    }),
            decreases required_symbols.len() - i,
        {
            let rq = &required_symbols[i];
            if self.rs.should_emit_entry(
                &rq.exclude_if_any,
                &rq.exclude_if_all,
                &rq.include_if_any,
                &rq.include_if_all,
            ) {
                self.buffer.write_required_symbol(rq.name.as_str());
            }
            proof {
                assert(required_symbols@.subrange(0, i + 1).drop_last() =~= required_symbols@
                    .subrange(0, i as int));
                assert(required_symbols@.subrange(0, i + 1).last() == required_symbols@[i as int]);
                assert(self.buffer.lines() =~= base + required_symbols@.subrange(0, i + 1).filter_map(
                    h,
                ));
            }
            i += 1;
        }
        proof {
            assert(required_symbols@.subrange(0, required_symbols@.len() as int)
                =~= required_symbols@);
        }
        Ok(())
    }

    /// Writes every layout assertion that passes conditional inclusion.
    pub fn add_all_asserts(&mut self, asserts: &Vec<AssertEntry>) -> (r: Result<
        (),
        crate::error::SlinkyError,
    >)
        requires
            old(self).wf(),
            old(self).phase != Phase::Open,
            old(self).buffer.indent_level == 0,
        ensures
            final(self).wf(),
            r is Ok,
            old(self).same_config(*final(self)),
            final(self).phase == old(self).phase,
            final(self).buffer.indent_level == 0,
            final(self).buffer.lines() == old(self).buffer.lines() + (
            if asserts.len() == 0 {
                Seq::<Seq<char>>::empty()
            } else {
                (if old(self).buffer.lines().len() > 0 {
                    seq![Seq::<char>::empty()]
                } else {
                    Seq::<Seq<char>>::empty()
                }) + assert_lines(asserts@, old(self).rs.active_tags.deep_view())
            }),
            final(self).buffer.syms() == old(self).buffer.syms(),
            set_elems(final(self).files_paths) == set_elems(old(self).files_paths),
            final(self).class_emitted == old(self).class_emitted,
    {
        let ghost active = self.rs.active_tags.deep_view();
        let ghost h = |a: AssertEntry|
            if spec_should_emit(
                a.exclude_if_any.deep_view(),
                a.exclude_if_all.deep_view(),
                a.include_if_any.deep_view(),
                a.include_if_all.deep_view(),
                active,
            ) {
                Option::Some(spec_line(0, "ASSERT(("@ + a.check@ + "), \""@ + a.error_message@ + "\");"@))
            } else {
                Option::None
            };
        if asserts.len() == 0 {
            return Ok(());
        }
        if !self.buffer.is_empty() {
            self.buffer.write_empty_line();
        }
        let ghost base = self.buffer.lines();
        let mut i: usize = 0;
        while i < asserts.len()
            invariant
                i <= asserts.len(),
                self.wf(),
                self.phase == old(self).phase,
                self.phase != Phase::Open,
                old(self).same_config(*self),
                self.buffer.indent_level == 0,
                self.buffer.lines() == base + asserts@.subrange(0, i as int).filter_map(h),
                self.buffer.syms() == old(self).buffer.syms(),
                set_elems(self.files_paths) == set_elems(old(self).files_paths),
                self.class_emitted == old(self).class_emitted,
                active == self.rs.active_tags.deep_view(),
                h == (|a: AssertEntry|
                    if spec_should_emit(
                        a.exclude_if_any.deep_view(),
                        a.exclude_if_all.deep_view(),
                        a.include_if_any.deep_view(),
                        a.include_if_all.deep_view(),
                        active,
                    ) {
                        Option::Some(
                            spec_line(
                                0,
                                "ASSERT(("@ + a.check@ + "), \""@ + a.error_message@ + "\");"@,
                            ),
                        )
                    } else {
                        Option::None
                    }),
            decreases asserts.len() - i,
        {
            let a = &asserts[i];
            if self.rs.should_emit_entry(
                &a.exclude_if_any,
                &a.exclude_if_all,
                &a.include_if_any,
                &a.include_if_all,
            ) {
                self.buffer.write_assert(a.check.as_str(), a.error_message.as_str());
            }
            proof {
                assert(asserts@.subrange(0, i + 1).drop_last() =~= asserts@.subrange(0, i as int));
                assert(asserts@.subrange(0, i + 1).last() == asserts@[i as int]);
                assert(self.buffer.lines() =~= base + asserts@.subrange(0, i + 1).filter_map(h));
            }
            i += 1;
        }
        proof {
            assert(asserts@.subrange(0, asserts@.len() as int) =~= asserts@);
        }
        Ok(())
    }
}

} // verus!
