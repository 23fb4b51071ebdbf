//! File-level emission: each descriptor renders an input-section selector, a
//! counter advance, an address marker, or, for a group, its nested
//! descriptors; redirection and subgroup rules decide under which output
//! section a file's content lands.
//!
//! The subgroup walk carries a fuel bound (the number of subgroup rules of
//! the segment): a configuration whose subgroup rules form a cycle stops
//! instead of recursing without end; an acyclic configuration never reaches
//! the bound.

use vstd::prelude::*;

use crate::assoc::assoc_get;
use crate::error::SlinkyError;
use crate::file_info::{FileInfo, KeepSections};
use crate::file_kind::FileKind;
use crate::linker_symbols_style::spec_linker_offset;
use crate::linker_writer::{m_line, m_marker, m_selector, EmitCtx, EngineModel, LinkerWriter};
use crate::numfmt::{hex_str, push_hex};
use crate::ordered_set::{lemma_insert_keeps_no_dup, set_elems, set_insert};
use crate::script_buffer::{assignment_line, spec_line, syms_after};
use crate::section_resolution::{resolve_sections_for_file, resolved_sections};
use crate::segment::Segment;
use crate::str_utils::{path_join, spec_path_join, str_eq};
use vstd::string::{StrSliceExecFns, StringExecFns};

verus! {

/// Whether the keep policy wraps this section in a `KEEP` marker.
pub open spec fn keep_applies(keep: KeepSections, section: Seq<char>) -> bool {
    match keep {
        KeepSections::Absent => false,
        KeepSections::All(all) => all,
        KeepSections::WhichOnes(which) => which.deep_view().contains(section),
    }
}

/// `inner` wrapped in `KEEP(...)` when the keep policy asks for it.
pub open spec fn keep_wrap(keep: KeepSections, section: Seq<char>, inner: Seq<char>) -> Seq<char> {
    if keep_applies(keep, section) {
        "KEEP("@ + inner + ")"@
    } else {
        inner
    }
}

/// The trailing glob of input-section selectors, for wildcard segments.
pub open spec fn wildcard_part(segment: Segment) -> Seq<char> {
    if segment.wildcard_sections {
        "*"@
    } else {
        Seq::<char>::empty()
    }
}

/// An object's input-section selector line.
pub open spec fn object_line(
    file: FileInfo,
    segment: Segment,
    section: Seq<char>,
    path: Seq<char>,
) -> Seq<char> {
    keep_wrap(file.keep_sections, section, path + "("@ + section + wildcard_part(segment) + ")"@)
        + ";"@
}

/// An archive's member-qualified input-section selector line.
pub open spec fn archive_line(
    file: FileInfo,
    segment: Segment,
    section: Seq<char>,
    path: Seq<char>,
) -> Seq<char> {
    keep_wrap(
        file.keep_sections,
        section,
        path + ":"@ + file.subfile@ + "("@ + section + wildcard_part(segment) + ")"@,
    ) + ";"@
}

/// A pad's raw advance of the address counter.
pub open spec fn pad_line(file: FileInfo) -> Seq<char> {
    ". += 0x"@ + hex_str(file.pad_amount as nat) + ";"@
}

/// What one descriptor contributes under `section`: nothing when filtered
/// out; a selector line and the recorded path for an object or archive; a
/// counter advance or an address marker when the section matches; and for a
/// group, every nested descriptor in order, under the extended directory.
pub open spec fn emit_file_model(
    m: EngineModel,
    file: FileInfo,
    segment: Segment,
    section: Seq<char>,
    sections: Seq<Seq<char>>,
    base: Seq<char>,
    fuel: nat,
    ind: nat,
    ctx: EmitCtx,
) -> EngineModel
    decreases file, fuel, 5int, 0int,
{
    if !crate::runtime_settings::spec_should_emit(
        file.exclude_if_any.deep_view(),
        file.exclude_if_all.deep_view(),
        file.include_if_any.deep_view(),
        file.include_if_all.deep_view(),
        ctx.active,
    ) {
        m
    } else {
        match file.kind {
            FileKind::Object => m_selector(
                m,
                ind,
                object_line(file, segment, section, spec_path_join(base, file.path@)),
                spec_path_join(base, file.path@),
            ),
            FileKind::Archive => m_selector(
                m,
                ind,
                archive_line(file, segment, section, spec_path_join(base, file.path@)),
                spec_path_join(base, file.path@),
            ),
            FileKind::Pad => if file.section@ == section {
                m_line(m, ind, pad_line(file))
            } else {
                m
            },
            FileKind::LinkerOffset => if file.section@ == section {
                m_marker(m, ind, spec_linker_offset(ctx.style, file.linker_offset_name@), "."@)
            } else {
                m
            },
            FileKind::Group => group_children_model(
                m,
                file,
                file.files.len() as int,
                segment,
                section,
                sections,
                spec_path_join(base, file.dir@),
                fuel,
                ind,
                ctx,
            ),
        }
    }
}

/// The first `k` nested descriptors of a group, flattened in order.
pub open spec fn group_children_model(
    m: EngineModel,
    file: FileInfo,
    k: int,
    segment: Segment,
    section: Seq<char>,
    sections: Seq<Seq<char>>,
    base: Seq<char>,
    fuel: nat,
    ind: nat,
    ctx: EmitCtx,
) -> EngineModel
    decreases file, fuel, 4int, k,
{
    if k <= 0 || k > file.files.len() {
        m
    } else {
        esff_model(
            group_children_model(m, file, k - 1, segment, section, sections, base, fuel, ind, ctx),
            file.files[k - 1],
            segment,
            section,
            sections,
            base,
            fuel,
            ind,
            ctx,
        )
    }
}

/// One descriptor under one output section, redirection and subgroups
/// honoured: each resolved section name contributes its `emit_file` effect
/// followed by the sections a subgroup rule inlines after it.
pub open spec fn esff_model(
    m: EngineModel,
    file: FileInfo,
    segment: Segment,
    section: Seq<char>,
    sections: Seq<Seq<char>>,
    base: Seq<char>,
    fuel: nat,
    ind: nat,
    ctx: EmitCtx,
) -> EngineModel
    decreases file, fuel, 9int, 0int,
{
    let names = if file.section_order.len() == 0 {
        seq![section]
    } else {
        resolved_sections(file.section_order.deep_view(), section, sections)
    };
    esff_names_model(m, file, names, names.len() as int, segment, sections, base, fuel, ind, ctx)
}

/// The first `k` resolved section names, each rendered and then followed by
/// its subgroups.
pub open spec fn esff_names_model(
    m: EngineModel,
    file: FileInfo,
    names: Seq<Seq<char>>,
    k: int,
    segment: Segment,
    sections: Seq<Seq<char>>,
    base: Seq<char>,
    fuel: nat,
    ind: nat,
    ctx: EmitCtx,
) -> EngineModel
    decreases file, fuel, 8int, k,
{
    if k <= 0 {
        m
    } else {
        subgroup_model(
            emit_file_model(
                esff_names_model(m, file, names, k - 1, segment, sections, base, fuel, ind, ctx),
                file,
                segment,
                names[k - 1],
                sections,
                base,
                fuel,
                ind,
                ctx,
            ),
            file,
            names[k - 1],
            segment,
            sections,
            base,
            fuel,
            ind,
            ctx,
        )
    }
}

/// The sections a subgroup rule inlines after `section`, while fuel remains;
/// nothing in reference mode.
pub open spec fn subgroup_model(
    m: EngineModel,
    file: FileInfo,
    section: Seq<char>,
    segment: Segment,
    sections: Seq<Seq<char>>,
    base: Seq<char>,
    fuel: nat,
    ind: nat,
    ctx: EmitCtx,
) -> EngineModel
    decreases file, fuel, 7int, 0int,
{
    if ctx.reference_partial_objects || fuel == 0 {
        m
    } else {
        match crate::assoc::assoc_find(segment.sections_subgroups.deep_view(), section) {
            Some(others) => subgroup_names_model(
                m,
                file,
                others,
                others.len() as int,
                segment,
                sections,
                base,
                fuel,
                ind,
                ctx,
            ),
            None => m,
        }
    }
}

/// The first `k` subgroup names, each recursed into with one unit of fuel
/// spent.
pub open spec fn subgroup_names_model(
    m: EngineModel,
    file: FileInfo,
    others: Seq<Seq<char>>,
    k: int,
    segment: Segment,
    sections: Seq<Seq<char>>,
    base: Seq<char>,
    fuel: nat,
    ind: nat,
    ctx: EmitCtx,
) -> EngineModel
    decreases file, fuel, 6int, k,
{
    if k <= 0 || fuel == 0 {
        m
    } else {
        esff_model(
            subgroup_names_model(m, file, others, k - 1, segment, sections, base, fuel, ind, ctx),
            file,
            segment,
            others[k - 1],
            sections,
            base,
            (fuel - 1) as nat,
            ind,
            ctx,
        )
    }
}

/// The first `k` files of a segment, each rendered under `section`.
pub open spec fn section_files_model(
    m: EngineModel,
    segment: Segment,
    k: int,
    section: Seq<char>,
    sections: Seq<Seq<char>>,
    base: Seq<char>,
    ind: nat,
    ctx: EmitCtx,
) -> EngineModel
    decreases k,
{
    if k <= 0 {
        m
    } else {
        esff_model(
            section_files_model(m, segment, k - 1, section, sections, base, ind, ctx),
            segment.files[k - 1],
            segment,
            section,
            sections,
            base,
            segment.sections_subgroups.len() as nat,
            ind,
            ctx,
        )
    }
}

/// Everything a segment's files contribute under `section`: every file in
/// order, under the configured base path (extended by the segment's
/// directory outside reference mode).
pub open spec fn emit_section_model(
    m: EngineModel,
    settings_base: Seq<char>,
    segment: Segment,
    section: Seq<char>,
    sections: Seq<Seq<char>>,
    ind: nat,
    ctx: EmitCtx,
) -> EngineModel {
    let base = if ctx.reference_partial_objects {
        settings_base
    } else {
        spec_path_join(settings_base, segment.dir@)
    };
    section_files_model(m, segment, segment.files.len() as int, section, sections, base, ind, ctx)
}

impl<'a> LinkerWriter<'a> {
    /// Appending is transitive.
    pub proof fn lemma_grows_trans(a: Self, b: Self, c: Self)
        requires
            a.grows(b),
            b.grows(c),
        ensures
            a.grows(c),
    {
        crate::ordered_set::lemma_prefix_trans(a.buffer.lines(), b.buffer.lines(), c.buffer.lines());
        crate::ordered_set::lemma_prefix_trans(a.buffer.syms(), b.buffer.syms(), c.buffer.syms());
        crate::ordered_set::lemma_prefix_trans(
            set_elems(a.files_paths),
            set_elems(b.files_paths),
            set_elems(c.files_paths),
        );
    }

    /// A state appends onto itself.
    pub proof fn lemma_grows_refl(a: Self)
        ensures
            a.grows(a),
    {
        crate::ordered_set::lemma_prefix_refl(a.buffer.lines());
        crate::ordered_set::lemma_prefix_refl(a.buffer.syms());
        crate::ordered_set::lemma_prefix_refl(set_elems(a.files_paths));
    }

    /// A step that touches only the buffer appends.
    pub(crate) proof fn lemma_buffer_only_step(a: Self, b: Self)
        requires
            a.buffer.lines().is_prefix_of(b.buffer.lines()),
            a.buffer.syms().is_prefix_of(b.buffer.syms()),
            set_elems(a.files_paths) == set_elems(b.files_paths),
            a.class_emitted == b.class_emitted,
        ensures
            a.grows(b),
    {
        crate::ordered_set::lemma_prefix_refl(set_elems(a.files_paths));
    }

    /// A registry step keeps the old registry a prefix.
    pub(crate) proof fn lemma_syms_after_prefix(s: Seq<Seq<char>>, x: Seq<char>)
        ensures
            s.is_prefix_of(syms_after(s, x)),
    {
        if s.contains(x) {
            crate::ordered_set::lemma_prefix_refl(s);
        } else {
            crate::ordered_set::lemma_prefix_push(s, x);
        }
    }

    /// Writes the input-section selector of an object or archive and records
    /// the referenced path.
    #[verifier::spinoff_prover]
    #[verifier::rlimit(60)]
    fn emit_selector(
        &mut self,
        file: &FileInfo,
        segment: &Segment,
        section: &str,
        base_path: &str,
    )
        requires
            old(self).wf(),
            file.kind == FileKind::Object || file.kind == FileKind::Archive,
        ensures
            final(self).wf(),
            old(self).same_config(*final(self)),
            final(self).phase == old(self).phase,
            final(self).buffer.indent_level == old(self).buffer.indent_level,
            final(self).class_emitted == old(self).class_emitted,
            old(self).grows(*final(self)),
            final(self).buffer.lines() == old(self).buffer.lines().push(
                spec_line(
                    old(self).buffer.indent_level as nat,
                    if file.kind == FileKind::Object {
                        object_line(
                            *file,
                            *segment,
                            section@,
                            spec_path_join(base_path@, file.path@),
                        )
                    } else {
                        archive_line(
                            *file,
                            *segment,
                            section@,
                            spec_path_join(base_path@, file.path@),
                        )
                    },
                ),
            ),
            final(self).buffer.syms() == old(self).buffer.syms(),
            set_elems(final(self).files_paths) == syms_after(
                set_elems(old(self).files_paths),
                spec_path_join(base_path@, file.path@),
            ),
    {
        let keep = match &file.keep_sections {
            KeepSections::Absent => false,
            KeepSections::All(all) => *all,
            KeepSections::WhichOnes(which) => crate::str_utils::names_contain(which, section),
        };
        let path = path_join(base_path, file.path.as_str());
        let is_archive = match file.kind {
            FileKind::Archive => true,
            _ => false,
        };
        let mut line = String::new();
        if keep {
            line.append("KEEP(");
        }
        line.append(path.as_str());
        if is_archive {
            line.append(":");
            line.append(file.subfile.as_str());
        }
        line.append("(");
        line.append(section);
        if segment.wildcard_sections {
            line.append("*");
        }
        line.append(")");
        if keep {
            line.append(")");
        }
        line.append(";");
        proof {
            if is_archive {
                assert(line@ =~= archive_line(
                    *file,
                    *segment,
                    section@,
                    spec_path_join(base_path@, file.path@),
                ));
            } else {
                assert(line@ =~= object_line(
                    *file,
                    *segment,
                    section@,
                    spec_path_join(base_path@, file.path@),
                ));
            }
        }
        self.buffer.writeln(line.as_str());
        proof {
            lemma_insert_keeps_no_dup(set_elems(self.files_paths), path@);
            Self::lemma_syms_after_prefix(set_elems(self.files_paths), path@);
            crate::ordered_set::lemma_prefix_refl(old(self).buffer.syms());
        }
        set_insert(&mut self.files_paths, path);
    }

    /// Writes what one descriptor contributes under `section`: a selector
    /// line for an object or archive (and the path into the referenced-path
    /// set), a counter advance or address marker when the section matches a
    /// pad or linker-offset descriptor, and for a group its nested
    /// descriptors, under an extended directory.
    pub(crate) fn emit_file(
        &mut self,
        file: &FileInfo,
        segment: &Segment,
        section: &str,
        sections: &Vec<String>,
        base_path: &str,
        fuel: usize,
    ) -> (r: Result<(), SlinkyError>)
        requires
            old(self).wf(),
        ensures
            final(self).wf(),
            r is Ok,
            old(self).same_config(*final(self)),
            final(self).phase == old(self).phase,
            final(self).buffer.indent_level == old(self).buffer.indent_level,
            final(self).class_emitted == old(self).class_emitted,
            old(self).grows(*final(self)),
            final(self).model() == emit_file_model(
                old(self).model(),
                *file,
                *segment,
                section@,
                sections.deep_view(),
                base_path@,
                fuel as nat,
                old(self).buffer.indent_level as nat,
                old(self).ctx(),
            ),
        decreases *file, fuel, 0int, 0int,
    {
        if !self.rs.should_emit_entry(
            &file.exclude_if_any,
            &file.exclude_if_all,
            &file.include_if_any,
            &file.include_if_all,
        ) {
            proof {
                Self::lemma_grows_refl(*self);
                assert(self.model() =~= old(self).model());
            }
            return Ok(());
        }
        let ghost m0 = old(self).model();
        let ghost ind = old(self).buffer.indent_level as nat;
        let ghost ctx = old(self).ctx();
        let ghost secs_dv = sections.deep_view();

        match file.kind {
            FileKind::Object => {
                self.emit_selector(file, segment, section, base_path);
                proof {
                    assert(self.model() =~= m_selector(
                        m0,
                        ind,
                        object_line(*file, *segment, section@, spec_path_join(base_path@, file.path@)),
                        spec_path_join(base_path@, file.path@),
                    ));
                }
            },
            FileKind::Archive => {
                self.emit_selector(file, segment, section, base_path);
                proof {
                    assert(self.model() =~= m_selector(
                        m0,
                        ind,
                        archive_line(*file, *segment, section@, spec_path_join(base_path@, file.path@)),
                        spec_path_join(base_path@, file.path@),
                    ));
                }
            },
            FileKind::Pad => {
                if str_eq(file.section.as_str(), section) {
                    let mut line = String::from_str(". += 0x");
                    push_hex(&mut line, file.pad_amount);
                    line.append(";");
                    self.buffer.writeln(line.as_str());
                    proof {
                        crate::ordered_set::lemma_prefix_push(
                            old(self).buffer.lines(),
                            spec_line(old(self).buffer.indent_level as nat, pad_line(*file)),
                        );
                        crate::ordered_set::lemma_prefix_refl(old(self).buffer.syms());
                        crate::ordered_set::lemma_prefix_refl(set_elems(old(self).files_paths));
                        assert(self.model() =~= m_line(m0, ind, pad_line(*file)));
                    }
                } else {
                    proof {
                        Self::lemma_grows_refl(*self);
                        assert(self.model() =~= m0);
                    }
                }
            },
            FileKind::LinkerOffset => {
                if str_eq(file.section.as_str(), section) {
                    let sym = self.d.settings.linker_symbols_style.linker_offset(
                        file.linker_offset_name.as_str(),
                    );
                    self.buffer.write_linker_symbol(sym.as_str(), ".");
                    proof {
                        crate::ordered_set::lemma_prefix_push(
                            old(self).buffer.lines(),
                            spec_line(
                                old(self).buffer.indent_level as nat,
                                assignment_line(sym@, "."@, false, false),
                            ),
                        );
                        Self::lemma_syms_after_prefix(old(self).buffer.syms(), sym@);
                        crate::ordered_set::lemma_prefix_refl(set_elems(old(self).files_paths));
                        assert(self.model() =~= m_marker(
                            m0,
                            ind,
                            spec_linker_offset(ctx.style, file.linker_offset_name@),
                            "."@,
                        ));
                    }
                } else {
                    proof {
                        Self::lemma_grows_refl(*self);
                        assert(self.model() =~= m0);
                    }
                }
            },
            FileKind::Group => {
                let new_base = path_join(base_path, file.dir.as_str());
                proof {
                    Self::lemma_grows_refl(*self);
                }
                let mut i: usize = 0;
                while i < file.files.len()
                    invariant
                        i <= file.files.len(),
                        self.wf(),
                        old(self).same_config(*self),
                        self.phase == old(self).phase,
                        self.buffer.indent_level == old(self).buffer.indent_level,
                        self.class_emitted == old(self).class_emitted,
                        old(self).grows(*self),
                        m0 == old(self).model(),
                        ind == old(self).buffer.indent_level as nat,
                        ctx == old(self).ctx(),
                        secs_dv == sections.deep_view(),
                        new_base@ == spec_path_join(base_path@, file.dir@),
                        self.model() == group_children_model(
                            m0,
                            *file,
                            i as int,
                            *segment,
                            section@,
                            secs_dv,
                            new_base@,
                            fuel as nat,
                            ind,
                            ctx,
                        ),
                    decreases file.files.len() - i,
                {
                    let ghost before = *self;
                    let child = &file.files[i];
                    self.emit_section_for_file(child, segment, section, sections, new_base.as_str(), fuel)?;
                    proof {
                        Self::lemma_grows_trans(*old(self), before, *self);
                        assert(self.model() =~= group_children_model(
                            m0,
                            *file,
                            i + 1,
                            *segment,
                            section@,
                            secs_dv,
                            new_base@,
                            fuel as nat,
                            ind,
                            ctx,
                        ));
                    }
                    i += 1;
                }
            },
        }
        Ok(())
    }

    /// Emits one descriptor under `section`, honouring its redirection map
    /// and the segment's subgroup rules: each resolved section renders here,
    /// followed by the sections a subgroup rule inlines after it.
    pub(crate) fn emit_section_for_file(
        &mut self,
        file: &FileInfo,
        segment: &Segment,
        section: &str,
        sections: &Vec<String>,
        base_path: &str,
        fuel: usize,
    ) -> (r: Result<(), SlinkyError>)
        requires
            old(self).wf(),
        ensures
            final(self).wf(),
            r is Ok,
            old(self).same_config(*final(self)),
            final(self).phase == old(self).phase,
            final(self).buffer.indent_level == old(self).buffer.indent_level,
            final(self).class_emitted == old(self).class_emitted,
            old(self).grows(*final(self)),
            final(self).model() == esff_model(
                old(self).model(),
                *file,
                *segment,
                section@,
                sections.deep_view(),
                base_path@,
                fuel as nat,
                old(self).buffer.indent_level as nat,
                old(self).ctx(),
            ),
        decreases *file, fuel, 1int, 0int,
    {
        proof {
            Self::lemma_grows_refl(*self);
        }
        let ghost m0 = old(self).model();
        let ghost ind = old(self).buffer.indent_level as nat;
        let ghost ctx = old(self).ctx();
        let ghost secs_dv = sections.deep_view();
        if file.section_order.len() != 0 {
            let to_emit = resolve_sections_for_file(&file.section_order, section, sections);
            let ghost names = to_emit.deep_view();
            proof {
                assert(self.model() =~= esff_names_model(
                    m0,
                    *file,
                    names,
                    0,
                    *segment,
                    secs_dv,
                    base_path@,
                    fuel as nat,
                    ind,
                    ctx,
                ));
            }
            let mut i: usize = 0;
            while i < to_emit.len()
                invariant
                    i <= to_emit.len(),
                    self.wf(),
                    old(self).same_config(*self),
                    self.phase == old(self).phase,
                    self.buffer.indent_level == old(self).buffer.indent_level,
                    self.class_emitted == old(self).class_emitted,
                    old(self).grows(*self),
                    m0 == old(self).model(),
                    ind == old(self).buffer.indent_level as nat,
                    ctx == old(self).ctx(),
                    secs_dv == sections.deep_view(),
                    names == to_emit.deep_view(),
                    names == resolved_sections(file.section_order.deep_view(), section@, secs_dv),
                    self.model() == esff_names_model(
                        m0,
                        *file,
                        names,
                        i as int,
                        *segment,
                        secs_dv,
                        base_path@,
                        fuel as nat,
                        ind,
                        ctx,
                    ),
                decreases to_emit.len() - i,
            {
                let ghost before = *self;
                assert(to_emit[i as int]@ == names[i as int]);
                self.emit_file(file, segment, to_emit[i].as_str(), sections, base_path, fuel)?;
                proof {
                    Self::lemma_grows_trans(*old(self), before, *self);
                }
                let ghost mid = *self;
                self.emit_subgroups_after(file, segment, to_emit[i].as_str(), sections, base_path, fuel)?;
                proof {
                    Self::lemma_grows_trans(*old(self), mid, *self);
                    assert(self.model() =~= esff_names_model(
                        m0,
                        *file,
                        names,
                        i + 1,
                        *segment,
                        secs_dv,
                        base_path@,
                        fuel as nat,
                        ind,
                        ctx,
                    ));
                }
                i += 1;
            }
            proof {
                assert(self.model() =~= esff_model(
                    m0,
                    *file,
                    *segment,
                    section@,
                    secs_dv,
                    base_path@,
                    fuel as nat,
                    ind,
                    ctx,
                ));
            }
        } else {
            self.emit_file(file, segment, section, sections, base_path, fuel)?;
            let ghost mid0 = *self;
            self.emit_subgroups_after(file, segment, section, sections, base_path, fuel)?;
            proof {
                Self::lemma_grows_trans(*old(self), mid0, *self);
                let names = seq![section@];
                assert(esff_names_model(
                    m0,
                    *file,
                    names,
                    0,
                    *segment,
                    secs_dv,
                    base_path@,
                    fuel as nat,
                    ind,
                    ctx,
                ) == m0);
                assert(self.model() =~= esff_names_model(
                    m0,
                    *file,
                    names,
                    1,
                    *segment,
                    secs_dv,
                    base_path@,
                    fuel as nat,
                    ind,
                    ctx,
                ));
                assert(self.model() =~= esff_model(
                    m0,
                    *file,
                    *segment,
                    section@,
                    secs_dv,
                    base_path@,
                    fuel as nat,
                    ind,
                    ctx,
                ));
            }
        }
        Ok(())
    }

    /// After a section rendered for a file, renders the sections the
    /// segment's subgroup rules inline behind it, while fuel remains.
    fn emit_subgroups_after(
        &mut self,
        file: &FileInfo,
        segment: &Segment,
        section: &str,
        sections: &Vec<String>,
        base_path: &str,
        fuel: usize,
    ) -> (r: Result<(), SlinkyError>)
        requires
            old(self).wf(),
        ensures
            final(self).wf(),
            r is Ok,
            old(self).same_config(*final(self)),
            final(self).phase == old(self).phase,
            final(self).buffer.indent_level == old(self).buffer.indent_level,
            final(self).class_emitted == old(self).class_emitted,
            old(self).grows(*final(self)),
            final(self).model() == subgroup_model(
                old(self).model(),
                *file,
                section@,
                *segment,
                sections.deep_view(),
                base_path@,
                fuel as nat,
                old(self).buffer.indent_level as nat,
                old(self).ctx(),
            ),
        decreases *file, fuel, 0int, 1int,
    {
        proof {
            Self::lemma_grows_refl(*self);
        }
        let ghost m0 = old(self).model();
        let ghost ind = old(self).buffer.indent_level as nat;
        let ghost ctx = old(self).ctx();
        let ghost secs_dv = sections.deep_view();
        if self.reference_partial_objects {
            return Ok(());
        }
        if fuel == 0 {
            return Ok(());
        }
        match assoc_get(&segment.sections_subgroups, section) {
            Some(others) => {
                let ghost others_dv = others.deep_view();
                let mut i: usize = 0;
                while i < others.len()
                    invariant
                        i <= others.len(),
                        fuel >= 1,
                        self.wf(),
                        old(self).same_config(*self),
                        self.phase == old(self).phase,
                        self.buffer.indent_level == old(self).buffer.indent_level,
                        self.class_emitted == old(self).class_emitted,
                        old(self).grows(*self),
                        m0 == old(self).model(),
                        ind == old(self).buffer.indent_level as nat,
                        ctx == old(self).ctx(),
                        secs_dv == sections.deep_view(),
                        others_dv == others.deep_view(),
                        self.model() == subgroup_names_model(
                            m0,
                            *file,
                            others_dv,
                            i as int,
                            *segment,
                            secs_dv,
                            base_path@,
                            fuel as nat,
                            ind,
                            ctx,
                        ),
                    decreases others.len() - i,
                {
                    let ghost before = *self;
                    assert(others[i as int]@ == others_dv[i as int]);
                    self.emit_section_for_file(
                        file,
                        segment,
                        others[i].as_str(),
                        sections,
                        base_path,
                        fuel - 1,
                    )?;
                    proof {
                        Self::lemma_grows_trans(*old(self), before, *self);
                        assert(self.model() =~= subgroup_names_model(
                            m0,
                            *file,
                            others_dv,
                            i + 1,
                            *segment,
                            secs_dv,
                            base_path@,
                            fuel as nat,
                            ind,
                            ctx,
                        ));
                    }
                    i += 1;
                }
            },
            None => {},
        }
        Ok(())
    }

    /// Renders everything the segment's files contribute under `section`,
    /// with the segment's directory (outside reference mode) prefixed to
    /// every path.
    pub(crate) fn emit_section(
        &mut self,
        segment: &Segment,
        section: &str,
        sections: &Vec<String>,
    ) -> (r: Result<(), SlinkyError>)
        requires
            old(self).wf(),
        ensures
            final(self).wf(),
            r is Ok,
            old(self).same_config(*final(self)),
            final(self).phase == old(self).phase,
            final(self).buffer.indent_level == old(self).buffer.indent_level,
            final(self).class_emitted == old(self).class_emitted,
            old(self).grows(*final(self)),
            final(self).model() == emit_section_model(
                old(self).model(),
                old(self).d.settings.base_path@,
                *segment,
                section@,
                sections.deep_view(),
                old(self).buffer.indent_level as nat,
                old(self).ctx(),
            ),
    {
        let base = if self.reference_partial_objects {
            String::from_str(self.d.settings.base_path.as_str())
        } else {
            path_join(self.d.settings.base_path.as_str(), segment.dir.as_str())
        };
        let fuel = segment.sections_subgroups.len();
        proof {
            Self::lemma_grows_refl(*self);
        }
        let ghost m0 = old(self).model();
        let ghost ind = old(self).buffer.indent_level as nat;
        let ghost ctx = old(self).ctx();
        let ghost secs_dv = sections.deep_view();
        let mut i: usize = 0;
        while i < segment.files.len()
            invariant
                i <= segment.files.len(),
                self.wf(),
                old(self).same_config(*self),
                self.phase == old(self).phase,
                self.buffer.indent_level == old(self).buffer.indent_level,
                self.class_emitted == old(self).class_emitted,
                old(self).grows(*self),
                m0 == old(self).model(),
                ind == old(self).buffer.indent_level as nat,
                ctx == old(self).ctx(),
                secs_dv == sections.deep_view(),
                fuel == segment.sections_subgroups.len(),
                base@ == (if ctx.reference_partial_objects {
                    old(self).d.settings.base_path@
                } else {
                    spec_path_join(old(self).d.settings.base_path@, segment.dir@)
                }),
                self.model() == section_files_model(
                    m0,
                    *segment,
                    i as int,
                    section@,
                    secs_dv,
                    base@,
                    ind,
                    ctx,
                ),
            decreases segment.files.len() - i,
        {
            let ghost before = *self;
            let file = &segment.files[i];
            self.emit_section_for_file(file, segment, section, sections, base.as_str(), fuel)?;
            proof {
                Self::lemma_grows_trans(*old(self), before, *self);
                assert(self.model() =~= section_files_model(
                    m0,
                    *segment,
                    i + 1,
                    section@,
                    secs_dv,
                    base@,
                    ind,
                    ctx,
                ));
            }
            i += 1;
        }
        Ok(())
    }
}

} // verus!
