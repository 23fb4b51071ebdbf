//! Crate-wide laws, stated over the spec models the contracts use.

use vstd::prelude::*;

use crate::exporters::{dep_text, header_text, script_text};
use crate::linker_writer::LinkerWriter;
use crate::ordered_set::{seq_no_dup, set_elems};
use crate::section_resolution::{member_here, ordered_members};

verus! {

/// How often `x` stands in `s`.
pub open spec fn seq_count<A>(s: Seq<A>, x: A) -> nat
    decreases s.len(),
{
    if s.len() == 0 {
        0
    } else {
        seq_count(s.drop_last(), x) + if s.last() == x {
            1nat
        } else {
            0nat
        }
    }
}

/// In a duplicate-free sequence every value stands at most once.
pub proof fn lemma_no_dup_count<A>(s: Seq<A>, x: A)
    requires
        seq_no_dup(s),
    ensures
        seq_count(s, x) == if s.contains(x) {
            1nat
        } else {
            0nat
        },
    decreases s.len(),
{
    if s.len() > 0 {
        let front = s.drop_last();
        assert(seq_no_dup(front));
        lemma_no_dup_count(front, x);
        if s.last() == x {
            assert(!front.contains(x)) by {
                if front.contains(x) {
                    let i = choose|i: int| 0 <= i < front.len() && front[i] == x;
                    assert(s[i] == s[s.len() - 1]);
                }
            }
        } else {
            if front.contains(x) {
                let i = choose|i: int| 0 <= i < front.len() && front[i] == x;
                assert(s[i] == x);
            }
            if s.contains(x) {
                let i = choose|i: int| 0 <= i < s.len() && s[i] == x;
                assert(front[i] == x);
            }
        }
    }
}

/// Every path the engine referenced stands exactly once in the
/// referenced-path sequence that the dependency listing enumerates: a path
/// is never listed twice.
pub proof fn lemma_referenced_path_listed_once(w: LinkerWriter<'_>, p: Seq<char>)
    requires
        w.wf(),
        set_elems(w.files_paths).contains(p),
    ensures
        seq_count(set_elems(w.files_paths), p) == 1,
{
    lemma_no_dup_count(set_elems(w.files_paths), p);
}

/// The symbol registry of a well-formed engine names each emitted marker
/// exactly once, however many segments referenced it: the shared start and
/// end symbols of an address class enter it only at the first reference.
pub proof fn lemma_registry_names_symbol_once(w: LinkerWriter<'_>, sym: Seq<char>)
    requires
        w.wf(),
        w.buffer.syms().contains(sym),
    ensures
        seq_count(w.buffer.syms(), sym) == 1,
{
    lemma_no_dup_count(w.buffer.syms(), sym);
}

/// Determinism: every emission step pins the next engine model as a function
/// of the previous model and the call's arguments (`EngineModel`, see the
/// `ensures` of the `add_*` methods), and every artifact is a function of the
/// engine state alone — so two writers built from equal documents and fed the
/// identical call sequence hold equal models, and export byte-identical
/// script, dependency and header text. This lemma states the exporter half;
/// the step half is each method's model clause.
pub proof fn lemma_exports_deterministic(
    a: LinkerWriter<'_>,
    b: LinkerWriter<'_>,
    target: Seq<char>,
)
    requires
        a.buffer.lines() == b.buffer.lines(),
        set_elems(a.files_paths) == set_elems(b.files_paths),
        a.buffer.syms() == b.buffer.syms(),
        a.d.settings.symbols_header_type@ == b.d.settings.symbols_header_type@,
        a.d.settings.symbols_header_as_array == b.d.settings.symbols_header_as_array,
    ensures
        script_text(a.buffer.lines()) == script_text(b.buffer.lines()),
        dep_text(target, set_elems(a.files_paths)) == dep_text(target, set_elems(b.files_paths)),
        header_text(
            a.buffer.syms(),
            a.d.settings.symbols_header_type@,
            a.d.settings.symbols_header_as_array,
        ) == header_text(
            b.buffer.syms(),
            b.d.settings.symbols_header_type@,
            b.d.settings.symbols_header_as_array,
        ),
{
}

/// Ordering of redirected sections: what renders under one output section,
/// among the names of the canonical section list, is exactly that list
/// filtered — so content follows the order the segment's section list gives,
/// never the order the redirection map was authored in.
pub proof fn lemma_resolution_follows_canonical_order(
    so: Seq<(Seq<char>, Seq<char>)>,
    section: Seq<char>,
    sections: Seq<Seq<char>>,
)
    ensures
        ordered_members(so, section, sections) == sections.filter(
            |s: Seq<char>| member_here(so, section, s),
        ),
    decreases sections.len(),
{
    reveal(Seq::filter);
    if sections.len() > 0 {
        lemma_resolution_follows_canonical_order(so, section, sections.drop_last());
    }
}

} // verus!
