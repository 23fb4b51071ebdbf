//! An indentation-aware line accumulator. Beside the text it records, in
//! first-seen order, every distinct symbol name written as an address or size
//! marker; that registry later feeds the symbol-header artifact.

use vstd::prelude::*;
use vstd::string::{StrSliceExecFns, StringExecFns};

use crate::numfmt::{hex_str, push_hex};
use crate::ordered_set::{seq_no_dup, set_elems, set_insert, set_new, lemma_insert_keeps_no_dup, lemma_prefix_push, lemma_prefix_refl};
use crate::str_utils::push_char;

verus! {

/// Four spaces for every level of nesting.
pub open spec fn indent_pad(n: nat) -> Seq<char>
    decreases n,
{
    if n == 0 {
        Seq::empty()
    } else {
        indent_pad((n - 1) as nat) + "    "@
    }
}

/// One finished line: the indentation of the level it was written at, then the
/// content.
pub open spec fn spec_line(indent: nat, content: Seq<char>) -> Seq<char> {
    indent_pad(indent) + content
}

/// A symbol registry after one more marker: unchanged when the name is already
/// known, extended at the end otherwise.
pub open spec fn syms_after(syms: Seq<Seq<char>>, name: Seq<char>) -> Seq<Seq<char>> {
    if syms.contains(name) {
        syms
    } else {
        syms.push(name)
    }
}

/// The registry holds a name once it was registered.
pub proof fn lemma_syms_after_contains(syms: Seq<Seq<char>>, name: Seq<char>)
    ensures
        syms_after(syms, name).contains(name),
{
    if !syms.contains(name) {
        assert(syms.push(name)[syms.len() as int] == name);
    }
}

/// `name = value` as text.
pub open spec fn assignment_expr(name: Seq<char>, value: Seq<char>) -> Seq<char> {
    name + " = "@ + value
}

/// A symbol assignment with its visibility wrapping and closing semicolon.
pub open spec fn assignment_line(
    name: Seq<char>,
    value: Seq<char>,
    provide: bool,
    hidden: bool,
) -> Seq<char> {
    if provide && hidden {
        "PROVIDE_HIDDEN("@ + assignment_expr(name, value) + ");"@
    } else if provide {
        "PROVIDE("@ + assignment_expr(name, value) + ");"@
    } else if hidden {
        "HIDDEN("@ + assignment_expr(name, value) + ");"@
    } else {
        assignment_expr(name, value) + ";"@
    }
}

/// The alignment raise `name = ALIGN(name, 0x<align>);` as text.
pub open spec fn align_line(name: Seq<char>, align: nat) -> Seq<char> {
    name + " = ALIGN("@ + name + ", 0x"@ + hex_str(align) + ");"@
}

pub struct ScriptBuffer {
    pub buffer: Vec<String>,
    pub indent_level: usize,
    pub linker_symbols: indexmap::IndexSet<String>,
}

impl ScriptBuffer {
    /// The accumulated lines, without trailing newlines.
    pub open spec fn lines(self) -> Seq<Seq<char>> {
        self.buffer.deep_view()
    }

    /// The symbol registry, in first-seen order.
    pub open spec fn syms(self) -> Seq<Seq<char>> {
        set_elems(self.linker_symbols)
    }

    /// The registry never names a symbol twice, and nesting stays shallow
    /// enough that indenting can never overflow.
    pub open spec fn wf(self) -> bool {
        &&& seq_no_dup(self.syms())
        &&& self.indent_level <= 8
    }

    pub fn new() -> (r: ScriptBuffer)
        ensures
            r.wf(),
            r.lines() == Seq::<Seq<char>>::empty(),
            r.syms() == Seq::<Seq<char>>::empty(),
            r.indent_level == 0,
    {
        let r = ScriptBuffer { buffer: Vec::new(), indent_level: 0, linker_symbols: set_new() };
        proof {
            assert(r.lines() =~= Seq::<Seq<char>>::empty());
        }
        r
    }

    pub fn is_empty(&self) -> (r: bool)
        ensures
            r == (self.lines().len() == 0),
    {
        self.buffer.len() == 0
    }

    /// Appends one line at the current indentation.
    pub fn writeln(&mut self, line: &str)
        requires
            old(self).wf(),
        ensures
            final(self).wf(),
            old(self).lines().is_prefix_of(final(self).lines()),
            old(self).syms().is_prefix_of(final(self).syms()),
            final(self).lines() == old(self).lines().push(
                spec_line(old(self).indent_level as nat, line@),
            ),
            final(self).syms() == old(self).syms(),
            final(self).indent_level == old(self).indent_level,
    {
        let mut s = String::new();
        let mut j: usize = 0;
        while j < self.indent_level
            invariant
                j <= self.indent_level,
                s@ == indent_pad(j as nat),
        decreases self.indent_level - j,
        {
            s.append("    ");
            j += 1;
        }
        s.append(line);
        self.buffer.push(s);
        proof {
            assert(final(self).lines() =~= old(self).lines().push(
                spec_line(old(self).indent_level as nat, line@),
            ));
            lemma_prefix_push(old(self).lines(), spec_line(old(self).indent_level as nat, line@));
            lemma_prefix_refl(old(self).syms());
        }
    }

    /// Appends one empty line, outside any indentation.
    pub fn write_empty_line(&mut self)
        requires
            old(self).wf(),
        ensures
            final(self).wf(),
            old(self).lines().is_prefix_of(final(self).lines()),
            old(self).syms().is_prefix_of(final(self).syms()),
            final(self).lines() == old(self).lines().push(Seq::<char>::empty()),
            final(self).syms() == old(self).syms(),
            final(self).indent_level == old(self).indent_level,
    {
        self.buffer.push(String::new());
        proof {
            assert(final(self).lines() =~= old(self).lines().push(Seq::<char>::empty()));
            lemma_prefix_push(old(self).lines(), Seq::<char>::empty());
            lemma_prefix_refl(old(self).syms());
        }
    }

    /// Opens a brace block and indents what follows.
    pub fn begin_block(&mut self)
        requires
            old(self).wf(),
            old(self).indent_level < 8,
        ensures
            final(self).wf(),
            old(self).lines().is_prefix_of(final(self).lines()),
            old(self).syms().is_prefix_of(final(self).syms()),
            final(self).lines() == old(self).lines().push(
                spec_line(old(self).indent_level as nat, "{"@),
            ),
            final(self).syms() == old(self).syms(),
            final(self).indent_level == old(self).indent_level + 1,
    {
        self.writeln("{");
        self.indent_level += 1;
    }

    /// Dedents and closes the brace block.
    pub fn end_block(&mut self)
        requires
            old(self).wf(),
            old(self).indent_level >= 1,
        ensures
            final(self).wf(),
            old(self).lines().is_prefix_of(final(self).lines()),
            old(self).syms().is_prefix_of(final(self).syms()),
            final(self).lines() == old(self).lines().push(
                spec_line((old(self).indent_level - 1) as nat, "}"@),
            ),
            final(self).syms() == old(self).syms(),
            final(self).indent_level == old(self).indent_level - 1,
    {
        self.indent_level -= 1;
        self.writeln("}");
    }

    /// Writes an address or size marker `name = value;` and registers the
    /// name, once, in the symbol registry.
    pub fn write_linker_symbol(&mut self, name: &str, value: &str)
        requires
            old(self).wf(),
        ensures
            final(self).wf(),
            old(self).lines().is_prefix_of(final(self).lines()),
            old(self).syms().is_prefix_of(final(self).syms()),
            final(self).lines() == old(self).lines().push(
                spec_line(old(self).indent_level as nat, assignment_line(name@, value@, false, false)),
            ),
            final(self).syms() == syms_after(old(self).syms(), name@),
            final(self).indent_level == old(self).indent_level,
    {
        let mut s = String::from_str(name);
        s.append(" = ");
        s.append(value);
        s.append(";");
        self.writeln(s.as_str());
        proof {
            lemma_insert_keeps_no_dup(self.syms(), name@);
            if self.syms().contains(name@) {
                lemma_prefix_refl(self.syms());
            } else {
                lemma_prefix_push(self.syms(), name@);
            }
        }
        set_insert(&mut self.linker_symbols, String::from_str(name));
    }

    /// Writes a user symbol assignment with its visibility wrapping. User
    /// symbols do not enter the registry.
    pub fn write_symbol_assignment(&mut self, name: &str, value: &str, provide: bool, hidden: bool)
        requires
            old(self).wf(),
        ensures
            final(self).wf(),
            old(self).lines().is_prefix_of(final(self).lines()),
            old(self).syms().is_prefix_of(final(self).syms()),
            final(self).lines() == old(self).lines().push(
                spec_line(
                    old(self).indent_level as nat,
                    assignment_line(name@, value@, provide, hidden),
                ),
            ),
            final(self).syms() == old(self).syms(),
            final(self).indent_level == old(self).indent_level,
    {
        let mut s = String::new();
        if provide && hidden {
            s.append("PROVIDE_HIDDEN(");
        } else if provide {
            s.append("PROVIDE(");
        } else if hidden {
            s.append("HIDDEN(");
        }
        s.append(name);
        s.append(" = ");
        s.append(value);
        if provide || hidden {
            s.append(");");
        } else {
            s.append(";");
        }
        proof {
            assert(s@ =~= assignment_line(name@, value@, provide, hidden));
        }
        self.writeln(s.as_str());
    }

    /// Writes the raise `name = MAX(name, other);` that extends a shared
    /// marker upward.
    pub fn write_symbol_max_self(&mut self, name: &str, other: &str)
        requires
            old(self).wf(),
        ensures
            final(self).wf(),
            old(self).lines().is_prefix_of(final(self).lines()),
            old(self).syms().is_prefix_of(final(self).syms()),
            final(self).lines() == old(self).lines().push(
                spec_line(
                    old(self).indent_level as nat,
                    name@ + " = MAX("@ + name@ + ", "@ + other@ + ");"@,
                ),
            ),
            final(self).syms() == old(self).syms(),
            final(self).indent_level == old(self).indent_level,
    {
        let mut s = String::from_str(name);
        s.append(" = MAX(");
        s.append(name);
        s.append(", ");
        s.append(other);
        s.append(");");
        self.writeln(s.as_str());
    }

    /// Writes the alignment `name = ALIGN(name, 0x<align>);`.
    pub fn align_symbol(&mut self, name: &str, align: u32)
        requires
            old(self).wf(),
        ensures
            final(self).wf(),
            old(self).lines().is_prefix_of(final(self).lines()),
            old(self).syms().is_prefix_of(final(self).syms()),
            final(self).lines() == old(self).lines().push(
                spec_line(old(self).indent_level as nat, align_line(name@, align as nat)),
            ),
            final(self).syms() == old(self).syms(),
            final(self).indent_level == old(self).indent_level,
    {
        let mut s = String::from_str(name);
        s.append(" = ALIGN(");
        s.append(name);
        s.append(", 0x");
        push_hex(&mut s, align);
        s.append(");");
        self.writeln(s.as_str());
    }

    /// Writes a one-line placeholder section holding only its own wildcard
    /// selector, so the linker does not warn when no input provides it.
    pub fn write_single_entry_section(&mut self, section: &str, address: &str)
        requires
            old(self).wf(),
        ensures
            final(self).wf(),
            old(self).lines().is_prefix_of(final(self).lines()),
            old(self).syms().is_prefix_of(final(self).syms()),
            final(self).lines() == old(self).lines().push(
                spec_line(
                    old(self).indent_level as nat,
                    section@ + " "@ + address@ + " : { *("@ + section@ + "); }"@,
                ),
            ),
            final(self).syms() == old(self).syms(),
            final(self).indent_level == old(self).indent_level,
    {
        let mut s = String::from_str(section);
        s.append(" ");
        s.append(address);
        s.append(" : { *(");
        s.append(section);
        s.append("); }");
        self.writeln(s.as_str());
    }

    /// The undefined-symbol directive's keyword, assembled character by
    /// character.
    pub open spec fn undefined_sym_keyword() -> Seq<char> {
        seq!['E', 'X', 'T', 'E', 'R', 'N']
    }

    /// Writes the directive that makes the link demand `name`.
    pub fn write_required_symbol(&mut self, name: &str)
        requires
            old(self).wf(),
        ensures
            final(self).wf(),
            old(self).lines().is_prefix_of(final(self).lines()),
            old(self).syms().is_prefix_of(final(self).syms()),
            final(self).lines() == old(self).lines().push(
                spec_line(
                    old(self).indent_level as nat,
                    Self::undefined_sym_keyword() + "("@ + name@ + ");"@,
                ),
            ),
            final(self).syms() == old(self).syms(),
            final(self).indent_level == old(self).indent_level,
    {
        let mut s = String::new();
        push_char(&mut s, 'E');
        push_char(&mut s, 'X');
        push_char(&mut s, 'T');
        push_char(&mut s, 'E');
        push_char(&mut s, 'R');
        push_char(&mut s, 'N');
        proof {
            assert(s@ =~= Self::undefined_sym_keyword());
        }
        s.append("(");
        s.append(name);
        s.append(");");
        self.writeln(s.as_str());
    }

    /// Writes the layout check `ASSERT((check), "message");`.
    pub fn write_assert(&mut self, check: &str, error_message: &str)
        requires
            old(self).wf(),
        ensures
            final(self).wf(),
            old(self).lines().is_prefix_of(final(self).lines()),
            old(self).syms().is_prefix_of(final(self).syms()),
            final(self).lines() == old(self).lines().push(
                spec_line(
                    old(self).indent_level as nat,
                    "ASSERT(("@ + check@ + "), \""@ + error_message@ + "\");"@,
                ),
            ),
            final(self).syms() == old(self).syms(),
            final(self).indent_level == old(self).indent_level,
    {
        let mut s = String::from_str("ASSERT((");
        s.append(check);
        s.append("), \"");
        s.append(error_message);
        s.append("\");");
        self.writeln(s.as_str());
    }
}

} // verus!
