//! The three artifact exporters, read-only over the engine's finished state:
//! the placement script itself, the make-style dependency listing, and the
//! header of symbol declarations. Each output is pinned to a function of the
//! engine state alone, so a finished engine always exports the same bytes.

use vstd::prelude::*;
use vstd::string::{StrSliceExecFns, StringExecFns};

use crate::error::SlinkyError;
use crate::linker_writer::LinkerWriter;
use crate::ordered_set::{set_elems, set_get, set_len};
use crate::str_utils::push_char;

verus! {

/// The script text: every line followed by a newline.
pub open spec fn script_text(lines: Seq<Seq<char>>) -> Seq<char>
    decreases lines.len(),
{
    if lines.len() == 0 {
        Seq::empty()
    } else {
        script_text(lines.drop_last()) + lines.last() + seq!['\n']
    }
}

/// The prerequisite list of the dependency rule: each path on a continued
/// line.
pub open spec fn dep_prereqs(paths: Seq<Seq<char>>) -> Seq<char>
    decreases paths.len(),
{
    if paths.len() == 0 {
        Seq::empty()
    } else {
        dep_prereqs(paths.drop_last()) + " \\\n    "@ + paths.last()
    }
}

/// One dependency-free rule per referenced path, so a deleted input does not
/// break incremental rebuilds.
pub open spec fn dep_rules(paths: Seq<Seq<char>>) -> Seq<char>
    decreases paths.len(),
{
    if paths.len() == 0 {
        Seq::empty()
    } else {
        dep_rules(paths.drop_last()) + paths.last() + ":\n"@
    }
}

/// The dependency listing: one rule for the script over every referenced
/// path, then the per-path rules.
pub open spec fn dep_text(target: Seq<char>, paths: Seq<Seq<char>>) -> Seq<char> {
    target + ":"@ + dep_prereqs(paths) + "\n\n"@ + dep_rules(paths)
}

/// The C storage-class keyword that opens every declaration.
pub open spec fn storage_class_keyword() -> Seq<char> {
    seq!['e', 'x', 't', 'e', 'r', 'n']
}

/// One declaration per registered symbol, in registry order.
pub open spec fn header_decls(syms: Seq<Seq<char>>, element_type: Seq<char>, as_array: bool) -> Seq<
    char,
>
    decreases syms.len(),
{
    if syms.len() == 0 {
        Seq::empty()
    } else {
        header_decls(syms.drop_last(), element_type, as_array) + storage_class_keyword() + " "@
            + element_type + " "@ + syms.last() + (if as_array {
            "[]"@
        } else {
            Seq::<char>::empty()
        }) + ";\n"@
    }
}

/// The symbol header: an include guard around the declarations.
pub open spec fn header_text(syms: Seq<Seq<char>>, element_type: Seq<char>, as_array: bool) -> Seq<
    char,
> {
    "#ifndef HEADER_SYMBOLS_H\n#define HEADER_SYMBOLS_H\n\n"@ + header_decls(
        syms,
        element_type,
        as_array,
    ) + "\n#endif\n"@
}

impl<'a> LinkerWriter<'a> {
    /// The accumulated script, one line per buffer entry.
    pub fn export_linker_script_to_string(&self) -> (r: Result<String, SlinkyError>)
        ensures
            r matches Ok(s) && s@ == script_text(self.buffer.lines()),
    {
        let mut s = String::new();
        let ghost all = self.buffer.lines();
        let mut i: usize = 0;
        while i < self.buffer.buffer.len()
            invariant
                i <= self.buffer.buffer.len(),
                all == self.buffer.lines(),
                s@ == script_text(all.subrange(0, i as int)),
            decreases self.buffer.buffer.len() - i,
        {
            s.append(self.buffer.buffer[i].as_str());
            push_char(&mut s, '\n');
            proof {
                assert(all.subrange(0, i + 1).drop_last() =~= all.subrange(0, i as int));
                assert(all.subrange(0, i + 1).last() == all[i as int]);
                assert(all[i as int] == self.buffer.buffer[i as int]@);
                assert(s@ =~= script_text(all.subrange(0, i + 1)));
            }
            i += 1;
        }
        proof {
            assert(all.subrange(0, all.len() as int) =~= all);
        }
        Ok(s)
    }

    /// The dependency listing for the given script path.
    pub fn export_dependencies_file_to_string(&self, target_path: &str) -> (r: Result<
        String,
        SlinkyError,
    >)
        ensures
            r matches Ok(s) && s@ == dep_text(target_path@, set_elems(self.files_paths)),
    {
        let ghost paths = set_elems(self.files_paths);
        let mut s = String::from_str(target_path);
        s.append(":");

        let n = set_len(&self.files_paths);
        let mut i: usize = 0;
        while i < n
            invariant
                i <= n,
                n == paths.len(),
                paths == set_elems(self.files_paths),
                s@ == target_path@ + ":"@ + dep_prereqs(paths.subrange(0, i as int)),
            decreases n - i,
        {
            let p = set_get(&self.files_paths, i);
            s.append(" \\\n    ");
            s.append(p.as_str());
            proof {
                assert(paths.subrange(0, i + 1).drop_last() =~= paths.subrange(0, i as int));
                assert(paths.subrange(0, i + 1).last() == paths[i as int]);
                assert(s@ =~= target_path@ + ":"@ + dep_prereqs(paths.subrange(0, i + 1)));
            }
            i += 1;
        }
        proof {
            assert(paths.subrange(0, n as int) =~= paths);
        }
        s.append("\n\n");

        let ghost mid = s@;
        proof {
            assert(s@ =~= mid + dep_rules(paths.subrange(0, 0)));
        }
        let mut j: usize = 0;
        while j < n
            invariant
                j <= n,
                n == paths.len(),
                paths == set_elems(self.files_paths),
                mid == target_path@ + ":"@ + dep_prereqs(paths) + "\n\n"@,
                s@ == mid + dep_rules(paths.subrange(0, j as int)),
            decreases n - j,
        {
            let p = set_get(&self.files_paths, j);
            s.append(p.as_str());
            s.append(":\n");
            proof {
                assert(paths.subrange(0, j + 1).drop_last() =~= paths.subrange(0, j as int));
                assert(paths.subrange(0, j + 1).last() == paths[j as int]);
                assert(s@ =~= mid + dep_rules(paths.subrange(0, j + 1)));
            }
            j += 1;
        }
        proof {
            assert(paths.subrange(0, paths.len() as int) =~= paths);
            assert(s@ =~= dep_text(target_path@, paths));
        }
        Ok(s)
    }

    /// The include-guarded header declaring every registered symbol.
    pub fn export_symbol_header_to_string(&self) -> (r: Result<String, SlinkyError>)
        ensures
            r matches Ok(s) && s@ == header_text(
                self.buffer.syms(),
                self.d.settings.symbols_header_type@,
                self.d.settings.symbols_header_as_array,
            ),
    {
        let ghost syms = self.buffer.syms();
        let ghost ht = self.d.settings.symbols_header_type@;
        let as_array = self.d.settings.symbols_header_as_array;
        let mut s = String::from_str("#ifndef HEADER_SYMBOLS_H\n#define HEADER_SYMBOLS_H\n\n");
        let ghost head = s@;

        let n = set_len(&self.buffer.linker_symbols);
        let mut i: usize = 0;
        while i < n
            invariant
                i <= n,
                n == syms.len(),
                syms == self.buffer.syms(),
                ht == self.d.settings.symbols_header_type@,
                as_array == self.d.settings.symbols_header_as_array,
                head == "#ifndef HEADER_SYMBOLS_H\n#define HEADER_SYMBOLS_H\n\n"@,
                s@ == head + header_decls(syms.subrange(0, i as int), ht, as_array),
            decreases n - i,
        {
            let sym = set_get(&self.buffer.linker_symbols, i);
            push_char(&mut s, 'e');
            push_char(&mut s, 'x');
            push_char(&mut s, 't');
            push_char(&mut s, 'e');
            push_char(&mut s, 'r');
            push_char(&mut s, 'n');
            s.append(" ");
            s.append(self.d.settings.symbols_header_type.as_str());
            s.append(" ");
            s.append(sym.as_str());
            if as_array {
                s.append("[]");
            }
            s.append(";\n");
            proof {
                assert(syms.subrange(0, i + 1).drop_last() =~= syms.subrange(0, i as int));
                assert(syms.subrange(0, i + 1).last() == syms[i as int]);
                assert(s@ =~= head + header_decls(syms.subrange(0, i + 1), ht, as_array));
            }
            i += 1;
        }
        s.append("\n#endif\n");
        proof {
            assert(syms.subrange(0, syms.len() as int) =~= syms);
            assert(s@ =~= header_text(syms, ht, as_array));
        }
        Ok(s)
    }
}

} // verus!
