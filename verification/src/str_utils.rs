//! Character-level string helpers: equality, suffix tests and membership in a
//! list of names. These are the primitives the rest of the crate compares
//! identifiers with.

use vstd::prelude::*;
use vstd::string::{StrSliceExecFns, StringExecFns};

verus! {

/// Two path fragments joined with a separator; an empty side contributes
/// nothing.
pub open spec fn spec_path_join(base: Seq<char>, rel: Seq<char>) -> Seq<char> {
    if base.len() == 0 {
        rel
    } else if rel.len() == 0 {
        base
    } else {
        base + "/"@ + rel
    }
}

/// Joins two path fragments with a separator.
pub fn path_join(base: &str, rel: &str) -> (r: String)
    ensures
        r@ == spec_path_join(base@, rel@),
{
    if base.unicode_len() == 0 {
        String::from_str(rel)
    } else if rel.unicode_len() == 0 {
        String::from_str(base)
    } else {
        let mut r = String::from_str(base);
        r.append("/");
        r.append(rel);
        r
    }
}

/// Relies on std's String::push: appends exactly one character at the end.
#[verifier::external_body]
pub fn push_char(dst: &mut String, c: char)
    ensures
        final(dst)@ == old(dst)@.push(c),
{
    dst.push(c);
}

/// String equality, decided character by character.
pub fn str_eq(a: &str, b: &str) -> (r: bool)
    ensures
        r == (a@ == b@),
{
    let alen = a.unicode_len();
    let blen = b.unicode_len();
    if alen != blen {
        return false;
    }
    let mut i: usize = 0;
    while i < alen
        invariant
            alen == a@.len(),
            alen == b@.len(),
            i <= alen,
            forall|j: int| 0 <= j < i ==> a@[j] == b@[j],
        decreases alen - i,
    {
        let ca = a.get_char(i);
        let cb = b.get_char(i);
        if ca != cb {
            return false;
        }
        i += 1;
    }
    proof {
        assert(a@ =~= b@);
    }
    true
}

/// Whether `s` ends with `suffix`, as sequences of characters.
pub open spec fn spec_ends_with(s: Seq<char>, suffix: Seq<char>) -> bool {
    s.len() >= suffix.len() && s.subrange(s.len() - suffix.len(), s.len() as int) == suffix
}

/// Suffix test, decided character by character.
pub fn str_ends_with(s: &str, suffix: &str) -> (r: bool)
    ensures
        r == spec_ends_with(s@, suffix@),
{
    let slen = s.unicode_len();
    let xlen = suffix.unicode_len();
    if slen < xlen {
        return false;
    }
    let base = slen - xlen;
    let mut i: usize = 0;
    while i < xlen
        invariant
            slen == s@.len(),
            xlen == suffix@.len(),
            base == slen - xlen,
            i <= xlen,
            forall|j: int| 0 <= j < i ==> s@[base + j] == suffix@[j],
        decreases xlen - i,
    {
        let cs = s.get_char(base + i);
        let cx = suffix.get_char(i);
        if cs != cx {
            assert(s@.subrange(s@.len() - suffix@.len(), s@.len() as int)[i as int] != suffix@[i as int]);
            return false;
        }
        i += 1;
    }
    proof {
        assert(s@.subrange(s@.len() - suffix@.len(), s@.len() as int) =~= suffix@);
    }
    true
}

/// Whether a list of names, viewed as character sequences, holds `needle`.
pub open spec fn spec_names_contain(names: Seq<Seq<char>>, needle: Seq<char>) -> bool {
    exists|i: int| 0 <= i < names.len() && names[i] == needle
}

/// Membership of `needle` in `names`, decided name by name.
pub fn names_contain(names: &Vec<String>, needle: &str) -> (r: bool)
    ensures
        r == spec_names_contain(names.deep_view(), needle@),
{
    let mut i: usize = 0;
    while i < names.len()
        invariant
            i <= names.len(),
            forall|j: int| 0 <= j < i ==> names.deep_view()[j] != needle@,
        decreases names.len() - i,
    {
        assert(names.deep_view()[i as int] == names[i as int]@);
        if str_eq(names[i].as_str(), needle) {
            return true;
        }
        i += 1;
    }
    false
}

} // verus!
