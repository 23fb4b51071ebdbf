//! Per-run options: the active tag set that drives conditional inclusion of
//! directives.

use vstd::prelude::*;

use crate::str_utils::{names_contain, spec_names_contain};

verus! {

/// Whether any name of `a` also stands in `b`.
pub open spec fn spec_tags_intersect(a: Seq<Seq<char>>, b: Seq<Seq<char>>) -> bool {
    exists|i: int| 0 <= i < a.len() && spec_names_contain(b, a[i])
}

/// Whether every name of `a` also stands in `b`.
pub open spec fn spec_tags_subset(a: Seq<Seq<char>>, b: Seq<Seq<char>>) -> bool {
    forall|i: int| 0 <= i < a.len() ==> spec_names_contain(b, a[i])
}

/// The conditional-inclusion predicate: a directive carrying the four tag sets
/// is emitted against the active tag set `active` iff all four clauses hold.
pub open spec fn spec_should_emit(
    exclude_if_any: Seq<Seq<char>>,
    exclude_if_all: Seq<Seq<char>>,
    include_if_any: Seq<Seq<char>>,
    include_if_all: Seq<Seq<char>>,
    active: Seq<Seq<char>>,
) -> bool {
    &&& (exclude_if_any.len() == 0 || !spec_tags_intersect(exclude_if_any, active))
    &&& (exclude_if_all.len() == 0 || !spec_tags_subset(exclude_if_all, active))
    &&& (include_if_any.len() == 0 || spec_tags_intersect(include_if_any, active))
    &&& (include_if_all.len() == 0 || spec_tags_subset(include_if_all, active))
}

/// Options of one generation run, fixed before the engine starts.
pub struct RuntimeSettings {
    /// The active tags that conditional-inclusion predicates are evaluated
    /// against.
    pub active_tags: Vec<String>,
}

fn tags_intersect(a: &Vec<String>, b: &Vec<String>) -> (r: bool)
    ensures
        r == spec_tags_intersect(a.deep_view(), b.deep_view()),
{
    let mut i: usize = 0;
    while i < a.len()
        invariant
            i <= a.len(),
            forall|j: int| 0 <= j < i ==> !spec_names_contain(b.deep_view(), a.deep_view()[j]),
        decreases a.len() - i,
    {
        assert(a.deep_view()[i as int] == a[i as int]@);
        if names_contain(b, a[i].as_str()) {
            return true;
        }
        i += 1;
    }
    false
}

fn tags_subset(a: &Vec<String>, b: &Vec<String>) -> (r: bool)
    ensures
        r == spec_tags_subset(a.deep_view(), b.deep_view()),
{
    let mut i: usize = 0;
    while i < a.len()
        invariant
            i <= a.len(),
            forall|j: int| 0 <= j < i ==> spec_names_contain(b.deep_view(), a.deep_view()[j]),
        decreases a.len() - i,
    {
        assert(a.deep_view()[i as int] == a[i as int]@);
        if !names_contain(b, a[i].as_str()) {
            return false;
        }
        i += 1;
    }
    true
}

impl RuntimeSettings {
    pub fn new(active_tags: Vec<String>) -> (r: Self)
        ensures
            r.active_tags == active_tags,
    {
        RuntimeSettings { active_tags }
    }

    /// Evaluates the four-set conditional-inclusion predicate of one directive
    /// against this run's active tags.
    pub fn should_emit_entry(
        &self,
        exclude_if_any: &Vec<String>,
        exclude_if_all: &Vec<String>,
        include_if_any: &Vec<String>,
        include_if_all: &Vec<String>,
    ) -> (r: bool)
        ensures
            r == spec_should_emit(
                exclude_if_any.deep_view(),
                exclude_if_all.deep_view(),
                include_if_any.deep_view(),
                include_if_all.deep_view(),
                self.active_tags.deep_view(),
            ),
    {
        if exclude_if_any.len() != 0 && tags_intersect(exclude_if_any, &self.active_tags) {
            return false;
        }
        if exclude_if_all.len() != 0 && tags_subset(exclude_if_all, &self.active_tags) {
            return false;
        }
        if include_if_any.len() != 0 && !tags_intersect(include_if_any, &self.active_tags) {
            return false;
        }
        if include_if_all.len() != 0 && !tags_subset(include_if_all, &self.active_tags) {
            return false;
        }
        true
    }
}

} // verus!
