//! Which of a file's sections render under a given output section. A file's
//! redirection map (`section_order`) can move one of its own sections into
//! another destination; a redirection source is never emitted under its own
//! name, and every source targeting the current section is folded in here,
//! ordered by the segment's canonical section list so that the output does
//! not depend on how the map was authored. Names absent from the canonical
//! list come first: the current section itself (when it is not redirected
//! away), then the sources in map order.

use vstd::prelude::*;

use crate::str_utils::{names_contain, str_eq};

verus! {

/// Whether `name` is a redirection source (a key of the map).
pub open spec fn is_source(so: Seq<(Seq<char>, Seq<char>)>, name: Seq<char>) -> bool {
    exists|i: int| 0 <= i < so.len() && so[i].0 == name
}

/// Whether some pair of the map sends `src` to `dst`.
pub open spec fn pair_maps_to(so: Seq<(Seq<char>, Seq<char>)>, src: Seq<char>, dst: Seq<char>) -> bool {
    exists|i: int| 0 <= i < so.len() && so[i].0 == src && so[i].1 == dst
}

/// Whether section name `s` renders under the output section `section`:
/// either it is `section` itself and not redirected away, or the map sends it
/// to `section`.
pub open spec fn member_here(
    so: Seq<(Seq<char>, Seq<char>)>,
    section: Seq<char>,
    s: Seq<char>,
) -> bool {
    (s == section && !is_source(so, section)) || pair_maps_to(so, s, section)
}

/// The current section itself, when it is not redirected away and its name
/// is absent from the canonical list.
pub open spec fn missing_own(
    so: Seq<(Seq<char>, Seq<char>)>,
    section: Seq<char>,
    sections: Seq<Seq<char>>,
) -> Seq<Seq<char>> {
    if !is_source(so, section) && !sections.contains(section) {
        seq![section]
    } else {
        Seq::<Seq<char>>::empty()
    }
}

/// The sources redirected into `section` whose names are absent from the
/// canonical list, in map order.
pub open spec fn missing_sources(
    so: Seq<(Seq<char>, Seq<char>)>,
    section: Seq<char>,
    sections: Seq<Seq<char>>,
) -> Seq<Seq<char>> {
    so.filter_map(
        |p: (Seq<char>, Seq<char>)|
            if p.1 == section && !sections.contains(p.0) {
                Option::Some(p.0)
            } else {
                Option::None
            },
    )
}

/// The members that render here, in canonical-list order.
pub open spec fn ordered_members(
    so: Seq<(Seq<char>, Seq<char>)>,
    section: Seq<char>,
    sections: Seq<Seq<char>>,
) -> Seq<Seq<char>> {
    sections.filter_map(
        |s: Seq<char>|
            if member_here(so, section, s) {
                Option::Some(s)
            } else {
                Option::None
            },
    )
}

/// Everything emitted under `section` for a file with redirection map `so`,
/// in order.
pub open spec fn resolved_sections(
    so: Seq<(Seq<char>, Seq<char>)>,
    section: Seq<char>,
    sections: Seq<Seq<char>>,
) -> Seq<Seq<char>> {
    missing_own(so, section, sections) + missing_sources(so, section, sections)
        + ordered_members(so, section, sections)
}

/// Whether `name` is a key of the map.
pub fn is_source_exec(so: &Vec<(String, String)>, name: &str) -> (r: bool)
    ensures
        r == is_source(so.deep_view(), name@),
{
    let mut i: usize = 0;
    while i < so.len()
        invariant
            i <= so.len(),
            forall|j: int| 0 <= j < i ==> so.deep_view()[j].0 != name@,
        decreases so.len() - i,
    {
        assert(so.deep_view()[i as int] == (so[i as int].0@, so[i as int].1@));
        if str_eq(so[i].0.as_str(), name) {
            return true;
        }
        i += 1;
    }
    false
}

/// Whether some pair of the map sends `src` to `dst`.
fn maps_to_exec(so: &Vec<(String, String)>, src: &str, dst: &str) -> (r: bool)
    ensures
        r == pair_maps_to(so.deep_view(), src@, dst@),
{
    let mut i: usize = 0;
    while i < so.len()
        invariant
            i <= so.len(),
            forall|j: int|
                0 <= j < i ==> !(so.deep_view()[j].0 == src@ && so.deep_view()[j].1 == dst@),
        decreases so.len() - i,
    {
        assert(so.deep_view()[i as int] == (so[i as int].0@, so[i as int].1@));
        if str_eq(so[i].0.as_str(), src) && str_eq(so[i].1.as_str(), dst) {
            return true;
        }
        i += 1;
    }
    false
}

/// Resolves which section names render under `section`, ordered as the
/// canonical `sections` list dictates.
pub fn resolve_sections_for_file(
    so: &Vec<(String, String)>,
    section: &str,
    sections: &Vec<String>,
) -> (r: Vec<String>)
    ensures
        r.deep_view() == resolved_sections(so.deep_view(), section@, sections.deep_view()),
{
    let ghost so_dv = so.deep_view();
    let ghost secs_dv = sections.deep_view();
    let ghost f = |p: (Seq<char>, Seq<char>)|
        if p.1 == section@ && !secs_dv.contains(p.0) {
            Option::Some(p.0)
        } else {
            Option::None
        };
    let ghost g = |s: Seq<char>|
        if member_here(so_dv, section@, s) {
            Option::Some(s)
        } else {
            Option::None
        };

    let mut r: Vec<String> = Vec::new();
    if !is_source_exec(so, section) && !names_contain(sections, section) {
        r.push(section.to_owned());
    }
    proof {
        assert(r.deep_view() =~= missing_own(so_dv, section@, secs_dv) + so_dv.subrange(
            0,
            0,
        ).filter_map(f));
    }
    let ghost own = missing_own(so_dv, section@, secs_dv);
    let mut i: usize = 0;
    while i < so.len()
        invariant
            i <= so.len(),
            so_dv == so.deep_view(),
            secs_dv == sections.deep_view(),
            f == (|p: (Seq<char>, Seq<char>)|
                if p.1 == section@ && !secs_dv.contains(p.0) {
                    Option::Some(p.0)
                } else {
                    Option::None
                }),
            own == missing_own(so_dv, section@, secs_dv),
            r.deep_view() == own + so_dv.subrange(0, i as int).filter_map(f),
        decreases so.len() - i,
    {
        let ghost prev = r.deep_view();
        assert(so_dv[i as int] == (so[i as int].0@, so[i as int].1@));
        let hits = str_eq(so[i].1.as_str(), section);
        let known = names_contain(sections, so[i].0.as_str());
        if hits && !known {
            r.push(so[i].0.clone());
            proof {
                assert(r.deep_view() =~= prev.push(so_dv[i as int].0));
            }
        }
        proof {
            assert(so_dv.subrange(0, i + 1).drop_last() =~= so_dv.subrange(0, i as int));
            assert(so_dv.subrange(0, i + 1).last() == so_dv[i as int]);
            assert(r.deep_view() =~= own + so_dv.subrange(0, i + 1).filter_map(f));
        }
        i += 1;
    }
    proof {
        assert(so_dv.subrange(0, so_dv.len() as int) =~= so_dv);
        assert(r.deep_view() == own + missing_sources(so_dv, section@, secs_dv));
    }

    let ghost front = r.deep_view();
    let mut j: usize = 0;
    while j < sections.len()
        invariant
            j <= sections.len(),
            so_dv == so.deep_view(),
            secs_dv == sections.deep_view(),
            g == (|s: Seq<char>|
                if member_here(so_dv, section@, s) {
                    Option::Some(s)
                } else {
                    Option::None
                }),
            r.deep_view() == front + secs_dv.subrange(0, j as int).filter_map(g),
        decreases sections.len() - j,
    {
        let ghost prev = r.deep_view();
        assert(secs_dv[j as int] == sections[j as int]@);
        let own_here = str_eq(sections[j].as_str(), section) && !is_source_exec(so, section);
        let folded_here = maps_to_exec(so, sections[j].as_str(), section);
        if own_here || folded_here {
            r.push(sections[j].clone());
            proof {
                assert(r.deep_view() =~= prev.push(secs_dv[j as int]));
            }
        }
        proof {
            assert(secs_dv.subrange(0, j + 1).drop_last() =~= secs_dv.subrange(0, j as int));
            assert(secs_dv.subrange(0, j + 1).last() == secs_dv[j as int]);
            assert(r.deep_view() =~= front + secs_dv.subrange(0, j + 1).filter_map(g));
        }
        j += 1;
    }
    proof {
        assert(secs_dv.subrange(0, secs_dv.len() as int) =~= secs_dv);
        assert(r.deep_view() == front + ordered_members(so_dv, section@, secs_dv));
    }
    r
}

} // verus!
