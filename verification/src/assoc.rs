//! Name-keyed association lists. The document's small per-section maps are
//! ordered lists of pairs; lookup takes the first pair whose key matches.

use vstd::prelude::*;

use crate::str_utils::str_eq;

verus! {

/// The value of the first pair whose key is `key`, if any.
pub open spec fn assoc_find<V>(m: Seq<(Seq<char>, V)>, key: Seq<char>) -> Option<V>
    decreases m.len(),
{
    if m.len() == 0 {
        None
    } else if m[0].0 == key {
        Some(m[0].1)
    } else {
        assoc_find(m.drop_first(), key)
    }
}

/// A match at `i` with no earlier match is the one `assoc_find` returns.
pub proof fn lemma_assoc_find_at<V>(m: Seq<(Seq<char>, V)>, key: Seq<char>, i: int)
    requires
        0 <= i < m.len(),
        m[i].0 == key,
        forall|j: int| 0 <= j < i ==> m[j].0 != key,
    ensures
        assoc_find(m, key) == Some(m[i].1),
    decreases i,
{
    if i > 0 {
        lemma_assoc_find_at(m.drop_first(), key, i - 1);
    }
}

/// No match anywhere means `assoc_find` returns nothing.
pub proof fn lemma_assoc_find_none<V>(m: Seq<(Seq<char>, V)>, key: Seq<char>)
    requires
        forall|j: int| 0 <= j < m.len() ==> m[j].0 != key,
    ensures
        assoc_find(m, key) is None,
    decreases m.len(),
{
    if m.len() > 0 {
        lemma_assoc_find_none(m.drop_first(), key);
    }
}

/// First-match lookup by string key.
pub fn assoc_get<'x, V: DeepView>(m: &'x Vec<(String, V)>, key: &str) -> (r: Option<&'x V>)
    ensures
        match r {
            Some(v) => assoc_find(m.deep_view(), key@) == Some(v.deep_view()),
            None => assoc_find(m.deep_view(), key@) is None,
        },
{
    let mut i: usize = 0;
    while i < m.len()
        invariant
            i <= m.len(),
            forall|j: int| 0 <= j < i ==> m.deep_view()[j].0 != key@,
        decreases m.len() - i,
    {
        assert(m.deep_view()[i as int] == (m[i as int].0@, m[i as int].1.deep_view()));
        if str_eq(m[i].0.as_str(), key) {
            proof {
                lemma_assoc_find_at(m.deep_view(), key@, i as int);
            }
            return Some(&m[i].1);
        }
        i += 1;
    }
    proof {
        lemma_assoc_find_none(m.deep_view(), key@);
    }
    None
}

} // verus!
