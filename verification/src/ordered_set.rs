//! An insertion-ordered set of strings, backed by `indexmap::IndexSet`. The
//! engine records referenced input paths and emitted symbol names in it; its
//! contents are modelled as the sequence of distinct character strings in
//! first-insertion order.

use vstd::prelude::*;

verus! {

#[verifier::external_type_specification]
#[verifier::external_body]
#[verifier::reject_recursive_types(T)]
#[verifier::reject_recursive_types(S)]
pub struct ExIndexSet<T, S>(indexmap::IndexSet<T, S>);

/// The strings the set holds, as character sequences, in insertion order.
pub uninterp spec fn set_elems(s: indexmap::IndexSet<String>) -> Seq<Seq<char>>;

/// Relies on indexmap::IndexSet::new: the new set is empty.
#[verifier::external_body]
pub fn set_new() -> (r: indexmap::IndexSet<String>)
    ensures
        set_elems(r) == Seq::<Seq<char>>::empty(),
{
    indexmap::IndexSet::new()
}

/// Relies on indexmap::IndexSet::insert: an equivalent value already present
/// leaves the set and its order untouched, a new value is appended at the end.
#[verifier::external_body]
pub fn set_insert(s: &mut indexmap::IndexSet<String>, v: String)
    ensures
        set_elems(*final(s)) == if set_elems(*old(s)).contains(v@) {
            set_elems(*old(s))
        } else {
            set_elems(*old(s)).push(v@)
        },
{
    s.insert(v);
}

/// Relies on indexmap::IndexSet::contains: membership by string equality.
#[verifier::external_body]
pub fn set_contains(s: &indexmap::IndexSet<String>, v: &str) -> (r: bool)
    ensures
        r == set_elems(*s).contains(v@),
{
    s.contains(v)
}

/// Relies on indexmap::IndexSet::len: the number of held values.
#[verifier::external_body]
pub fn set_len(s: &indexmap::IndexSet<String>) -> (r: usize)
    ensures
        r == set_elems(*s).len(),
{
    s.len()
}

/// Relies on indexmap::IndexSet::get_index: the value at a position in
/// insertion order.
#[verifier::external_body]
pub fn set_get(s: &indexmap::IndexSet<String>, i: usize) -> (r: &String)
    requires
        i < set_elems(*s).len(),
    ensures
        r@ == set_elems(*s)[i as int],
{
    s.get_index(i).unwrap()
}

/// Whether a sequence holds no value twice.
pub open spec fn seq_no_dup<A>(s: Seq<A>) -> bool {
    forall|i: int, j: int| 0 <= i < j < s.len() ==> s[i] != s[j]
}

/// Every sequence is a prefix of itself.
pub proof fn lemma_prefix_refl<A>(s: Seq<A>)
    ensures
        s.is_prefix_of(s),
{
    assert(s =~= s.subrange(0, s.len() as int));
}

/// Pushing one value keeps the original a prefix.
pub proof fn lemma_prefix_push<A>(s: Seq<A>, x: A)
    ensures
        s.is_prefix_of(s.push(x)),
{
    assert(s =~= s.push(x).subrange(0, s.len() as int));
}

/// Elementwise agreement up to the shorter length makes a prefix.
pub proof fn lemma_prefix_from_eqlen<A>(a: Seq<A>, b: Seq<A>)
    requires
        a.len() <= b.len(),
        forall|i: int| 0 <= i < a.len() ==> a[i] == b[i],
    ensures
        a.is_prefix_of(b),
{
    assert(a =~= b.subrange(0, a.len() as int));
}

/// Being a prefix is transitive.
pub proof fn lemma_prefix_trans<A>(a: Seq<A>, b: Seq<A>, c: Seq<A>)
    requires
        a.is_prefix_of(b),
        b.is_prefix_of(c),
    ensures
        a.is_prefix_of(c),
{
    assert(a =~= c.subrange(0, a.len() as int)) by {
        assert(forall|i: int| 0 <= i < a.len() ==> a[i] == b[i] && b[i] == c[i]);
    }
}

/// What a prefix holds, the whole holds.
pub proof fn lemma_prefix_contains<A>(a: Seq<A>, b: Seq<A>, x: A)
    requires
        a.is_prefix_of(b),
        a.contains(x),
    ensures
        b.contains(x),
{
    let i = choose|i: int| 0 <= i < a.len() && a[i] == x;
    assert(b[i] == x);
}

/// Inserting preserves distinctness: only absent values are appended.
pub proof fn lemma_insert_keeps_no_dup(s: Seq<Seq<char>>, v: Seq<char>)
    requires
        seq_no_dup(s),
    ensures
        seq_no_dup(if s.contains(v) { s } else { s.push(v) }),
{
    if !s.contains(v) {
        let t = s.push(v);
        assert forall|i: int, j: int| 0 <= i < j < t.len() implies t[i] != t[j] by {
            if j == s.len() {
                assert(s[i] == t[i]);
            }
        }
    }
}

} // verus!
