//! Finding the first element of a sequence that satisfies a condition.
use vstd::prelude::*;

verus! {

/// Position of the first element of `s` that satisfies `f`.
pub open spec fn first_where<T>(s: Seq<T>, f: spec_fn(T) -> bool) -> Option<int>
    decreases s.len(),
{
    if s.len() == 0 {
        None
    } else if f(s[0]) {
        Some(0)
    } else {
        match first_where(s.drop_first(), f) {
            Some(i) => Some(i + 1),
            None => None,
        }
    }
}

/// [`first_where`] finds the earliest match, and finds none only when no
/// element matches.
pub proof fn lemma_first_where<T>(s: Seq<T>, f: spec_fn(T) -> bool)
    ensures
        first_where(s, f) matches Some(i) ==> 0 <= i < s.len() && f(s[i]) && forall|j: int|
            0 <= j < i ==> !f(#[trigger] s[j]),
        first_where(s, f) is None ==> forall|j: int| 0 <= j < s.len() ==> !f(#[trigger] s[j]),
    decreases s.len(),
{
    if s.len() > 0 && !f(s[0]) {
        lemma_first_where(s.drop_first(), f);
        assert forall|j: int| 1 <= j < s.len() implies s[j] == s.drop_first()[j - 1] by {}
    }
}

/// A search that stopped at `i`, where `f` holds, after finding no match
/// before it, found the first match.
pub proof fn lemma_first_where_found<T>(s: Seq<T>, f: spec_fn(T) -> bool, i: int)
    requires
        0 <= i < s.len(),
        f(s[i]),
        forall|j: int| 0 <= j < i ==> !f(#[trigger] s[j]),
    ensures
        first_where(s, f) == Some(i),
{
    lemma_first_where(s, f);
    if first_where(s, f) is Some {
        let k = first_where(s, f)->0;
        assert(!(k < i));
        assert(!(k > i));
    }
}

/// A search through all of `s` that found no match means there is none.
pub proof fn lemma_first_where_none<T>(s: Seq<T>, f: spec_fn(T) -> bool)
    requires
        forall|j: int| 0 <= j < s.len() ==> !f(#[trigger] s[j]),
    ensures
        first_where(s, f) is None,
{
    lemma_first_where(s, f);
    if first_where(s, f) is Some {
        let k = first_where(s, f)->0;
        assert(f(s[k]));
    }
}

} // verus!
