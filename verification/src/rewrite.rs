//! Text substitutions shared by model compilation: a list of
//! (pattern, replacement) pairs applied one after the other.
use vstd::prelude::*;
use crate::text::{replace_seq, replace_exec};

verus! {

pub open spec fn pairs_view(v: Seq<(Vec<char>, Vec<char>)>) -> Seq<(Seq<char>, Seq<char>)> {
    Seq::new(v.len(), |i: int| (v[i].0@, v[i].1@))
}

/// `s` after replacing, for each of the first `n` pairs in turn, every
/// occurrence of its pattern by its replacement.
pub open spec fn replace_pairs(s: Seq<char>, pairs: Seq<(Seq<char>, Seq<char>)>, n: int) -> Seq<char>
    decreases n,
{
    if n <= 0 || n > pairs.len() {
        s
    } else {
        replace_seq(replace_pairs(s, pairs, n - 1), pairs[n - 1].0, pairs[n - 1].1)
    }
}

/// Applies every pair of `pairs` in order.
pub fn replace_pairs_exec(s: Vec<char>, pairs: &Vec<(Vec<char>, Vec<char>)>) -> (r: Vec<char>)
    requires
        forall|i: int| 0 <= i < pairs.len() ==> (#[trigger] pairs@[i]).0.len() > 0,
    ensures
        r@ == replace_pairs(s@, pairs_view(pairs@), pairs.len() as int),
{
    let ghost pv = pairs_view(pairs@);
    let mut cur = s;
    let mut i: usize = 0;
    while i < pairs.len()
        invariant
            i <= pairs.len(),
            pv == pairs_view(pairs@),
            forall|j: int| 0 <= j < pairs.len() ==> (#[trigger] pairs@[j]).0.len() > 0,
            cur@ == replace_pairs(s@, pv, i as int),
        decreases pairs.len() - i,
    {
        cur = replace_exec(&cur, &pairs[i].0, &pairs[i].1);
        i += 1;
    }
    cur
}

} // verus!
