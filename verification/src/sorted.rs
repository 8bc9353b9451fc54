//! Strictly sorted lists of distinct strings, and membership over string views.
use vstd::prelude::*;
use crate::text::{lemma_seq_lt_irreflexive, lemma_seq_lt_transitive, lemma_seq_lt_trichotomy, seq_lt, str_eq, str_lt};

verus! {

/// Some element of `v` has the characters `x`.
pub open spec fn has_view(v: Seq<String>, x: Seq<char>) -> bool {
    exists|i: int| 0 <= i < v.len() && #[trigger] v[i]@ == x
}

/// The elements of `v` are in strictly increasing lexicographic order (hence distinct).
pub open spec fn sorted_strict(v: Seq<String>) -> bool {
    forall|i: int, j: int| 0 <= i < j < v.len() ==> seq_lt(#[trigger] v[i]@, #[trigger] v[j]@)
}

/// No two elements of `v` have the same characters.
pub open spec fn distinct_views(v: Seq<String>) -> bool {
    forall|i: int, j: int| 0 <= i < j < v.len() ==> #[trigger] v[i]@ != #[trigger] v[j]@
}

/// Whether some element of `v` equals `x`.
pub fn contains_view(v: &Vec<String>, x: &str) -> (r: bool)
    ensures
        r == has_view(v@, x@),
{
    let mut i: usize = 0;
    while i < v.len()
        invariant
            i <= v.len(),
            forall|k: int| 0 <= k < i ==> (#[trigger] v@[k])@ != x@,
        decreases v.len() - i,
    {
        if str_eq(v[i].as_str(), x) {
            assert(v@[i as int]@ == x@);
            return true;
        }
        i = i + 1;
    }
    false
}

/// Index of the element equal to `x`, if any.
pub fn position_of(v: &Vec<String>, x: &str) -> (r: Option<usize>)
    ensures
        match r {
            Some(i) => i < v@.len() && v@[i as int]@ == x@ && forall|k: int|
                0 <= k < i ==> (#[trigger] v@[k])@ != x@,
            None => !has_view(v@, x@),
        },
{
    let mut i: usize = 0;
    while i < v.len()
        invariant
            i <= v.len(),
            forall|k: int| 0 <= k < i ==> (#[trigger] v@[k])@ != x@,
        decreases v.len() - i,
    {
        if str_eq(v[i].as_str(), x) {
            return Some(i);
        }
        i = i + 1;
    }
    None
}

/// Inserts `x` at its place in a strictly sorted list, unless it is already there.
pub fn insert_sorted(v: &mut Vec<String>, x: String)
    requires
        sorted_strict(old(v)@),
    ensures
        sorted_strict(final(v)@),
        forall|y: Seq<char>| has_view(final(v)@, y) <==> (has_view(old(v)@, y) || y == x@),
        has_view(old(v)@, x@) ==> final(v)@ == old(v)@,
{
    let mut i: usize = 0;
    while i < v.len() && str_lt(v[i].as_str(), x.as_str())
        invariant
            i <= v.len(),
            v@ == old(v)@,
            sorted_strict(v@),
            forall|k: int| 0 <= k < i ==> seq_lt((#[trigger] v@[k])@, x@),
        decreases v.len() - i,
    {
        i = i + 1;
    }
    if i < v.len() && str_eq(v[i].as_str(), x.as_str()) {
        assert(has_view(v@, x@));
        return;
    }
    let ghost old_v = v@;
    proof {
        // every element from position i on is greater than x
        assert forall|k: int| i <= k < old_v.len() implies seq_lt(x@, #[trigger] old_v[k]@) by {
            lemma_seq_lt_trichotomy(old_v[i as int]@, x@);
            if k > i {
                lemma_seq_lt_transitive(x@, old_v[i as int]@, old_v[k]@);
            }
        }
        assert forall|k: int| 0 <= k < old_v.len() implies (#[trigger] old_v[k])@ != x@ by {
            lemma_seq_lt_irreflexive(x@);
        }
    }
    v.insert(i, x);
    proof {
        let nv = v@;
        assert forall|a: int, b: int| 0 <= a < b < nv.len() implies seq_lt(
            #[trigger] nv[a]@,
            #[trigger] nv[b]@,
        ) by {
            if b < i {
                assert(nv[a] == old_v[a] && nv[b] == old_v[b]);
            } else if b == i {
                assert(nv[a] == old_v[a]);
            } else if a < i {
                assert(nv[a] == old_v[a] && nv[b] == old_v[b - 1]);
                lemma_seq_lt_transitive(old_v[a]@, x@, old_v[b - 1]@);
            } else if a == i {
                assert(nv[b] == old_v[b - 1]);
            } else {
                assert(nv[a] == old_v[a - 1] && nv[b] == old_v[b - 1]);
            }
        }
        assert forall|y: Seq<char>| has_view(nv, y) <==> (has_view(old_v, y) || y == nv[i as int]@) by {
            if has_view(nv, y) {
                let k = choose|k: int| 0 <= k < nv.len() && #[trigger] nv[k]@ == y;
                if k < i {
                    assert(old_v[k]@ == y);
                } else if k > i {
                    assert(old_v[k - 1]@ == y);
                }
            }
            if has_view(old_v, y) {
                let k = choose|k: int| 0 <= k < old_v.len() && #[trigger] old_v[k]@ == y;
                if k < i {
                    assert(nv[k]@ == y);
                } else {
                    assert(nv[k + 1]@ == y);
                }
            }
        }
    }
}

/// A strictly sorted list has distinct elements.
pub proof fn lemma_sorted_distinct(v: Seq<String>)
    requires
        sorted_strict(v),
    ensures
        distinct_views(v),
{
    assert forall|i: int, j: int| 0 <= i < j < v.len() implies #[trigger] v[i]@ != #[trigger] v[j]@ by {
        lemma_seq_lt_irreflexive(v[i]@);
    }
}

} // verus!
