//! Searches over sequences, stated once and shared.

use vstd::prelude::*;

verus! {

/// Index of the last element of `s` satisfying `p`.
pub open spec fn last_where<A>(s: Seq<A>, p: spec_fn(A) -> bool) -> Option<int>
    decreases s.len(),
{
    if s.len() == 0 {
        None
    } else if p(s.last()) {
        Some(s.len() - 1)
    } else {
        last_where(s.drop_last(), p)
    }
}

/// Index of the first element of `s` satisfying `p`.
pub open spec fn first_where<A>(s: Seq<A>, p: spec_fn(A) -> bool) -> Option<int>
    decreases s.len(),
{
    if s.len() == 0 {
        None
    } else if p(s[0]) {
        Some(0)
    } else {
        match first_where(s.drop_first(), p) {
            Some(i) => Some(i + 1),
            None => None,
        }
    }
}

/// `last_where` is the largest index whose element satisfies `p`.
pub proof fn lemma_last_where<A>(s: Seq<A>, p: spec_fn(A) -> bool)
    ensures
        match last_where(s, p) {
            Some(i) => 0 <= i < s.len() && p(s[i]) && forall|j: int| i < j < s.len() ==> !p(
                #[trigger] s[j],
            ),
            None => forall|j: int| 0 <= j < s.len() ==> !p(#[trigger] s[j]),
        },
    decreases s.len(),
{
    if s.len() > 0 && !p(s.last()) {
        lemma_last_where(s.drop_last(), p);
        assert forall|j: int| 0 <= j < s.len() - 1 implies s[j] == s.drop_last()[j] by {}
    }
}

/// `first_where` is the smallest index whose element satisfies `p`.
pub proof fn lemma_first_where<A>(s: Seq<A>, p: spec_fn(A) -> bool)
    ensures
        match first_where(s, p) {
            Some(i) => 0 <= i < s.len() && p(s[i]) && forall|j: int| 0 <= j < i ==> !p(
                #[trigger] s[j],
            ),
            None => forall|j: int| 0 <= j < s.len() ==> !p(#[trigger] s[j]),
        },
    decreases s.len(),
{
    if s.len() > 0 && !p(s[0]) {
        lemma_first_where(s.drop_first(), p);
        assert forall|j: int| 1 <= j < s.len() implies s[j] == s.drop_first()[j - 1] by {}
        match first_where(s.drop_first(), p) {
            Some(i) => {
                assert forall|j: int| 0 <= j < i + 1 implies !p(#[trigger] s[j]) by {
                    if j > 0 {
                        assert(s[j] == s.drop_first()[j - 1]);
                    }
                }
            },
            None => {
                assert forall|j: int| 0 <= j < s.len() implies !p(#[trigger] s[j]) by {
                    if j > 0 {
                        assert(s[j] == s.drop_first()[j - 1]);
                    }
                }
            },
        }
    }
}

/// A witness pins `first_where` down.
pub proof fn lemma_first_where_is<A>(s: Seq<A>, p: spec_fn(A) -> bool, k: int)
    requires
        0 <= k <= s.len(),
        forall|j: int| 0 <= j < k ==> !p(#[trigger] s[j]),
        k < s.len() ==> p(s[k]),
    ensures
        first_where(s, p) == (if k < s.len() { Some(k) } else { None::<int> }),
{
    lemma_first_where(s, p);
}

/// A witness pins `last_where` down.
pub proof fn lemma_last_where_is<A>(s: Seq<A>, p: spec_fn(A) -> bool, k: int)
    requires
        -1 <= k < s.len(),
        forall|j: int| k < j < s.len() ==> !p(#[trigger] s[j]),
        k >= 0 ==> p(s[k]),
    ensures
        last_where(s, p) == (if k >= 0 { Some(k) } else { None::<int> }),
{
    lemma_last_where(s, p);
}

} // verus!
