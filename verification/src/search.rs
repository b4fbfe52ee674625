//! The first element that meets a condition.

use vstd::prelude::*;

verus! {

/// The index of the first element with `p`, or the length where there is none.
pub open spec fn first_where<T>(s: Seq<T>, p: spec_fn(T) -> bool) -> nat
    decreases s.len(),
{
    if s.len() == 0 || p(s[0]) {
        0
    } else {
        1 + first_where(s.skip(1), p)
    }
}

/// The first element with `p`.
pub open spec fn find_where<T>(s: Seq<T>, p: spec_fn(T) -> bool) -> Option<T> {
    let i = first_where(s, p) as int;
    if i < s.len() {
        Some(s[i])
    } else {
        None
    }
}

/// No element before index `i` has `p`: then the first is at `i` or behind it.
pub proof fn lemma_first_where<T>(s: Seq<T>, p: spec_fn(T) -> bool, i: int)
    requires
        0 <= i <= s.len(),
        forall|k: int| 0 <= k < i ==> !p(#[trigger] s[k]),
    ensures
        i == s.len() ==> first_where(s, p) == s.len(),
        i < s.len() && p(s[i]) ==> first_where(s, p) == i,
    decreases s.len(),
{
    if s.len() > 0 && i > 0 {
        let t = s.skip(1);
        assert forall|k: int| 0 <= k < i - 1 implies !p(#[trigger] t[k]) by {
            assert(t[k] == s[k + 1]);
        }
        lemma_first_where(t, p, i - 1);
        assert(!p(s[0]));
        if i < s.len() {
            assert(t[i - 1] == s[i]);
        }
    }
}

/// The first element with `p` has it, and none before it does.
pub proof fn law_first_where<T>(s: Seq<T>, p: spec_fn(T) -> bool)
    ensures
        first_where(s, p) <= s.len(),
        first_where(s, p) < s.len() ==> p(s[first_where(s, p) as int]),
        forall|k: int| 0 <= k < first_where(s, p) ==> !p(#[trigger] s[k]),
    decreases s.len(),
{
    if s.len() > 0 && !p(s[0]) {
        let t = s.skip(1);
        law_first_where(t, p);
        assert forall|k: int| 0 <= k < first_where(s, p) implies !p(#[trigger] s[k]) by {
            if k > 0 {
                assert(t[k - 1] == s[k]);
            }
        }
    }
}

// ---------------------------------------------------------------------------
// What holds on every input
// ---------------------------------------------------------------------------

/// What is found is the first element with `p`; nothing is found only where none has
/// it.
pub proof fn law_find_where<T>(s: Seq<T>, p: spec_fn(T) -> bool, i: int)
    requires
        0 <= i < s.len(),
        p(s[i]),
    ensures
        find_where(s, p) is Some,
        p(find_where(s, p)->0),
        (forall|k: int| 0 <= k < i ==> !p(#[trigger] s[k])) ==> find_where(s, p) == Some(s[i]),
{
    law_first_where(s, p);
    if forall|k: int| 0 <= k < i ==> !p(#[trigger] s[k]) {
        lemma_first_where(s, p, i);
    }
}

/// Nothing is found where no element has `p`.
pub proof fn law_find_nowhere<T>(s: Seq<T>, p: spec_fn(T) -> bool)
    ensures
        find_where(s, p) is None <==> forall|k: int| 0 <= k < s.len() ==> !p(#[trigger] s[k]),
        find_where(s, p) matches Some(x) ==> p(x),
{
    law_first_where(s, p);
    if forall|k: int| 0 <= k < s.len() ==> !p(#[trigger] s[k]) {
        lemma_first_where(s, p, s.len() as int);
    }
}

} // verus!
