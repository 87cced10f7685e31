//! Searching sequences: the first position that satisfies a predicate.
use vstd::prelude::*;

verus! {

/// The first position of `s` whose element satisfies `p`, or `-1` when none does.
pub open spec fn first_match<T>(s: Seq<T>, p: spec_fn(T) -> bool) -> int
    decreases s.len(),
{
    if s.len() == 0 {
        -1
    } else if p(s[0]) {
        0
    } else {
        let r = first_match(s.drop_first(), p);
        if r < 0 {
            -1
        } else {
            r + 1
        }
    }
}

/// A search that stopped at `i` after rejecting every earlier element found the first match.
pub proof fn lemma_first_match<T>(s: Seq<T>, p: spec_fn(T) -> bool, i: int)
    requires
        0 <= i <= s.len(),
        forall|k: int| 0 <= k < i ==> !p(#[trigger] s[k]),
        i < s.len() ==> p(s[i]),
    ensures
        first_match(s, p) == (if i < s.len() {
            i
        } else {
            -1
        }),
    decreases i,
{
    if i > 0 {
        let t = s.drop_first();
        assert forall|k: int| 0 <= k < i - 1 implies !p(#[trigger] t[k]) by {
            assert(t[k] == s[k + 1]);
            assert(!p(s[k + 1]));
        }
        if i < s.len() {
            assert(t[i - 1] == s[i]);
        }
        assert(!p(s[0]));
        lemma_first_match(t, p, i - 1);
    }
}

/// What `first_match` returns: a matching position with no match before it, or `-1` when
/// nothing matches.
pub proof fn lemma_first_match_props<T>(s: Seq<T>, p: spec_fn(T) -> bool)
    ensures
        -1 <= first_match(s, p) < s.len(),
        first_match(s, p) >= 0 ==> p(s[first_match(s, p)]),
        forall|k: int| 0 <= k < s.len() && (first_match(s, p) < 0 || k < first_match(s, p)) ==> !p(
            #[trigger] s[k],
        ),
    decreases s.len(),
{
    if s.len() > 0 {
        let t = s.drop_first();
        lemma_first_match_props(t, p);
        assert forall|k: int|
            0 <= k < s.len() && (first_match(s, p) < 0 || k < first_match(s, p)) implies !p(
            #[trigger] s[k],
        ) by {
            if k > 0 {
                assert(s[k] == t[k - 1]);
            }
        }
    }
}

} // verus!
