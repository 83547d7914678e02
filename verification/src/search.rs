use vstd::prelude::*;

verus! {

/// The index of the first element of `s` that satisfies `p`, if any.
pub open spec fn first_match<A>(s: Seq<A>, p: spec_fn(A) -> bool) -> Option<int>
    decreases s.len(),
{
    if s.len() == 0 {
        None
    } else if p(s[0]) {
        Some(0)
    } else {
        match first_match(s.drop_first(), p) {
            Some(i) => Some(i + 1),
            None => None,
        }
    }
}

/// An element that satisfies `p` with none before it is the first match.
pub proof fn lemma_first_match_at<A>(s: Seq<A>, p: spec_fn(A) -> bool, k: int)
    requires
        0 <= k < s.len(),
        p(s[k]),
        forall|j: int| 0 <= j < k ==> !p(#[trigger] s[j]),
    ensures
        first_match(s, p) == Some(k),
    decreases s.len(),
{
    if k > 0 {
        assert(!p(s[0]));
        assert forall|j: int| 0 <= j < k - 1 implies !p(#[trigger] s.drop_first()[j]) by {
            assert(s.drop_first()[j] == s[j + 1]);
        }
        lemma_first_match_at(s.drop_first(), p, k - 1);
    }
}

/// With no element satisfying `p`, there is no first match.
pub proof fn lemma_first_match_none<A>(s: Seq<A>, p: spec_fn(A) -> bool)
    requires
        forall|j: int| 0 <= j < s.len() ==> !p(#[trigger] s[j]),
    ensures
        first_match(s, p) is None,
    decreases s.len(),
{
    if s.len() > 0 {
        assert(!p(s[0]));
        assert forall|j: int| 0 <= j < s.len() - 1 implies !p(#[trigger] s.drop_first()[j]) by {
            assert(s.drop_first()[j] == s[j + 1]);
        }
        lemma_first_match_none(s.drop_first(), p);
    }
}

/// The first match satisfies `p`, lies inside `s` and has no match before it.
pub proof fn lemma_first_match_found<A>(s: Seq<A>, p: spec_fn(A) -> bool)
    requires
        first_match(s, p) is Some,
    ensures
        0 <= first_match(s, p)->0 < s.len(),
        p(s[first_match(s, p)->0]),
        forall|j: int| 0 <= j < first_match(s, p)->0 ==> !p(#[trigger] s[j]),
    decreases s.len(),
{
    if !p(s[0]) {
        let t = s.drop_first();
        lemma_first_match_found(t, p);
        let k = first_match(t, p)->0;
        assert(first_match(s, p) == Some(k + 1));
        assert(s[k + 1] == t[k]);
        assert forall|j: int| 0 <= j < k + 1 implies !p(#[trigger] s[j]) by {
            if j > 0 {
                assert(s[j] == t[j - 1]);
            }
        }
    }
}

/// When some element satisfies `p`, there is a first match.
pub proof fn lemma_first_match_exists<A>(s: Seq<A>, p: spec_fn(A) -> bool, a: int)
    requires
        0 <= a < s.len(),
        p(s[a]),
    ensures
        first_match(s, p) is Some,
    decreases s.len(),
{
    if a > 0 && !p(s[0]) {
        assert(s.drop_first()[a - 1] == s[a]);
        lemma_first_match_exists(s.drop_first(), p, a - 1);
    }
}

} // verus!
