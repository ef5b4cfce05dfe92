//! Facts about `Seq::filter_map` that the resolution proofs share.

use vstd::prelude::*;

verus! {

/// Mapping and filtering a concatenation works on each part by itself.
pub proof fn lemma_filter_map_concat<A, B>(a: Seq<A>, b: Seq<A>, f: spec_fn(A) -> Option<B>)
    ensures
        (a + b).filter_map(f) == a.filter_map(f) + b.filter_map(f),
    decreases b.len(),
{
    if b.len() == 0 {
        assert(a + b =~= a);
        assert(a.filter_map(f) + b.filter_map(f) =~= a.filter_map(f));
    } else {
        assert((a + b).drop_last() =~= a + b.drop_last());
        assert((a + b).last() == b.last());
        lemma_filter_map_concat(a, b.drop_last(), f);
        match f(b.last()) {
            Some(x) => {
                assert((a + b).filter_map(f) =~= a.filter_map(f) + b.filter_map(f));
            },
            None => {},
        }
    }
}

/// A single element maps to at most one element.
pub proof fn lemma_filter_map_one<A, B>(x: A, f: spec_fn(A) -> Option<B>)
    ensures
        seq![x].filter_map(f) == match f(x) {
            Some(y) => seq![y],
            None => Seq::<B>::empty(),
        },
{
    Seq::lemma_filter_map_singleton(x, f);
}

/// What an element maps to is found in the result.
pub proof fn lemma_filter_map_keeps<A, B>(s: Seq<A>, f: spec_fn(A) -> Option<B>, i: int)
    requires
        0 <= i < s.len(),
        f(s[i]) is Some,
    ensures
        s.filter_map(f).contains(f(s[i])->0),
    decreases s.len(),
{
    let out = s.filter_map(f);
    if i == s.len() - 1 {
        assert(out.last() == f(s[i])->0);
    } else {
        lemma_filter_map_keeps(s.drop_last(), f, i);
        let rest = s.drop_last().filter_map(f);
        let k = choose|k: int| 0 <= k < rest.len() && rest[k] == f(s[i])->0;
        assert(out[k] == f(s[i])->0);
    }
}

/// Where nothing maps to anything, nothing is left.
pub proof fn lemma_filter_map_none<A, B>(s: Seq<A>, f: spec_fn(A) -> Option<B>)
    requires
        forall|i: int| 0 <= i < s.len() ==> f(#[trigger] s[i]) is None,
    ensures
        s.filter_map(f) == Seq::<B>::empty(),
    decreases s.len(),
{
    if s.len() > 0 {
        assert(f(s[s.len() - 1]) is None);
        assert forall|i: int| 0 <= i < s.drop_last().len() implies f(
            #[trigger] s.drop_last()[i],
        ) is None by {
            assert(s.drop_last()[i] == s[i]);
        }
        lemma_filter_map_none(s.drop_last(), f);
    }
}

/// Where everything maps to something, the result is the plain image.
pub proof fn lemma_filter_map_all<A, B>(s: Seq<A>, f: spec_fn(A) -> Option<B>)
    requires
        forall|i: int| 0 <= i < s.len() ==> f(#[trigger] s[i]) is Some,
    ensures
        s.filter_map(f) == s.map_values(|x: A| f(x)->0),
    decreases s.len(),
{
    if s.len() > 0 {
        assert(f(s[s.len() - 1]) is Some);
        assert forall|i: int| 0 <= i < s.drop_last().len() implies f(
            #[trigger] s.drop_last()[i],
        ) is Some by {
            assert(s.drop_last()[i] == s[i]);
        }
        lemma_filter_map_all(s.drop_last(), f);
        assert(s.filter_map(f) =~= s.map_values(|x: A| f(x)->0));
    } else {
        assert(s.filter_map(f) =~= s.map_values(|x: A| f(x)->0));
    }
}

/// Elements that map to nothing may be filtered out beforehand.
pub proof fn lemma_filter_map_after_filter<A, B>(
    s: Seq<A>,
    keep: spec_fn(A) -> bool,
    f: spec_fn(A) -> Option<B>,
)
    requires
        forall|i: int| 0 <= i < s.len() && !keep(#[trigger] s[i]) ==> f(s[i]) is None,
    ensures
        s.filter_map(f) == s.filter(keep).filter_map(f),
    decreases s.len(),
{
    reveal(Seq::filter);
    if s.len() > 0 {
        let rest = s.drop_last();
        assert forall|i: int| 0 <= i < rest.len() && !keep(#[trigger] rest[i]) implies f(
            rest[i],
        ) is None by {
            assert(rest[i] == s[i]);
        }
        lemma_filter_map_after_filter(rest, keep, f);
        if keep(s.last()) {
            let kept = rest.filter(keep).push(s.last());
            assert(kept.drop_last() =~= rest.filter(keep));
            assert(kept.last() == s.last());
        } else {
            assert(f(s[s.len() - 1]) is None);
        }
    }
}

} // verus!
