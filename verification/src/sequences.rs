use vstd::prelude::*;

verus! {

/// Filtering a sequence with one more element at its end keeps that element
/// if it passes, after what was kept of the sequence before.
pub proof fn lemma_filter_push<A>(s: Seq<A>, x: A, p: spec_fn(A) -> bool)
    ensures
        s.push(x).filter(p) == if p(x) {
            s.filter(p).push(x)
        } else {
            s.filter(p)
        },
{
    reveal(Seq::filter);
    assert(s.push(x).drop_last() =~= s);
}

/// Mapping a sequence with one more element at its end, and leaving out
/// what maps to nothing, adds what that element maps to, if anything, to
/// what the sequence mapped to before.
pub proof fn lemma_filter_map_push<A, B>(s: Seq<A>, x: A, f: spec_fn(A) -> Option<B>)
    ensures
        s.push(x).filter_map(f) == match f(x) {
            Some(b) => s.filter_map(f).push(b),
            None => s.filter_map(f),
        },
{
    assert(s.push(x).drop_last() =~= s);
    match f(x) {
        Some(b) => {
            assert(s.filter_map(f) + seq![b] =~= s.filter_map(f).push(b));
        },
        None => {},
    }
}

/// Mapping a sequence and leaving out what maps to nothing gives no more
/// elements than there were.
pub proof fn lemma_filter_map_len<A, B>(s: Seq<A>, f: spec_fn(A) -> Option<B>)
    ensures
        s.filter_map(f).len() <= s.len(),
    decreases s.len(),
{
    if s.len() > 0 {
        lemma_filter_map_len(s.drop_last(), f);
    }
}

/// What a filter keeps are the elements of the sequence that pass, and it
/// keeps every one of them.
pub proof fn lemma_filter_members<A>(s: Seq<A>, p: spec_fn(A) -> bool)
    ensures
        forall|i: int|
            0 <= i < s.filter(p).len() ==> s.contains(#[trigger] s.filter(p)[i]) && p(
                s.filter(p)[i],
            ),
        forall|j: int| 0 <= j < s.len() && p(s[j]) ==> s.filter(p).contains(#[trigger] s[j]),
{
    assert forall|i: int| 0 <= i < s.filter(p).len() implies s.contains(
        #[trigger] s.filter(p)[i],
    ) && p(s.filter(p)[i]) by {
        s.lemma_filter_pred(p, i);
        assert(s.filter(p).contains(s.filter(p)[i]));
        s.lemma_filter_contains_rev(p, s.filter(p)[i]);
    }
    assert forall|j: int| 0 <= j < s.len() && p(s[j]) implies s.filter(p).contains(
        #[trigger] s[j],
    ) by {
        s.lemma_filter_contains(p, j);
    }
}

} // verus!
