//! Facts about keeping the items of a sequence that satisfy a predicate, used to show
//! that the insertion sorts of the inventories are stable.
use vstd::prelude::*;

verus! {

/// Inserting an item that is not kept does not change what is kept; inserting a kept
/// item after every kept one adds it at the end of what is kept.
pub proof fn lemma_filter_insert<A>(s: Seq<A>, p: int, x: A, pred: spec_fn(A) -> bool)
    requires
        0 <= p <= s.len(),
    ensures
        !pred(x) ==> s.insert(p, x).filter(pred) == s.filter(pred),
        pred(x) && (forall|q: int| p <= q < s.len() ==> !pred(#[trigger] s[q])) ==> s.insert(p, x).filter(
            pred,
        ) == s.filter(pred).push(x),
{
    let a = s.take(p);
    let b = s.skip(p);
    assert(s =~= a + b);
    assert(s.insert(p, x) =~= a + (seq![x] + b));
    Seq::filter_distributes_over_add(a, b, pred);
    Seq::filter_distributes_over_add(a, seq![x] + b, pred);
    b.lemma_filter_prepend(x, pred);
    if !pred(x) {
        assert(Seq::<A>::empty() + b.filter(pred) =~= b.filter(pred));
    } else if forall|q: int| p <= q < s.len() ==> !pred(#[trigger] s[q]) {
        assert(b.all(|y: A| !pred(y))) by {
            assert forall|i: int| 0 <= i < b.len() implies !pred(#[trigger] b[i]) by {
                assert(b[i] == s[p + i]);
            };
        };
        b.lemma_all_neg_filter_empty(pred);
        assert(b.filter(pred) =~= Seq::<A>::empty());
        assert(a.filter(pred) + (seq![x] + b.filter(pred)) =~= (a.filter(pred) + b.filter(pred)).push(x));
    }
}

/// Keeping items of an empty sequence keeps nothing.
pub proof fn lemma_filter_empty<A>(pred: spec_fn(A) -> bool)
    ensures
        Seq::<A>::empty().filter(pred) == Seq::<A>::empty(),
{
    reveal(Seq::filter);
}

/// Keeping some items of a sequence without duplicates leaves no duplicates.
pub proof fn lemma_filter_distinct<A>(s: Seq<A>, pred: spec_fn(A) -> bool)
    requires
        s.no_duplicates(),
    ensures
        s.filter(pred).no_duplicates(),
    decreases s.len(),
{
    reveal(Seq::filter);
    if s.len() > 0 {
        let rest = s.drop_last();
        assert(rest.no_duplicates());
        lemma_filter_distinct(rest, pred);
        if pred(s.last()) {
            if rest.filter(pred).contains(s.last()) {
                rest.lemma_filter_contains_rev(pred, s.last());
                let k = choose|k: int| 0 <= k < rest.len() && rest[k] == s.last();
                assert(s[k] == s[s.len() - 1]);
            }
        }
    }
}

} // verus!
