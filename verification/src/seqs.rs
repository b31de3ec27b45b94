use vstd::prelude::*;

verus! {

/// A one-element sequence keeps or drops its element under `filter`.
pub proof fn lemma_filter_singleton<A>(t: A, pred: spec_fn(A) -> bool)
    ensures
        seq![t].filter(pred) == if pred(t) {
            seq![t]
        } else {
            Seq::<A>::empty()
        },
{
    reveal(Seq::filter);
    let s = seq![t];
    assert(s.drop_last() =~= Seq::<A>::empty());
    assert(Seq::<A>::empty().filter(pred) == Seq::<A>::empty());
    assert(s.last() == t);
    if pred(t) {
        assert(s.filter(pred) =~= seq![t]);
    } else {
        assert(s.filter(pred) =~= Seq::<A>::empty());
    }
}

/// Every element a `filter` keeps comes from the source sequence.
pub proof fn lemma_filter_subset<A>(s: Seq<A>, pred: spec_fn(A) -> bool)
    ensures
        forall|k: int|
            0 <= k < s.filter(pred).len() ==> s.contains(#[trigger] s.filter(pred)[k]),
    decreases s.len(),
{
    reveal(Seq::filter);
    if s.len() > 0 {
        let prefix = s.drop_last();
        lemma_filter_subset(prefix, pred);
        let out = s.filter(pred);
        let sub = prefix.filter(pred);
        assert forall|k: int| 0 <= k < out.len() implies s.contains(out[k]) by {
            if k < sub.len() {
                assert(out[k] == sub[k]);
                assert(prefix.contains(sub[k]));
                let j = choose|j: int| 0 <= j < prefix.len() && prefix[j] == sub[k];
                assert(s[j] == out[k]);
            } else {
                assert(out[k] == s.last());
                assert(s[s.len() - 1] == out[k]);
            }
        }
    }
}

} // verus!
