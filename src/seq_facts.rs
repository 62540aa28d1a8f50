//! Facts about filtered sequences shared by the stores and the registry.

use vstd::prelude::*;

verus! {

/// No two elements of `s` share a key.
pub open spec fn keys_unique<A, K>(s: Seq<A>, key: spec_fn(A) -> K) -> bool {
    forall|i: int, j: int| 0 <= i < j < s.len() ==> key(s[i]) != key(s[j])
}

/// Filtering keeps only elements that were there, and keeps keys unique.
pub proof fn lemma_filter_unique<A, K>(s: Seq<A>, pred: spec_fn(A) -> bool, key: spec_fn(A) -> K)
    requires
        keys_unique(s, key),
    ensures
        keys_unique(s.filter(pred), key),
        forall|x: A| #[trigger] s.filter(pred).contains(x) ==> s.contains(x) && pred(x),
    decreases s.len(),
{
    reveal(Seq::filter);
    if s.len() > 0 {
        let prefix = s.drop_last();
        let last = s.last();
        lemma_filter_unique(prefix, pred, key);
        let kept = prefix.filter(pred);
        assert forall|x: A| #[trigger] s.filter(pred).contains(x) implies s.contains(x) && pred(
            x,
        ) by {
            if pred(last) && x == last {
                assert(s[s.len() - 1] == x);
            } else {
                assert(kept.contains(x));
                let k = choose|k: int| 0 <= k < prefix.len() && prefix[k] == x;
                assert(s[k] == x);
            }
        }
        if pred(last) {
            let out = kept.push(last);
            assert forall|i: int, j: int| 0 <= i < j < out.len() implies key(out[i]) != key(
                out[j],
            ) by {
                if j == out.len() - 1 {
                    assert(kept.contains(out[i]));
                    let k = choose|k: int| 0 <= k < prefix.len() && prefix[k] == out[i];
                    assert(s[k] == out[i]);
                    assert(s[s.len() - 1] == last);
                } else {
                    assert(out[i] == kept[i] && out[j] == kept[j]);
                }
            }
        }
    }
}

/// An element of `s` that `pred` accepts is in the filtered sequence.
pub proof fn lemma_filter_keeps<A>(s: Seq<A>, pred: spec_fn(A) -> bool, x: A)
    requires
        s.contains(x),
        pred(x),
    ensures
        s.filter(pred).contains(x),
{
    let i = choose|i: int| 0 <= i < s.len() && s[i] == x;
    s.lemma_filter_contains(pred, i);
}

} // verus!
