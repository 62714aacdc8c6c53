//! Facts about filtered sequences.

use crate::views::lemma_take_step;
use vstd::prelude::*;

verus! {

/// Filtering the prefix of length `n + 1` is filtering the prefix of length
/// `n` and then deciding on the element at `n`.
pub proof fn lemma_filter_step<T>(s: Seq<T>, pred: spec_fn(T) -> bool, n: int)
    requires
        0 <= n < s.len(),
    ensures
        s.take(n + 1).filter(pred) == if pred(s[n]) {
            s.take(n).filter(pred).push(s[n])
        } else {
            s.take(n).filter(pred)
        },
{
    lemma_take_step(s, n);
    s.take(n).lemma_filter_push(s[n], pred);
}

/// What a filter keeps: exactly the elements that satisfy the predicate.
pub proof fn lemma_filter_members<T>(s: Seq<T>, pred: spec_fn(T) -> bool)
    ensures
        forall|x: T| #[trigger] s.filter(pred).contains(x) <==> s.contains(x) && pred(x),
    decreases s.len(),
{
    reveal(Seq::filter);
    if s.len() > 0 {
        let rest = s.drop_last();
        let kept = rest.filter(pred);
        let out = s.filter(pred);
        lemma_filter_members(rest, pred);
        assert(out == if pred(s.last()) {
            kept.push(s.last())
        } else {
            kept
        });
        assert forall|x: T| #[trigger] out.contains(x) <==> s.contains(x) && pred(x) by {
            if out.contains(x) {
                let i = choose|i: int| 0 <= i < out.len() && out[i] == x;
                if i < kept.len() {
                    assert(kept[i] == x);
                    assert(kept.contains(x));
                    assert(rest.contains(x));
                    let k = choose|k: int| 0 <= k < rest.len() && rest[k] == x;
                    assert(s[k] == x);
                } else {
                    assert(s[s.len() - 1] == x);
                }
            }
            if s.contains(x) && pred(x) {
                let k = choose|k: int| 0 <= k < s.len() && s[k] == x;
                if k == s.len() - 1 {
                    assert(out[kept.len() as int] == x);
                } else {
                    assert(rest[k] == x);
                    assert(rest.contains(x));
                    assert(kept.contains(x));
                    let i = choose|i: int| 0 <= i < kept.len() && kept[i] == x;
                    assert(out[i] == x);
                }
            }
        }
    }
}

/// A filter keeps the order of the keys.
pub proof fn lemma_filter_keeps_order<T>(s: Seq<T>, pred: spec_fn(T) -> bool, key: spec_fn(T) -> int)
    requires
        forall|i: int, j: int| 0 <= i < j < s.len() ==> key(#[trigger] s[i]) < key(#[trigger] s[j]),
    ensures
        forall|i: int, j: int|
            0 <= i < j < s.filter(pred).len() ==> key(#[trigger] s.filter(pred)[i]) < key(
                #[trigger] s.filter(pred)[j],
            ),
        forall|i: int|
            0 <= i < s.filter(pred).len() && s.len() > 0 ==> key(#[trigger] s.filter(pred)[i])
                <= key(s.last()),
    decreases s.len(),
{
    reveal(Seq::filter);
    if s.len() > 0 {
        let rest = s.drop_last();
        assert forall|i: int, j: int| 0 <= i < j < rest.len() implies key(#[trigger] rest[i]) < key(
            #[trigger] rest[j],
        ) by {
            assert(rest[i] == s[i] && rest[j] == s[j]);
        }
        lemma_filter_keeps_order(rest, pred, key);
        let kept = rest.filter(pred);
        let out = s.filter(pred);
        if rest.len() > 0 {
            assert(rest.last() == s[s.len() - 2]);
            assert(key(s[s.len() - 2]) < key(s[s.len() - 1]));
        }
        assert forall|i: int| 0 <= i < out.len() implies key(#[trigger] out[i]) <= key(
            s.last(),
        ) by {
            if i < kept.len() {
                assert(out[i] == kept[i]);
            }
        }
        assert forall|i: int, j: int| 0 <= i < j < out.len() implies key(#[trigger] out[i]) < key(
            #[trigger] out[j],
        ) by {
            if j < kept.len() {
                assert(out[i] == kept[i] && out[j] == kept[j]);
            } else {
                assert(out[i] == kept[i]);
                assert(out[j] == s.last());
            }
        }
    }
}

} // verus!
