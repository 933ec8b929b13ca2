//! Facts about sequences that the collections of the crate share.

use vstd::prelude::*;

verus! {

/// Filtering one element more adds that element where it passes.
pub(crate) proof fn lemma_filter_step<A>(s: Seq<A>, i: int, keep: spec_fn(A) -> bool)
    requires
        0 <= i < s.len(),
    ensures
        s.take(i + 1).filter(keep) == if keep(s[i]) {
            s.take(i).filter(keep).push(s[i])
        } else {
            s.take(i).filter(keep)
        },
{
    reveal(Seq::filter);
    assert(s.take(i + 1).drop_last() =~= s.take(i));
}

/// Filtering nothing gives nothing.
pub(crate) proof fn lemma_filter_none<A>(s: Seq<A>, keep: spec_fn(A) -> bool)
    ensures
        s.take(0).filter(keep) == Seq::<A>::empty(),
{
    reveal(Seq::filter);
    assert(s.take(0) =~= Seq::empty());
}

/// The elements that pass a filter are those of the sequence that satisfy it.
pub(crate) proof fn lemma_filter_contains<A>(s: Seq<A>, keep: spec_fn(A) -> bool, x: A)
    ensures
        s.filter(keep).contains(x) <==> s.contains(x) && keep(x),
    decreases s.len(),
{
    reveal(Seq::filter);
    if s.len() > 0 {
        let front = s.drop_last();
        lemma_filter_contains(front, keep, x);
        let filtered = front.filter(keep);
        if s.contains(x) {
            let i = choose|i: int| 0 <= i < s.len() && s[i] == x;
            if i < s.len() - 1 {
                assert(front[i] == x);
            }
        }
        if front.contains(x) {
            let i = choose|i: int| 0 <= i < front.len() && front[i] == x;
            assert(s[i] == x);
        }
        assert(s.last() == s[s.len() - 1]);
        if keep(s.last()) {
            let pushed = filtered.push(s.last());
            assert(pushed[pushed.len() - 1] == s.last());
            if filtered.contains(x) {
                let i = choose|i: int| 0 <= i < filtered.len() && filtered[i] == x;
                assert(pushed[i] == x);
            }
            if pushed.contains(x) {
                let i = choose|i: int| 0 <= i < pushed.len() && pushed[i] == x;
                if i < filtered.len() {
                    assert(filtered[i] == x);
                }
            }
        }
    }
}

/// What passes a filter and what does not make up the whole sequence.
pub(crate) proof fn lemma_filter_partition<A>(s: Seq<A>, keep: spec_fn(A) -> bool)
    ensures
        s.filter(keep).len() + s.filter(|x: A| !keep(x)).len() == s.len(),
    decreases s.len(),
{
    reveal(Seq::filter);
    if s.len() > 0 {
        lemma_filter_partition(s.drop_last(), keep);
    }
}

} // verus!
