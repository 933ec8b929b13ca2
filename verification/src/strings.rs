//! Ordering of texts.

use vstd::prelude::*;
use vstd::utf8::encode_utf8;

verus! {

/// Byte sequences in lexicographic order.
pub open spec fn bytes_le(a: Seq<u8>, b: Seq<u8>) -> bool
    decreases a.len(),
{
    if a.len() == 0 {
        true
    } else if b.len() == 0 {
        false
    } else if a[0] != b[0] {
        a[0] < b[0]
    } else {
        bytes_le(a.drop_first(), b.drop_first())
    }
}

/// Texts in lexicographic order of their bytes.
pub open spec fn text_le(a: Seq<char>, b: Seq<char>) -> bool {
    bytes_le(encode_utf8(a), encode_utf8(b))
}

/// Texts none of which comes before an earlier one.
pub open spec fn is_sorted(texts: Seq<Seq<char>>) -> bool {
    forall|i: int, j: int|
        0 <= i <= j < texts.len() ==> text_le(#[trigger] texts[i], #[trigger] texts[j])
}

/// What strings hold.
pub open spec fn texts(strings: Seq<String>) -> Seq<Seq<char>> {
    strings.map_values(|s: String| s@)
}

proof fn lemma_bytes_le_reflexive(a: Seq<u8>)
    ensures
        bytes_le(a, a),
    decreases a.len(),
{
    if a.len() > 0 {
        lemma_bytes_le_reflexive(a.drop_first());
    }
}

proof fn lemma_bytes_le_total(a: Seq<u8>, b: Seq<u8>)
    ensures
        bytes_le(a, b) || bytes_le(b, a),
    decreases a.len(),
{
    if a.len() > 0 && b.len() > 0 && a[0] == b[0] {
        lemma_bytes_le_total(a.drop_first(), b.drop_first());
    }
}

proof fn lemma_bytes_le_transitive(a: Seq<u8>, b: Seq<u8>, c: Seq<u8>)
    requires
        bytes_le(a, b),
        bytes_le(b, c),
    ensures
        bytes_le(a, c),
    decreases a.len(),
{
    if a.len() > 0 && b.len() > 0 && c.len() > 0 && a[0] == b[0] && b[0] == c[0] {
        lemma_bytes_le_transitive(a.drop_first(), b.drop_first(), c.drop_first());
    }
}

proof fn lemma_bytes_le_antisymmetric(a: Seq<u8>, b: Seq<u8>)
    requires
        bytes_le(a, b),
        bytes_le(b, a),
    ensures
        a == b,
    decreases a.len(),
{
    if a.len() > 0 && b.len() > 0 {
        lemma_bytes_le_antisymmetric(a.drop_first(), b.drop_first());
        assert(a =~= seq![a[0]] + a.drop_first());
        assert(b =~= seq![b[0]] + b.drop_first());
    } else {
        assert(a =~= b);
    }
}

/// The order of texts is a total order on their bytes.
pub proof fn text_order_is_total(a: Seq<char>, b: Seq<char>, c: Seq<char>)
    ensures
        text_le(a, a),
        text_le(a, b) || text_le(b, a),
        text_le(a, b) && text_le(b, c) ==> text_le(a, c),
        text_le(a, b) && text_le(b, a) ==> encode_utf8(a) == encode_utf8(b),
{
    lemma_bytes_le_reflexive(encode_utf8(a));
    lemma_bytes_le_total(encode_utf8(a), encode_utf8(b));
    if text_le(a, b) && text_le(b, c) {
        lemma_bytes_le_transitive(encode_utf8(a), encode_utf8(b), encode_utf8(c));
    }
    if text_le(a, b) && text_le(b, a) {
        lemma_bytes_le_antisymmetric(encode_utf8(a), encode_utf8(b));
    }
}

/// Whether `a` comes no later than `b`.
pub fn is_text_le(a: &str, b: &str) -> (le: bool)
    ensures
        le == text_le(a@, b@),
{
    let x = a.as_bytes();
    let y = b.as_bytes();
    let mut i: usize = 0;
    proof {
        assert(x@.skip(0) =~= x@);
        assert(y@.skip(0) =~= y@);
    }
    while i < x.len() && i < y.len() && x[i] == y[i]
        invariant
            x@ == encode_utf8(a@),
            y@ == encode_utf8(b@),
            i <= x.len(),
            i <= y.len(),
            text_le(a@, b@) == bytes_le(x@.skip(i as int), y@.skip(i as int)),
        decreases x.len() - i,
    {
        proof {
            assert(x@.skip(i as int).drop_first() =~= x@.skip(i + 1));
            assert(y@.skip(i as int).drop_first() =~= y@.skip(i + 1));
        }
        i = i + 1;
    }
    if i >= x.len() {
        true
    } else if i >= y.len() {
        false
    } else {
        x[i] < y[i]
    }
}

fn insert_sorted(strings: &mut Vec<String>, text: String)
    requires
        is_sorted(texts(old(strings)@)),
    ensures
        is_sorted(texts(final(strings)@)),
        texts(final(strings)@).to_multiset() == texts(old(strings)@).to_multiset().insert(text@),
        final(strings)@.len() == old(strings)@.len() + 1,
{
    broadcast use vstd::seq_lib::group_to_multiset_ensures;

    let ghost before = strings@;
    let mut k: usize = strings.len();
    while k > 0 && !is_text_le(strings[k - 1].as_str(), text.as_str())
        invariant
            k <= strings.len(),
            strings@ == before,
            forall|i: int| k <= i < before.len() ==> !text_le((#[trigger] before[i])@, text@),
        decreases k,
    {
        k = k - 1;
    }
    strings.insert(k, text);
    proof {
        let old_texts = texts(before);
        let new_texts = texts(strings@);
        assert(new_texts =~= old_texts.insert(k as int, text@));
        assert forall|i: int, j: int| 0 <= i <= j < new_texts.len() implies text_le(
            #[trigger] new_texts[i],
            #[trigger] new_texts[j],
        ) by {
            if i == j {
                text_order_is_total(new_texts[i], new_texts[i], new_texts[i]);
            } else if i < k && j < k {
                assert(text_le(old_texts[i], old_texts[j]));
            } else if i < k && j == k {
                assert(text_le(old_texts[i], old_texts[k - 1]));
                text_order_is_total(old_texts[i], old_texts[k - 1], text@);
            } else if i < k && j > k {
                assert(text_le(old_texts[i], old_texts[j - 1]));
            } else if i == k && j > k {
                assert(!text_le(before[j - 1]@, text@));
                text_order_is_total(text@, old_texts[j - 1], text@);
            } else {
                assert(text_le(old_texts[i - 1], old_texts[j - 1]));
            }
        }
        lemma_insert_multiset(old_texts, k as int, text@);
    }
}

proof fn lemma_insert_multiset(s: Seq<Seq<char>>, k: int, x: Seq<char>)
    requires
        0 <= k <= s.len(),
    ensures
        s.insert(k, x).to_multiset() == s.to_multiset().insert(x),
{
    broadcast use vstd::seq_lib::group_to_multiset_ensures;

    let t = s.insert(k, x);
    assert(t.remove(k) =~= s);
    assert(t[k] == x);
    assert(t.contains(x));
    assert(t.to_multiset().remove(x).insert(x) =~= t.to_multiset());
}

/// Sorts strings.
pub fn sort_strings(strings: Vec<String>) -> (sorted: Vec<String>)
    ensures
        is_sorted(texts(sorted@)),
        texts(sorted@).to_multiset() == texts(strings@).to_multiset(),
        sorted@.len() == strings@.len(),
{
    broadcast use vstd::seq_lib::group_to_multiset_ensures;

    let ghost all = strings@;
    let mut sorted: Vec<String> = Vec::new();
    assert(texts(sorted@) =~= texts(all.take(0)));
    for text in it: strings
        invariant
            it.seq() == all,
            is_sorted(texts(sorted@)),
            texts(sorted@).to_multiset() == texts(all.take(it.index() as int)).to_multiset(),
            sorted@.len() == it.index(),
    {
        proof {
            let i = it.index() as int;
            assert(texts(all.take(i + 1)) =~= texts(all.take(i)).push(all[i]@));
            vstd::seq_lib::to_multiset_build(texts(all.take(i)), all[i]@);
        }
        insert_sorted(&mut sorted, text);
    }
    assert(all.take(all.len() as int) =~= all);
    sorted
}

/// Texts are ordered by the first byte in which they differ, and a text comes before
/// every longer one that begins with it.
pub proof fn first_difference_orders_texts(a: Seq<char>, b: Seq<char>, n: int)
    requires
        0 <= n <= encode_utf8(a).len(),
        n <= encode_utf8(b).len(),
        forall|i: int| 0 <= i < n ==> #[trigger] encode_utf8(a)[i] == encode_utf8(b)[i],
    ensures
        n == encode_utf8(a).len() ==> text_le(a, b),
        n == encode_utf8(b).len() && n < encode_utf8(a).len() ==> !text_le(a, b),
        n < encode_utf8(a).len() && n < encode_utf8(b).len() && encode_utf8(a)[n]
            < encode_utf8(b)[n] ==> text_le(a, b) && !text_le(b, a),
{
    lemma_first_difference(encode_utf8(a), encode_utf8(b), n);
    lemma_first_difference(encode_utf8(b), encode_utf8(a), n);
}

proof fn lemma_first_difference(a: Seq<u8>, b: Seq<u8>, n: int)
    requires
        0 <= n <= a.len(),
        n <= b.len(),
        forall|i: int| 0 <= i < n ==> #[trigger] a[i] == b[i],
    ensures
        n == a.len() ==> bytes_le(a, b),
        n == b.len() && n < a.len() ==> !bytes_le(a, b),
        n < a.len() && n < b.len() && a[n] < b[n] ==> bytes_le(a, b),
        n < a.len() && n < b.len() && a[n] > b[n] ==> !bytes_le(a, b),
    decreases n,
{
    if n > 0 {
        assert(a[0] == b[0]);
        let x = a.drop_first();
        let y = b.drop_first();
        assert forall|i: int| 0 <= i < n - 1 implies #[trigger] x[i] == y[i] by {
            assert(a[i + 1] == b[i + 1]);
        }
        lemma_first_difference(x, y, n - 1);
    }
}

/// Texts are sorted exactly where no text comes after the one behind it.
pub proof fn sorted_texts_never_step_back(texts: Seq<Seq<char>>)
    ensures
        is_sorted(texts) <==> forall|i: int|
            0 < i < texts.len() ==> text_le(texts[i - 1], #[trigger] texts[i]),
    decreases texts.len(),
{
    if is_sorted(texts) {
        assert forall|i: int| 0 < i < texts.len() implies text_le(
            texts[i - 1],
            #[trigger] texts[i],
        ) by {
            assert(text_le(texts[i - 1], texts[i]));
        }
    } else if texts.len() > 0 && forall|i: int|
        0 < i < texts.len() ==> text_le(texts[i - 1], #[trigger] texts[i]) {
        let front = texts.drop_last();
        assert forall|i: int| 0 < i < front.len() implies text_le(
            front[i - 1],
            #[trigger] front[i],
        ) by {
            assert(text_le(texts[i - 1], texts[i]));
        }
        sorted_texts_never_step_back(front);
        assert(is_sorted(front));
        assert forall|i: int, j: int| 0 <= i <= j < texts.len() implies text_le(
            #[trigger] texts[i],
            #[trigger] texts[j],
        ) by {
            text_order_is_total(texts[i], texts[i], texts[i]);
            if j < texts.len() - 1 {
                assert(text_le(front[i], front[j]));
            } else if i < j {
                assert(text_le(front[i], front[j - 1]));
                assert(text_le(texts[j - 1], texts[j]));
                text_order_is_total(texts[i], texts[j - 1], texts[j]);
            }
        }
    }
}

} // verus!
