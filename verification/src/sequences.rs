//! Facts about sequences that several modules use.

use vstd::prelude::*;

verus! {

/// Where `needle` stands at `i` and nowhere before, `i` is where it first
/// stands.
pub proof fn lemma_first_at<A>(s: Seq<A>, needle: A, i: int)
    requires
        0 <= i < s.len(),
        s[i] == needle,
        forall|j: int| 0 <= j < i ==> s[j] != needle,
    ensures
        s.index_of_first(needle) == Some(i),
{
    s.index_of_first_ensures(needle);
    assert(s.contains(needle));
}

/// Where `needle` stands nowhere, it has no first place.
pub proof fn lemma_first_nowhere<A>(s: Seq<A>, needle: A)
    requires
        forall|j: int| 0 <= j < s.len() ==> s[j] != needle,
    ensures
        s.index_of_first(needle) is None,
{
    s.index_of_first_ensures(needle);
}

/// What holds of every element of a sequence holds of every element that a
/// filter keeps.
pub proof fn lemma_filter_keeps<A>(s: Seq<A>, pred: spec_fn(A) -> bool, holds: spec_fn(A) -> bool)
    requires
        forall|i: int| 0 <= i < s.len() ==> holds(#[trigger] s[i]),
    ensures
        forall|i: int| 0 <= i < s.filter(pred).len() ==> holds(#[trigger] s.filter(pred)[i]),
    decreases s.len(),
{
    reveal(Seq::filter);
    if s.len() > 0 {
        let front = s.drop_last();
        assert forall|i: int| 0 <= i < front.len() implies holds(#[trigger] front[i]) by {
            assert(front[i] == s[i]);
        }
        lemma_filter_keeps(front, pred, holds);
        assert(holds(s[s.len() - 1]));
        assert forall|i: int| 0 <= i < s.filter(pred).len() implies holds(
            #[trigger] s.filter(pred)[i],
        ) by {
            if i < front.filter(pred).len() {
                assert(s.filter(pred)[i] == front.filter(pred)[i]);
            }
        }
    }
}

/// A filter keeps the elements that it asks for, and only those.
pub proof fn lemma_filter_asks<A>(s: Seq<A>, pred: spec_fn(A) -> bool)
    ensures
        forall|i: int| 0 <= i < s.filter(pred).len() ==> pred(#[trigger] s.filter(pred)[i]),
        (exists|i: int| 0 <= i < s.len() && pred(#[trigger] s[i])) <==> s.filter(pred).len() > 0,
    decreases s.len(),
{
    reveal(Seq::filter);
    if s.len() > 0 {
        let front = s.drop_last();
        lemma_filter_asks(front, pred);
        if s.filter(pred).len() > 0 {
            if pred(s.last()) {
                assert(pred(s[s.len() - 1]));
            } else {
                let i = choose|i: int| 0 <= i < front.len() && pred(#[trigger] front[i]);
                assert(pred(s[i]));
            }
        }
        if exists|i: int| 0 <= i < s.len() && pred(#[trigger] s[i]) {
            let i = choose|i: int| 0 <= i < s.len() && pred(#[trigger] s[i]);
            if i < s.len() - 1 {
                assert(pred(front[i]));
            }
        }
    }
}

} // verus!
