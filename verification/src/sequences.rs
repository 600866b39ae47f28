//! Facts about sequences that several modules use.
use vstd::prelude::*;

verus! {

/// Filtering one item more of a sequence.
pub proof fn lemma_filter_next<T>(s: Seq<T>, i: int, pred: spec_fn(T) -> bool)
    requires
        0 <= i < s.len(),
    ensures
        s.take(i + 1).filter(pred) == if pred(s[i]) {
            s.take(i).filter(pred).push(s[i])
        } else {
            s.take(i).filter(pred)
        },
{
    reveal(Seq::filter);
    assert(s.take(i + 1).drop_last() =~= s.take(i));
}

/// Filtering none of a sequence.
pub proof fn lemma_filter_none<T>(s: Seq<T>, pred: spec_fn(T) -> bool)
    ensures
        s.take(0).filter(pred) == Seq::<T>::empty(),
        s.take(s.len() as int) == s,
{
    reveal(Seq::filter);
    assert(s.take(0) =~= Seq::<T>::empty());
    assert(s.take(s.len() as int) =~= s);
}

/// What two of the elements that a filter keeps were before, in the same order.
pub proof fn lemma_places_in_filter<T>(s: Seq<T>, pred: spec_fn(T) -> bool, p: int, q: int) -> (r: (
    int,
    int,
))
    requires
        0 <= p < q < s.filter(pred).len(),
    ensures
        0 <= r.0 < r.1 < s.len(),
        s[r.0] == s.filter(pred)[p],
        s[r.1] == s.filter(pred)[q],
        pred(s[r.0]),
        pred(s[r.1]),
    decreases s.len(),
{
    broadcast use vstd::seq_lib::group_filter_ensures;

    reveal(Seq::filter);
    let front = s.drop_last();
    let kept = front.filter(pred);
    if q < kept.len() {
        lemma_places_in_filter(front, pred, p, q)
    } else {
        assert(kept.contains(kept[p]));
        front.lemma_filter_contains_rev(pred, kept[p]);
        let i = choose|i: int| 0 <= i < front.len() && front[i] == kept[p];
        assert(pred(kept[p]));
        (i, s.len() - 1)
    }
}

/// Where two elements stand among those that a filter keeps, in the same order.
pub proof fn lemma_places_of<T>(s: Seq<T>, pred: spec_fn(T) -> bool, i: int, j: int) -> (r: (
    int,
    int,
))
    requires
        0 <= i < j < s.len(),
        pred(s[i]),
        pred(s[j]),
    ensures
        0 <= r.0 < r.1 < s.filter(pred).len(),
        s.filter(pred)[r.0] == s[i],
        s.filter(pred)[r.1] == s[j],
    decreases s.len(),
{
    broadcast use vstd::seq_lib::group_filter_ensures;

    reveal(Seq::filter);
    let front = s.drop_last();
    let kept = front.filter(pred);
    if j < front.len() {
        assert(front[i] == s[i] && front[j] == s[j]);
        lemma_places_of(front, pred, i, j)
    } else {
        assert(front[i] == s[i]);
        assert(kept.contains(front[i]));
        let p = choose|p: int| 0 <= p < kept.len() && kept[p] == front[i];
        (p, kept.len() as int)
    }
}

/// The first element that a filter keeps.
pub proof fn lemma_first_kept<T>(s: Seq<T>, pred: spec_fn(T) -> bool, i: int)
    requires
        0 <= i < s.len(),
        pred(s[i]),
        forall|k: int| 0 <= k < i ==> !pred(#[trigger] s[k]),
    ensures
        s.filter(pred).len() > 0,
        s.filter(pred)[0] == s[i],
    decreases s.len(),
{
    reveal(Seq::filter);
    let front = s.drop_last();
    if i < front.len() {
        lemma_first_kept(front, pred, i);
    } else {
        lemma_none_kept(front, pred);
    }
}

/// A filter keeps nothing where nothing is picked.
pub proof fn lemma_none_kept<T>(s: Seq<T>, pred: spec_fn(T) -> bool)
    requires
        forall|k: int| 0 <= k < s.len() ==> !pred(#[trigger] s[k]),
    ensures
        s.filter(pred).len() == 0,
    decreases s.len(),
{
    reveal(Seq::filter);
    if s.len() > 0 {
        lemma_none_kept(s.drop_last(), pred);
    }
}

} // verus!
