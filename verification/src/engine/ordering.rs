//! The stable order of records by an instant, a second instant and an identifier.
use vstd::prelude::*;

use crate::time::{lemma_position_is_unique, Timestamp};

verus! {

/// What records are ordered by: an instant, then another, then an identifier.
pub type OrderKey = (Timestamp, Timestamp, u128);

/// Whether one key comes no later than another.
pub open spec fn key_le(a: OrderKey, b: OrderKey) -> bool {
    ||| a.0.at() < b.0.at()
    ||| a.0.at() == b.0.at() && a.1.at() < b.1.at()
    ||| a.0.at() == b.0.at() && a.1.at() == b.1.at() && a.2 <= b.2
}

/// Puts a record behind every record at the end of which it may stand: behind the last one whose
/// key is no later than its own.
pub open spec fn insert_ordered<T>(s: Seq<T>, x: T, key: spec_fn(T) -> OrderKey) -> Seq<T>
    decreases s.len(),
{
    if s.len() == 0 || key_le(key(s.last()), key(x)) {
        s.push(x)
    } else {
        insert_ordered(s.drop_last(), x, key).push(s.last())
    }
}

/// The records in the order of their keys; those with equal keys stay in the order in which they
/// came.
pub open spec fn ordered<T>(s: Seq<T>, key: spec_fn(T) -> OrderKey) -> Seq<T>
    decreases s.len(),
{
    if s.len() == 0 {
        s
    } else {
        insert_ordered(ordered(s.drop_last(), key), s.last(), key)
    }
}

/// Whether the records stand in the order of their keys.
pub open spec fn in_key_order<T>(s: Seq<T>, key: spec_fn(T) -> OrderKey) -> bool {
    forall|i: int, j: int| 0 <= i <= j < s.len() ==> key_le(key(#[trigger] s[i]), key(#[trigger] s[j]))
}

/// Whether no two different records have one key.
pub open spec fn keys_tell_apart<T>(s: Seq<T>, key: spec_fn(T) -> OrderKey) -> bool {
    forall|i: int, j: int|
        0 <= i < s.len() && 0 <= j < s.len() && key(#[trigger] s[i]) == key(#[trigger] s[j]) ==> s[i]
            == s[j]
}

/// Whether the first key comes no later than the second.
pub fn key_at_or_before(a: &OrderKey, b: &OrderKey) -> (r: bool)
    ensures
        r == key_le(*a, *b),
{
    if a.0.before(&b.0) {
        true
    } else if b.0.before(&a.0) {
        false
    } else if a.1.before(&b.1) {
        true
    } else if b.1.before(&a.1) {
        false
    } else {
        a.2 <= b.2
    }
}

/// The place at which a record with this key goes among records with those keys.
pub fn place_for(keys: &Vec<OrderKey>, key: &OrderKey) -> (place: usize)
    ensures
        place <= keys.len(),
        place > 0 ==> key_le(keys@[place - 1], *key),
        forall|k: int| place <= k < keys.len() ==> !key_le(#[trigger] keys@[k], *key),
{
    let mut place: usize = keys.len();
    while place > 0 && !key_at_or_before(&keys[place - 1], key)
        invariant
            place <= keys.len(),
            forall|k: int| place <= k < keys.len() ==> !key_le(#[trigger] keys@[k], *key),
        ensures
            place <= keys.len(),
            place > 0 ==> key_le(keys@[place - 1], *key),
            forall|k: int| place <= k < keys.len() ==> !key_le(#[trigger] keys@[k], *key),
        decreases place,
    {
        place -= 1;
    }
    place
}

/// Inserting at the place that the keys give is [`insert_ordered`].
pub proof fn lemma_insert_at_place<T>(s: Seq<T>, x: T, key: spec_fn(T) -> OrderKey, place: int)
    requires
        0 <= place <= s.len(),
        place > 0 ==> key_le(key(s[place - 1]), key(x)),
        forall|k: int| place <= k < s.len() ==> !key_le(key(#[trigger] s[k]), key(x)),
    ensures
        s.insert(place, x) == insert_ordered(s, x, key),
    decreases s.len(),
{
    if place == s.len() {
        assert(s.insert(place, x) =~= s.push(x));
    } else {
        assert(!key_le(key(s[s.len() - 1]), key(x)));
        lemma_insert_at_place(s.drop_last(), x, key, place);
        assert(s.insert(place, x) =~= s.drop_last().insert(place, x).push(s.last()));
    }
}

/// The order of keys is total, and keys that come no later than each other are equal.
pub proof fn lemma_key_order(a: OrderKey, b: OrderKey, c: OrderKey)
    ensures
        key_le(a, b) || key_le(b, a),
        key_le(a, b) && key_le(b, c) ==> key_le(a, c),
        key_le(a, b) && key_le(b, a) ==> a == b,
{
    lemma_position_is_unique(a.0, b.0);
    lemma_position_is_unique(a.1, b.1);
}

proof fn lemma_insert_keeps<T>(s: Seq<T>, x: T, key: spec_fn(T) -> OrderKey)
    ensures
        insert_ordered(s, x, key).len() == s.len() + 1,
        insert_ordered(s, x, key).to_multiset() == s.to_multiset().insert(x),
    decreases s.len(),
{
    broadcast use vstd::seq_lib::group_to_multiset_ensures;

    if s.len() == 0 || key_le(key(s.last()), key(x)) {
    } else {
        lemma_insert_keeps(s.drop_last(), x, key);
        assert(s =~= s.drop_last().push(s.last()));
        assert(s.drop_last().to_multiset().insert(x).insert(s.last())
            =~= s.drop_last().to_multiset().insert(s.last()).insert(x));
    }
}

/// Ordering drops no record and adds none.
pub proof fn law_ordering_is_a_permutation<T>(s: Seq<T>, key: spec_fn(T) -> OrderKey)
    ensures
        ordered(s, key).len() == s.len(),
        ordered(s, key).to_multiset() == s.to_multiset(),
    decreases s.len(),
{
    broadcast use vstd::seq_lib::group_to_multiset_ensures;

    if s.len() > 0 {
        law_ordering_is_a_permutation(s.drop_last(), key);
        lemma_insert_keeps(ordered(s.drop_last(), key), s.last(), key);
        assert(s =~= s.drop_last().push(s.last()));
    }
}

/// Whether no record's key is later than this one.
spec fn none_after<T>(s: Seq<T>, key: spec_fn(T) -> OrderKey, bound: OrderKey) -> bool {
    forall|i: int| 0 <= i < s.len() ==> key_le(key(#[trigger] s[i]), bound)
}

proof fn lemma_insert_in_order<T>(s: Seq<T>, x: T, key: spec_fn(T) -> OrderKey)
    requires
        in_key_order(s, key),
    ensures
        in_key_order(insert_ordered(s, x, key), key),
        forall|k: OrderKey|
            none_after(s, key, k) && key_le(key(x), k) ==> #[trigger] none_after(
                insert_ordered(s, x, key),
                key,
                k,
            ),
    decreases s.len(),
{
    let r = insert_ordered(s, x, key);
    if s.len() == 0 {
        lemma_key_order(key(x), key(x), key(x));
        assert(in_key_order(r, key));
    } else if key_le(key(s.last()), key(x)) {
        lemma_key_order(key(x), key(x), key(x));
        assert forall|i: int, j: int| 0 <= i <= j < r.len() implies key_le(
            key(#[trigger] r[i]),
            key(#[trigger] r[j]),
        ) by {
            if j == s.len() && i < j {
                assert(key_le(key(s[i]), key(s[s.len() - 1])));
                lemma_key_order(key(s[i]), key(s.last()), key(x));
            }
        }
    } else {
        let front = s.drop_last();
        assert forall|i: int, j: int| 0 <= i <= j < front.len() implies key_le(
            key(#[trigger] front[i]),
            key(#[trigger] front[j]),
        ) by {
            assert(front[i] == s[i] && front[j] == s[j]);
        }
        lemma_insert_in_order(front, x, key);
        lemma_key_order(key(x), key(s.last()), key(x));
        let placed = insert_ordered(front, x, key);
        assert(none_after(front, key, key(s.last()))) by {
            assert forall|i: int| 0 <= i < front.len() implies key_le(
                key(#[trigger] front[i]),
                key(s.last()),
            ) by {
                assert(front[i] == s[i]);
                assert(key_le(key(s[i]), key(s[s.len() - 1])));
            }
        }
        assert(none_after(placed, key, key(s.last())));
        lemma_key_order(key(s.last()), key(s.last()), key(s.last()));
        lemma_insert_keeps(front, x, key);
        assert forall|i: int, j: int| 0 <= i <= j < r.len() implies key_le(
            key(#[trigger] r[i]),
            key(#[trigger] r[j]),
        ) by {
            if j < placed.len() {
                assert(r[i] == placed[i] && r[j] == placed[j]);
            } else if i < placed.len() {
                assert(r[i] == placed[i]);
            }
        }
        assert forall|k: OrderKey| none_after(s, key, k) && key_le(key(x), k) implies
            #[trigger] none_after(r, key, k) by {
            assert(none_after(front, key, k)) by {
                assert forall|i: int| 0 <= i < front.len() implies key_le(
                    key(#[trigger] front[i]),
                    k,
                ) by {
                    assert(front[i] == s[i]);
                }
            }
            assert(none_after(placed, key, k));
            assert forall|i: int| 0 <= i < r.len() implies key_le(key(#[trigger] r[i]), k) by {
                if i < placed.len() {
                    assert(r[i] == placed[i]);
                } else {
                    assert(r[i] == s[s.len() - 1]);
                }
            }
        }
    }
}

/// The ordered records stand in the order of their keys.
pub proof fn law_ordering_sorts<T>(s: Seq<T>, key: spec_fn(T) -> OrderKey)
    ensures
        in_key_order(ordered(s, key), key),
    decreases s.len(),
{
    if s.len() > 0 {
        law_ordering_sorts(s.drop_last(), key);
        lemma_insert_in_order(ordered(s.drop_last(), key), s.last(), key);
    }
}

proof fn lemma_order_is_unique<T>(a: Seq<T>, b: Seq<T>, key: spec_fn(T) -> OrderKey)
    requires
        a.to_multiset() == b.to_multiset(),
        in_key_order(a, key),
        in_key_order(b, key),
        keys_tell_apart(a, key),
    ensures
        a == b,
    decreases a.len(),
{
    broadcast use vstd::seq_lib::group_to_multiset_ensures;

    assert(a.len() == a.to_multiset().len());
    assert(b.len() == b.to_multiset().len());
    if a.len() == 0 {
        assert(a =~= b);
    } else {
        let x = a.last();
        let y = b.last();
        assert(a.contains(x)) by {
            assert(a[a.len() - 1] == x);
        }
        assert(a.to_multiset().count(x) > 0);
        assert(b.contains(x));
        let bx = choose|i: int| 0 <= i < b.len() && b[i] == x;
        assert(key_le(key(b[bx]), key(b[b.len() - 1])));
        assert(b.contains(y)) by {
            assert(b[b.len() - 1] == y);
        }
        assert(b.to_multiset().count(y) > 0);
        assert(a.contains(y));
        let ay = choose|i: int| 0 <= i < a.len() && a[i] == y;
        assert(key_le(key(a[ay]), key(a[a.len() - 1])));
        lemma_key_order(key(x), key(y), key(x));
        assert(a[ay] == a[a.len() - 1]);
        let front_a = a.drop_last();
        let front_b = b.drop_last();
        assert(a =~= front_a.push(x));
        assert(b =~= front_b.push(y));
        assert(front_a.to_multiset() =~= a.to_multiset().remove(x));
        assert(front_b.to_multiset() =~= b.to_multiset().remove(y));
        assert forall|i: int, j: int| 0 <= i <= j < front_a.len() implies key_le(
            key(#[trigger] front_a[i]),
            key(#[trigger] front_a[j]),
        ) by {
            assert(front_a[i] == a[i] && front_a[j] == a[j]);
        }
        assert forall|i: int, j: int| 0 <= i <= j < front_b.len() implies key_le(
            key(#[trigger] front_b[i]),
            key(#[trigger] front_b[j]),
        ) by {
            assert(front_b[i] == b[i] && front_b[j] == b[j]);
        }
        assert(keys_tell_apart(front_a, key)) by {
            assert forall|i: int, j: int|
                0 <= i < front_a.len() && 0 <= j < front_a.len() && key(#[trigger] front_a[i]) == key(
                    #[trigger] front_a[j],
                ) implies front_a[i] == front_a[j] by {
                assert(front_a[i] == a[i] && front_a[j] == a[j]);
            }
        }
        lemma_order_is_unique(front_a, front_b, key);
    }
}

/// Arrival order does not matter: the same records in another order are ordered alike, where no
/// two different ones have one key.
pub proof fn law_order_is_independent_of_arrival<T>(
    a: Seq<T>,
    b: Seq<T>,
    key: spec_fn(T) -> OrderKey,
)
    requires
        a.to_multiset() == b.to_multiset(),
        keys_tell_apart(a, key),
    ensures
        ordered(a, key) == ordered(b, key),
{
    broadcast use vstd::seq_lib::group_to_multiset_ensures;

    law_ordering_is_a_permutation(a, key);
    law_ordering_is_a_permutation(b, key);
    law_ordering_sorts(a, key);
    law_ordering_sorts(b, key);
    let sorted = ordered(a, key);
    assert forall|i: int, j: int|
        0 <= i < sorted.len() && 0 <= j < sorted.len() && key(#[trigger] sorted[i]) == key(
            #[trigger] sorted[j],
        ) implies sorted[i] == sorted[j] by {
        assert(sorted.to_multiset().count(sorted[i]) > 0 && sorted.to_multiset().count(sorted[j])
            > 0);
        assert(a.contains(sorted[i]) && a.contains(sorted[j]));
    }
    lemma_order_is_unique(sorted, ordered(b, key), key);
}

proof fn lemma_insert_commutes_with_filter<T>(
    s: Seq<T>,
    x: T,
    key: spec_fn(T) -> OrderKey,
    pred: spec_fn(T) -> bool,
)
    requires
        in_key_order(s, key),
    ensures
        insert_ordered(s, x, key).filter(pred) == if pred(x) {
            insert_ordered(s.filter(pred), x, key)
        } else {
            s.filter(pred)
        },
    decreases s.len(),
{
    broadcast use vstd::seq_lib::group_filter_ensures;

    reveal(Seq::filter);
    let kept = s.filter(pred);
    if s.len() == 0 {
        assert(s.push(x).drop_last() =~= s);
    } else if key_le(key(s.last()), key(x)) {
        assert(s.push(x).drop_last() =~= s);
        if kept.len() > 0 {
            assert(kept.contains(kept.last())) by {
                assert(kept[kept.len() - 1] == kept.last());
            }
            s.lemma_filter_contains_rev(pred, kept.last());
            let k = choose|k: int| 0 <= k < s.len() && s[k] == kept.last();
            assert(key_le(key(s[k]), key(s[s.len() - 1])));
            lemma_key_order(key(kept.last()), key(s.last()), key(x));
        }
    } else {
        let front = s.drop_last();
        assert forall|i: int, j: int| 0 <= i <= j < front.len() implies key_le(
            key(#[trigger] front[i]),
            key(#[trigger] front[j]),
        ) by {
            assert(front[i] == s[i] && front[j] == s[j]);
        }
        lemma_insert_commutes_with_filter(front, x, key, pred);
        let placed = insert_ordered(front, x, key);
        assert(placed.push(s.last()).drop_last() =~= placed);
        if pred(s.last()) {
            assert(kept.drop_last() =~= front.filter(pred));
        }
    }
}

/// Ordering and filtering commute: leaving records out does not change the order of the rest.
pub proof fn law_ordering_commutes_with_filter<T>(
    s: Seq<T>,
    key: spec_fn(T) -> OrderKey,
    pred: spec_fn(T) -> bool,
)
    ensures
        ordered(s, key).filter(pred) == ordered(s.filter(pred), key),
    decreases s.len(),
{
    reveal(Seq::filter);
    if s.len() > 0 {
        let front = s.drop_last();
        law_ordering_commutes_with_filter(front, key, pred);
        law_ordering_sorts(front, key);
        lemma_insert_commutes_with_filter(ordered(front, key), s.last(), key, pred);
        if pred(s.last()) {
            assert(s.filter(pred).drop_last() =~= front.filter(pred));
        }
    }
}

/// Whether a record has this key.
pub open spec fn has_key<T>(key: spec_fn(T) -> OrderKey, k: OrderKey) -> spec_fn(T) -> bool {
    |x: T| key(x) == k
}

proof fn lemma_equal_keys_stay<T>(s: Seq<T>, key: spec_fn(T) -> OrderKey, k: OrderKey)
    requires
        forall|i: int| 0 <= i < s.len() ==> key(#[trigger] s[i]) == k,
    ensures
        ordered(s, key) == s,
    decreases s.len(),
{
    if s.len() > 0 {
        let front = s.drop_last();
        assert forall|i: int| 0 <= i < front.len() implies key(#[trigger] front[i]) == k by {
            assert(front[i] == s[i]);
        }
        lemma_equal_keys_stay(front, key, k);
        lemma_key_order(k, k, k);
        if front.len() > 0 {
            assert(key(s[front.len() - 1]) == k);
        }
        assert(key(s[s.len() - 1]) == k);
        assert(front.push(s.last()) =~= s);
    }
}

/// Ordering is stable: records with one key stay in the order in which they came.
pub proof fn law_ordering_is_stable<T>(s: Seq<T>, key: spec_fn(T) -> OrderKey, k: OrderKey)
    ensures
        ordered(s, key).filter(has_key(key, k)) == s.filter(has_key(key, k)),
{
    broadcast use vstd::seq_lib::group_filter_ensures;

    law_ordering_commutes_with_filter(s, key, has_key(key, k));
    let kept = s.filter(has_key(key, k));
    assert forall|i: int| 0 <= i < kept.len() implies key(#[trigger] kept[i]) == k by {
        assert(has_key(key, k)(kept[i]));
    }
    lemma_equal_keys_stay(kept, key, k);
}

} // verus!
