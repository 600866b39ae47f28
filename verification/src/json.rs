//! JSON values, as facts, metadata and rationales hold them.
use vstd::prelude::*;

use crate::score::Score;

verus! {

/// A JSON number. Whole numbers are apart from fractional ones, and negative ones from the rest.
#[derive(Clone, Copy, Debug)]
pub enum Number {
    PosInt(u64),
    NegInt(i64),
    Float(Score),
}

/// A JSON value.
#[derive(Debug)]
pub enum Json {
    Null,
    Bool(bool),
    Number(Number),
    Text(String),
    Array(Vec<Json>),
    /// The members of an object, each key once.
    Object(Vec<Member>),
}

/// A member of a JSON object.
#[derive(Debug)]
pub struct Member {
    pub key: String,
    pub value: Json,
}

/// What a [`Json`] stands for.
pub enum JsonValue {
    Null,
    Bool(bool),
    Number(Number),
    Text(Seq<char>),
    Array(Seq<JsonValue>),
    Object(Seq<(Seq<char>, JsonValue)>),
}

/// Whether two JSON numbers are the same number of the same kind.
pub open spec fn same_number(a: Number, b: Number) -> bool {
    match (a, b) {
        (Number::PosInt(x), Number::PosInt(y)) => x == y,
        (Number::NegInt(x), Number::NegInt(y)) => x == y,
        (Number::Float(x), Number::Float(y)) => x.reaches(y) && y.reaches(x),
        _ => false,
    }
}

/// Whether two JSON values are the same value: arrays item by item, objects whatever the order of
/// their members.
pub open spec fn same_value(a: JsonValue, b: JsonValue) -> bool
    decreases a, 0int,
{
    match (a, b) {
        (JsonValue::Null, JsonValue::Null) => true,
        (JsonValue::Bool(x), JsonValue::Bool(y)) => x == y,
        (JsonValue::Number(x), JsonValue::Number(y)) => same_number(x, y),
        (JsonValue::Text(x), JsonValue::Text(y)) => x == y,
        (JsonValue::Array(x), JsonValue::Array(y)) => {
            &&& x.len() == y.len()
            &&& forall|i: int| #![trigger x[i]] 0 <= i < x.len() ==> same_value(x[i], y[i])
        },
        (JsonValue::Object(x), JsonValue::Object(y)) => {
            &&& x.len() == y.len()
            &&& forall|i: int| #![trigger x[i]] 0 <= i < x.len() ==> has_member(y, x[i].0, x[i].1)
        },
        _ => false,
    }
}

/// Whether an object with these members has one with this key and this value.
pub open spec fn has_member(
    members: Seq<(Seq<char>, JsonValue)>,
    key: Seq<char>,
    value: JsonValue,
) -> bool
    decreases value, 1int,
{
    exists|j: int|
        #![trigger members[j]]
        0 <= j < members.len() && members[j].0 == key && same_value(value, members[j].1)
}

/// What a JSON value stands for.
pub open spec fn value_of(json: Json) -> JsonValue
    decreases json,
{
    match json {
        Json::Null => JsonValue::Null,
        Json::Bool(b) => JsonValue::Bool(b),
        Json::Number(n) => JsonValue::Number(n),
        Json::Text(s) => JsonValue::Text(s@),
        Json::Array(items) => JsonValue::Array(
            Seq::new(
                items@.len(),
                |i: int|
                    if 0 <= i < items@.len() {
                        value_of(items@[i])
                    } else {
                        JsonValue::Null
                    },
            ),
        ),
        Json::Object(members) => JsonValue::Object(
            Seq::new(
                members@.len(),
                |i: int|
                    if 0 <= i < members@.len() {
                        (members@[i].key@, value_of(members@[i].value))
                    } else {
                        (Seq::empty(), JsonValue::Null)
                    },
            ),
        ),
    }
}

impl View for Json {
    type V = JsonValue;

    open spec fn view(&self) -> JsonValue {
        value_of(*self)
    }
}

proof fn lemma_array_value(items: Vec<Json>)
    ensures
        value_of(Json::Array(items)) matches JsonValue::Array(values) && values.len() == items@.len()
            && forall|i: int|
            #![trigger values[i]]
            #![trigger items@[i]]
            0 <= i < items@.len() ==> values[i] == value_of(items@[i]),
{
}

proof fn lemma_object_value(members: Vec<Member>)
    ensures
        value_of(Json::Object(members)) == JsonValue::Object(member_values(members@)),
        forall|i: int|
            #![trigger members@[i]]
            0 <= i < members@.len() ==> member_values(members@)[i] == (
                members@[i].key@,
                members@[i].value@,
            ),
{
    let values = value_of(Json::Object(members))->Object_0;
    assert(values =~= member_values(members@));
}

impl Json {
    /// Whether two JSON values are the same value.
    pub fn same(&self, other: &Json) -> (r: bool)
        ensures
            r == same_value(self@, other@),
        decreases self, 1int,
    {
        match (self, other) {
            (Json::Null, Json::Null) => true,
            (Json::Bool(x), Json::Bool(y)) => *x == *y,
            (Json::Number(x), Json::Number(y)) => x.same(y),
            (Json::Text(x), Json::Text(y)) => *x == *y,
            (Json::Array(x), Json::Array(y)) => {
                proof {
                    lemma_array_value(*x);
                    lemma_array_value(*y);
                }
                same_items(x, y)
            },
            (Json::Object(x), Json::Object(y)) => {
                proof {
                    lemma_object_value(*x);
                    lemma_object_value(*y);
                }
                same_members(x, y)
            },
            _ => false,
        }
    }

    /// Whether this value is that of the key among the members of an object.
    fn among(&self, key: &String, members: &Vec<Member>) -> (r: bool)
        ensures
            r == has_member(member_values(members@), key@, self@),
        decreases self, 2int,
    {
        let mut j: usize = 0;
        while j < members.len()
            invariant
                j <= members.len(),
                forall|k: int|
                    #![trigger members@[k]]
                    0 <= k < j && members@[k].key@ == key@ ==> !same_value(
                        self@,
                        members@[k].value@,
                    ),
            decreases members.len() - j,
        {
            let ghost named = member_values(members@);
            if members[j].key == *key && self.same(&members[j].value) {
                assert(named[j as int].0 == key@);
                return true;
            }
            j += 1;
        }
        false
    }
}

fn same_items(x: &Vec<Json>, y: &Vec<Json>) -> (r: bool)
    ensures
        r == (x@.len() == y@.len() && forall|i: int|
            #![trigger x@[i]]
            0 <= i < x@.len() ==> same_value(x@[i]@, y@[i]@)),
    decreases x,
{
    if x.len() != y.len() {
        return false;
    }
    let mut i: usize = 0;
    while i < x.len()
        invariant
            i <= x.len(),
            x.len() == y.len(),
            forall|k: int| #![trigger x@[k]] 0 <= k < i ==> same_value(x@[k]@, y@[k]@),
        decreases x.len() - i,
    {
        if !x[i].same(&y[i]) {
            return false;
        }
        i += 1;
    }
    true
}

fn same_members(x: &Vec<Member>, y: &Vec<Member>) -> (r: bool)
    ensures
        r == (x@.len() == y@.len() && forall|i: int|
            #![trigger x@[i]]
            0 <= i < x@.len() ==> has_member(member_values(y@), x@[i].key@, x@[i].value@)),
    decreases x,
{
    if x.len() != y.len() {
        return false;
    }
    let mut i: usize = 0;
    while i < x.len()
        invariant
            i <= x.len(),
            x.len() == y.len(),
            forall|k: int|
                #![trigger x@[k]]
                0 <= k < i ==> has_member(member_values(y@), x@[k].key@, x@[k].value@),
        decreases x.len() - i,
    {
        if !x[i].value.among(&x[i].key, y) {
            return false;
        }
        i += 1;
    }
    true
}

/// What the members of an object stand for.
pub open spec fn member_values(members: Seq<Member>) -> Seq<(Seq<char>, JsonValue)> {
    Seq::new(members.len(), |i: int| (members[i].key@, members[i].value@))
}

/// A JSON text.
pub fn json_text(text: &str) -> (r: Json)
    ensures
        r@ == JsonValue::Text(text@),
{
    Json::Text(text.to_owned())
}

/// A JSON number for a count.
pub fn json_count(n: u32) -> (r: Json)
    ensures
        r@ == JsonValue::Number(Number::PosInt(n as u64)),
{
    Json::Number(Number::PosInt(n as u64))
}

/// What a score stands for in JSON, which has no notation for a number that is not finite.
pub open spec fn score_value(score: Score) -> JsonValue {
    if score.is_finite_number() {
        JsonValue::Number(Number::Float(score))
    } else {
        JsonValue::Null
    }
}

/// A score in JSON.
pub fn json_score(score: Score) -> (r: Json)
    ensures
        r@ == score_value(score),
{
    if score.is_finite() {
        Json::Number(Number::Float(score))
    } else {
        Json::Null
    }
}

/// A member of a JSON object.
pub fn member(key: &str, value: Json) -> (r: Member)
    ensures
        r.key@ == key@,
        r.value == value,
{
    Member { key: key.to_owned(), value }
}

/// A JSON object with these members.
pub fn json_object(members: Vec<Member>) -> (r: Json)
    ensures
        r@ == JsonValue::Object(member_values(members@)),
{
    proof {
        lemma_object_value(members);
    }
    Json::Object(members)
}

impl Number {
    /// Whether two JSON numbers are the same number of the same kind.
    pub fn same(&self, other: &Number) -> (r: bool)
        ensures
            r == same_number(*self, *other),
    {
        match (self, other) {
            (Number::PosInt(x), Number::PosInt(y)) => *x == *y,
            (Number::NegInt(x), Number::NegInt(y)) => *x == *y,
            (Number::Float(x), Number::Float(y)) => x.at_least(y) && y.at_least(x),
            _ => false,
        }
    }
}

/// Whether every fractional number in a JSON value is a number.
pub open spec fn all_numbers(v: JsonValue) -> bool
    decreases v,
{
    match v {
        JsonValue::Number(Number::Float(score)) => score.is_number(),
        JsonValue::Array(items) => forall|i: int|
            #![trigger items[i]]
            0 <= i < items.len() ==> all_numbers(items[i]),
        JsonValue::Object(members) => forall|i: int|
            #![trigger members[i]]
            0 <= i < members.len() ==> all_numbers(members[i].1),
        _ => true,
    }
}

/// Every JSON value is the same value as itself.
pub proof fn law_same_value_is_reflexive(v: JsonValue)
    requires
        all_numbers(v),
    ensures
        same_value(v, v),
    decreases v,
{
    match v {
        JsonValue::Array(items) => {
            assert forall|i: int| #![trigger items[i]] 0 <= i < items.len() implies same_value(
                items[i],
                items[i],
            ) by {
                law_same_value_is_reflexive(items[i]);
            }
        },
        JsonValue::Object(members) => {
            assert forall|i: int| #![trigger members[i]] 0 <= i < members.len() implies has_member(
                members,
                members[i].0,
                members[i].1,
            ) by {
                law_same_value_is_reflexive(members[i].1);
            }
        },
        _ => {},
    }
}

/// Whether every object in a JSON value has each of its keys once.
pub open spec fn keys_are_unique(v: JsonValue) -> bool
    decreases v,
{
    match v {
        JsonValue::Array(items) => forall|i: int|
            #![trigger items[i]]
            0 <= i < items.len() ==> keys_are_unique(items[i]),
        JsonValue::Object(members) => {
            &&& forall|i: int|
                #![trigger members[i]]
                0 <= i < members.len() ==> keys_are_unique(members[i].1)
            &&& distinct_keys(members)
        },
        _ => true,
    }
}

/// Whether each key stands there once.
pub open spec fn distinct_keys(members: Seq<(Seq<char>, JsonValue)>) -> bool {
    forall|i: int, j: int|
        #![trigger members[i], members[j]]
        0 <= i < j < members.len() ==> members[i].0 != members[j].0
}

proof fn lemma_keys_differ(members: Seq<(Seq<char>, JsonValue)>, i: int, j: int)
    requires
        keys_are_unique(JsonValue::Object(members)),
        0 <= i < members.len(),
        0 <= j < members.len(),
        i != j,
    ensures
        members[i].0 != members[j].0,
{
    let (first, last) = if i < j {
        (i, j)
    } else {
        (j, i)
    };
    assert(distinct_keys(members));
    assert(members[first].0 != members[last].0);
}

spec fn keys_of(members: Seq<(Seq<char>, JsonValue)>) -> Seq<Seq<char>> {
    Seq::new(members.len(), |i: int| members[i].0)
}

/// Where every key of one object is a key of another of the same size, every key of the other is
/// one of its keys.
proof fn lemma_same_keys(
    a: Seq<(Seq<char>, JsonValue)>,
    b: Seq<(Seq<char>, JsonValue)>,
    j: int,
) -> (i: int)
    requires
        a.len() == b.len(),
        keys_are_unique(JsonValue::Object(a)),
        keys_are_unique(JsonValue::Object(b)),
        forall|i: int| #![trigger a[i]] 0 <= i < a.len() ==> has_member(b, a[i].0, a[i].1),
        0 <= j < b.len(),
    ensures
        0 <= i < a.len(),
        a[i].0 == b[j].0,
{
    let mine = keys_of(a);
    let theirs = keys_of(b);
    assert(mine.no_duplicates()) by {
        assert forall|x: int, y: int|
            0 <= x < mine.len() && 0 <= y < mine.len() && x != y implies mine[x] != mine[y] by {
            lemma_keys_differ(a, x, y);
        }
    }
    assert(theirs.no_duplicates()) by {
        assert forall|x: int, y: int|
            0 <= x < theirs.len() && 0 <= y < theirs.len() && x != y implies theirs[x]
            != theirs[y] by {
            lemma_keys_differ(b, x, y);
        }
    }
    mine.unique_seq_to_set();
    theirs.unique_seq_to_set();
    assert(mine.to_set().subset_of(theirs.to_set())) by {
        assert forall|key: Seq<char>| mine.to_set().contains(key) implies theirs.to_set().contains(
            key,
        ) by {
            let i = choose|i: int| 0 <= i < mine.len() && mine[i] == key;
            assert(has_member(b, a[i].0, a[i].1));
            let k = choose|k: int|
                #![trigger b[k]]
                0 <= k < b.len() && b[k].0 == a[i].0 && same_value(a[i].1, b[k].1);
            assert(theirs[k] == key);
        }
    }
    vstd::set_lib::lemma_subset_equality(mine.to_set(), theirs.to_set());
    assert(theirs[j] == b[j].0);
    assert(theirs.to_set().contains(b[j].0));
    assert(mine.contains(b[j].0));
    let i = choose|i: int| 0 <= i < mine.len() && mine[i] == b[j].0;
    i
}

/// Whether two JSON values are the same does not depend on which is named first.
pub proof fn law_same_value_is_symmetric(a: JsonValue, b: JsonValue)
    requires
        keys_are_unique(a),
        keys_are_unique(b),
        same_value(a, b),
    ensures
        same_value(b, a),
    decreases a,
{
    match (a, b) {
        (JsonValue::Array(x), JsonValue::Array(y)) => {
            assert forall|i: int| #![trigger y[i]] 0 <= i < y.len() implies same_value(
                y[i],
                x[i],
            ) by {
                assert(same_value(x[i], y[i]));
                law_same_value_is_symmetric(x[i], y[i]);
            }
        },
        (JsonValue::Object(x), JsonValue::Object(y)) => {
            assert forall|j: int| #![trigger y[j]] 0 <= j < y.len() implies has_member(
                x,
                y[j].0,
                y[j].1,
            ) by {
                let i = lemma_same_keys(x, y, j);
                assert(has_member(y, x[i].0, x[i].1));
                let k = choose|k: int|
                    #![trigger y[k]]
                    0 <= k < y.len() && y[k].0 == x[i].0 && same_value(x[i].1, y[k].1);
                if k != j {
                    lemma_keys_differ(y, k, j);
                }
                law_same_value_is_symmetric(x[i].1, y[j].1);
            }
        },
        _ => {},
    }
}

} // verus!
