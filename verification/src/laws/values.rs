//! Laws on instants, scores, JSON values, levels and texts.
use vstd::prelude::*;

use crate::domain::claim::Criticality;
use crate::error::MemError;
use crate::json::{has_member, same_value, Json, JsonValue, Member, Number};
use crate::score::Score;
use crate::text::{decimal, digit};
use crate::time::{elapsed_seconds, Timestamp};

verus! {

/// Instants are ordered by their seconds, and within a second by their nanoseconds.
pub proof fn law_instants_follow_the_clock(a: Timestamp, b: Timestamp)
    requires
        0 <= a.nanos() < 2_000_000_000,
        0 <= b.nanos() < 2_000_000_000,
    ensures
        a.at() < b.at() <==> a.secs() < b.secs() || (a.secs() == b.secs() && a.nanos() < b.nanos()),
        a.at() == b.at() <==> a.secs() == b.secs() && a.nanos() == b.nanos(),
{
}

/// Outside leap seconds the elapsed time is the difference of the two instants: it is never more
/// than one second away from it, and never on the far side of it; it is exact where the
/// nanoseconds agree; and it changes its sign where the instants change places.
pub proof fn law_elapsed_time_is_the_difference(
    secs: int,
    nanos: int,
    from_secs: int,
    from_nanos: int,
)
    requires
        0 <= nanos < 1_000_000_000,
        0 <= from_nanos < 1_000_000_000,
    ensures
        ({
            let elapsed = elapsed_seconds(secs, nanos, from_secs, from_nanos);
            let exact = (secs - from_secs) * 1_000_000_000 + nanos - from_nanos;
            &&& exact >= 0 ==> elapsed * 1_000_000_000 <= exact < (elapsed + 1) * 1_000_000_000
            &&& exact <= 0 ==> (elapsed - 1) * 1_000_000_000 < exact <= elapsed * 1_000_000_000
            &&& nanos == from_nanos ==> elapsed == secs - from_secs
            &&& elapsed == -elapsed_seconds(from_secs, from_nanos, secs, nanos)
        }),
{
}

/// Of two numbers without a sign, that with the larger pattern is the larger; of two negative ones,
/// that with the smaller pattern; a negative one that is not zero is below every one without a
/// sign; and the two zeros are alike.
pub proof fn law_scores_are_ordered_as_numbers(a: Score, b: Score)
    requires
        a.is_number(),
        b.is_number(),
    ensures
        a.bits < 0x8000_0000_0000_0000 && b.bits < 0x8000_0000_0000_0000 ==> (a.reaches(b)
            <==> a.bits >= b.bits),
        a.bits >= 0x8000_0000_0000_0000 && b.bits >= 0x8000_0000_0000_0000 ==> (a.reaches(b)
            <==> a.bits <= b.bits),
        a.bits > 0x8000_0000_0000_0000 && b.bits < 0x8000_0000_0000_0000 ==> !a.reaches(b)
            && b.reaches(a),
        a.bits == 0x8000_0000_0000_0000 && b.bits == 0 ==> a.reaches(b) && b.reaches(a),
        a.falls_below(b) <==> !a.reaches(b),
{
}

/// A pattern beyond that of infinity, with or without a sign, is no number: it reaches nothing, is
/// reached by nothing and falls below nothing. All other patterns are numbers, and all but the two
/// infinities are finite.
pub proof fn law_what_is_no_number_compares_to_nothing(a: Score, b: Score)
    ensures
        a.is_number() <==> a.bits <= 0x7ff0_0000_0000_0000 || 0x8000_0000_0000_0000 <= a.bits
            <= 0xfff0_0000_0000_0000,
        a.is_finite_number() <==> a.is_number() && a.bits != 0x7ff0_0000_0000_0000 && a.bits
            != 0xfff0_0000_0000_0000,
        !a.is_number() ==> !a.reaches(b) && !b.reaches(a) && !a.falls_below(b) && !b.falls_below(a),
{
}

/// Reaching is an order on numbers: it holds of a number and itself, one of two numbers reaches the
/// other, and what reaches a number reaches all that it reaches.
pub proof fn law_reaching_is_an_order(a: Score, b: Score, c: Score)
    ensures
        a.is_number() ==> a.reaches(a),
        a.is_number() && b.is_number() ==> a.reaches(b) || b.reaches(a),
        a.reaches(b) && b.reaches(c) ==> a.reaches(c),
{
}

/// The levels of criticality rise from low over medium to high.
pub proof fn law_levels_rise()
    ensures
        Criticality::Low.level() < Criticality::Medium.level(),
        Criticality::Medium.level() < Criticality::High.level(),
{
}

/// Values that are one are the same, and values that differ are told apart: of switches, texts and
/// whole numbers each is the same as itself alone, and fractional numbers are the same exactly where
/// each reaches the other.
pub proof fn law_simple_values_are_told_apart(
    p: bool,
    q: bool,
    s: Seq<char>,
    t: Seq<char>,
    m: u64,
    n: u64,
    i: i64,
    j: i64,
    x: Score,
    y: Score,
)
    ensures
        same_value(JsonValue::Null, JsonValue::Null),
        same_value(JsonValue::Bool(p), JsonValue::Bool(q)) <==> p == q,
        same_value(JsonValue::Text(s), JsonValue::Text(t)) <==> s == t,
        same_value(
            JsonValue::Number(Number::PosInt(m)),
            JsonValue::Number(Number::PosInt(n)),
        ) <==> m == n,
        same_value(
            JsonValue::Number(Number::NegInt(i)),
            JsonValue::Number(Number::NegInt(j)),
        ) <==> i == j,
        same_value(
            JsonValue::Number(Number::Float(x)),
            JsonValue::Number(Number::Float(y)),
        ) <==> x.reaches(y) && y.reaches(x),
{
}

/// Which kind of value this is; whole numbers, negative ones and fractional ones are kinds of their
/// own.
pub open spec fn kind_of(v: JsonValue) -> int {
    match v {
        JsonValue::Null => 0,
        JsonValue::Bool(_) => 1,
        JsonValue::Number(Number::PosInt(_)) => 2,
        JsonValue::Number(Number::NegInt(_)) => 3,
        JsonValue::Number(Number::Float(_)) => 4,
        JsonValue::Text(_) => 5,
        JsonValue::Array(_) => 6,
        JsonValue::Object(_) => 7,
    }
}

/// Values of different kinds are never the same.
pub proof fn law_kinds_are_told_apart(a: JsonValue, b: JsonValue)
    requires
        kind_of(a) != kind_of(b),
    ensures
        !same_value(a, b),
{
}

/// Arrays are the same exactly where they have as many items and the items at each place are the
/// same: one item that differs, or one item more, tells them apart.
pub proof fn law_arrays_are_told_apart(x: Seq<JsonValue>, y: Seq<JsonValue>)
    ensures
        same_value(JsonValue::Array(x), JsonValue::Array(y)) <==> {
            &&& x.len() == y.len()
            &&& forall|i: int| #![trigger x[i]] 0 <= i < x.len() ==> same_value(x[i], y[i])
        },
{
}

/// Whether a member with this key and the same value stands among these.
pub open spec fn stands_among(
    members: Seq<(Seq<char>, JsonValue)>,
    key: Seq<char>,
    value: JsonValue,
) -> bool {
    exists|j: int|
        #![trigger members[j]]
        0 <= j < members.len() && members[j].0 == key && same_value(value, members[j].1)
}

/// Objects are the same exactly where they have as many members and each member of the one has a
/// member of the other with its key and the same value.
pub proof fn law_objects_are_told_apart(
    x: Seq<(Seq<char>, JsonValue)>,
    y: Seq<(Seq<char>, JsonValue)>,
)
    ensures
        same_value(JsonValue::Object(x), JsonValue::Object(y)) <==> {
            &&& x.len() == y.len()
            &&& forall|i: int|
                #![trigger x[i]]
                0 <= i < x.len() ==> stands_among(y, x[i].0, x[i].1)
        },
{
    assert forall|i: int| #![trigger x[i]] 0 <= i < x.len() implies has_member(y, x[i].0, x[i].1)
        == stands_among(y, x[i].0, x[i].1) by {
        lemma_member_stands_among(y, x[i].0, x[i].1);
    }
}

proof fn lemma_member_stands_among(
    members: Seq<(Seq<char>, JsonValue)>,
    key: Seq<char>,
    value: JsonValue,
)
    ensures
        has_member(members, key, value) == stands_among(members, key, value),
{
}

/// What is the same as a value is the same as all that the value is the same as.
pub proof fn law_sameness_is_transitive(a: JsonValue, b: JsonValue, c: JsonValue)
    requires
        same_value(a, b),
        same_value(b, c),
    ensures
        same_value(a, c),
    decreases a,
{
    match (a, b, c) {
        (JsonValue::Array(x), JsonValue::Array(y), JsonValue::Array(z)) => {
            assert forall|i: int| #![trigger x[i]] 0 <= i < x.len() implies same_value(
                x[i],
                z[i],
            ) by {
                assert(same_value(y[i], z[i]));
                law_sameness_is_transitive(x[i], y[i], z[i]);
            }
        },
        (JsonValue::Object(x), JsonValue::Object(y), JsonValue::Object(z)) => {
            law_objects_are_told_apart(x, y);
            law_objects_are_told_apart(y, z);
            assert forall|i: int| #![trigger x[i]] 0 <= i < x.len() implies stands_among(
                z,
                x[i].0,
                x[i].1,
            ) by {
                assert(stands_among(y, x[i].0, x[i].1));
                let j = choose|j: int|
                    #![trigger y[j]]
                    0 <= j < y.len() && y[j].0 == x[i].0 && same_value(x[i].1, y[j].1);
                assert(stands_among(z, y[j].0, y[j].1));
                let k = choose|k: int|
                    #![trigger z[k]]
                    0 <= k < z.len() && z[k].0 == y[j].0 && same_value(y[j].1, z[k].1);
                law_sameness_is_transitive(x[i].1, y[j].1, z[k].1);
                assert(z[k].0 == x[i].0);
            }
            law_objects_are_told_apart(x, z);
        },
        _ => {},
    }
}

/// A JSON value stands for what it holds: nothing of a switch, a number or a text is lost, an array
/// stands for its items and an object for its members, each at its place.
pub proof fn law_values_stand_for_themselves(
    b: bool,
    n: Number,
    text: String,
    items: Vec<Json>,
    members: Vec<Member>,
    i: int,
)
    ensures
        Json::Null@ == JsonValue::Null,
        Json::Bool(b)@ == JsonValue::Bool(b),
        Json::Number(n)@ == JsonValue::Number(n),
        Json::Text(text)@ == JsonValue::Text(text@),
        Json::Array(items)@ matches JsonValue::Array(values) && values.len() == items@.len() && (0
            <= i < items@.len() ==> values[i] == items@[i]@),
        Json::Object(members)@ matches JsonValue::Object(values) && values.len()
            == members@.len() && (0 <= i < members@.len() ==> values[i].0 == members@[i].key@
            && values[i].1 == members@[i].value@),
{
}

/// A pattern is a finite number where its exponent is not the highest there is, whatever its sign;
/// infinity is a number and not finite; and a finite number is a number.
pub proof fn law_finite_numbers_lie_below_infinity(a: Score)
    ensures
        a.is_finite_number() <==> a.bits < 0x7ff0_0000_0000_0000 || 0x8000_0000_0000_0000 <= a.bits
            < 0xfff0_0000_0000_0000,
        a.is_number() && !a.is_finite_number() <==> a.bits == 0x7ff0_0000_0000_0000 || a.bits
            == 0xfff0_0000_0000_0000,
{
}

/// The number that decimal digits stand for.
pub open spec fn number_of(digits: Seq<char>) -> int
    decreases digits.len(),
{
    if digits.len() == 0 {
        0
    } else {
        number_of(digits.drop_last()) * 10 + (digits.last() as u32 - '0' as u32)
    }
}

/// A number is written in digits that stand for it, without a zero in front.
pub proof fn law_digits_stand_for_the_number(n: nat)
    ensures
        number_of(decimal(n)) == n,
        decimal(n).len() > 0,
        decimal(n)[0] == '0' <==> n == 0,
        forall|i: int| 0 <= i < decimal(n).len() ==> '0' <= #[trigger] decimal(n)[i] <= '9',
    decreases n,
{
    if n >= 10 {
        law_digits_stand_for_the_number(n / 10);
        let front = decimal(n / 10);
        let last = digit(n % 10);
        assert(front.push(last).drop_last() =~= front);
    } else {
        assert(seq![digit(n)].drop_last() =~= Seq::<char>::empty());
        assert(number_of(Seq::<char>::empty()) == 0);
    }
}

/// Which kind of error it is, and the text that it came with, for those that came with one.
pub open spec fn reason_of(error: MemError) -> Option<(int, Seq<char>)> {
    match error {
        MemError::MalformedFact { reason } => Some((0, reason@)),
        MemError::SpawnBlocking { reason } => Some((1, reason@)),
        MemError::OracleError { reason } => Some((2, reason@)),
        MemError::PragmaInitFailed { reason } => Some((3, reason@)),
        MemError::Persistence { source } => Some((4, source@)),
        MemError::PendingStore { source } => Some((5, source@)),
        _ => None,
    }
}

/// Messages of one kind of error tell apart the texts that the errors came with.
pub proof fn law_messages_tell_reasons_apart(a: MemError, b: MemError, agent: Seq<char>)
    requires
        reason_of(a) is Some,
        reason_of(b) is Some,
        (reason_of(a)->0).0 == (reason_of(b)->0).0,
        (reason_of(a)->0).1 != (reason_of(b)->0).1,
    ensures
        a.message_for(agent) != b.message_for(agent),
{
    let x = (reason_of(a)->0).1;
    let y = (reason_of(b)->0).1;
    lemma_joined_texts_differ("Malformed fact: "@, x, y, Seq::empty());
    lemma_joined_texts_differ("spawn_blocking task failed: "@, x, y, Seq::empty());
    lemma_joined_texts_differ("Oracle port error: "@, x, y, Seq::empty());
    lemma_joined_texts_differ("SQLite PRAGMA initialization failed: "@, x, y, Seq::empty());
    lemma_joined_texts_differ("Persistence error: "@, x, y, Seq::empty());
    lemma_joined_texts_differ("Pending-adjudication store error: "@, x, y, Seq::empty());
}

/// The message of an error about an agent names the agent.
pub proof fn law_messages_name_the_agent(error: MemError, agent: Seq<char>, other: Seq<char>)
    requires
        agent != other,
        error is WriteAuthorityViolation || error is UnknownAgentId || error is WriteLockContention
            || error is AtomicCommitViolation || error is MonotonicityViolation,
    ensures
        error.agent() is Some,
        error.message_for(agent) != error.message_for(other),
{
    lemma_joined_texts_differ("AgentId("@, agent, other, ")"@);
    let a = "AgentId("@ + agent + ")"@;
    let b = "AgentId("@ + other + ")"@;
    lemma_joined_texts_differ(
        "Caller does not hold write authority for agent_id "@,
        a,
        b,
        Seq::empty(),
    );
    lemma_joined_texts_differ("Unknown or invalid agent_id: "@, a, b, Seq::empty());
    lemma_joined_texts_differ(
        "Write lock for agent_id "@,
        a,
        b,
        " is already held (single-writer-per-agent-id violation)"@,
    );
    lemma_joined_texts_differ(
        "Atomic commit unit violated: partial write detected for agent_id "@,
        a,
        b,
        Seq::empty(),
    );
    lemma_joined_texts_differ(
        "Fixed-history monotonicity violated: belief changed between reads without an intervening write for agent_id "@,
        a,
        b,
        Seq::empty(),
    );
}

proof fn lemma_joined_texts_differ(
    before: Seq<char>,
    x: Seq<char>,
    y: Seq<char>,
    behind: Seq<char>,
)
    requires
        x != y,
    ensures
        before + x + behind != before + y + behind,
        before + x != before + y,
{
    if before + x == before + y {
        assert(x =~= (before + x).skip(before.len() as int));
        assert(y =~= (before + y).skip(before.len() as int));
    }
    if before + x + behind == before + y + behind {
        assert((before + x + behind).len() == (before + y + behind).len());
        assert(x =~= (before + x + behind).subrange(
            before.len() as int,
            (before.len() + x.len()) as int,
        ));
        assert(y =~= (before + y + behind).subrange(
            before.len() as int,
            (before.len() + y.len()) as int,
        ));
    }
}

} // verus!
