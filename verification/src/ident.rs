//! Identifiers: UUIDs, held as 128-bit numbers in big-endian order.
use vstd::arithmetic::power::pow;
use vstd::prelude::*;

verus! {

/// Identifies a claim. Assigned when the claim is minted, and never reassigned.
#[derive(Clone, Copy, Debug, PartialEq, Eq, Structural, PartialOrd, Ord, Hash)]
pub struct ClaimRef(pub u128);

/// Whether the number has the version and variant bits of a random UUID.
pub open spec fn is_random_uuid(id: u128) -> bool {
    &&& (id / 0x1000_0000_0000_0000_0000) % 16 == 4
    &&& (id / 0x4000_0000_0000_0000) % 4 == 2
}

/// The lower-case hexadecimal digit for a number below sixteen.
pub open spec fn hex_digit(n: int) -> char {
    if n < 10 {
        (('0' as u32) + n) as char
    } else {
        (('a' as u32) + n - 10) as char
    }
}

/// Whether the hyphenated form of a UUID has a hyphen at this place.
pub open spec fn is_hyphen_place(place: int) -> bool {
    place == 8 || place == 13 || place == 18 || place == 23
}

/// How many hexadecimal digits stand before this place of the hyphenated form.
pub open spec fn digits_before(place: int) -> int {
    if place <= 8 {
        place
    } else if place <= 13 {
        place - 1
    } else if place <= 18 {
        place - 2
    } else if place <= 23 {
        place - 3
    } else {
        place - 4
    }
}

/// The hyphenated form of a UUID: its 32 hexadecimal digits, the highest first, in groups of 8, 4,
/// 4, 4 and 12.
pub open spec fn hyphenated(id: u128) -> Seq<char> {
    Seq::new(
        36,
        |place: int|
            if is_hyphen_place(place) {
                '-'
            } else {
                hex_digit((id as int / pow(16, (31 - digits_before(place)) as nat)) % 16)
            },
    )
}

/// Calls `uuid::Uuid::new_v4`: a random number with the version and variant bits of a random UUID
/// set. Nothing more is said of the number: it comes from the operating system, and the call
/// aborts where the system has no randomness to give.
#[verifier::external_body]
pub(crate) fn fresh_id() -> (id: u128)
    ensures
        is_random_uuid(id),
{
    uuid::Uuid::new_v4().as_u128()
}

/// Calls the `Display` form of `uuid::Uuid`: the hyphenated lower-case form.
#[verifier::external_body]
fn display_uuid(id: u128) -> (r: String)
    ensures
        r@ == hyphenated(id),
{
    uuid::Uuid::from_u128(id).to_string()
}

/// The hyphenated text of an identifier.
pub fn id_text(id: u128) -> (r: String)
    ensures
        r@ == hyphenated(id),
{
    display_uuid(id)
}

impl ClaimRef {
    /// A new reference, with a random UUID.
    pub fn new_random() -> (r: ClaimRef)
        ensures
            is_random_uuid(r.0),
    {
        ClaimRef(fresh_id())
    }
}

/// A random UUID is never the nil UUID.
pub proof fn law_random_uuid_is_not_nil(id: u128)
    requires
        is_random_uuid(id),
    ensures
        id != 0,
{
}

} // verus!
