//! Feed identifiers: 128-bit UUIDs, printed in the hyphenated form.
use vstd::arithmetic::power::*;
use vstd::prelude::*;

verus! {

/// Identifies a feed subscription.
#[derive(Debug, Clone, Copy, PartialEq, Eq, Hash, Structural)]
pub struct FeedId {
    pub bits: u128,
}

/// A lower-case hexadecimal digit.
pub open spec fn hex_char(d: int) -> char {
    if d < 10 {
        (48 + d) as char
    } else {
        (87 + d) as char
    }
}

/// The hexadecimal digit of `bits` at place `k`, counted from the most significant of 32.
pub open spec fn hex_place(bits: u128, k: int) -> char {
    hex_char((bits as int / pow(16, (31 - k) as nat)) % 16)
}

/// The hyphenated text of a UUID: 32 lower-case hexadecimal digits in groups of 8, 4, 4, 4
/// and 12.
pub open spec fn id_text(id: FeedId) -> Seq<char> {
    Seq::new(
        36,
        |i: int|
            if i == 8 || i == 13 || i == 18 || i == 23 {
                '-'
            } else if i < 8 {
                hex_place(id.bits, i)
            } else if i < 13 {
                hex_place(id.bits, i - 1)
            } else if i < 18 {
                hex_place(id.bits, i - 2)
            } else if i < 23 {
                hex_place(id.bits, i - 3)
            } else {
                hex_place(id.bits, i - 4)
            },
    )
}

/// Whether an identifier is a random UUID: version 4, with the variant of RFC 9562.
pub open spec fn is_v4(id: FeedId) -> bool {
    (id.bits >> 76) & 0xf == 4 && (id.bits >> 62) & 0x3 == 2
}

/// The UUID that `uuid::Uuid::parse_str` reads from a text, as a 128-bit number.
pub uninterp spec fn uuid_in(text: Seq<char>) -> Option<u128>;

/// The identifier that is read from a text.
pub open spec fn id_in(text: Seq<char>) -> Option<FeedId> {
    match uuid_in(text) {
        Some(bits) => Some(FeedId { bits }),
        None => None,
    }
}

/// `uuid::Uuid::new_v4` draws a random UUID: its version field is 4 and its variant field is
/// that of RFC 9562. It panics where the operating system gives no random bytes.
#[verifier::external_body]
fn random_uuid() -> (r: u128)
    ensures
        (r >> 76) & 0xf == 4,
        (r >> 62) & 0x3 == 2,
{
    uuid::Uuid::new_v4().as_u128()
}

/// `uuid::Uuid::to_string` prints a UUID in its hyphenated lower-case form.
#[verifier::external_body]
fn uuid_to_string(bits: u128) -> (r: String)
    ensures
        r@ == id_text(FeedId { bits }),
{
    uuid::Uuid::from_u128(bits).to_string()
}

/// `uuid::Uuid::parse_str` reads a UUID from a text; what it makes of a text depends on the text
/// alone, and the hyphenated lower-case form gives back the number it was printed from.
#[verifier::external_body]
fn uuid_parse(text: &str) -> (r: Option<u128>)
    ensures
        r == uuid_in(text@),
        forall|bits: u128| text@ == id_text(FeedId { bits }) ==> r == Some(bits),
{
    uuid::Uuid::parse_str(text).ok().map(|u| u.as_u128())
}

impl FeedId {
    /// Draws a random identifier (UUID version 4).
    pub fn generate() -> (r: FeedId)
        ensures
            is_v4(r),
    {
        FeedId { bits: random_uuid() }
    }

    /// The identifier as a hyphenated UUID.
    pub fn to_text(&self) -> (r: String)
        ensures
            r@ == id_text(*self),
    {
        uuid_to_string(self.bits)
    }

    /// Reads an identifier from a text, in any form that UUIDs are written in.
    pub fn parse(text: &str) -> (r: Option<FeedId>)
        ensures
            r == id_in(text@),
            forall|id: FeedId| text@ == id_text(id) ==> r == Some(id),
    {
        match uuid_parse(text) {
            Some(bits) => Some(FeedId { bits }),
            None => None,
        }
    }
}

} // verus!
