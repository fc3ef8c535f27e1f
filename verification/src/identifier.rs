//! Identifiers: UUIDs, text at the boundary and 128-bit integers inside.
//!
//! Reading and writing the text of a UUID is left to the `uuid` crate. The
//! functions here carry an identifier as the integer that `Uuid::as_u128`
//! gives, so that the rest of the crate works on plain values.

use vstd::prelude::*;
use vstd::arithmetic::power::pow;
use crate::models::{DBError, DBErrorView};

verus! {

/// What `uuid::Uuid::parse_str` makes of `text`: the identifier it reads, as
/// the integer `Uuid::as_u128` gives for it, or `None` where it rejects the
/// text.
pub uninterp spec fn uuid_parse(text: Seq<char>) -> Option<u128>;

/// The sixteen digits of lower-case hexadecimal notation.
pub open spec fn lower_hex_digits() -> Seq<char> {
    seq!['0', '1', '2', '3', '4', '5', '6', '7', '8', '9', 'a', 'b', 'c', 'd', 'e', 'f']
}

/// The hexadecimal digit of `id` at `place`, counted from the most
/// significant one (place 0) to the least significant (place 31).
pub open spec fn hex_digit_at(id: u128, place: int) -> int {
    (id as int / pow(16, (31 - place) as nat)) % 16
}

/// Which of the 32 digits stands at position `i` of the hyphenated text; the
/// hyphens stand at positions 8, 13, 18 and 23.
pub open spec fn digit_place(i: int) -> int {
    if i < 8 {
        i
    } else if i < 13 {
        i - 1
    } else if i < 18 {
        i - 2
    } else if i < 23 {
        i - 3
    } else {
        i - 4
    }
}

/// Canonical text of an identifier: 32 lower-case hexadecimal digits, most
/// significant first, in groups of 8, 4, 4, 4 and 12 separated by hyphens.
pub open spec fn uuid_text(id: u128) -> Seq<char> {
    Seq::new(
        36,
        |i: int|
            if i == 8 || i == 13 || i == 18 || i == 23 {
                '-'
            } else {
                lower_hex_digits()[hex_digit_at(id, digit_place(i))]
            },
    )
}

/// Whether `text` is the text of some UUID, in any of the notations that the
/// `uuid` crate reads.
pub open spec fn is_uuid_text(text: Seq<char>) -> bool {
    uuid_parse(text) is Some
}

/// Whether `text` has one of the four lengths of the notations of a UUID: 32
/// characters without hyphens, 36 with them, 38 in braces, 45 as a URN.
pub open spec fn has_uuid_length(text: Seq<char>) -> bool {
    text.len() == 32 || text.len() == 36 || text.len() == 38 || text.len() == 45
}

/// Whether `text` is the canonical text of a UUID: the text that is written
/// for the identifier that is read from it.
pub open spec fn is_canonical_uuid_text(text: Seq<char>) -> bool {
    uuid_parse(text) matches Some(id) && text == uuid_text(id)
}

/// Calls `uuid::Uuid::parse_str` and hands the outcome back as a plain
/// value. Trusted: the result is, by definition, `uuid_parse` of the text;
/// and the parser accepts no text but one of 32, 36, 38 or 45 bytes, all of
/// them ASCII, so that the text has as many characters.
#[verifier::external_body]
pub(crate) fn parse_uuid(text: &str) -> (id: Option<u128>)
    ensures
        id == uuid_parse(text@),
        id is Some ==> has_uuid_length(text@),
{
    match uuid::Uuid::parse_str(text) {
        Ok(uuid) => Some(uuid.as_u128()),
        Err(_) => None,
    }
}

/// Writes an identifier with `Uuid`'s `Display`. Trusted: `Display` writes
/// the hyphenated lower-case notation, which is `uuid_text`, and
/// `Uuid::parse_str` reads that notation back to the same identifier.
#[verifier::external_body]
pub(crate) fn format_uuid(id: u128) -> (text: String)
    ensures
        text@ == uuid_text(id),
        uuid_parse(text@) == Some(id),
{
    uuid::Uuid::from_u128(id).to_string()
}

/// Draws a random identifier with `uuid::Uuid::new_v4`. Nothing is claimed
/// of the value: two calls may hand out the same one.
#[verifier::external_body]
pub(crate) fn new_uuid() -> u128 {
    uuid::Uuid::new_v4().as_u128()
}

/// Reads an identifier that arrived as text. Text that is not the text of a
/// UUID is refused with [`DBError::InvalidUUID`], which carries it unchanged;
/// text of another length than the four of a UUID is always refused.
pub fn parse_identifier(text: &str) -> (r: Result<u128, DBError>)
    ensures
        match uuid_parse(text@) {
            Some(id) => r == Ok::<u128, DBError>(id),
            None => r matches Err(e) && e@ == DBErrorView::InvalidUUID(text@),
        },
        r is Ok ==> has_uuid_length(text@),
{
    match parse_uuid(text) {
        Some(id) => Ok(id),
        None => Err(DBError::InvalidUUID(text.to_owned())),
    }
}

} // verus!
