//! Requester and courier ids. Inside the engine an id is a 128-bit number;
//! to the outside it is the text of a UUID.

use vstd::prelude::*;

verus! {

/// The lower-case hexadecimal digit for a value from 0 to 15.
pub open spec fn hex_digit(value: u128) -> char {
    if value < 10 {
        ((value + 48) as u8) as char
    } else {
        ((value + 87) as u8) as char
    }
}

/// The `k`-th of the 32 hexadecimal digits of `id`, the most significant
/// being the first.
pub open spec fn nibble(id: u128, k: int) -> u128 {
    (id >> (((31 - k) * 4) as u128)) & 0xf
}

/// The number of hyphens that stand before position `p` of the text.
pub open spec fn hyphens_before(p: int) -> int {
    if p < 8 {
        0
    } else if p < 13 {
        1
    } else if p < 18 {
        2
    } else if p < 23 {
        3
    } else {
        4
    }
}

/// The text of `id`: its 32 lower-case hexadecimal digits in groups of 8,
/// 4, 4, 4 and 12 with hyphens between the groups.
pub open spec fn hyphenated(id: u128) -> Seq<char> {
    Seq::new(
        36,
        |p: int|
            if p == 8 || p == 13 || p == 18 || p == 23 {
                '-'
            } else {
                hex_digit(nibble(id, p - hyphens_before(p)))
            },
    )
}

/// The id that a text stands for, if it is the text of a UUID in one of the
/// forms that the `uuid` crate reads.
pub uninterp spec fn uuid_parsed(text: Seq<char>) -> Option<u128>;

/// Trusted: formats `id` with `Uuid::to_string`, which writes the
/// hyphenated lower-case form.
#[verifier::external_body]
fn uuid_to_text(id: u128) -> (r: String)
    ensures
        r@ == hyphenated(id),
{
    uuid::Uuid::from_u128(id).to_string()
}

/// Trusted: reads `text` with `Uuid::parse_str`. What it accepts is left to
/// the crate; the result depends on the text alone.
#[verifier::external_body]
fn uuid_from_text(text: &str) -> (r: Option<u128>)
    ensures
        r == uuid_parsed(text@),
{
    match uuid::Uuid::parse_str(text) {
        Ok(id) => Some(id.as_u128()),
        Err(_) => None,
    }
}

/// The text of `id`.
pub fn id_text(id: u128) -> (r: String)
    ensures
        r@ == hyphenated(id),
        r@.len() == 36,
{
    uuid_to_text(id)
}

/// Reads an id from its text; `None` when the text is not that of a UUID.
pub fn parse_id(text: &str) -> (r: Option<u128>)
    ensures
        r == uuid_parsed(text@),
{
    uuid_from_text(text)
}

} // verus!
