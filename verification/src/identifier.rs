//! The text of customer and vessel identifiers.

use vstd::prelude::*;

verus! {

/// The sixteen hexadecimal digits, in lower case.
pub open spec fn hex_digits() -> Seq<char> {
    seq!['0', '1', '2', '3', '4', '5', '6', '7', '8', '9', 'a', 'b', 'c', 'd', 'e', 'f']
}

/// Digit `place` of the 32 hexadecimal digits of `id`, counted from the most
/// significant one.
pub open spec fn hex_digit_at(id: u128, place: int) -> char {
    hex_digits()[((id >> ((4 * (31 - place)) as u128)) & 0xf) as int]
}

/// How many hyphens stand before place `at` of a hyphenated identifier.
pub open spec fn hyphens_before(at: int) -> int {
    if at < 8 {
        0
    } else if at < 13 {
        1
    } else if at < 18 {
        2
    } else if at < 23 {
        3
    } else {
        4
    }
}

/// The text of the identifier with the value `id`: its 32 hexadecimal digits
/// in groups of 8, 4, 4, 4 and 12, with a hyphen between two groups.
pub open spec fn hyphenated(id: u128) -> Seq<char> {
    Seq::new(
        36,
        |at: int|
            if at == 8 || at == 13 || at == 18 || at == 23 {
                '-'
            } else {
                hex_digit_at(id, at - hyphens_before(at))
            },
    )
}

/// Calls `uuid::Uuid::from_u128` and the `Display` of the `Uuid` it makes.
/// `from_u128` takes the bytes of `id` from the most significant one, and
/// `Display` writes them as `Uuid::hyphenated` does: two lower-case
/// hexadecimal digits a byte, and a hyphen after the bytes 4, 6, 8 and 10.
#[verifier::external_body]
pub(crate) fn identifier_text(id: u128) -> (text: String)
    ensures
        text@ == hyphenated(id),
{
    uuid::Uuid::from_u128(id).to_string()
}

} // verus!
