//! Service identifiers: 128-bit values drawn as random (version 4) UUIDs,
//! written and read in the UUID text forms.
use vstd::prelude::*;

verus! {

/// Lower-case hexadecimal digit for a value below sixteen.
pub open spec fn hex_digit(d: u128) -> char {
    seq!['0', '1', '2', '3', '4', '5', '6', '7', '8', '9', 'a', 'b', 'c', 'd', 'e', 'f'][d as int]
}

/// The `k`-th four-bit digit of `id`, counted from the most significant one (`k < 32`).
pub open spec fn nibble(id: u128, k: int) -> u128 {
    (id >> ((124 - 4 * k) as u128)) & 0xfu128
}

/// Number of hyphens that precede position `p` of the hyphenated form.
pub open spec fn hyphens_before(p: int) -> int {
    if p < 8 {
        0
    } else if p < 13 {
        1
    } else if p < 18 {
        2
    } else if p < 23 {
        3
    } else {
        4
    }
}

/// The hyphenated lower-case text of an identifier: 32 hexadecimal digits,
/// most significant first, in groups of 8, 4, 4, 4 and 12 separated by `-`.
pub open spec fn hyphenated(id: u128) -> Seq<char> {
    Seq::new(
        36,
        |p: int|
            if p == 8 || p == 13 || p == 18 || p == 23 {
                '-'
            } else {
                hex_digit(nibble(id, p - hyphens_before(p)))
            },
    )
}

/// What `uuid::Uuid::parse_str` yields for a text, as a 128-bit value.
pub uninterp spec fn parsed_id(s: Seq<char>) -> Option<u128>;

/// Relies on `uuid::Uuid::new_v4`: a random identifier whose version digit is 4
/// and whose variant bits are `10`.
#[verifier::external_body]
pub(crate) fn random_id() -> (r: u128)
    ensures
        (r >> 76u128) & 0xfu128 == 4u128,
        (r >> 62u128) & 0x3u128 == 2u128,
{
    uuid::Uuid::new_v4().as_u128()
}

/// Relies on the `Display` impl of `uuid::Uuid` (built by `Uuid::from_u128`),
/// which writes the hyphenated lower-case form.
#[verifier::external_body]
pub(crate) fn id_text(id: u128) -> (r: String)
    ensures
        r@ == hyphenated(id),
{
    uuid::Uuid::from_u128(id).to_string()
}

/// Relies on `uuid::Uuid::parse_str`, read back with `Uuid::as_u128`; a parse
/// error becomes `None`. The hyphenated form is one of the forms it reads.
#[verifier::external_body]
pub(crate) fn parse_id(s: &str) -> (r: Option<u128>)
    ensures
        r == parsed_id(s@),
        forall|id: u128| s@ == hyphenated(id) ==> r == Some(id),
{
    uuid::Uuid::parse_str(s).ok().map(|u| u.as_u128())
}

} // verus!
