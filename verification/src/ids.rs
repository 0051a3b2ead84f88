//! Identifiers of jobs and connections: random 128-bit numbers, written in
//! the hyphenated form of a UUID.

use vstd::prelude::*;

verus! {

/// The character of a hexadecimal digit, in lower case.
pub open spec fn hex_char(digit: u128) -> char {
    if digit < 10 {
        (48 + digit) as char
    } else {
        (87 + digit) as char
    }
}

/// The hexadecimal digit of `id` at position `k`, counted from the left of
/// its 32 digits.
pub open spec fn hex_digit(id: u128, k: int) -> char {
    hex_char((id >> ((4 * (31 - k)) as u128)) & 0xf)
}

/// The hyphenated form of an identifier: its 32 hexadecimal digits in lower
/// case, in groups of 8, 4, 4, 4 and 12 with a hyphen between them.
pub open spec fn uuid_text(id: u128) -> Seq<char> {
    Seq::new(
        36,
        |i: int|
            if i == 8 || i == 13 || i == 18 || i == 23 {
                '-'
            } else if i < 8 {
                hex_digit(id, i)
            } else if i < 13 {
                hex_digit(id, i - 1)
            } else if i < 18 {
                hex_digit(id, i - 2)
            } else if i < 23 {
                hex_digit(id, i - 3)
            } else {
                hex_digit(id, i - 4)
            },
    )
}

/// Whether a number carries the version and the variant of a random UUID.
pub open spec fn is_random_uuid(id: u128) -> bool {
    id & 0x0000_0000_0000_f000_c000_0000_0000_0000u128
        == 0x0000_0000_0000_4000_8000_0000_0000_0000u128
}

/// `uuid::Uuid::new_v4`, taken as a number by `as_u128`: a random
/// identifier. Of its bits the contract states only the version and the
/// variant, which are those of a random UUID whatever the others are.
#[verifier::external_body]
fn random_uuid() -> (id: u128)
    ensures
        is_random_uuid(id),
{
    uuid::Uuid::new_v4().as_u128()
}

/// `uuid::Uuid::to_string` on the UUID made by `from_u128`: the hyphenated
/// form of `id`, 36 characters that are the 32 hexadecimal digits of `id`
/// from the most significant on, in lower case, with hyphens after the
/// digits 8, 12, 16 and 20.
#[verifier::external_body]
fn write_uuid(id: u128) -> (text: String)
    ensures
        text@ == uuid_text(id),
{
    uuid::Uuid::from_u128(id).to_string()
}

/// A fresh random identifier.
pub fn new_id() -> (id: u128)
    ensures
        is_random_uuid(id),
{
    random_uuid()
}

/// The hyphenated form of `id`.
pub fn id_text(id: u128) -> (text: String)
    ensures
        text@ == uuid_text(id),
        text@.len() == 36,
{
    write_uuid(id)
}

} // verus!
