//! Application identifiers. An identifier is a 128-bit number; on the wire
//! and in messages it is written as 32 hexadecimal digits in five groups.

use vstd::prelude::*;

verus! {

/// 16 to the power `e`.
pub open spec fn pow16(e: nat) -> nat
    decreases e,
{
    if e == 0 {
        1
    } else {
        16 * pow16((e - 1) as nat)
    }
}

/// The `k`-th hexadecimal digit of `id`, counted from the most significant
/// digit, which is digit 0; `k` is below 32.
pub open spec fn hex_digit_of(id: u128, k: int) -> nat {
    ((id as nat) / pow16((31 - k) as nat)) % 16
}

/// The lower-case hexadecimal digit that writes `d`.
pub open spec fn hex_char(d: nat) -> char {
    if d < 10 {
        ((48 + d) as u8) as char
    } else {
        ((87 + d) as u8) as char
    }
}

/// How many hyphens stand before position `i` of a written identifier.
pub open spec fn hyphens_before(i: int) -> int {
    if i < 8 {
        0
    } else if i < 13 {
        1
    } else if i < 18 {
        2
    } else if i < 23 {
        3
    } else {
        4
    }
}

/// An identifier as it is written: 36 characters, the 32 lower-case
/// hexadecimal digits of the number from the most significant on, with a
/// hyphen after the digits 8, 12, 16 and 20.
pub open spec fn id_text(id: u128) -> Seq<char> {
    Seq::new(
        36,
        |i: int|
            if i == 8 || i == 13 || i == 18 || i == 23 {
                '-'
            } else {
                hex_char(hex_digit_of(id, i - hyphens_before(i)))
            },
    )
}

/// The identifier that a text writes, in any of the forms that
/// `uuid::Uuid::parse_str` reads; none where it reads none.
pub uninterp spec fn parsed_id(text: Seq<char>) -> Option<u128>;

/// `uuid::Uuid`'s `Display` writes the identifier in hyphenated lower-case
/// form; `Uuid::from_u128` takes the number's bytes from the most
/// significant on.
#[verifier::external_body]
pub(crate) fn format_id(id: u128) -> (text: String)
    ensures
        text@ == id_text(id),
{
    uuid::Uuid::from_u128(id).to_string()
}

/// `uuid::Uuid::parse_str` reads an identifier from a text or reports an
/// error; the contract names what it reads, as the number that
/// `Uuid::as_u128` gives.
#[verifier::external_body]
pub(crate) fn read_id(text: &str) -> (id: Option<u128>)
    ensures
        id == parsed_id(text@),
{
    match uuid::Uuid::parse_str(text) {
        Ok(parsed) => Some(parsed.as_u128()),
        Err(_) => None,
    }
}

/// Appends the written form of `id` to `out`.
pub fn push_id(out: &mut String, id: u128)
    ensures
        final(out)@ == old(out)@ + id_text(id),
{
    let text = format_id(id);
    crate::text::push_text(out, text.as_str());
}

/// The written form of `id`.
pub fn id_to_string(id: u128) -> (text: String)
    ensures
        text@ == id_text(id),
        text@.len() == 36,
{
    format_id(id)
}

/// Reads an identifier from a text.
pub fn parse_id(text: &str) -> (id: Option<u128>)
    ensures
        id == parsed_id(text@),
{
    read_id(text)
}

} // verus!
