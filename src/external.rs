//! Calls into outside crates, each behind a contract.
use vstd::prelude::*;

verus! {

/// Lowercase hexadecimal digit for a value below 16.
pub open spec fn hex_char(d: u128) -> char {
    if d < 10 {
        (d + 48) as char
    } else {
        (d + 87) as char
    }
}

/// The 32 hexadecimal digits of an id, most significant first.
pub open spec fn hex_digits(id: u128) -> Seq<char> {
    Seq::new(32, |k: int| hex_char((id >> ((31 - k) * 4) as u128) & 0xf))
}

/// The hyphenated text form of a UUID: groups of 8, 4, 4, 4 and 12 digits.
pub open spec fn hyphenated(id: u128) -> Seq<char> {
    let h = hex_digits(id);
    h.subrange(0, 8) + seq!['-'] + h.subrange(8, 12) + seq!['-'] + h.subrange(12, 16) + seq!['-']
        + h.subrange(16, 20) + seq!['-'] + h.subrange(20, 32)
}

/// Relies on `uuid::Uuid::from_u128` (big-endian bytes of the value) and on
/// `Uuid`'s `Display`, which writes the lowercase hyphenated form.
#[verifier::external_body]
pub(crate) fn uuid_text(id: u128) -> (r: String)
    ensures
        r@ == hyphenated(id),
{
    uuid::Uuid::from_u128(id).to_string()
}

} // verus!
