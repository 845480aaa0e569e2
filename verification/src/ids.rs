//! Trade, ticket and request identifiers: 128-bit UUIDs and their text.

use vstd::arithmetic::power::pow;
use vstd::prelude::*;

verus! {

/// The lower-case hexadecimal digit of `d`, for `0 <= d < 16`.
pub open spec fn hex_digit(d: int) -> char {
    if d < 10 {
        (('0' as int) + d) as char
    } else {
        (('a' as int) + d - 10) as char
    }
}

/// The 32 hexadecimal digits of `v`, most significant first.
pub open spec fn uuid_hex(v: u128) -> Seq<char> {
    Seq::new(32, |k: int| hex_digit((v as int / pow(16, (31 - k) as nat)) % 16))
}

/// The hyphenated lower-case text of the UUID `v`, such as
/// `67e55044-10b1-426f-9247-bb680e5fe0c8`: its digits in groups of 8, 4, 4,
/// 4 and 12.
pub open spec fn uuid_text(v: u128) -> Seq<char> {
    let h = uuid_hex(v);
    h.subrange(0, 8) + seq!['-'] + h.subrange(8, 12) + seq!['-'] + h.subrange(12, 16) + seq!['-']
        + h.subrange(16, 20) + seq!['-'] + h.subrange(20, 32)
}

/// Whether `text` is the hyphenated lower-case text of some UUID.
pub open spec fn is_uuid_text(text: Seq<char>) -> bool {
    exists|v: u128| #[trigger] uuid_text(v) == text
}

/// The UUID that `uuid::Uuid::parse_str` reads from `text`, as the integer
/// of its 16 bytes taken most significant first; `None` where it refuses the
/// text.
pub uninterp spec fn uuid_parse(text: Seq<char>) -> Option<u128>;

/// Reads a UUID with `uuid::Uuid::parse_str`, which accepts the simple,
/// hyphenated, URN and braced forms. The contract claims that the outcome is
/// a function of the text (the name `uuid_parse`), that the error carries
/// the parser's message, and, as the crate documents, that the hyphenated
/// text it prints is read back as the same UUID.
#[verifier::external_body]
pub(crate) fn parse_uuid(text: &str) -> (r: Result<u128, String>)
    ensures
        r is Ok == uuid_parse(text@) is Some,
        r matches Ok(v) ==> uuid_parse(text@) == Some(v),
        is_uuid_text(text@) ==> r is Ok && uuid_text(r->Ok_0) == text@,
{
    uuid::Uuid::parse_str(text).map(|u| u.as_u128()).map_err(|e| e.to_string())
}

/// Prints the UUID `v` with `uuid::Uuid`'s `Display`, the hyphenated
/// lower-case form.
#[verifier::external_body]
pub(crate) fn uuid_string(v: u128) -> (r: String)
    ensures
        r@ == uuid_text(v),
{
    uuid::Uuid::from_u128(v).to_string()
}

} // verus!
