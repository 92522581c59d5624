//! UUID text: which strings name a UUID, and fresh random identifiers.
use crate::text::{is_hex, lower};
use vstd::prelude::*;

verus! {

/// Lower-case hexadecimal digit.
pub open spec fn is_lower_hex(c: char) -> bool {
    ('0' <= c && c <= '9') || ('a' <= c && c <= 'f')
}

/// `8-4-4-4-12` hexadecimal digits.
pub open spec fn hyphenated_uuid(s: Seq<char>) -> bool {
    s.len() == 36 && forall|i: int|
        0 <= i < 36 ==> if i == 8 || i == 13 || i == 18 || i == 23 {
            #[trigger] s[i] == '-'
        } else {
            is_hex(s[i])
        }
}

/// The texts `uuid::Uuid::parse_str` accepts: 32 hexadecimal digits, the hyphenated form,
/// the hyphenated form in braces, or the hyphenated form behind a `urn:uuid:` prefix in
/// any letter case.
pub open spec fn uuid_text(s: Seq<char>) -> bool {
    ||| (s.len() == 32 && forall|i: int| 0 <= i < 32 ==> is_hex(#[trigger] s[i]))
    ||| hyphenated_uuid(s)
    ||| (s.len() == 38 && s[0] == '{' && s[37] == '}' && hyphenated_uuid(s.subrange(1, 37)))
    ||| (s.len() == 45 && lower(s.subrange(0, 9)) == "urn:uuid:"@ && hyphenated_uuid(
        s.subrange(9, 45),
    ))
}

/// The form `Uuid`'s `Display` impl prints: hyphenated, lower case.
pub open spec fn canonical_uuid(s: Seq<char>) -> bool {
    hyphenated_uuid(s) && forall|i: int| 0 <= i < 36 ==> (#[trigger] s[i] == '-' || is_lower_hex(s[i]))
}

/// The version and variant digits of a random (version 4, RFC 4122 variant) UUID: `4`
/// opens the third group, one of `8`, `9`, `a`, `b` the fourth.
pub open spec fn version4_digits(s: Seq<char>) -> bool {
    s.len() == 36 && s[14] == '4' && (s[19] == '8' || s[19] == '9' || s[19] == 'a' || s[19] == 'b')
}

/// Whether `uuid::Uuid::parse_str` accepts `s`. Its source (`parser.rs`, `try_parse`)
/// accepts inputs of 32, 36, 38 or 45 bytes in the four shapes `uuid_text` lists and
/// checks each digit with `decode_hex32`, which takes `0-9`, `a-f` and `A-F`.
#[verifier::external_body]
pub(crate) fn uuid_parses(s: &str) -> (r: bool)
    ensures
        r == uuid_text(s@),
{
    uuid::Uuid::parse_str(s).is_ok()
}

/// A random (version 4) UUID from `uuid::Uuid::new_v4`, in the text its `Display` impl
/// prints (`format_hyphenated`, lower case). Its source masks the random bits so that the
/// version nibble is 4 and the variant bits are `10`; which UUID comes back is left
/// open, so two calls are not stated to differ.
#[verifier::external_body]
pub(crate) fn new_uuid() -> (r: String)
    ensures
        canonical_uuid(r@),
        version4_digits(r@),
{
    uuid::Uuid::new_v4().to_string()
}

} // verus!
