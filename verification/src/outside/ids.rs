//! Random identifiers.
use vstd::prelude::*;
use super::web::lower_hex_digit;

verus! {

/// Whether a text is a hyphenated UUID in small letters of the given version.
pub open spec fn is_uuid(s: Seq<char>, version: char) -> bool {
    &&& s.len() == 36
    &&& s[8] == '-' && s[13] == '-' && s[18] == '-' && s[23] == '-'
    &&& s[14] == version
    &&& s[19] == '8' || s[19] == '9' || s[19] == 'a' || s[19] == 'b'
    &&& forall|i: int|
        0 <= i < 36 && i != 8 && i != 13 && i != 18 && i != 23 ==> lower_hex_digit(#[trigger] s[i])
}

/// Calls `uuid::Uuid::new_v4` and writes the identifier with hyphens. It is
/// random, so that only its shape is stated.
#[verifier::external_body]
pub(crate) fn random_uuid() -> (r: String)
    ensures
        is_uuid(r@, '4'),
{
    uuid::Uuid::new_v4().to_string()
}

/// Calls `uuid::Uuid::now_v7` and writes the identifier with hyphens. It rests on
/// the time and on chance, so that only its shape is stated.
#[verifier::external_body]
pub(crate) fn time_ordered_uuid() -> (r: String)
    ensures
        is_uuid(r@, '7'),
{
    uuid::Uuid::now_v7().to_string()
}

} // verus!
