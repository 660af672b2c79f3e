//! The calls into other crates, and into parts of the standard library that
//! have no specification of their own.
//!
//! Every function here only converts and calls; its contract is taken on trust.
use vstd::prelude::*;
use vstd::utf8::decode_utf8;
use vstd::utf8::valid_utf8;

pub mod encoding;
pub mod ids;
pub mod noise;
pub mod records;
pub mod shell;
pub mod web;

verus! {

/// Calls `String::from_utf8`: the bytes become a text exactly when they are
/// valid UTF-8, and the text is the one that they encode.
#[verifier::external_body]
pub(crate) fn text_from_utf8(bytes: Vec<u8>) -> (r: Option<String>)
    ensures
        match r {
            Some(s) => valid_utf8(bytes@) && s@ == decode_utf8(bytes@),
            None => !valid_utf8(bytes@),
        },
{
    String::from_utf8(bytes).ok()
}

/// `String::push` appends the given character to the end of the string.
pub assume_specification[ String::push ](s: &mut String, c: char)
    ensures
        final(s)@ == old(s)@.push(c),
;

/// Whether a number is a Unicode scalar value.
pub open spec fn is_scalar_value(n: int) -> bool {
    0 <= n <= 0xd7ff || 0xe000 <= n <= 0x10ffff
}

/// `char::from_u32` makes a character of a number that is a Unicode scalar
/// value: at most 0x10FFFF and no surrogate.
pub assume_specification[ char::from_u32 ](i: u32) -> (r: Option<char>)
    ensures
        match r {
            Some(c) => c == i as char && is_scalar_value(i as int),
            None => !is_scalar_value(i as int),
        },
;

} // verus!
