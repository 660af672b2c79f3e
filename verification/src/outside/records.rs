//! JSON records and patterns.
use vstd::prelude::*;
use crate::text::chars::ascii_digit;

verus! {

/// The string that a JSON object, given as bytes, has as a member; `None` where
/// `serde_json` does not take the bytes for JSON, where they are no object,
/// where the object has no such member, or where the member is no string.
pub uninterp spec fn json_text_member(bytes: Seq<u8>, name: Seq<char>) -> Option<Seq<char>>;

/// Calls `serde_json::from_slice` and reads the member with `get` and `as_str`.
#[verifier::external_body]
pub(crate) fn read_json_text_member(bytes: &[u8], name: &str) -> (r: Option<String>)
    ensures
        r.deep_view() == json_text_member(bytes@, name@),
{
    let value = serde_json::from_slice::<serde_json::Value>(bytes).ok()?;
    value.get(name)?.as_str().map(str::to_owned)
}

/// The log messages of sandbox denials: the process, its number in parentheses,
/// and what was denied.
pub const DENIAL_PATTERN: &'static str = "^Sandbox:\\s*(.+?)\\((\\d+)\\)\\s+deny\\(.*?\\)\\s*(.+)$";

/// The first three groups of the first match of a pattern in a text, as
/// `regex_lite` finds them; `None` where the pattern is none, where it does not
/// match, or where one of the groups takes no part in the match.
pub uninterp spec fn pattern_groups(pattern: Seq<char>, text: Seq<char>) -> Option<
    (Seq<char>, Seq<char>, Seq<char>),
>;

/// Calls `regex_lite::Regex::new` and `captures` and reads the groups. Of the
/// denial pattern it is stated besides that its groups stand one behind another
/// in the text, and that the second is made of digits.
#[verifier::external_body]
pub(crate) fn match_groups(pattern: &str, text: &str) -> (r: Option<(String, String, String)>)
    ensures
        match r {
            Some((a, b, c)) => pattern_groups(pattern@, text@) == Some((a@, b@, c@)) && (pattern@
                == DENIAL_PATTERN@ ==> a@.len() + b@.len() + c@.len() <= text@.len() && (
            forall|i: int| 0 <= i < b@.len() ==> ascii_digit(#[trigger] b@[i]))),
            None => pattern_groups(pattern@, text@) is None,
        },
{
    let groups = regex_lite::Regex::new(pattern).ok()?.captures(text)?;
    let (a, b, c) = (groups.get(1)?, groups.get(2)?, groups.get(3)?);
    Some((a.as_str().to_owned(), b.as_str().to_owned(), c.as_str().to_owned()))
}

} // verus!
