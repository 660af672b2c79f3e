//! Shell words.
use vstd::prelude::*;

verus! {

/// The words that `shlex` splits a command into by the rules of the POSIX shell;
/// `None` where a quotation is open or a backslash stands at the end.
pub uninterp spec fn shell_words(command: Seq<char>) -> Option<Seq<Seq<char>>>;

/// Calls `shlex::split`.
#[verifier::external_body]
pub(crate) fn split_shell_words(command: &str) -> (r: Option<Vec<String>>)
    ensures
        r.deep_view() == shell_words(command@),
{
    shlex::split(command)
}

} // verus!
