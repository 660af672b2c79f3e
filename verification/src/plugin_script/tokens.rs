//! The words of a single command. Commands that run more than one process are
//! refused, since an event can stand for one process only.
use vstd::prelude::*;
use super::file_name::file_name;
use super::file_name::file_name_of;
use super::file_name::Platform;
use crate::outside::shell::shell_words;
use crate::outside::shell::split_shell_words;
use crate::text::chars::ascii_alphabetic;
use crate::text::chars::ascii_alphanumeric;
use crate::text::chars::chars_of;
use crate::text::chars::is_ascii_alphabetic;
use crate::text::chars::is_ascii_alphanumeric;
use crate::text::chars::is_text;
use crate::text::chars::is_whitespace;
use crate::text::chars::whitespace;
use crate::text::search::begins_with_text;
use crate::text::search::starts_with;
use crate::text::split::copied;
use crate::text::split::pieces;
use crate::text::split::split_first;
use crate::text::split::split_once;
use crate::text::split::to_char_lists;
use crate::text::split::to_strings;

verus! {

/// Whether the rest of a command, read from the given state, has an operator
/// outside quotations that joins commands, or ends inside a quotation or behind
/// a backslash. An ampersand next to `>` redirects and joins nothing.
pub open spec fn compound_from(
    s: Seq<char>,
    quote: Option<char>,
    escaped: bool,
    before: Option<char>,
) -> bool
    decreases s.len(),
{
    if s.len() == 0 {
        quote is Some || escaped
    } else {
        let c = s[0];
        let rest = s.skip(1);
        if escaped {
            compound_from(rest, quote, false, before)
        } else if quote is Some {
            if quote == Some('"') && c == '\\' {
                compound_from(rest, quote, true, before)
            } else if quote == Some(c) {
                compound_from(rest, None, false, before)
            } else {
                compound_from(rest, quote, false, before)
            }
        } else if c == '|' || c == ';' || c == '\r' || c == '\n' {
            true
        } else if c == '&' && before != Some('>') && !(rest.len() > 0 && rest[0] == '>') {
            true
        } else {
            compound_from(
                rest,
                if c == '\'' || c == '"' {
                    Some(c)
                } else {
                    None
                },
                c == '\\',
                if whitespace(c) {
                    before
                } else {
                    Some(c)
                },
            )
        }
    }
}

/// Whether a command joins several commands, or is not complete.
pub open spec fn is_compound(command: Seq<char>) -> bool {
    compound_from(command, None, false, None)
}

/// Whether a command joins several commands, or is not complete.
pub fn has_unquoted_compound_operator(command: &str) -> (r: bool)
    ensures
        r == is_compound(command@),
{
    let s = chars_of(command);
    let mut quote: Option<char> = None;
    let mut escaped = false;
    let mut before: Option<char> = None;
    let mut i: usize = 0;
    assert(s@.skip(0) == s@);
    while i < s.len()
        invariant
            i <= s@.len(),
            s@ == command@,
            is_compound(command@) == compound_from(s@.skip(i as int), quote, escaped, before),
        decreases s@.len() - i,
    {
        let c = s[i];
        assert(s@.skip(i as int)[0] == c);
        assert(s@.skip(i as int).skip(1) == s@.skip(i + 1));
        i += 1;
        if escaped {
            escaped = false;
            continue;
        }
        if let Some(active) = quote {
            if active == '"' && c == '\\' {
                escaped = true;
            } else if c == active {
                quote = None;
            }
            continue;
        }
        if c == '|' || c == ';' || c == '\r' || c == '\n' {
            return true;
        }
        if c == '&' {
            let after_redirection = match before {
                Some(b) => b == '>',
                None => false,
            };
            let before_redirection = i < s.len() && s[i] == '>';
            if !after_redirection && !before_redirection {
                return true;
            }
        }
        if c == '\'' || c == '"' {
            quote = Some(c);
        } else if c == '\\' {
            escaped = true;
        }
        if !is_whitespace(c) {
            before = Some(c);
        }
    }
    quote.is_some() || escaped
}

/// The words of the rest of a Windows command, where `words` are those that are
/// complete, `word` is the one that is being read, `open` tells whether one is
/// being read, and `quote` is the quotation mark that has to be closed.
pub open spec fn windows_words_from(
    s: Seq<char>,
    words: Seq<Seq<char>>,
    word: Seq<char>,
    open: bool,
    quote: Option<char>,
) -> Option<Seq<Seq<char>>>
    decreases s.len(),
{
    if s.len() == 0 {
        if quote is Some {
            None
        } else if open {
            Some(words.push(word))
        } else if words.len() == 0 {
            None
        } else {
            Some(words)
        }
    } else {
        let c = s[0];
        let rest = s.skip(1);
        if quote is Some {
            if c == '`' {
                if rest.len() == 0 {
                    None
                } else {
                    windows_words_from(rest.skip(1), words, word.push(rest[0]), open, quote)
                }
            } else if quote == Some(c) {
                if rest.len() > 0 && rest[0] == c {
                    windows_words_from(rest.skip(1), words, word.push(c), open, quote)
                } else {
                    windows_words_from(rest, words, word, open, None)
                }
            } else {
                windows_words_from(rest, words, word.push(c), open, quote)
            }
        } else if c == '\'' || c == '"' {
            windows_words_from(rest, words, word, true, Some(c))
        } else if c == '`' {
            if rest.len() == 0 {
                None
            } else {
                windows_words_from(rest.skip(1), words, word.push(rest[0]), true, None)
            }
        } else if c == ' ' || c == '\t' {
            if open {
                windows_words_from(rest, words.push(word), Seq::empty(), false, None)
            } else {
                windows_words_from(rest, words, word, false, None)
            }
        } else if c == '&' && words.len() == 0 && !open {
            if rest.len() > 0 && whitespace(rest[0]) {
                windows_words_from(rest, words, word, open, None)
            } else {
                None
            }
        } else if c == '&' || c == '|' || c == ';' || c == '\r' || c == '\n' {
            None
        } else {
            windows_words_from(rest, words, word.push(c), true, None)
        }
    }
}

/// The words of a Windows command.
pub open spec fn windows_words(command: Seq<char>) -> Option<Seq<Seq<char>>> {
    windows_words_from(command, Seq::empty(), Seq::empty(), false, None)
}

/// Splits one plain PowerShell-style command. Backslashes are no escapes, and a
/// call operator may stand before the first word.
pub fn split_windows_command(command: &str) -> (r: Option<Vec<String>>)
    ensures
        r.deep_view() == windows_words(command@),
{
    match windows_command_words(&chars_of(command)) {
        Some(words) => Some(to_strings(&words)),
        None => None,
    }
}

/// Splits one plain PowerShell-style command.
fn windows_command_words(s: &[char]) -> (r: Option<Vec<Vec<char>>>)
    ensures
        match r {
            Some(words) => windows_words(s@) == Some(pieces(words@)),
            None => windows_words(s@) is None,
        },
{
    let mut words: Vec<Vec<char>> = Vec::new();
    let mut word: Vec<char> = Vec::new();
    let mut open = false;
    let mut quote: Option<char> = None;
    let mut i: usize = 0;
    assert(s@.skip(0) == s@);
    assert(pieces(words@) =~= Seq::<Seq<char>>::empty());
    while i < s.len()
        invariant
            i <= s@.len(),
            windows_words(s@) == windows_words_from(
                s@.skip(i as int),
                pieces(words@),
                word@,
                open,
                quote,
            ),
        decreases s@.len() - i,
    {
        let c = s[i];
        let ghost rest = s@.skip(i + 1);
        assert(s@.skip(i as int)[0] == c);
        assert(s@.skip(i as int).skip(1) == rest);
        assert(i + 1 < s@.len() ==> rest.skip(1) == s@.skip(i + 2));
        i += 1;
        if let Some(active) = quote {
            if c == '`' {
                if i == s.len() {
                    return None;
                }
                word.push(s[i]);
                i += 1;
            } else if c == active {
                if i < s.len() && s[i] == active {
                    word.push(active);
                    i += 1;
                } else {
                    quote = None;
                }
            } else {
                word.push(c);
            }
            continue;
        }
        if c == '\'' || c == '"' {
            quote = Some(c);
            open = true;
        } else if c == '`' {
            if i == s.len() {
                return None;
            }
            word.push(s[i]);
            open = true;
            i += 1;
        } else if c == ' ' || c == '\t' {
            if open {
                let ghost before = words@;
                let ghost done = word@;
                words.push(word);
                assert(pieces(words@) =~= pieces(before).push(done));
                word = Vec::new();
                assert(word@ == Seq::<char>::empty());
                open = false;
            }
        } else if c == '&' && words.len() == 0 && !open {
            if !(i < s.len() && is_whitespace(s[i])) {
                return None;
            }
        } else if c == '&' || c == '|' || c == ';' || c == '\r' || c == '\n' {
            return None;
        } else {
            word.push(c);
            open = true;
        }
    }
    assert(s@.skip(i as int).len() == 0);
    if quote.is_some() {
        return None;
    }
    if open {
        let ghost before = words@;
        let ghost done = word@;
        words.push(word);
        assert(pieces(words@) =~= pieces(before).push(done));
    }
    if words.len() == 0 {
        None
    } else {
        Some(words)
    }
}

/// Whether a text may name an environment variable.
pub open spec fn is_variable_name(name: Seq<char>) -> bool {
    &&& name.len() > 0
    &&& name[0] == '_' || ascii_alphabetic(name[0])
    &&& forall|i: int| 0 < i < name.len() ==> #[trigger] name[i] == '_' || ascii_alphanumeric(name[i])
}

/// Whether a word assigns an environment variable.
pub open spec fn is_assignment(word: Seq<char>) -> bool {
    split_once(word, '=') matches Some((name, _)) && is_variable_name(name)
}

/// Whether a word assigns an environment variable.
pub fn is_env_assignment(token: &[char]) -> (r: bool)
    ensures
        r == is_assignment(token@),
{
    let name = match split_first(token, '=') {
        Some((name, _)) => name,
        None => {
            return false;
        },
    };
    if name.len() == 0 {
        return false;
    }
    if name[0] != '_' && !is_ascii_alphabetic(name[0]) {
        return false;
    }
    let mut i: usize = 1;
    while i < name.len()
        invariant
            1 <= i <= name@.len(),
            split_once(token@, '=') matches Some((n, _)) && n == name@,
            name@[0] == '_' || ascii_alphabetic(name@[0]),
            forall|j: int| 0 < j < i ==> #[trigger] name@[j] == '_' || ascii_alphanumeric(name@[j]),
        decreases name@.len() - i,
    {
        if name[i] != '_' && !is_ascii_alphanumeric(name[i]) {
            return false;
        }
        i += 1;
    }
    true
}

/// The words behind the assignments at the beginning.
pub open spec fn after_assignments(words: Seq<Seq<char>>) -> Seq<Seq<char>>
    decreases words.len(),
{
    if words.len() > 0 && is_assignment(words[0]) {
        after_assignments(words.skip(1))
    } else {
        words
    }
}

/// Whether an option of `env` changes how the words behind it are read or found.
pub open spec fn changes_reading(word: Seq<char>) -> bool {
    ||| word == "-C"@
    ||| word == "--chdir"@
    ||| word == "-S"@
    ||| word == "--split-string"@
    ||| starts_with(word, "--chdir="@)
    ||| starts_with(word, "--split-string="@)
    ||| (starts_with(word, "-C"@) && word.len() > 2)
    ||| (starts_with(word, "-S"@) && word.len() > 2)
}

/// Whether an option of `env` stands alone.
pub open spec fn is_plain_env_option(word: Seq<char>) -> bool {
    word == "-i"@ || word == "--ignore-environment"@ || word == "-0"@ || word == "--null"@
}

/// The command that `env` runs, given the words behind `env`; `None` where its
/// options cannot be followed.
pub open spec fn after_env(words: Seq<Seq<char>>) -> Option<Seq<Seq<char>>>
    decreases words.len(),
{
    if words.len() == 0 {
        Some(words)
    } else {
        let word = words[0];
        if is_assignment(word) || is_plain_env_option(word) {
            after_env(words.skip(1))
        } else if word == "-u"@ || word == "--unset"@ {
            if words.len() < 2 {
                None
            } else {
                after_env(words.skip(2))
            }
        } else if changes_reading(word) {
            None
        } else if word == "--"@ {
            Some(words.skip(1))
        } else if starts_with(word, "-"@) {
            None
        } else {
            Some(words)
        }
    }
}

/// The program and arguments that the words of a POSIX command run.
pub open spec fn run_words(words: Seq<Seq<char>>) -> Option<Seq<Seq<char>>> {
    let words = after_assignments(words);
    let run = if words.len() > 0 && file_name_of(Platform::Unix, words[0]) == Some("env"@) {
        after_env(words.skip(1))
    } else {
        Some(words)
    };
    match run {
        Some(words) if words.len() > 0 => Some(words),
        _ => None,
    }
}

/// The program and arguments that a command runs; `None` where it runs nothing,
/// more than one process, or something that cannot be followed.
pub open spec fn command_words(platform: Platform, command: Seq<char>) -> Option<Seq<Seq<char>>> {
    match platform {
        Platform::Windows => windows_words(command),
        Platform::Unix => if is_compound(command) {
            None
        } else {
            match shell_words(command) {
                Some(words) => run_words(words),
                None => None,
            }
        },
    }
}

/// The program and arguments that a command runs.
pub fn command_tokens(platform: Platform, command: &str) -> (r: Option<Vec<Vec<char>>>)
    ensures
        match r {
            Some(words) => command_words(platform, command@) == Some(pieces(words@)),
            None => command_words(platform, command@) is None,
        },
{
    match platform {
        Platform::Windows => windows_command_words(&chars_of(command)),
        Platform::Unix => {
            if has_unquoted_compound_operator(command) {
                return None;
            }
            match split_shell_words(command) {
                Some(words) => run_tokens(&words),
                None => None,
            }
        },
    }
}

/// The program and arguments that the words of a POSIX command run.
pub fn run_tokens(words: &Vec<String>) -> (r: Option<Vec<Vec<char>>>)
    ensures
        match r {
            Some(run) => run_words(words.deep_view()) == Some(pieces(run@)),
            None => run_words(words.deep_view()) is None,
        },
{
    let tokens = to_char_lists(words);
    let ghost all = words.deep_view();
    let mut i: usize = 0;
    assert(all.skip(0) == all);
    while i < tokens.len() && is_env_assignment(&tokens[i])
        invariant
            i <= tokens@.len(),
            pieces(tokens@) == all,
            after_assignments(all) == after_assignments(all.skip(i as int)),
        decreases tokens@.len() - i,
    {
        assert(all.skip(i as int)[0] == pieces(tokens@)[i as int]);
        assert(all.skip(i as int).skip(1) == all.skip(i + 1));
        i += 1;
    }
    if i < tokens.len() {
        assert(all.skip(i as int)[0] == pieces(tokens@)[i as int]);
    }
    assert(after_assignments(all) == all.skip(i as int));
    let runs_env = if i < tokens.len() {
        match file_name(Platform::Unix, &tokens[i]) {
            Some(name) => is_text(&name, "env"),
            None => false,
        }
    } else {
        false
    };
    if runs_env {
        assert(all.skip(i as int).skip(1) == all.skip(i + 1));
        match skip_env_options(&tokens, i + 1) {
            Some(n) => {
                i = n;
            },
            None => {
                return None;
            },
        }
    }
    if i >= tokens.len() {
        return None;
    }
    Some(tokens_from(&tokens, i))
}

/// The words from a position on.
fn tokens_from(tokens: &Vec<Vec<char>>, from: usize) -> (r: Vec<Vec<char>>)
    requires
        from <= tokens@.len(),
    ensures
        pieces(r@) == pieces(tokens@).skip(from as int),
{
    let mut r: Vec<Vec<char>> = Vec::new();
    let mut i: usize = from;
    while i < tokens.len()
        invariant
            from <= i <= tokens@.len(),
            r@.len() == i - from,
            forall|j: int| 0 <= j < r@.len() ==> (#[trigger] r@[j])@ == tokens@[from + j]@,
        decreases tokens@.len() - i,
    {
        r.push(copied(&tokens[i]));
        i += 1;
    }
    assert(pieces(r@) =~= pieces(tokens@).skip(from as int));
    r
}

/// The position of the command that `env` runs, from the position behind `env`.
fn skip_env_options(tokens: &Vec<Vec<char>>, from: usize) -> (r: Option<usize>)
    requires
        from <= tokens@.len(),
    ensures
        match r {
            Some(n) => n <= tokens@.len() && after_env(pieces(tokens@).skip(from as int)) == Some(
                pieces(tokens@).skip(n as int),
            ),
            None => after_env(pieces(tokens@).skip(from as int)) is None,
        },
{
    let ghost all = pieces(tokens@);
    let mut i: usize = from;
    while i < tokens.len()
        invariant
            from <= i <= tokens@.len(),
            all == pieces(tokens@),
            after_env(all.skip(from as int)) == after_env(all.skip(i as int)),
        decreases tokens@.len() - i,
    {
        let token = &tokens[i];
        let ghost here = all.skip(i as int);
        assert(here[0] == pieces(tokens@)[i as int]);
        assert(here[0] == token@);
        assert(here.skip(1) == all.skip(i + 1));
        assert(here.len() >= 2 ==> here.skip(2) == all.skip(i + 2));
        proof {
            reveal_strlit("-C");
            reveal_strlit("-S");
        }
        if is_env_assignment(token) || is_text(token, "-i") || is_text(
            token,
            "--ignore-environment",
        ) || is_text(token, "-0") || is_text(token, "--null") {
            i += 1;
        } else if is_text(token, "-u") || is_text(token, "--unset") {
            if tokens.len() - i < 2 {
                return None;
            }
            i += 2;
        } else if is_text(token, "-C") || is_text(token, "--chdir") || is_text(token, "-S")
            || is_text(token, "--split-string") || begins_with_text(token, "--chdir=")
            || begins_with_text(token, "--split-string=") || (begins_with_text(token, "-C")
            && token.len() > 2) || (begins_with_text(token, "-S") && token.len() > 2) {
            return None;
        } else if is_text(token, "--") {
            return Some(i + 1);
        } else if begins_with_text(token, "-") {
            return None;
        } else {
            return Some(i);
        }
    }
    assert(all.skip(i as int).len() == 0);
    Some(i)
}

/// A command without quotations and backslashes that holds an operator between
/// commands is refused on POSIX systems.
pub proof fn law_plain_compound_is_refused(command: Seq<char>, i: int)
    requires
        0 <= i < command.len(),
        command[i] == '|' || command[i] == ';' || command[i] == '\n' || command[i] == '\r',
        forall|j: int|
            0 <= j < command.len() ==> #[trigger] command[j] != '\'' && command[j] != '"'
                && command[j] != '\\',
    ensures
        is_compound(command),
        command_words(Platform::Unix, command) is None,
{
    lemma_plain_compound(command, i, None);
}

proof fn lemma_plain_compound(s: Seq<char>, i: int, before: Option<char>)
    requires
        0 <= i < s.len(),
        s[i] == '|' || s[i] == ';' || s[i] == '\n' || s[i] == '\r',
        forall|j: int|
            0 <= j < s.len() ==> #[trigger] s[j] != '\'' && s[j] != '"' && s[j] != '\\',
    ensures
        compound_from(s, None, false, before),
    decreases s.len(),
{
    if i > 0 && !(s[0] == '|' || s[0] == ';' || s[0] == '\n' || s[0] == '\r') {
        let rest = s.skip(1);
        assert(rest[i - 1] == s[i]);
        assert forall|j: int| 0 <= j < rest.len() implies #[trigger] rest[j] != '\'' && rest[j] != '"'
            && rest[j] != '\\' by {
            assert(rest[j] == s[j + 1]);
        }
        assert(s[0] != '\'' && s[0] != '"' && s[0] != '\\');
        lemma_plain_compound(
            rest,
            i - 1,
            if whitespace(s[0]) {
                before
            } else {
                Some(s[0])
            },
        );
    }
}

/// A command without quotations and escapes that holds an operator between
/// commands is refused on Windows.
pub proof fn law_plain_windows_compound_is_refused(command: Seq<char>, i: int)
    requires
        0 <= i < command.len(),
        command[i] == '|' || command[i] == ';' || command[i] == '\n' || command[i] == '\r',
        forall|j: int|
            0 <= j < command.len() ==> #[trigger] command[j] != '\'' && command[j] != '"'
                && command[j] != '`',
    ensures
        command_words(Platform::Windows, command) is None,
{
    lemma_plain_windows_compound(command, i, Seq::empty(), Seq::empty(), false);
}

proof fn lemma_plain_windows_compound(
    s: Seq<char>,
    i: int,
    words: Seq<Seq<char>>,
    word: Seq<char>,
    open: bool,
)
    requires
        0 <= i < s.len(),
        s[i] == '|' || s[i] == ';' || s[i] == '\n' || s[i] == '\r',
        forall|j: int|
            0 <= j < s.len() ==> #[trigger] s[j] != '\'' && s[j] != '"' && s[j] != '`',
    ensures
        windows_words_from(s, words, word, open, None) is None,
    decreases s.len(),
{
    if i > 0 {
        let c = s[0];
        let rest = s.skip(1);
        assert(rest[i - 1] == s[i]);
        assert forall|j: int| 0 <= j < rest.len() implies #[trigger] rest[j] != '\'' && rest[j] != '"'
            && rest[j] != '`' by {
            assert(rest[j] == s[j + 1]);
        }
        assert(c != '\'' && c != '"' && c != '`');
        lemma_plain_windows_compound(rest, i - 1, words, word, open);
        lemma_plain_windows_compound(rest, i - 1, words.push(word), Seq::empty(), false);
        lemma_plain_windows_compound(rest, i - 1, words, word, false);
        lemma_plain_windows_compound(rest, i - 1, words, word.push(c), true);
    }
}

} // verus!
