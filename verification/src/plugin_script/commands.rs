//! Which commands run a single process, and what the words of such a command are.
use vstd::prelude::*;
use super::file_name::file_name_of;
use super::file_name::Platform;
use super::tokens::after_assignments;
use super::tokens::after_env;
use super::tokens::changes_reading;
use super::tokens::command_words;
use super::tokens::compound_from;
use super::tokens::is_assignment;
use super::tokens::is_compound;
use super::tokens::is_plain_env_option;
use super::tokens::is_variable_name;
use super::tokens::run_words;
use super::tokens::windows_words;
use super::tokens::windows_words_from;
use crate::outside::shell::shell_words;
use crate::text::chars::ascii_alphabetic;
use crate::text::chars::ascii_alphanumeric;
use crate::text::chars::whitespace;
use crate::text::search::lemma_first_index;
use crate::text::search::starts_with;
use crate::text::split::join;
use crate::text::split::split_once;

verus! {

/// Whether a text has none of the characters that a POSIX shell reads in a special
/// way: operators between commands, quotation marks and the backslash.
pub open spec fn is_bare(s: Seq<char>) -> bool {
    forall|i: int|
        0 <= i < s.len() ==> #[trigger] s[i] != '|' && s[i] != ';' && s[i] != '\r' && s[i] != '\n'
            && s[i] != '&' && s[i] != '\'' && s[i] != '"' && s[i] != '\\'
}

/// The last character that is no white space, where there is one.
spec fn last_dark(s: Seq<char>, before: Option<char>) -> Option<char>
    decreases s.len(),
{
    if s.len() == 0 {
        before
    } else {
        last_dark(
            s.skip(1),
            if whitespace(s[0]) {
                before
            } else {
                Some(s[0])
            },
        )
    }
}

proof fn lemma_last_dark(s: Seq<char>, before: Option<char>)
    ensures
        last_dark(s, before) == before || (last_dark(s, before) is Some && s.contains(
            last_dark(s, before)->0,
        )),
    decreases s.len(),
{
    if s.len() > 0 {
        let next = if whitespace(s[0]) {
            before
        } else {
            Some(s[0])
        };
        let rest = s.skip(1);
        lemma_last_dark(rest, next);
        if last_dark(rest, next) is Some && rest.contains(last_dark(rest, next)->0) {
            let i = choose|i: int| 0 <= i < rest.len() && rest[i] == last_dark(rest, next)->0;
            assert(s[i + 1] == rest[i]);
        }
        assert(s.contains(s[0]));
    }
}

proof fn lemma_bare_prefix(a: Seq<char>, t: Seq<char>, before: Option<char>)
    requires
        is_bare(a),
    ensures
        compound_from(a + t, None, false, before) == compound_from(
            t,
            None,
            false,
            last_dark(a, before),
        ),
    decreases a.len(),
{
    if a.len() == 0 {
        assert(a + t =~= t);
    } else {
        let rest = a.skip(1);
        assert((a + t).skip(1) =~= rest + t);
        assert((a + t)[0] == a[0]);
        assert forall|i: int| 0 <= i < rest.len() implies #[trigger] rest[i] != '|' && rest[i] != ';'
            && rest[i] != '\r' && rest[i] != '\n' && rest[i] != '&' && rest[i] != '\'' && rest[i]
            != '"' && rest[i] != '\\' by {
            assert(rest[i] == a[i + 1]);
        }
        assert(a[0] != '|' && a[0] != '&' && a[0] != '\'' && a[0] != '"' && a[0] != '\\');
        lemma_bare_prefix(
            rest,
            t,
            if whitespace(a[0]) {
                before
            } else {
                Some(a[0])
            },
        );
    }
}

/// A command without special characters runs one process.
pub proof fn law_bare_command_is_single(command: Seq<char>)
    requires
        is_bare(command),
    ensures
        !is_compound(command),
        shell_words(command) matches Some(words) ==> command_words(Platform::Unix, command)
            == run_words(words),
{
    lemma_bare_prefix(command, Seq::empty(), None);
    assert(command + Seq::<char>::empty() =~= command);
}

/// An operator between commands joins them, whatever comes behind it; an ampersand
/// does so unless it stands next to the sign of a redirection.
pub proof fn law_operators_join_commands(a: Seq<char>, operator: char, b: Seq<char>)
    requires
        is_bare(a),
        operator == '|' || operator == ';' || operator == '\r' || operator == '\n' || (operator
            == '&' && !a.contains('>') && (b.len() == 0 || b[0] != '>')),
    ensures
        is_compound(a + seq![operator] + b),
        command_words(Platform::Unix, a + seq![operator] + b) is None,
{
    let t = seq![operator] + b;
    lemma_bare_prefix(a, t, None);
    lemma_last_dark(a, None);
    assert(a + t =~= a + seq![operator] + b);
    assert(t[0] == operator);
    assert(t.skip(1) =~= b);
}

/// An ampersand next to the sign of a redirection joins nothing.
pub proof fn law_redirections_join_nothing(a: Seq<char>, b: Seq<char>)
    requires
        is_bare(a),
        is_bare(b),
    ensures
        !is_compound(a + seq!['>', '&'] + b),
        !is_compound(a + seq!['&', '>'] + b),
{
    reveal_with_fuel(compound_from, 3);
    let t = seq!['>', '&'] + b;
    lemma_bare_prefix(a, t, None);
    assert(a + t =~= a + seq!['>', '&'] + b);
    assert(t[0] == '>' && t.skip(1)[0] == '&');
    assert(t.skip(1).skip(1) =~= b);
    lemma_bare_prefix(b, Seq::empty(), Some('&'));
    assert(b + Seq::<char>::empty() =~= b);
    assert(compound_from(t.skip(1), None, false, Some('>')) == compound_from(
        b,
        None,
        false,
        Some('&'),
    ));
    let u = seq!['&', '>'] + b;
    lemma_bare_prefix(a, u, None);
    assert(a + u =~= a + seq!['&', '>'] + b);
    assert(u[0] == '&' && u.skip(1)[0] == '>');
    assert(u.skip(1).skip(1) =~= b);
    lemma_bare_prefix(b, Seq::empty(), Some('>'));
    assert(compound_from(u.skip(1), None, false, Some('&')) == compound_from(
        b,
        None,
        false,
        Some('>'),
    ));
}

proof fn lemma_quoted(q: Seq<char>, t: Seq<char>, mark: char, before: Option<char>)
    requires
        mark == '\'' || mark == '"',
        !q.contains(mark),
        mark == '"' ==> !q.contains('\\'),
    ensures
        compound_from(q + t, Some(mark), false, before) == compound_from(
            t,
            Some(mark),
            false,
            before,
        ),
    decreases q.len(),
{
    if q.len() == 0 {
        assert(q + t =~= t);
    } else {
        let rest = q.skip(1);
        assert((q + t).skip(1) =~= rest + t);
        assert((q + t)[0] == q[0]);
        assert(q.contains(q[0]));
        assert forall|c: char| rest.contains(c) implies q.contains(c) by {
            let i = choose|i: int| 0 <= i < rest.len() && rest[i] == c;
            assert(q[i + 1] == c);
        }
        lemma_quoted(rest, t, mark, before);
    }
}

/// Nothing inside a quotation joins commands, and a quotation has to be closed.
pub proof fn law_quotations_join_nothing(a: Seq<char>, mark: char, q: Seq<char>, b: Seq<char>)
    requires
        is_bare(a),
        is_bare(b),
        mark == '\'' || mark == '"',
        !q.contains(mark),
        mark == '"' ==> !q.contains('\\'),
    ensures
        !is_compound(a + seq![mark] + q + seq![mark] + b),
        is_compound(a + seq![mark] + q),
        command_words(Platform::Unix, a + seq![mark] + q) is None,
{
    let closed = seq![mark] + b;
    let t = seq![mark] + (q + closed);
    lemma_bare_prefix(a, t, None);
    assert(a + t =~= a + seq![mark] + q + seq![mark] + b);
    assert(t[0] == mark && t.skip(1) =~= q + closed);
    lemma_quoted(q, closed, mark, Some(mark));
    assert(closed[0] == mark && closed.skip(1) =~= b);
    lemma_bare_prefix(b, Seq::empty(), Some(mark));
    assert(b + Seq::<char>::empty() =~= b);
    let u = seq![mark] + q;
    lemma_bare_prefix(a, u, None);
    assert(a + u =~= a + seq![mark] + q);
    assert(u[0] == mark && u.skip(1) =~= q + Seq::<char>::empty());
    lemma_quoted(q, Seq::empty(), mark, Some(mark));
    assert(!whitespace(mark));
}

/// Nothing right behind a backslash joins commands, and a backslash needs something
/// behind it.
pub proof fn law_backslash_hides_the_next_character(a: Seq<char>, c: char, b: Seq<char>)
    requires
        is_bare(a),
        is_bare(b),
    ensures
        !is_compound(a + seq!['\\', c] + b),
        is_compound(a + seq!['\\']),
{
    reveal_with_fuel(compound_from, 3);
    let t = seq!['\\', c] + b;
    lemma_bare_prefix(a, t, None);
    assert(a + t =~= a + seq!['\\', c] + b);
    assert(t[0] == '\\' && t.skip(1)[0] == c && t.skip(1).skip(1) =~= b);
    lemma_bare_prefix(b, Seq::empty(), Some('\\'));
    assert(b + Seq::<char>::empty() =~= b);
    assert(compound_from(t.skip(1), None, true, Some('\\')) == compound_from(
        b,
        None,
        false,
        Some('\\'),
    ));
    let u = seq!['\\'];
    lemma_bare_prefix(a, u, None);
    assert(u[0] == '\\' && u.skip(1) =~= Seq::<char>::empty());
    assert(compound_from(u.skip(1), None, true, Some('\\')));
}

/// Whether a text is not empty and has none of the characters that are read in a
/// special way on Windows: white space between words, operators between commands,
/// quotation marks and the backtick.
pub open spec fn is_bare_word(s: Seq<char>) -> bool {
    s.len() > 0 && forall|i: int|
        0 <= i < s.len() ==> #[trigger] s[i] != ' ' && s[i] != '\t' && s[i] != '|' && s[i] != ';'
            && s[i] != '\r' && s[i] != '\n' && s[i] != '&' && s[i] != '\'' && s[i] != '"' && s[i]
            != '`'
}

proof fn lemma_bare_word(
    w: Seq<char>,
    t: Seq<char>,
    words: Seq<Seq<char>>,
    word: Seq<char>,
    open: bool,
)
    requires
        is_bare_word(w),
    ensures
        windows_words_from(w + t, words, word, open, None) == windows_words_from(
            t,
            words,
            word + w,
            true,
            None,
        ),
    decreases w.len(),
{
    let rest = w.skip(1);
    assert((w + t)[0] == w[0]);
    assert((w + t).skip(1) =~= rest + t);
    assert(w[0] != '|' && w[0] != '&');
    if w.len() == 1 {
        assert(rest + t =~= t);
        assert(word + w =~= word.push(w[0]));
    } else {
        assert forall|i: int| 0 <= i < rest.len() implies #[trigger] rest[i] != ' ' && rest[i] != '\t'
            && rest[i] != '|' && rest[i] != ';' && rest[i] != '\r' && rest[i] != '\n' && rest[i]
            != '&' && rest[i] != '\'' && rest[i] != '"' && rest[i] != '`' by {
            assert(rest[i] == w[i + 1]);
        }
        lemma_bare_word(rest, t, words, word.push(w[0]), true);
        assert(word.push(w[0]) + rest =~= word + w);
    }
}

proof fn lemma_bare_words(parts: Seq<Seq<char>>, t: Seq<char>)
    requires
        parts.len() > 0,
        forall|i: int| 0 <= i < parts.len() ==> is_bare_word(#[trigger] parts[i]),
    ensures
        windows_words_from(join(parts, " "@) + t, Seq::empty(), Seq::empty(), false, None)
            == windows_words_from(t, parts.drop_last(), parts.last(), true, None),
    decreases parts.len(),
{
    let last = parts.last();
    assert(is_bare_word(last));
    assert(Seq::<char>::empty() + last =~= last);
    if parts.len() == 1 {
        lemma_bare_word(last, t, Seq::empty(), Seq::empty(), false);
        assert(parts.drop_last() =~= Seq::empty());
    } else {
        reveal_strlit(" ");
        let head = parts.drop_last();
        let u = " "@ + last + t;
        assert forall|i: int| 0 <= i < head.len() implies is_bare_word(#[trigger] head[i]) by {
            assert(head[i] == parts[i]);
        }
        lemma_bare_words(head, u);
        assert(join(parts, " "@) + t =~= join(head, " "@) + u);
        assert(u[0] == ' ' && u.skip(1) =~= last + t);
        assert(head.drop_last().push(head.last()) =~= head);
        lemma_bare_word(last, t, head, Seq::empty(), false);
    }
}

/// Words without special characters that stand one behind another with spaces
/// between them are the words of a Windows command, in order.
pub proof fn law_bare_words_are_read_back(parts: Seq<Seq<char>>)
    requires
        parts.len() > 0,
        forall|i: int| 0 <= i < parts.len() ==> is_bare_word(#[trigger] parts[i]),
    ensures
        windows_words(join(parts, " "@)) == Some(parts),
        command_words(Platform::Windows, join(parts, " "@)) == Some(parts),
{
    lemma_bare_words(parts, Seq::empty());
    assert(join(parts, " "@) + Seq::<char>::empty() =~= join(parts, " "@));
    assert(parts.drop_last().push(parts.last()) =~= parts);
}

proof fn lemma_quoted_word(
    q: Seq<char>,
    t: Seq<char>,
    mark: char,
    words: Seq<Seq<char>>,
    word: Seq<char>,
    open: bool,
)
    requires
        !q.contains(mark),
        !q.contains('`'),
    ensures
        windows_words_from(q + t, words, word, open, Some(mark)) == windows_words_from(
            t,
            words,
            word + q,
            open,
            Some(mark),
        ),
    decreases q.len(),
{
    if q.len() == 0 {
        assert(q + t =~= t);
        assert(word + q =~= word);
    } else {
        let rest = q.skip(1);
        assert((q + t)[0] == q[0]);
        assert((q + t).skip(1) =~= rest + t);
        assert(q.contains(q[0]));
        assert forall|c: char| rest.contains(c) implies q.contains(c) by {
            let i = choose|i: int| 0 <= i < rest.len() && rest[i] == c;
            assert(q[i + 1] == c);
        }
        lemma_quoted_word(rest, t, mark, words, word.push(q[0]), open);
        assert(word.push(q[0]) + rest =~= word + q);
    }
}

/// A quotation on Windows is one word, whatever is in it; a doubled quotation mark
/// stands for one, a backtick makes the next character a plain one, and a quotation
/// has to be closed.
pub proof fn law_windows_quotations_are_words(mark: char, q: Seq<char>, r: Seq<char>, c: char)
    requires
        mark == '\'' || mark == '"',
        !q.contains(mark),
        !q.contains('`'),
        !r.contains(mark),
        !r.contains('`'),
    ensures
        windows_words(seq![mark] + q + seq![mark]) == Some(seq![q]),
        windows_words(seq![mark] + q + seq![mark, mark] + r + seq![mark]) == Some(
            seq![q + seq![mark] + r],
        ),
        windows_words(seq![mark] + q + seq!['`', c] + r + seq![mark]) == Some(
            seq![q + seq![c] + r],
        ),
        windows_words(seq!['`', c]) == Some(seq![seq![c]]),
        windows_words(seq![mark] + q) is None,
{
    reveal_with_fuel(windows_words_from, 3);
    let none = Seq::<Seq<char>>::empty();
    let blank = Seq::<char>::empty();
    let end = seq![mark];
    assert(end.skip(1) =~= blank);
    assert(end[0] == mark);
    assert(blank + q =~= q);
    let s1 = seq![mark] + q + seq![mark];
    assert(s1[0] == mark && s1.skip(1) =~= q + end);
    lemma_quoted_word(q, end, mark, none, blank, true);
    assert(none.push(q) =~= seq![q]);
    let tail = seq![mark, mark] + (r + end);
    let s2 = seq![mark] + q + seq![mark, mark] + r + seq![mark];
    assert(s2[0] == mark && s2.skip(1) =~= q + tail);
    lemma_quoted_word(q, tail, mark, none, blank, true);
    assert(tail[0] == mark && tail.skip(1)[0] == mark && tail.skip(1).skip(1) =~= r + end);
    lemma_quoted_word(r, end, mark, none, q.push(mark), true);
    assert(q.push(mark) + r =~= q + seq![mark] + r);
    assert(none.push(q + seq![mark] + r) =~= seq![q + seq![mark] + r]);
    let escaped = seq!['`', c] + (r + end);
    let s3 = seq![mark] + q + seq!['`', c] + r + seq![mark];
    assert(s3[0] == mark && s3.skip(1) =~= q + escaped);
    lemma_quoted_word(q, escaped, mark, none, blank, true);
    assert(escaped[0] == '`' && escaped.skip(1)[0] == c && escaped.skip(1).skip(1) =~= r + end);
    lemma_quoted_word(r, end, mark, none, q.push(c), true);
    assert(q.push(c) + r =~= q + seq![c] + r);
    assert(none.push(q + seq![c] + r) =~= seq![q + seq![c] + r]);
    let s4 = seq!['`', c];
    assert(s4[0] == '`' && s4.skip(1)[0] == c && s4.skip(1).skip(1) =~= blank);
    assert(blank.push(c) =~= seq![c]);
    assert(none.push(seq![c]) =~= seq![seq![c]]);
    let s5 = seq![mark] + q;
    assert(s5[0] == mark && s5.skip(1) =~= q + blank);
    lemma_quoted_word(q, blank, mark, none, blank, true);
}

/// The call operator and white space before a Windows command do not matter; and an
/// operator behind a word is one between commands, which are refused.
pub proof fn law_call_operator_does_not_matter(
    command: Seq<char>,
    word: Seq<char>,
    operator: char,
    rest: Seq<char>,
)
    requires
        is_bare_word(word),
        operator == '&' || operator == '|' || operator == ';' || operator == '\r' || operator
            == '\n',
    ensures
        windows_words(seq!['&', ' '] + command) == windows_words(command),
        windows_words(seq![' '] + command) == windows_words(command),
        windows_words(seq!['\t'] + command) == windows_words(command),
        windows_words(word + seq![operator] + rest) is None,
        windows_words(word + seq![' ', operator] + rest) is None,
        windows_words(Seq::empty()) is None,
{
    reveal_with_fuel(windows_words_from, 3);
    let a = seq!['&', ' '] + command;
    let b = seq![' '] + command;
    let c = seq!['\t'] + command;
    assert(a[0] == '&' && a.skip(1) =~= b && b[0] == ' ' && b.skip(1) =~= command);
    assert(c[0] == '\t' && c.skip(1) =~= command);
    assert(whitespace(' '));
    let t = seq![operator] + rest;
    assert(word + t =~= word + seq![operator] + rest);
    assert(t[0] == operator);
    lemma_bare_word(word, t, Seq::empty(), Seq::empty(), false);
    let u = seq![' ', operator] + rest;
    assert(word + u =~= word + seq![' ', operator] + rest);
    assert(u[0] == ' ' && u.skip(1) =~= t);
    lemma_bare_word(word, u, Seq::empty(), Seq::empty(), false);
}

/// A word assigns a variable where an equals sign stands behind the name of one,
/// whatever the value; such words at the beginning of a command do not matter.
pub proof fn law_assignments_do_not_matter(
    name: Seq<char>,
    value: Seq<char>,
    words: Seq<Seq<char>>,
)
    requires
        name.len() > 0,
        name[0] == '_' || ascii_alphabetic(name[0]),
        forall|i: int|
            0 < i < name.len() ==> #[trigger] name[i] == '_' || ascii_alphanumeric(name[i]),
    ensures
        is_assignment(name + seq!['='] + value),
        run_words(seq![name + seq!['='] + value] + words) == run_words(words),
{
    let word = name + seq!['='] + value;
    let n = name.len() as int;
    assert forall|i: int| 0 <= i < n implies word[i] != '=' by {
        assert(word[i] == name[i]);
        if i > 0 {
            assert(name[i] == '_' || ascii_alphanumeric(name[i]));
        }
    }
    assert(word[n] == '=');
    lemma_first_index(word, '=');
    assert(word.contains('='));
    assert(word.take(n) =~= name);
    assert(split_once(word, '=') is Some);
    assert(is_variable_name(name));
    let all = seq![word] + words;
    assert(all[0] == word);
    assert(all.skip(1) =~= words);
    assert(after_assignments(all) == after_assignments(words));
}

/// A word assigns nothing where it has no equals sign, begins with one, or begins
/// with a digit.
pub proof fn law_other_words_assign_nothing(word: Seq<char>)
    requires
        !word.contains('=') || word[0] == '=' || '0' <= word[0] <= '9' || word[0] == '-',
    ensures
        !is_assignment(word),
{
    lemma_first_index(word, '=');
}

/// A command without assignments that does not call `env` runs just its words.
pub proof fn law_plain_words_run_themselves(words: Seq<Seq<char>>)
    requires
        words.len() > 0,
        !is_assignment(words[0]),
        file_name_of(Platform::Unix, words[0]) != Some("env"@),
    ensures
        run_words(words) == Some(words),
{
}

/// `env` runs the command behind its options and assignments. Options that stand
/// alone do not matter, one that unsets a variable takes its name along, a double
/// dash ends the options, and any other option cannot be followed.
pub proof fn law_env_runs_the_command_behind_its_options(
    env: Seq<char>,
    word: Seq<char>,
    next: Seq<char>,
    rest: Seq<Seq<char>>,
)
    requires
        !is_assignment(env),
        file_name_of(Platform::Unix, env) == Some("env"@),
    ensures
        is_assignment(word) || seq!["-i"@, "--ignore-environment"@, "-0"@, "--null"@].contains(word)
            ==> run_words(seq![env, word] + rest) == run_words(seq![env] + rest),
        seq!["-u"@, "--unset"@].contains(word) ==> run_words(seq![env, word, next] + rest)
            == run_words(seq![env] + rest),
        seq!["-u"@, "--unset"@].contains(word) ==> run_words(seq![env, word]) is None,
        word == "--"@ ==> run_words(seq![env, word, next] + rest) == Some(seq![next] + rest),
        starts_with(word, "-"@) && !seq![
            "-i"@,
            "--ignore-environment"@,
            "-0"@,
            "--null"@,
            "-u"@,
            "--unset"@,
            "--"@,
        ].contains(word) ==> run_words(seq![env, word, next] + rest) is None,
        !starts_with(word, "-"@) && !is_assignment(word) ==> run_words(seq![env, word] + rest)
            == Some(seq![word] + rest),
        run_words(seq![env]) is None,
{
    let alone = seq!["-i"@, "--ignore-environment"@, "-0"@, "--null"@];
    let unset = seq!["-u"@, "--unset"@];
    let known = seq![
        "-i"@,
        "--ignore-environment"@,
        "-0"@,
        "--null"@,
        "-u"@,
        "--unset"@,
        "--"@,
    ];
    assert(known[0] == "-i"@ && known[1] == "--ignore-environment"@ && known[2] == "-0"@ && known[3]
        == "--null"@ && known[4] == "-u"@ && known[5] == "--unset"@ && known[6] == "--"@);
    assert(alone[0] == "-i"@ && alone[1] == "--ignore-environment"@ && alone[2] == "-0"@ && alone[3]
        == "--null"@);
    assert(unset[0] == "-u"@ && unset[1] == "--unset"@);
    lemma_env_words(word);
    let one = seq![env, word] + rest;
    let two = seq![env, word, next] + rest;
    assert(one.skip(1)[0] == word && one.skip(1).skip(1) =~= rest);
    assert(two.skip(1)[0] == word && two.skip(1).skip(2) =~= rest);
    assert(two.skip(1).skip(1) =~= seq![next] + rest);
    assert(one.skip(1) =~= seq![word] + rest);
    assert((seq![env] + rest).skip(1) =~= rest);
    assert((seq![env] + rest)[0] == env && one[0] == env && two[0] == env);
    assert(seq![env, word].skip(1) =~= seq![word]);
    assert(seq![env].skip(1) =~= Seq::<Seq<char>>::empty());
    assert(after_env(Seq::empty()) == Some(Seq::<Seq<char>>::empty()));
}

proof fn lemma_env_words(word: Seq<char>)
    ensures
        "-u"@ != "--"@,
        "--unset"@ != "--"@,
        !is_assignment("--"@),
        !is_assignment("-u"@),
        !is_assignment("--unset"@),
        !is_plain_env_option("-u"@),
        !is_plain_env_option("--unset"@),
        !is_plain_env_option("--"@),
        !changes_reading("--"@),
        changes_reading(word) ==> starts_with(word, "-"@),
        is_plain_env_option(word) ==> starts_with(word, "-"@),
        starts_with("-u"@, "-"@),
        starts_with("--unset"@, "-"@),
        starts_with("--"@, "-"@),
        starts_with(word, "-"@) ==> !is_assignment(word),
{
    reveal_strlit("-");
    reveal_strlit("--");
    reveal_strlit("-u");
    reveal_strlit("--unset");
    reveal_strlit("-i");
    reveal_strlit("-0");
    reveal_strlit("--null");
    reveal_strlit("--ignore-environment");
    reveal_strlit("-C");
    reveal_strlit("-S");
    reveal_strlit("--chdir");
    reveal_strlit("--chdir=");
    reveal_strlit("--split-string");
    reveal_strlit("--split-string=");
    assert("--"@.len() == 2 && "-u"@.len() == 2 && "-u"@[1] == 'u' && "--"@[1] == '-');
    assert("-i"@[1] == 'i' && "-0"@[1] == '0');
    assert("--null"@[2] == 'n' && "--unset"@[2] == 'u' && "--ignore-environment"@[2] == 'i');
    assert("--chdir"@.len() == 7 && "--chdir="@.len() == 8 && "--split-string"@.len() == 14
        && "--split-string="@.len() == 15);
    assert("-C"@[1] == 'C' && "-S"@[1] == 'S');
    assert("-u"@.take(1) =~= "-"@ && "--unset"@.take(1) =~= "-"@ && "--"@.take(1) =~= "-"@);
    assert("--"@[0] == '-' && "-u"@[0] == '-' && "--unset"@[0] == '-');
    law_other_words_assign_nothing("--"@);
    law_other_words_assign_nothing("-u"@);
    law_other_words_assign_nothing("--unset"@);
    if starts_with(word, "-"@) {
        assert(word[0] == word.take(1)[0]);
        law_other_words_assign_nothing(word);
    }
    if word.len() > 0 && word[0] == '-' {
        assert(word.take(1) =~= "-"@);
    }
    if starts_with(word, "--chdir="@) {
        assert(word[0] == word.take(8)[0]);
    }
    if starts_with(word, "--split-string="@) {
        assert(word[0] == word.take(15)[0]);
    }
    if starts_with(word, "-C"@) {
        assert(word[0] == word.take(2)[0]);
    }
    if starts_with(word, "-S"@) {
        assert(word[0] == word.take(2)[0]);
    }
    assert("--"@.take(2) =~= "--"@);
}

/// A word assigns nothing where something that is no part of a variable's name
/// stands before its equals sign.
pub proof fn law_names_of_variables_are_plain(name: Seq<char>, value: Seq<char>, i: int)
    requires
        0 <= i < name.len(),
        name[i] != '_',
        !ascii_alphanumeric(name[i]),
        !name.contains('='),
    ensures
        !is_assignment(name + seq!['='] + value),
{
    let word = name + seq!['='] + value;
    let n = name.len() as int;
    assert(word[n] == '=');
    assert(word.contains('='));
    lemma_first_index(word, '=');
    assert forall|j: int| 0 <= j < n implies word[j] != '=' by {
        assert(word[j] == name[j]);
    }
    assert(word.take(n) =~= name);
    if i > 0 {
        assert(name[i] != '_');
    }
}

} // verus!
