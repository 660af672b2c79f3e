//! Commands as details of a tab status.
use vstd::prelude::*;
use crate::text::chars::chars_of;
use crate::text::chars::push_all;
use crate::text::chars::push_text;
use crate::text::chars::string_of;
use crate::text::split::join;
use crate::text::split::join_parts;
use crate::text::split::law_joined_words_are_split_again;
use crate::text::split::lemma_words_are_words;
use crate::text::split::pieces;
use crate::text::split::split_words;
use crate::text::split::words;

verus! {

/// How many characters of a command are shown.
pub const MAX_UNKNOWN_COMMAND_CHARS: usize = 80;

/// How many of the files that are read are named.
pub const MAX_READ_NAMES: usize = 3;

/// What a command does.
#[derive(Debug, Clone, PartialEq, Eq)]
pub enum ParsedCommand {
    /// It reads a file.
    Read {
        /// The command.
        cmd: String,
        /// The name of the file.
        name: String,
        /// The path of the file.
        path: String,
    },
    /// It lists files.
    ListFiles {
        /// The command.
        cmd: String,
        /// Where.
        path: Option<String>,
    },
    /// It searches.
    Search {
        /// The command.
        cmd: String,
        /// What for.
        query: Option<String>,
        /// Where.
        path: Option<String>,
    },
    /// It does something else.
    Unknown {
        /// The command.
        cmd: String,
    },
}

/// A command on one line: its words with one space between each two, cut off with
/// an ellipsis.
pub open spec fn one_line(s: Seq<char>) -> Seq<char> {
    let collapsed = join(words(s), " "@);
    if collapsed.len() <= MAX_UNKNOWN_COMMAND_CHARS {
        collapsed
    } else {
        collapsed.take(MAX_UNKNOWN_COMMAND_CHARS as int).push('…')
    }
}

/// The command on one line.
pub fn oneline_truncated(value: &str) -> (r: String)
    ensures
        r@ == one_line(value@),
{
    let chars = chars_of(value);
    let collapsed = join_parts(&split_words(&chars), " ");
    if collapsed.len() <= MAX_UNKNOWN_COMMAND_CHARS {
        return string_of(&collapsed);
    }
    let mut out: Vec<char> = Vec::new();
    push_all(&mut out, &collapsed[0..MAX_UNKNOWN_COMMAND_CHARS]);
    out.push('…');
    assert(out@ =~= one_line(value@));
    string_of(&out)
}

/// The name of the file that a command reads.
pub open spec fn read_name(command: ParsedCommand) -> Seq<char> {
    match command {
        ParsedCommand::Read { name, .. } => name@,
        _ => Seq::empty(),
    }
}

/// Whether all commands read files.
pub open spec fn all_read(parsed: Seq<ParsedCommand>) -> bool {
    forall|i: int| 0 <= i < parsed.len() ==> #[trigger] parsed[i] is Read
}

/// The summary of one command.
pub open spec fn command_summary(command: ParsedCommand) -> Seq<char> {
    match command {
        ParsedCommand::Read { name, .. } => "Read "@ + name@,
        ParsedCommand::ListFiles { path, .. } => "List "@ + (match path {
            Some(p) => p@,
            None => "."@,
        }),
        ParsedCommand::Search { query: Some(q), path: Some(p), .. } => "Search \""@ + q@ + "\" in "@
            + p@,
        ParsedCommand::Search { query: Some(q), path: None, .. } => "Search \""@ + q@ + "\""@,
        ParsedCommand::Search { query: None, path: Some(p), .. } => "Search in "@ + p@,
        ParsedCommand::Search { query: None, path: None, cmd } => "Run "@ + one_line(cmd@),
        ParsedCommand::Unknown { cmd } => "Run "@ + one_line(cmd@),
    }
}

/// The names of the first files that commands read.
pub open spec fn first_names(parsed: Seq<ParsedCommand>) -> Seq<Seq<char>> {
    let n = if parsed.len() < MAX_READ_NAMES {
        parsed.len() as int
    } else {
        MAX_READ_NAMES as int
    };
    parsed.take(n).map_values(|c: ParsedCommand| read_name(c))
}

/// The summary of several commands: the files that are read where all of them
/// read, and otherwise the first command.
pub open spec fn summary(parsed: Seq<ParsedCommand>) -> Option<Seq<char>> {
    if parsed.len() == 0 {
        None
    } else if all_read(parsed) {
        Some(
            "Read "@ + join(first_names(parsed), ", "@) + (if parsed.len() > MAX_READ_NAMES {
                ", …"@
            } else {
                Seq::empty()
            }),
        )
    } else {
        Some(command_summary(parsed[0]))
    }
}

fn reads_only(parsed: &[ParsedCommand]) -> (r: bool)
    ensures
        r == all_read(parsed@),
{
    let mut i: usize = 0;
    while i < parsed.len()
        invariant
            i <= parsed@.len(),
            forall|j: int| 0 <= j < i ==> #[trigger] parsed@[j] is Read,
        decreases parsed@.len() - i,
    {
        let is_read = match &parsed[i] {
            ParsedCommand::Read { .. } => true,
            _ => false,
        };
        if !is_read {
            assert(!(parsed@[i as int] is Read));
            return false;
        }
        i += 1;
    }
    true
}

fn read_names(parsed: &[ParsedCommand]) -> (r: Vec<Vec<char>>)
    ensures
        pieces(r@) == first_names(parsed@),
{
    let mut names: Vec<Vec<char>> = Vec::new();
    let mut i: usize = 0;
    while i < parsed.len() && i < MAX_READ_NAMES
        invariant
            i <= parsed@.len(),
            i <= MAX_READ_NAMES,
            names@.len() == i,
            forall|j: int| 0 <= j < i ==> (#[trigger] names@[j])@ == read_name(parsed@[j]),
        decreases parsed@.len() - i,
    {
        let name = match &parsed[i] {
            ParsedCommand::Read { name, .. } => chars_of(name.as_str()),
            _ => Vec::new(),
        };
        names.push(name);
        i += 1;
    }
    assert(pieces(names@) =~= first_names(parsed@));
    names
}

/// The summary of the commands that are run.
pub fn format_parsed_command_for_tab_status(parsed: &[ParsedCommand]) -> (r: Option<String>)
    ensures
        r.deep_view() == summary(parsed@),
{
    if parsed.len() == 0 {
        return None;
    }
    if reads_only(parsed) {
        let mut text = chars_of("Read ");
        let names = join_parts(&read_names(parsed), ", ");
        push_all(&mut text, &names);
        if parsed.len() > MAX_READ_NAMES {
            push_text(&mut text, ", …");
        }
        assert(text@ =~= summary(parsed@)->0);
        return Some(string_of(&text));
    }
    let text = match &parsed[0] {
        ParsedCommand::Read { name, .. } => {
            let mut text = chars_of("Read ");
            push_text(&mut text, name.as_str());
            text
        },
        ParsedCommand::ListFiles { path, .. } => {
            let mut text = chars_of("List ");
            match path {
                Some(path) => {
                    push_text(&mut text, path.as_str());
                },
                None => {
                    push_text(&mut text, ".");
                },
            }
            text
        },
        ParsedCommand::Search { query, path, cmd } => search_summary(query, path, cmd),
        ParsedCommand::Unknown { cmd } => run_summary(cmd),
    };
    Some(string_of(&text))
}

fn search_summary(query: &Option<String>, path: &Option<String>, cmd: &String) -> (r: Vec<char>)
    ensures
        r@ == command_summary(ParsedCommand::Search { cmd: *cmd, query: *query, path: *path }),
{
    match (query, path) {
        (Some(query), Some(path)) => {
            let mut text = chars_of("Search \"");
            push_text(&mut text, query.as_str());
            push_text(&mut text, "\" in ");
            push_text(&mut text, path.as_str());
            text
        },
        (Some(query), None) => {
            let mut text = chars_of("Search \"");
            push_text(&mut text, query.as_str());
            push_text(&mut text, "\"");
            text
        },
        (None, Some(path)) => {
            let mut text = chars_of("Search in ");
            push_text(&mut text, path.as_str());
            text
        },
        (None, None) => run_summary(cmd),
    }
}

fn run_summary(cmd: &String) -> (r: Vec<char>)
    ensures
        r@ == "Run "@ + one_line(cmd@),
{
    let mut text = chars_of("Run ");
    let line = oneline_truncated(cmd.as_str());
    push_text(&mut text, line.as_str());
    text
}

/// A command is shown on one line, word by word, and cut off behind 80 characters
/// with an ellipsis.
pub proof fn law_command_is_shown_on_one_line(s: Seq<char>)
    ensures
        ({
            let whole = join(words(s), " "@);
            &&& whole.len() <= 80 ==> one_line(s) == whole && words(one_line(s)) == words(s)
            &&& whole.len() > 80 ==> one_line(s) == whole.take(80) + seq!['…']
            &&& one_line(s).len() <= 81
        }),
{
    lemma_words_are_words(Seq::empty(), s);
    law_joined_words_are_split_again(words(s));
    let whole = join(words(s), " "@);
    if whole.len() > 80 {
        assert(whole.take(80).push('…') =~= whole.take(80) + seq!['…']);
    }
}

/// Where all commands read, the first three files are named, in order, with an
/// ellipsis where there are more.
pub proof fn law_files_that_are_read_are_named(parsed: Seq<ParsedCommand>)
    requires
        parsed.len() > 0,
        forall|i: int| 0 <= i < parsed.len() ==> #[trigger] parsed[i] is Read,
    ensures
        ({
            let name = |i: int| parsed[i]->name@;
            &&& parsed.len() == 1 ==> summary(parsed) == Some("Read "@ + name(0))
            &&& parsed.len() == 2 ==> summary(parsed) == Some("Read "@ + name(0) + ", "@ + name(1))
            &&& parsed.len() == 3 ==> summary(parsed) == Some(
                "Read "@ + name(0) + ", "@ + name(1) + ", "@ + name(2),
            )
            &&& parsed.len() > 3 ==> summary(parsed) == Some(
                "Read "@ + name(0) + ", "@ + name(1) + ", "@ + name(2) + ", …"@,
            )
        }),
{
    reveal_with_fuel(join, 4);
    let names = first_names(parsed);
    assert(forall|i: int| 0 <= i < names.len() ==> #[trigger] names[i] == parsed[i]->name@);
    assert(all_read(parsed));
    if parsed.len() == 1 {
        assert(summary(parsed)->0 =~= "Read "@ + names[0]);
    } else if parsed.len() == 2 {
        assert(names.drop_last()[0] == names[0]);
        assert(summary(parsed)->0 =~= "Read "@ + names[0] + ", "@ + names[1]);
    } else {
        let two = names.drop_last();
        assert(two[0] == names[0] && two[1] == names[1] && two.drop_last()[0] == names[0]);
        assert(join(two.drop_last(), ", "@) == names[0]);
        assert(join(two, ", "@) == names[0] + ", "@ + names[1]);
        assert(join(names, ", "@) == names[0] + ", "@ + names[1] + ", "@ + names[2]);
        assert(summary(parsed)->0 =~= "Read "@ + names[0] + ", "@ + names[1] + ", "@ + names[2] + (
        if parsed.len() > 3 {
            ", …"@
        } else {
            Seq::empty()
        }));
    }
}

/// Where not all commands read, the first one stands for all, and without a command
/// there is nothing to show.
pub proof fn law_first_command_stands_for_the_others(parsed: Seq<ParsedCommand>, i: int)
    ensures
        parsed.len() == 0 ==> summary(parsed) is None,
        0 <= i < parsed.len() && !(parsed[i] is Read) ==> summary(parsed) == Some(
            command_summary(parsed[0]),
        ),
{
}

/// A command is summed up by what it does and to what: reading names the file,
/// listing the place or the current one, searching what for and where as far as
/// that is known, and everything else shows the command itself.
pub proof fn law_summary_says_what_is_done(command: ParsedCommand)
    ensures
        command matches ParsedCommand::Read { name, .. } ==> command_summary(command) == "Read "@
            + name@,
        command matches ParsedCommand::ListFiles { path, .. } ==> command_summary(command)
            == "List "@ + (if path is Some {
            path->0@
        } else {
            "."@
        }),
        command matches ParsedCommand::Search { query, path, cmd } ==> {
            &&& query is Some && path is Some ==> command_summary(command) == "Search \""@
                + query->0@ + "\" in "@ + path->0@
            &&& query is Some && path is None ==> command_summary(command) == "Search \""@
                + query->0@ + "\""@
            &&& query is None && path is Some ==> command_summary(command) == "Search in "@
                + path->0@
            &&& query is None && path is None ==> command_summary(command) == "Run "@ + one_line(
                cmd@,
            )
        },
        command matches ParsedCommand::Unknown { cmd } ==> command_summary(command) == "Run "@
            + one_line(cmd@),
{
}

} // verus!
