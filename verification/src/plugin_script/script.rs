//! The script that a command runs, directly or through an interpreter.
use vstd::prelude::*;
use vstd::utf8::encode_utf8;
use super::file_name::file_name;
use super::file_name::file_name_of;
use super::file_name::Platform;
use super::tokens::command_tokens;
use super::tokens::command_words;
use crate::text::chars::chars_of;
use crate::text::chars::has_char;
use crate::text::chars::is_one_of;
use crate::text::chars::is_text;
use crate::text::chars::lowered;
use crate::text::chars::push_text;
use crate::text::chars::string_of;
use crate::text::chars::texts;
use crate::text::chars::to_lowered;
use crate::text::search::begins_with;
use crate::text::search::begins_with_text;
use crate::text::search::ends_with;
use crate::text::search::finishes_with;
use crate::text::search::starts_with;
use crate::text::split::copied;
use crate::text::split::pieces;

verus! {

/// The interpreters whose options are understood.
#[derive(Debug, Clone, Copy, PartialEq, Eq, Structural)]
pub enum Runner {
    /// Python.
    Python,
    /// A POSIX shell.
    Shell,
    /// Node.
    Node,
    /// Deno.
    Deno,
    /// Ruby.
    Ruby,
    /// Perl.
    Perl,
    /// PowerShell.
    PowerShell,
}

/// The interpreter of a name.
pub open spec fn runner_of(name: Seq<char>) -> Option<Runner> {
    if name == "python"@ || name == "python3"@ {
        Some(Runner::Python)
    } else if name == "bash"@ || name == "zsh"@ || name == "sh"@ {
        Some(Runner::Shell)
    } else if name == "node"@ {
        Some(Runner::Node)
    } else if name == "deno"@ {
        Some(Runner::Deno)
    } else if name == "ruby"@ {
        Some(Runner::Ruby)
    } else if name == "perl"@ {
        Some(Runner::Perl)
    } else if name == "pwsh"@ || name == "powershell"@ {
        Some(Runner::PowerShell)
    } else {
        None
    }
}

/// The interpreter of a name.
pub fn find_runner(name: &[char]) -> (r: Option<Runner>)
    ensures
        r == runner_of(name@),
{
    if is_text(name, "python") || is_text(name, "python3") {
        Some(Runner::Python)
    } else if is_text(name, "bash") || is_text(name, "zsh") || is_text(name, "sh") {
        Some(Runner::Shell)
    } else if is_text(name, "node") {
        Some(Runner::Node)
    } else if is_text(name, "deno") {
        Some(Runner::Deno)
    } else if is_text(name, "ruby") {
        Some(Runner::Ruby)
    } else if is_text(name, "perl") {
        Some(Runner::Perl)
    } else if is_text(name, "pwsh") || is_text(name, "powershell") {
        Some(Runner::PowerShell)
    } else {
        None
    }
}

/// Whether an argument is one of the options that run no script, alone, with a
/// value behind an equals sign, or with something appended to a short option.
pub open spec fn is_no_script_option(arg: Seq<char>, options: Seq<Seq<char>>) -> bool {
    exists|i: int| 0 <= i < options.len() && matches_option(arg, #[trigger] options[i])
}

/// Whether an argument is the option, alone or with something appended.
pub open spec fn matches_option(arg: Seq<char>, option: Seq<char>) -> bool {
    ||| arg == option
    ||| (starts_with(option, "--"@) && starts_with(arg, option + "="@))
    ||| (encode_utf8(option).len() == 2 && starts_with(arg, option) && arg.len() > option.len())
}

/// The script among the arguments of an interpreter: the first that is no
/// option. The options in `with_values` take the argument behind them along, and
/// one of those in `no_script` means that there is no script.
pub open spec fn script_after(
    args: Seq<Seq<char>>,
    with_values: Seq<Seq<char>>,
    no_script: Seq<Seq<char>>,
) -> Option<Seq<char>>
    decreases args.len(),
{
    if args.len() == 0 {
        None
    } else {
        let arg = args[0];
        if arg == "--"@ {
            if args.len() < 2 {
                None
            } else {
                Some(args[1])
            }
        } else if is_no_script_option(arg, no_script) {
            None
        } else if with_values.contains(arg) {
            if args.len() < 2 {
                None
            } else {
                script_after(args.skip(2), with_values, no_script)
            }
        } else if starts_with(arg, "-"@) {
            script_after(args.skip(1), with_values, no_script)
        } else {
            Some(arg)
        }
    }
}

/// Whether an argument is the option, alone or with something appended.
fn is_option(arg: &[char], option: &str) -> (r: bool)
    ensures
        r == matches_option(arg@, option@),
{
    let o = chars_of(option);
    if is_text(arg, option) {
        return true;
    }
    if begins_with_text(&o, "--") {
        let mut with_value = chars_of(option);
        push_text(&mut with_value, "=");
        if begins_with(arg, &with_value) {
            return true;
        }
    }
    option.as_bytes().len() == 2 && begins_with(arg, &o) && arg.len() > o.len()
}

/// The script among the arguments of an interpreter, from a position on.
pub fn script_after_options(
    args: &Vec<Vec<char>>,
    from: usize,
    options_with_values: &[&str],
    no_script_options: &[&str],
) -> (r: Option<Vec<char>>)
    requires
        from <= args@.len(),
    ensures
        match r {
            Some(script) => script_after(
                pieces(args@).skip(from as int),
                texts(options_with_values@),
                texts(no_script_options@),
            ) == Some(script@),
            None => script_after(
                pieces(args@).skip(from as int),
                texts(options_with_values@),
                texts(no_script_options@),
            ) is None,
        },
{
    let ghost all = pieces(args@);
    let ghost with_values = texts(options_with_values@);
    let ghost no_script = texts(no_script_options@);
    let mut index: usize = from;
    while index < args.len()
        invariant
            from <= index <= args@.len(),
            all == pieces(args@),
            with_values == texts(options_with_values@),
            no_script == texts(no_script_options@),
            script_after(all.skip(from as int), with_values, no_script) == script_after(
                all.skip(index as int),
                with_values,
                no_script,
            ),
        decreases args@.len() - index,
    {
        let arg = &args[index];
        let ghost here = all.skip(index as int);
        assert(here[0] == pieces(args@)[index as int]);
        assert(here[0] == arg@);
        assert(here.skip(1) == all.skip(index + 1));
        assert(here.len() >= 2 ==> here.skip(2) == all.skip(index + 2) && here[1] == pieces(
            args@,
        )[index + 1]);
        if is_text(arg, "--") {
            return if args.len() - index < 2 {
                None
            } else {
                Some(copied(&args[index + 1]))
            };
        }
        if has_no_script_option(arg, no_script_options) {
            return None;
        }
        if is_one_of(arg, options_with_values) {
            if args.len() - index < 2 {
                return None;
            }
            index += 2;
        } else if begins_with_text(arg, "-") {
            index += 1;
        } else {
            return Some(copied(arg));
        }
    }
    assert(all.skip(index as int).len() == 0);
    None
}

/// Whether an argument is one of the options that run no script.
fn has_no_script_option(arg: &[char], options: &[&str]) -> (r: bool)
    ensures
        r == is_no_script_option(arg@, texts(options@)),
{
    let mut i: usize = 0;
    while i < options.len()
        invariant
            i <= options@.len(),
            forall|j: int| 0 <= j < i ==> !matches_option(arg@, #[trigger] texts(options@)[j]),
        decreases options@.len() - i,
    {
        assert(texts(options@)[i as int] == options@[i as int]@);
        if is_option(arg, options[i]) {
            return true;
        }
        i += 1;
    }
    false
}

/// The script among the arguments of Deno: behind one of its running
/// subcommands.
pub open spec fn deno_script_of(args: Seq<Seq<char>>) -> Option<Seq<char>>
    decreases args.len(),
{
    if args.len() == 0 {
        None
    } else {
        let arg = args[0];
        let low = lowered(arg);
        if low == "--config"@ || low == "--import-map"@ || low == "--location"@ {
            if args.len() < 2 {
                None
            } else {
                deno_script_of(args.skip(2))
            }
        } else if starts_with(arg, "-"@) {
            deno_script_of(args.skip(1))
        } else if low == "run"@ || low == "test"@ || low == "bench"@ {
            script_after(
                args.skip(1),
                seq![
                    "--config"@,
                    "--import-map"@,
                    "--location"@,
                    "--seed"@,
                    "--v8-flags"@,
                ],
                Seq::empty(),
            )
        } else {
            None
        }
    }
}

/// The script among the arguments of Deno, from a position on.
pub fn deno_script(args: &Vec<Vec<char>>, from: usize) -> (r: Option<Vec<char>>)
    requires
        from <= args@.len(),
    ensures
        match r {
            Some(script) => deno_script_of(pieces(args@).skip(from as int)) == Some(script@),
            None => deno_script_of(pieces(args@).skip(from as int)) is None,
        },
{
    let ghost all = pieces(args@);
    let mut index: usize = from;
    while index < args.len()
        invariant
            from <= index <= args@.len(),
            all == pieces(args@),
            deno_script_of(all.skip(from as int)) == deno_script_of(all.skip(index as int)),
        decreases args@.len() - index,
    {
        let arg = &args[index];
        let ghost here = all.skip(index as int);
        assert(here[0] == pieces(args@)[index as int]);
        assert(here[0] == arg@);
        assert(here.skip(1) == all.skip(index + 1));
        assert(here.len() >= 2 ==> here.skip(2) == all.skip(index + 2));
        let low = to_lowered(arg);
        if is_text(&low, "--config") || is_text(&low, "--import-map") || is_text(
            &low,
            "--location",
        ) {
            if args.len() - index < 2 {
                return None;
            }
            index += 2;
        } else if begins_with_text(arg, "-") {
            index += 1;
        } else if is_text(&low, "run") || is_text(&low, "test") || is_text(&low, "bench") {
            let with_values = ["--config", "--import-map", "--location", "--seed", "--v8-flags"];
            let none: [&str; 0] = [];
            assert(texts(with_values@) =~= seq![
                "--config"@,
                "--import-map"@,
                "--location"@,
                "--seed"@,
                "--v8-flags"@,
            ]);
            assert(texts(none@) =~= Seq::<Seq<char>>::empty());
            return script_after_options(args, index + 1, &with_values, &none);
        } else {
            return None;
        }
    }
    assert(all.skip(index as int).len() == 0);
    None
}

/// The script among the arguments of PowerShell.
pub open spec fn powershell_script_of(args: Seq<Seq<char>>) -> Option<Seq<char>>
    decreases args.len(),
{
    if args.len() == 0 {
        None
    } else {
        let arg = args[0];
        let low = lowered(arg);
        if low == "-command"@ || low == "-c"@ || low == "-encodedcommand"@ || low == "-e"@ {
            None
        } else if low == "-file"@ || low == "-f"@ {
            if args.len() < 2 {
                None
            } else {
                Some(args[1])
            }
        } else if low == "-workingdirectory"@ || starts_with(low, "-workingdirectory:"@) {
            None
        } else if low == "-executionpolicy"@ || low == "-inputformat"@ || low == "-outputformat"@
            || low == "-windowstyle"@ {
            if args.len() < 2 {
                None
            } else {
                powershell_script_of(args.skip(2))
            }
        } else if starts_with(arg, "-"@) {
            powershell_script_of(args.skip(1))
        } else {
            Some(arg)
        }
    }
}

/// The script among the arguments of PowerShell, from a position on.
pub fn powershell_script(args: &Vec<Vec<char>>, from: usize) -> (r: Option<Vec<char>>)
    requires
        from <= args@.len(),
    ensures
        match r {
            Some(script) => powershell_script_of(pieces(args@).skip(from as int)) == Some(script@),
            None => powershell_script_of(pieces(args@).skip(from as int)) is None,
        },
{
    let ghost all = pieces(args@);
    let mut index: usize = from;
    while index < args.len()
        invariant
            from <= index <= args@.len(),
            all == pieces(args@),
            powershell_script_of(all.skip(from as int)) == powershell_script_of(
                all.skip(index as int),
            ),
        decreases args@.len() - index,
    {
        let arg = &args[index];
        let ghost here = all.skip(index as int);
        assert(here[0] == pieces(args@)[index as int]);
        assert(here[0] == arg@);
        assert(here.skip(1) == all.skip(index + 1));
        assert(here.len() >= 2 ==> here.skip(2) == all.skip(index + 2) && here[1] == pieces(
            args@,
        )[index + 1]);
        let low = to_lowered(arg);
        if is_text(&low, "-command") || is_text(&low, "-c") || is_text(&low, "-encodedcommand")
            || is_text(&low, "-e") {
            return None;
        }
        if is_text(&low, "-file") || is_text(&low, "-f") {
            return if args.len() - index < 2 {
                None
            } else {
                Some(copied(&args[index + 1]))
            };
        }
        if is_text(&low, "-workingdirectory") || begins_with_text(&low, "-workingdirectory:") {
            return None;
        }
        if is_text(&low, "-executionpolicy") || is_text(&low, "-inputformat") || is_text(
            &low,
            "-outputformat",
        ) || is_text(&low, "-windowstyle") {
            if args.len() - index < 2 {
                return None;
            }
            index += 2;
        } else if begins_with_text(arg, "-") {
            index += 1;
        } else {
            return Some(copied(arg));
        }
    }
    assert(all.skip(index as int).len() == 0);
    None
}

/// The options of an interpreter that take a value along.
pub open spec fn value_options(runner: Runner) -> Seq<Seq<char>> {
    match runner {
        Runner::Python => seq!["-W"@, "-X"@, "--check-hash-based-pycs"@],
        Runner::Shell => seq!["-o"@, "--rcfile"@, "--init-file"@],
        Runner::Node => seq![
            "-r"@,
            "--require"@,
            "--loader"@,
            "--experimental-loader"@,
            "--import"@,
            "--conditions"@,
            "--env-file"@,
            "--input-type"@,
            "--inspect-port"@,
            "--title"@,
        ],
        Runner::Ruby => seq!["-I"@, "-r"@],
        Runner::Perl => seq!["-I"@, "-M"@, "-m"@],
        Runner::Deno | Runner::PowerShell => Seq::empty(),
    }
}

/// The options of an interpreter with which it runs no script.
pub open spec fn no_script_options(runner: Runner) -> Seq<Seq<char>> {
    match runner {
        Runner::Python => seq![
            "-"@,
            "-c"@,
            "-m"@,
            "-h"@,
            "--help"@,
            "-V"@,
            "--version"@,
        ],
        Runner::Shell => seq!["-c"@, "-s"@, "--help"@, "--version"@],
        Runner::Node => seq![
            "-c"@,
            "--check"@,
            "-e"@,
            "--eval"@,
            "-p"@,
            "--print"@,
            "-h"@,
            "--help"@,
            "-v"@,
            "--version"@,
        ],
        Runner::Ruby => seq!["-e"@, "--eval"@],
        Runner::Perl => seq!["-e"@, "-E"@],
        Runner::Deno | Runner::PowerShell => Seq::empty(),
    }
}

/// The script among the arguments of an interpreter.
pub open spec fn runner_script_of(runner: Runner, args: Seq<Seq<char>>) -> Option<Seq<char>> {
    match runner {
        Runner::Deno => deno_script_of(args),
        Runner::PowerShell => powershell_script_of(args),
        _ => script_after(args, value_options(runner), no_script_options(runner)),
    }
}

/// The script among the arguments of an interpreter, from a position on.
pub fn runner_script(runner: Runner, args: &Vec<Vec<char>>, from: usize) -> (r: Option<Vec<char>>)
    requires
        from <= args@.len(),
    ensures
        match r {
            Some(script) => runner_script_of(runner, pieces(args@).skip(from as int)) == Some(
                script@,
            ),
            None => runner_script_of(runner, pieces(args@).skip(from as int)) is None,
        },
{
    match runner {
        Runner::Python => {
            let with_values = ["-W", "-X", "--check-hash-based-pycs"];
            let no_script = ["-", "-c", "-m", "-h", "--help", "-V", "--version"];
            assert(texts(with_values@) =~= value_options(runner));
            assert(texts(no_script@) =~= no_script_options(runner));
            script_after_options(args, from, &with_values, &no_script)
        },
        Runner::Shell => {
            let with_values = ["-o", "--rcfile", "--init-file"];
            let no_script = ["-c", "-s", "--help", "--version"];
            assert(texts(with_values@) =~= value_options(runner));
            assert(texts(no_script@) =~= no_script_options(runner));
            script_after_options(args, from, &with_values, &no_script)
        },
        Runner::Node => {
            let with_values = [
                "-r",
                "--require",
                "--loader",
                "--experimental-loader",
                "--import",
                "--conditions",
                "--env-file",
                "--input-type",
                "--inspect-port",
                "--title",
            ];
            let no_script = [
                "-c",
                "--check",
                "-e",
                "--eval",
                "-p",
                "--print",
                "-h",
                "--help",
                "-v",
                "--version",
            ];
            assert(texts(with_values@) =~= value_options(runner));
            assert(texts(no_script@) =~= no_script_options(runner));
            script_after_options(args, from, &with_values, &no_script)
        },
        Runner::Ruby => {
            let with_values = ["-I", "-r"];
            let no_script = ["-e", "--eval"];
            assert(texts(with_values@) =~= value_options(runner));
            assert(texts(no_script@) =~= no_script_options(runner));
            script_after_options(args, from, &with_values, &no_script)
        },
        Runner::Perl => {
            let with_values = ["-I", "-M", "-m"];
            let no_script = ["-e", "-E"];
            assert(texts(with_values@) =~= value_options(runner));
            assert(texts(no_script@) =~= no_script_options(runner));
            script_after_options(args, from, &with_values, &no_script)
        },
        Runner::Deno => deno_script(args, from),
        Runner::PowerShell => powershell_script(args, from),
    }
}

/// The name under which a program is known: on Windows without regard to case
/// and without the ending of executables.
pub open spec fn program_name(platform: Platform, program: Seq<char>) -> Option<Seq<char>> {
    match file_name_of(platform, program) {
        Some(name) => match platform {
            Platform::Unix => Some(name),
            Platform::Windows => {
                let low = lowered(name);
                Some(
                    if ends_with(low, ".exe"@) {
                        low.take(low.len() - 4)
                    } else {
                        low
                    },
                )
            },
        },
        None => None,
    }
}

/// The script that a program with arguments runs: that of an interpreter, or the
/// program itself where it is given by a path.
pub open spec fn script_of_words(platform: Platform, words: Seq<Seq<char>>) -> Option<Seq<char>> {
    let program = words[0];
    match program_name(platform, program) {
        Some(name) => match runner_of(name) {
            Some(runner) => runner_script_of(runner, words.skip(1)),
            None => if program.contains('/') || program.contains('\\') {
                Some(program)
            } else {
                None
            },
        },
        None => None,
    }
}

/// The script that a command runs.
pub open spec fn script_of(platform: Platform, command: Seq<char>) -> Option<Seq<char>> {
    match command_words(platform, command) {
        Some(words) => script_of_words(platform, words),
        None => None,
    }
}

/// The name under which a program is known.
fn known_name(platform: Platform, program: &[char]) -> (r: Option<Vec<char>>)
    ensures
        match r {
            Some(name) => program_name(platform, program@) == Some(name@),
            None => program_name(platform, program@) is None,
        },
{
    let name = match file_name(platform, program) {
        Some(name) => name,
        None => {
            return None;
        },
    };
    match platform {
        Platform::Unix => Some(name),
        Platform::Windows => {
            let low = to_lowered(&name);
            let ending = chars_of(".exe");
            proof {
                reveal_strlit(".exe");
            }
            if finishes_with(&low, &ending) {
                let stem = &low[0..low.len() - 4];
                assert(stem@ == low@.take(low@.len() - 4));
                Some(copied(stem))
            } else {
                Some(low)
            }
        },
    }
}

/// The script that a program with arguments runs.
pub fn script_of_tokens(platform: Platform, tokens: &Vec<Vec<char>>) -> (r: Option<Vec<char>>)
    requires
        tokens@.len() > 0,
    ensures
        match r {
            Some(script) => script_of_words(platform, pieces(tokens@)) == Some(script@),
            None => script_of_words(platform, pieces(tokens@)) is None,
        },
{
    let program = &tokens[0];
    assert(pieces(tokens@)[0] == program@);
    let name = match known_name(platform, program) {
        Some(name) => name,
        None => {
            return None;
        },
    };
    match find_runner(&name) {
        Some(runner) => runner_script(runner, tokens, 1),
        None => if has_char(program, '/') || has_char(program, '\\') {
            Some(copied(program))
        } else {
            None
        },
    }
}

/// Whatever a command comes to runs at least a program.
pub proof fn lemma_words_not_empty(platform: Platform, command: Seq<char>)
    ensures
        command_words(platform, command) matches Some(words) ==> words.len() > 0,
{
    lemma_windows_words_not_empty(command, Seq::empty(), Seq::empty(), false, None);
}

proof fn lemma_windows_words_not_empty(
    s: Seq<char>,
    words: Seq<Seq<char>>,
    word: Seq<char>,
    open: bool,
    quote: Option<char>,
)
    ensures
        super::tokens::windows_words_from(s, words, word, open, quote) matches Some(all)
            ==> all.len() > 0,
    decreases s.len(),
{
    if s.len() > 0 {
        let c = s[0];
        let rest = s.skip(1);
        lemma_windows_words_not_empty(rest, words, word, open, None);
        lemma_windows_words_not_empty(rest, words, word, true, Some(c));
        lemma_windows_words_not_empty(rest, words.push(word), Seq::empty(), false, None);
        lemma_windows_words_not_empty(rest, words, word, false, None);
        lemma_windows_words_not_empty(rest, words, word.push(c), true, None);
        lemma_windows_words_not_empty(rest, words, word.push(c), open, quote);
        if rest.len() > 0 {
            lemma_windows_words_not_empty(rest.skip(1), words, word.push(rest[0]), open, quote);
            lemma_windows_words_not_empty(rest.skip(1), words, word.push(rest[0]), true, None);
            lemma_windows_words_not_empty(rest.skip(1), words, word.push(c), open, quote);
        }
    }
}

/// The script that a command runs.
pub fn script_token(platform: Platform, command: &str) -> (r: Option<String>)
    ensures
        r.deep_view() == script_of(platform, command@),
{
    let tokens = match command_tokens(platform, command) {
        Some(tokens) => tokens,
        None => {
            return None;
        },
    };
    proof {
        lemma_words_not_empty(platform, command@);
    }
    match script_of_tokens(platform, &tokens) {
        Some(script) => Some(string_of(&script)),
        None => None,
    }
}

/// A program that is neither an interpreter nor given by a path is no script, so
/// that nothing is attributed to a command that is merely found by its name.
pub proof fn law_bare_program_is_no_script(platform: Platform, words: Seq<Seq<char>>)
    requires
        words.len() > 0,
        !words[0].contains('/'),
        !words[0].contains('\\'),
        program_name(platform, words[0]) matches Some(name) ==> runner_of(name) is None,
    ensures
        script_of_words(platform, words) is None,
{
}

/// A script is one of the words of the command.
pub proof fn law_script_is_a_word_of_the_command(platform: Platform, words: Seq<Seq<char>>)
    requires
        words.len() > 0,
        script_of_words(platform, words) is Some,
    ensures
        words.contains(script_of_words(platform, words)->0),
{
    let args = words.skip(1);
    let program = words[0];
    match program_name(platform, program) {
        Some(name) => match runner_of(name) {
            Some(runner) => {
                lemma_script_after_is_arg(args, value_options(runner), no_script_options(runner));
                lemma_deno_script_is_arg(args);
                lemma_powershell_script_is_arg(args);
                let script = runner_script_of(runner, args)->0;
                let i = choose|i: int| 0 <= i < args.len() && args[i] == script;
                assert(words[i + 1] == script);
            },
            None => {},
        },
        None => {},
    }
}

proof fn lemma_skip_contains(args: Seq<Seq<char>>, n: int, x: Seq<char>)
    requires
        0 <= n <= args.len(),
        args.skip(n).contains(x),
    ensures
        args.contains(x),
{
    let i = choose|i: int| 0 <= i < args.skip(n).len() && args.skip(n)[i] == x;
    assert(args[i + n] == x);
}

proof fn lemma_script_after_is_arg(
    args: Seq<Seq<char>>,
    with_values: Seq<Seq<char>>,
    no_script: Seq<Seq<char>>,
)
    ensures
        script_after(args, with_values, no_script) matches Some(s) ==> args.contains(s),
    decreases args.len(),
{
    if args.len() > 0 {
        lemma_script_after_is_arg(args.skip(1), with_values, no_script);
        if args.len() >= 2 {
            lemma_script_after_is_arg(args.skip(2), with_values, no_script);
        }
        match script_after(args, with_values, no_script) {
            Some(s) => {
                if args.skip(1).contains(s) {
                    lemma_skip_contains(args, 1, s);
                }
                if args.len() >= 2 && args.skip(2).contains(s) {
                    lemma_skip_contains(args, 2, s);
                }
            },
            None => {},
        }
    }
}

proof fn lemma_deno_script_is_arg(args: Seq<Seq<char>>)
    ensures
        deno_script_of(args) matches Some(s) ==> args.contains(s),
    decreases args.len(),
{
    if args.len() > 0 {
        lemma_deno_script_is_arg(args.skip(1));
        lemma_script_after_is_arg(
            args.skip(1),
            seq![
                "--config"@,
                "--import-map"@,
                "--location"@,
                "--seed"@,
                "--v8-flags"@,
            ],
            Seq::empty(),
        );
        if args.len() >= 2 {
            lemma_deno_script_is_arg(args.skip(2));
        }
        match deno_script_of(args) {
            Some(s) => {
                if args.skip(1).contains(s) {
                    lemma_skip_contains(args, 1, s);
                }
                if args.len() >= 2 && args.skip(2).contains(s) {
                    lemma_skip_contains(args, 2, s);
                }
            },
            None => {},
        }
    }
}

proof fn lemma_powershell_script_is_arg(args: Seq<Seq<char>>)
    ensures
        powershell_script_of(args) matches Some(s) ==> args.contains(s),
    decreases args.len(),
{
    if args.len() > 0 {
        lemma_powershell_script_is_arg(args.skip(1));
        if args.len() >= 2 {
            lemma_powershell_script_is_arg(args.skip(2));
        }
        match powershell_script_of(args) {
            Some(s) => {
                if args.skip(1).contains(s) {
                    lemma_skip_contains(args, 1, s);
                }
                if args.len() >= 2 && args.skip(2).contains(s) {
                    lemma_skip_contains(args, 2, s);
                }
            },
            None => {},
        }
    }
}

/// The script of a command is that of the program and arguments which it comes to,
/// and a command that comes to none has none.
pub proof fn law_script_is_that_of_the_words(
    platform: Platform,
    command: Seq<char>,
    words: Seq<Seq<char>>,
)
    ensures
        command_words(platform, command) == Some(words) ==> script_of(platform, command)
            == script_of_words(platform, words),
        command_words(platform, command) is None ==> script_of(platform, command) is None,
{
}

} // verus!
