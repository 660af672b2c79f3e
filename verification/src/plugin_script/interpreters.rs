//! What the interpreters take for their script, name by name and option by option.
use vstd::prelude::*;
use vstd::utf8::encode_utf8;
use vstd::utf8::is_ascii_chars;
use vstd::utf8::is_ascii_chars_encode_utf8;
use super::file_name::file_name_of;
use super::file_name::law_bare_name_is_its_own_file_name;
use super::file_name::Platform;
use super::script::deno_script_of;
use super::script::is_no_script_option;
use super::script::matches_option;
use super::script::no_script_options;
use super::script::powershell_script_of;
use super::script::program_name;
use super::script::runner_of;
use super::script::script_after;
use super::script::script_of_words;
use super::script::value_options;
use super::script::Runner;
use crate::text::chars::lowered;
use crate::text::search::ends_with;
use crate::text::search::starts_with;

verus! {

/// The interpreters that run their first argument that is no option, and that end
/// their options at a double dash.
pub open spec fn plain_interpreters() -> Seq<Seq<char>> {
    seq!["python"@, "python3"@, "bash"@, "zsh"@, "sh"@, "node"@, "ruby"@, "perl"@]
}

/// The names of PowerShell.
pub open spec fn powershells() -> Seq<Seq<char>> {
    seq!["pwsh"@, "powershell"@]
}

/// Whether a program is the interpreter of that name: it is called by the name
/// itself or by a path with that file name, on Windows without regard to case and
/// with or without the ending of executables.
pub open spec fn is_interpreter(platform: Platform, program: Seq<char>, name: Seq<char>) -> bool {
    ||| program == name
    ||| (file_name_of(platform, program) matches Some(file) && match platform {
        Platform::Unix => file == name,
        Platform::Windows => lowered(file) == name || lowered(file) == name + ".exe"@,
    })
}

/// The options with which an interpreter takes the next argument along.
pub open spec fn taking_values(name: Seq<char>) -> Seq<Seq<char>> {
    if name == "python"@ || name == "python3"@ {
        seq!["-W"@, "-X"@, "--check-hash-based-pycs"@]
    } else if name == "bash"@ || name == "zsh"@ || name == "sh"@ {
        seq!["-o"@, "--rcfile"@, "--init-file"@]
    } else if name == "node"@ {
        seq![
            "-r"@,
            "--require"@,
            "--loader"@,
            "--experimental-loader"@,
            "--import"@,
            "--conditions"@,
            "--env-file"@,
            "--input-type"@,
            "--inspect-port"@,
            "--title"@,
        ]
    } else if name == "ruby"@ {
        seq!["-I"@, "-r"@]
    } else {
        seq!["-I"@, "-M"@, "-m"@]
    }
}

/// The options with which an interpreter runs no script.
pub open spec fn without_script(name: Seq<char>) -> Seq<Seq<char>> {
    if name == "python"@ || name == "python3"@ {
        seq!["-"@, "-c"@, "-m"@, "-h"@, "--help"@, "-V"@, "--version"@]
    } else if name == "bash"@ || name == "zsh"@ || name == "sh"@ {
        seq!["-c"@, "-s"@, "--help"@, "--version"@]
    } else if name == "node"@ {
        seq![
            "-c"@,
            "--check"@,
            "-e"@,
            "--eval"@,
            "-p"@,
            "--print"@,
            "-h"@,
            "--help"@,
            "-v"@,
            "--version"@,
        ]
    } else if name == "ruby"@ {
        seq!["-e"@, "--eval"@]
    } else {
        seq!["-e"@, "-E"@]
    }
}

proof fn lemma_names(name: Seq<char>)
    requires
        plain_interpreters().contains(name) || powershells().contains(name) || name == "deno"@,
    ensures
        name.len() > 0,
        forall|i: int|
            0 <= i < name.len() ==> 'a' <= #[trigger] name[i] <= 'z' || '0' <= name[i] <= '9',
        runner_of(name) is Some,
        plain_interpreters().contains(name) ==> runner_of(name) != Some(Runner::Deno) && runner_of(
            name,
        ) != Some(Runner::PowerShell) && value_options(runner_of(name)->0) == taking_values(name)
            && no_script_options(runner_of(name)->0) == without_script(name),
        powershells().contains(name) ==> runner_of(name) == Some(Runner::PowerShell),
        name == "deno"@ ==> runner_of(name) == Some(Runner::Deno),
{
    reveal_strlit("python");
    reveal_strlit("python3");
    reveal_strlit("bash");
    reveal_strlit("zsh");
    reveal_strlit("sh");
    reveal_strlit("node");
    reveal_strlit("deno");
    reveal_strlit("ruby");
    reveal_strlit("perl");
    reveal_strlit("pwsh");
    reveal_strlit("powershell");
    assert("python"@[0] == 'p' && "python"@[1] == 'y' && "python"@.len() == 6);
    assert("python3"@[0] == 'p' && "python3"@[1] == 'y' && "python3"@.len() == 7);
    assert("bash"@[0] == 'b' && "zsh"@[0] == 'z' && "sh"@[0] == 's');
    assert("node"@[0] == 'n' && "deno"@[0] == 'd' && "ruby"@[0] == 'r');
    assert("perl"@[0] == 'p' && "perl"@[1] == 'e' && "perl"@.len() == 4);
    assert("pwsh"@[0] == 'p' && "pwsh"@[1] == 'w' && "pwsh"@.len() == 4);
    assert("powershell"@[0] == 'p' && "powershell"@[1] == 'o' && "powershell"@.len() == 10);
    assert(name == "python"@ || name == "python3"@ || name == "bash"@ || name == "zsh"@ || name
        == "sh"@ || name == "node"@ || name == "ruby"@ || name == "perl"@ || name == "pwsh"@ || name
        == "powershell"@ || name == "deno"@);
    assert(plain_interpreters().contains(name) ==> name[0] != 'd' && (name[0] == 'p' ==> name[1]
        == 'y' || name[1] == 'e'));
    assert(powershells().contains(name) ==> name[0] == 'p' && (name[1] == 'w' || name[1] == 'o'));
}

proof fn lemma_known(platform: Platform, program: Seq<char>, name: Seq<char>)
    requires
        plain_interpreters().contains(name) || powershells().contains(name) || name == "deno"@,
        is_interpreter(platform, program, name),
    ensures
        program_name(platform, program) == Some(name),
{
    lemma_names(name);
    reveal_strlit(".exe");
    reveal_strlit(".");
    reveal_strlit("..");
    let file = if program == name {
        assert("."@[0] == '.' && ".."@[0] == '.');
        law_bare_name_is_its_own_file_name(platform, name);
        name
    } else {
        file_name_of(platform, program)->0
    };
    assert(lowered(name) =~= name);
    if platform == Platform::Windows {
        let low = lowered(file);
        if low == name {
            if ends_with(name, ".exe"@) {
                assert(name.skip(name.len() - 4)[0] == '.');
                assert(name[name.len() - 4] == '.');
            }
        } else {
            assert(low == name + ".exe"@);
            assert(low.skip(low.len() - 4) =~= ".exe"@);
            assert(low.take(low.len() - 4) =~= name);
        }
    }
}

proof fn lemma_options_begin_with_a_dash()
    ensures
        forall|name: Seq<char>, i: int|
            0 <= i < taking_values(name).len() ==> starts_with(
                #[trigger] taking_values(name)[i],
                "-"@,
            ),
        forall|name: Seq<char>, i: int|
            0 <= i < without_script(name).len() ==> starts_with(
                #[trigger] without_script(name)[i],
                "-"@,
            ),
{
    reveal_strlit("-");
    reveal_strlit("-W");
    reveal_strlit("-X");
    reveal_strlit("--check-hash-based-pycs");
    reveal_strlit("-o");
    reveal_strlit("--rcfile");
    reveal_strlit("--init-file");
    reveal_strlit("-r");
    reveal_strlit("--require");
    reveal_strlit("--loader");
    reveal_strlit("--experimental-loader");
    reveal_strlit("--import");
    reveal_strlit("--conditions");
    reveal_strlit("--env-file");
    reveal_strlit("--input-type");
    reveal_strlit("--inspect-port");
    reveal_strlit("--title");
    reveal_strlit("-I");
    reveal_strlit("-M");
    reveal_strlit("-m");
    reveal_strlit("-c");
    reveal_strlit("-h");
    reveal_strlit("--help");
    reveal_strlit("-V");
    reveal_strlit("--version");
    reveal_strlit("-s");
    reveal_strlit("--check");
    reveal_strlit("-e");
    reveal_strlit("--eval");
    reveal_strlit("-p");
    reveal_strlit("--print");
    reveal_strlit("-v");
    reveal_strlit("-E");
    assert forall|name: Seq<char>, i: int| 0 <= i < taking_values(name).len() implies starts_with(
        #[trigger] taking_values(name)[i],
        "-"@,
    ) by {
        assert(taking_values(name)[i][0] == '-');
        assert(taking_values(name)[i].take(1) =~= "-"@);
    }
    assert forall|name: Seq<char>, i: int| 0 <= i < without_script(name).len() implies starts_with(
        #[trigger] without_script(name)[i],
        "-"@,
    ) by {
        assert(without_script(name)[i][0] == '-');
        assert(without_script(name)[i].take(1) =~= "-"@);
    }
}

proof fn lemma_matching_begins_alike(arg: Seq<char>, option: Seq<char>)
    requires
        matches_option(arg, option),
    ensures
        starts_with(arg, option),
{
    if starts_with(arg, option + "="@) {
        assert(arg.take(option.len() as int) =~= arg.take((option + "="@).len() as int).take(
            option.len() as int,
        ));
        assert((option + "="@).take(option.len() as int) =~= option);
    } else if arg == option {
        assert(arg.take(arg.len() as int) =~= arg);
    }
}

proof fn lemma_dash(arg: Seq<char>, option: Seq<char>)
    requires
        starts_with(option, "-"@),
        starts_with(arg, option),
    ensures
        starts_with(arg, "-"@),
{
    assert(arg.take("-"@.len() as int) =~= arg.take(option.len() as int).take("-"@.len() as int));
}

/// A plain interpreter, or PowerShell, that is given a first argument that does not
/// begin with a dash runs exactly that one, whatever comes behind it.
pub proof fn law_interpreter_runs_its_first_plain_argument(
    platform: Platform,
    words: Seq<Seq<char>>,
    name: Seq<char>,
)
    requires
        words.len() >= 2,
        seq![
            "python"@,
            "python3"@,
            "bash"@,
            "zsh"@,
            "sh"@,
            "node"@,
            "ruby"@,
            "perl"@,
            "pwsh"@,
            "powershell"@,
        ].contains(name),
        is_interpreter(platform, words[0], name),
        !starts_with(words[1], "-"@),
    ensures
        script_of_words(platform, words) == Some(words[1]),
{
    let args = words.skip(1);
    let arg = args[0];
    lemma_either(name);
    lemma_names(name);
    lemma_known(platform, words[0], name);
    reveal_strlit("--");
    reveal_strlit("-");
    assert("--"@.take(1) =~= "-"@);
    if plain_interpreters().contains(name) {
        let with_values = taking_values(name);
        let no_script = without_script(name);
        lemma_options_begin_with_a_dash();
        if is_no_script_option(arg, no_script) {
            let i = choose|i: int|
                0 <= i < no_script.len() && matches_option(arg, #[trigger] no_script[i]);
            lemma_matching_begins_alike(arg, no_script[i]);
            lemma_dash(arg, no_script[i]);
        }
        if with_values.contains(arg) {
            let i = choose|i: int| 0 <= i < with_values.len() && with_values[i] == arg;
            assert(starts_with(with_values[i], "-"@));
        }
        assert(script_after(args, with_values, no_script) == Some(arg));
    } else {
        lemma_powershell_plain(args);
    }
}

proof fn lemma_either(name: Seq<char>)
    requires
        seq![
            "python"@,
            "python3"@,
            "bash"@,
            "zsh"@,
            "sh"@,
            "node"@,
            "ruby"@,
            "perl"@,
            "pwsh"@,
            "powershell"@,
        ].contains(name),
    ensures
        plain_interpreters().contains(name) || powershells().contains(name),
{
    let p = plain_interpreters();
    let s = powershells();
    assert(p[0] == "python"@ && p[1] == "python3"@ && p[2] == "bash"@ && p[3] == "zsh"@ && p[4]
        == "sh"@ && p[5] == "node"@ && p[6] == "ruby"@ && p[7] == "perl"@);
    assert(s[0] == "pwsh"@ && s[1] == "powershell"@);
}

proof fn lemma_powershell_plain(args: Seq<Seq<char>>)
    requires
        args.len() > 0,
        !starts_with(args[0], "-"@),
    ensures
        powershell_script_of(args) == Some(args[0]),
{
    let arg = args[0];
    let low = lowered(arg);
    reveal_strlit("-");
    reveal_strlit("-command");
    reveal_strlit("-c");
    reveal_strlit("-encodedcommand");
    reveal_strlit("-e");
    reveal_strlit("-file");
    reveal_strlit("-f");
    reveal_strlit("-workingdirectory");
    reveal_strlit("-workingdirectory:");
    reveal_strlit("-executionpolicy");
    reveal_strlit("-inputformat");
    reveal_strlit("-outputformat");
    reveal_strlit("-windowstyle");
    if low.len() > 0 && low[0] == '-' {
        assert(arg[0] == '-');
        assert(arg.take(1) =~= "-"@);
    }
    assert("-command"@[0] == '-' && "-c"@[0] == '-' && "-encodedcommand"@[0] == '-' && "-e"@[0]
        == '-' && "-file"@[0] == '-' && "-f"@[0] == '-' && "-workingdirectory"@[0] == '-'
        && "-executionpolicy"@[0] == '-' && "-inputformat"@[0] == '-' && "-outputformat"@[0] == '-'
        && "-windowstyle"@[0] == '-');
    if starts_with(low, "-workingdirectory:"@) {
        assert(low.take(18)[0] == low[0]);
        assert("-workingdirectory:"@[0] == '-');
    }
}

/// Deno runs the first argument behind one of its running subcommands, in any case,
/// and nothing behind any other.
pub proof fn law_deno_runs_behind_its_running_subcommands(
    platform: Platform,
    words: Seq<Seq<char>>,
)
    requires
        words.len() >= 3,
        is_interpreter(platform, words[0], "deno"@),
        !starts_with(words[1], "-"@),
        !starts_with(words[2], "-"@),
    ensures
        seq!["run"@, "test"@, "bench"@].contains(lowered(words[1])) ==> script_of_words(
            platform,
            words,
        ) == Some(words[2]),
        !seq!["run"@, "test"@, "bench"@].contains(lowered(words[1])) ==> script_of_words(
            platform,
            words,
        ) is None,
{
    let args = words.skip(1);
    let rest = args.skip(1);
    let running = seq!["run"@, "test"@, "bench"@];
    let with_values = deno_value_options();
    lemma_names("deno"@);
    lemma_known(platform, words[0], "deno"@);
    lemma_deno_plain(args[0]);
    reveal_strlit("-");
    reveal_strlit("--");
    assert("--"@.take(1) =~= "-"@);
    assert(rest[0] == words[2]);
    assert(running[0] == "run"@ && running[1] == "test"@ && running[2] == "bench"@);
    if running.contains(lowered(args[0])) {
        lemma_deno_options_begin_with_a_dash();
        if with_values.contains(rest[0]) {
            let i = choose|i: int| 0 <= i < with_values.len() && with_values[i] == rest[0];
            assert(starts_with(with_values[i], "-"@));
        }
        assert(!is_no_script_option(rest[0], Seq::empty()));
        assert(script_after(rest, with_values, Seq::empty()) == Some(rest[0]));
    }
}

/// The options with which Deno takes the next argument along behind a subcommand.
pub open spec fn deno_value_options() -> Seq<Seq<char>> {
    seq!["--config"@, "--import-map"@, "--location"@, "--seed"@, "--v8-flags"@]
}

proof fn lemma_deno_options_begin_with_a_dash()
    ensures
        forall|i: int|
            0 <= i < deno_value_options().len() ==> starts_with(
                #[trigger] deno_value_options()[i],
                "-"@,
            ) && deno_value_options()[i] != "--"@,
{
    reveal_strlit("-");
    reveal_strlit("--");
    reveal_strlit("--config");
    reveal_strlit("--import-map");
    reveal_strlit("--location");
    reveal_strlit("--seed");
    reveal_strlit("--v8-flags");
    assert forall|i: int| 0 <= i < deno_value_options().len() implies starts_with(
        #[trigger] deno_value_options()[i],
        "-"@,
    ) && deno_value_options()[i] != "--"@ by {
        assert(deno_value_options()[i][0] == '-' && deno_value_options()[i].len() > 2);
        assert(deno_value_options()[i].take(1) =~= "-"@);
    }
}

proof fn lemma_deno_plain(arg: Seq<char>)
    requires
        !starts_with(arg, "-"@),
    ensures
        lowered(arg) != "--config"@,
        lowered(arg) != "--import-map"@,
        lowered(arg) != "--location"@,
{
    reveal_strlit("-");
    reveal_strlit("--config");
    reveal_strlit("--import-map");
    reveal_strlit("--location");
    assert("--config"@[0] == '-' && "--import-map"@[0] == '-' && "--location"@[0] == '-');
    if lowered(arg).len() > 0 && lowered(arg)[0] == '-' {
        assert(arg[0] == '-');
        assert(arg.take(1) =~= "-"@);
    }
}

/// Before its subcommand Deno passes over options, and over their values where they
/// take one.
pub proof fn law_deno_passes_over_options(args: Seq<Seq<char>>, platform: Platform, deno: Seq<char>)
    requires
        args.len() >= 1,
        is_interpreter(platform, deno, "deno"@),
        starts_with(args[0], "-"@),
    ensures
        ({
            let takes = seq!["--config"@, "--import-map"@, "--location"@].contains(
                lowered(args[0]),
            );
            &&& !takes ==> script_of_words(platform, seq![deno] + args) == script_of_words(
                platform,
                seq![deno] + args.skip(1),
            )
            &&& takes && args.len() >= 2 ==> script_of_words(platform, seq![deno] + args)
                == script_of_words(platform, seq![deno] + args.skip(2))
        }),
{
    let takes = seq!["--config"@, "--import-map"@, "--location"@];
    lemma_names("deno"@);
    lemma_known(platform, deno, "deno"@);
    assert(takes[0] == "--config"@ && takes[1] == "--import-map"@ && takes[2] == "--location"@);
    assert((seq![deno] + args).skip(1) =~= args);
    assert((seq![deno] + args.skip(1)).skip(1) =~= args.skip(1));
    if args.len() >= 2 {
        assert((seq![deno] + args.skip(2)).skip(1) =~= args.skip(2));
    }
}

/// Behind a double dash a plain interpreter runs the next argument, whatever it
/// looks like.
pub proof fn law_double_dash_ends_the_options(
    platform: Platform,
    words: Seq<Seq<char>>,
    name: Seq<char>,
)
    requires
        words.len() >= 2,
        plain_interpreters().contains(name),
        is_interpreter(platform, words[0], name),
        words[1] == "--"@,
    ensures
        words.len() >= 3 ==> script_of_words(platform, words) == Some(words[2]),
        words.len() == 2 ==> script_of_words(platform, words) is None,
{
    lemma_names(name);
    lemma_known(platform, words[0], name);
    assert(words.skip(1)[0] == words[1]);
    if words.len() >= 3 {
        assert(words.skip(1)[1] == words[2]);
    }
}

/// With an option that gives it something else to do, a plain interpreter runs no
/// script: the option alone, a long one with a value behind an equals sign, or a
/// short one with something appended.
pub proof fn law_options_without_script(
    platform: Platform,
    words: Seq<Seq<char>>,
    name: Seq<char>,
    option: Seq<char>,
)
    requires
        words.len() >= 2,
        plain_interpreters().contains(name),
        is_interpreter(platform, words[0], name),
        without_script(name).contains(option),
        words[1] == option || (starts_with(option, "--"@) && starts_with(words[1], option + "="@))
            || (option.len() == 2 && starts_with(words[1], option)),
    ensures
        script_of_words(platform, words) is None,
{
    let no_script = without_script(name);
    let arg = words[1];
    let i = choose|i: int| 0 <= i < no_script.len() && no_script[i] == option;
    lemma_names(name);
    lemma_known(platform, words[0], name);
    lemma_not_the_double_dash(name);
    lemma_ascii_options(name);
    reveal_strlit("--");
    reveal_strlit("=");
    assert(words.skip(1)[0] == arg);
    if arg != option {
        if option.len() == 2 && starts_with(arg, option) {
            assert(arg.take(2) == option);
            if arg.len() == 2 {
                assert(arg =~= arg.take(2));
            }
            assert(arg[1] == option[1]);
        } else {
            assert((option + "="@).len() > 2);
        }
    }
    assert(option != "--"@);
    assert(arg != "--"@) by {
        if arg == "--"@ && arg != option && option.len() == 2 {
            assert(arg.take(2) =~= arg);
        }
    }
    assert(matches_option(arg, no_script[i]));
    assert(is_no_script_option(arg, no_script));
}

proof fn lemma_not_the_double_dash(name: Seq<char>)
    requires
        plain_interpreters().contains(name),
    ensures
        forall|i: int|
            0 <= i < without_script(name).len() ==> #[trigger] without_script(name)[i] != "--"@,
        forall|i: int|
            0 <= i < taking_values(name).len() ==> #[trigger] taking_values(name)[i] != "--"@,
{
    lemma_second_characters(name);
    reveal_strlit("--");
    assert("--"@.len() == 2 && "--"@[1] == '-');
}

/// Apart from the single dash, an option has a second character, which is a dash
/// only where more follows.
proof fn lemma_second_characters(name: Seq<char>)
    requires
        plain_interpreters().contains(name),
    ensures
        forall|i: int|
            0 <= i < without_script(name).len() ==> (#[trigger] without_script(name)[i]).len()
                == 1 || without_script(name)[i].len() > 2 || without_script(name)[i][1] != '-',
        forall|i: int|
            0 <= i < taking_values(name).len() ==> (#[trigger] taking_values(name)[i]).len() > 2
                || (taking_values(name)[i].len() == 2 && taking_values(name)[i][1] != '-'),
{
    reveal_strlit("-");
    reveal_strlit("-W");
    reveal_strlit("-X");
    reveal_strlit("--check-hash-based-pycs");
    reveal_strlit("-o");
    reveal_strlit("--rcfile");
    reveal_strlit("--init-file");
    reveal_strlit("-r");
    reveal_strlit("--require");
    reveal_strlit("--loader");
    reveal_strlit("--experimental-loader");
    reveal_strlit("--import");
    reveal_strlit("--conditions");
    reveal_strlit("--env-file");
    reveal_strlit("--input-type");
    reveal_strlit("--inspect-port");
    reveal_strlit("--title");
    reveal_strlit("-I");
    reveal_strlit("-M");
    reveal_strlit("-m");
    reveal_strlit("-c");
    reveal_strlit("-h");
    reveal_strlit("--help");
    reveal_strlit("-V");
    reveal_strlit("--version");
    reveal_strlit("-s");
    reveal_strlit("--check");
    reveal_strlit("-e");
    reveal_strlit("--eval");
    reveal_strlit("-p");
    reveal_strlit("--print");
    reveal_strlit("-v");
    reveal_strlit("-E");
}

/// Short options have two bytes, and the single dash has one.
proof fn lemma_ascii_options(name: Seq<char>)
    requires
        plain_interpreters().contains(name),
    ensures
        forall|i: int|
            0 <= i < without_script(name).len() && without_script(name)[i].len() <= 2
                ==> encode_utf8(#[trigger] without_script(name)[i]).len()
                == without_script(name)[i].len(),
{
    reveal_strlit("-");
    reveal_strlit("-c");
    reveal_strlit("-m");
    reveal_strlit("-h");
    reveal_strlit("--help");
    reveal_strlit("-V");
    reveal_strlit("--version");
    reveal_strlit("-s");
    reveal_strlit("--check");
    reveal_strlit("-e");
    reveal_strlit("--eval");
    reveal_strlit("-p");
    reveal_strlit("--print");
    reveal_strlit("-v");
    reveal_strlit("-E");
    assert forall|i: int|
        0 <= i < without_script(name).len() && without_script(name)[i].len() <= 2 implies encode_utf8(
        #[trigger] without_script(name)[i],
    ).len() == without_script(name)[i].len() by {
        let option = without_script(name)[i];
        assert(option[0] == '-' && (option.len() == 2 ==> (option[1] as nat) < 128));
        assert(is_ascii_chars(option));
        is_ascii_chars_encode_utf8(option);
    }
}

/// With an option that takes a value, a plain interpreter takes the next argument
/// along, so that the two do not matter.
pub proof fn law_values_of_options_are_no_scripts(
    platform: Platform,
    program: Seq<char>,
    name: Seq<char>,
    option: Seq<char>,
    value: Seq<char>,
    rest: Seq<Seq<char>>,
)
    requires
        plain_interpreters().contains(name),
        is_interpreter(platform, program, name),
        taking_values(name).contains(option),
    ensures
        script_of_words(platform, seq![program, option, value] + rest) == script_of_words(
            platform,
            seq![program] + rest,
        ),
        script_of_words(platform, seq![program, option]) is None,
{
    let with_values = taking_values(name);
    let no_script = without_script(name);
    lemma_names(name);
    lemma_known(platform, program, name);
    lemma_not_the_double_dash(name);
    let v = choose|v: int| 0 <= v < with_values.len() && with_values[v] == option;
    lemma_values_are_not_scriptless(name, v);
    let args = seq![option, value] + rest;
    assert((seq![program, option, value] + rest).skip(1) =~= args);
    assert((seq![program] + rest).skip(1) =~= rest);
    assert(args.skip(2) =~= rest);
    assert(args[0] == option);
    assert(script_after(args, with_values, no_script) == script_after(
        rest,
        with_values,
        no_script,
    ));
    assert(seq![program, option].skip(1) =~= seq![option]);
}

proof fn lemma_values_are_not_scriptless(name: Seq<char>, v: int)
    requires
        plain_interpreters().contains(name),
        0 <= v < taking_values(name).len(),
    ensures
        !is_no_script_option(taking_values(name)[v], without_script(name)),
{
    let option = taking_values(name)[v];
    let no_script = without_script(name);
    lemma_ascii_options(name);
    lemma_second_characters(name);
    if is_no_script_option(option, no_script) {
        let i = choose|i: int|
            0 <= i < no_script.len() && matches_option(option, #[trigger] no_script[i]);
        lemma_matching_begins_alike(option, no_script[i]);
        lemma_tables_differ(name, v, i);
    }
}

proof fn lemma_tables_differ(name: Seq<char>, v: int, i: int)
    requires
        plain_interpreters().contains(name),
        0 <= v < taking_values(name).len(),
        0 <= i < without_script(name).len(),
    ensures
        without_script(name)[i].len() > 1 ==> !starts_with(
            taking_values(name)[v],
            without_script(name)[i],
        ),
        without_script(name)[i].len() <= 1 ==> !matches_option(
            taking_values(name)[v],
            without_script(name)[i],
        ),
{
    let a = taking_values(name)[v];
    let b = without_script(name)[i];
    lemma_ascii_options(name);
    reveal_strlit("-");
    reveal_strlit("--");
    reveal_strlit("-W");
    reveal_strlit("-X");
    reveal_strlit("--check-hash-based-pycs");
    reveal_strlit("-o");
    reveal_strlit("--rcfile");
    reveal_strlit("--init-file");
    reveal_strlit("-r");
    reveal_strlit("--require");
    reveal_strlit("--loader");
    reveal_strlit("--experimental-loader");
    reveal_strlit("--import");
    reveal_strlit("--conditions");
    reveal_strlit("--env-file");
    reveal_strlit("--input-type");
    reveal_strlit("--inspect-port");
    reveal_strlit("--title");
    reveal_strlit("-I");
    reveal_strlit("-M");
    reveal_strlit("-m");
    reveal_strlit("-c");
    reveal_strlit("-h");
    reveal_strlit("--help");
    reveal_strlit("-V");
    reveal_strlit("--version");
    reveal_strlit("-s");
    reveal_strlit("--check");
    reveal_strlit("-e");
    reveal_strlit("--eval");
    reveal_strlit("-p");
    reveal_strlit("--print");
    reveal_strlit("-v");
    reveal_strlit("-E");
    if starts_with(a, b) {
        assert(b.len() > 1 ==> a[1] == b[1]) by {
            assert(a.take(b.len() as int) == b);
        }
        assert(b.len() > 2 ==> a[2] == b[2]) by {
            assert(a.take(b.len() as int) == b);
        }
        assert(b.len() > 3 ==> a[3] == b[3]) by {
            assert(a.take(b.len() as int) == b);
        }
    }
}

/// Any other option of a plain interpreter does not matter.
pub proof fn law_other_options_do_not_matter(
    platform: Platform,
    program: Seq<char>,
    name: Seq<char>,
    option: Seq<char>,
    rest: Seq<Seq<char>>,
)
    requires
        plain_interpreters().contains(name),
        is_interpreter(platform, program, name),
        starts_with(option, "-"@),
        option != "--"@,
        !taking_values(name).contains(option),
        forall|i: int|
            0 <= i < without_script(name).len() && without_script(name)[i] != "-"@ ==> !starts_with(
                option,
                #[trigger] without_script(name)[i],
            ),
        option != "-"@,
    ensures
        script_of_words(platform, seq![program, option] + rest) == script_of_words(
            platform,
            seq![program] + rest,
        ),
{
    let with_values = taking_values(name);
    let no_script = without_script(name);
    lemma_names(name);
    lemma_known(platform, program, name);
    let args = seq![option] + rest;
    assert((seq![program, option] + rest).skip(1) =~= args);
    assert((seq![program] + rest).skip(1) =~= rest);
    assert(args.skip(1) =~= rest);
    assert(args[0] == option);
    if is_no_script_option(option, no_script) {
        let i = choose|i: int|
            0 <= i < no_script.len() && matches_option(option, #[trigger] no_script[i]);
        lemma_matching_begins_alike(option, no_script[i]);
        assert(no_script[i] == "-"@);
        lemma_ascii_options(name);
        reveal_strlit("-");
        reveal_strlit("--");
        assert("-"@.len() == 1);
    }
    assert(script_after(args, with_values, no_script) == script_after(
        rest,
        with_values,
        no_script,
    ));
}

/// PowerShell runs the file that it is told to run, runs no script where it is told
/// to run a command or to change its directory, and passes over every other option,
/// with its value where it takes one; the case of options does not matter.
pub proof fn law_powershell_runs_the_file_it_is_told(
    platform: Platform,
    program: Seq<char>,
    name: Seq<char>,
    args: Seq<Seq<char>>,
)
    requires
        seq!["pwsh"@, "powershell"@].contains(name),
        is_interpreter(platform, program, name),
        args.len() >= 2,
        starts_with(args[0], "-"@),
    ensures
        ({
            let low = lowered(args[0]);
            let script = script_of_words(platform, seq![program] + args);
            let file = seq!["-file"@, "-f"@].contains(low);
            let command = seq!["-command"@, "-c"@, "-encodedcommand"@, "-e"@].contains(low);
            let directory = low == "-workingdirectory"@ || starts_with(low, "-workingdirectory:"@);
            let takes = seq![
                "-executionpolicy"@,
                "-inputformat"@,
                "-outputformat"@,
                "-windowstyle"@,
            ].contains(low);
            &&& file ==> script == Some(args[1])
            &&& command || directory ==> script is None
            &&& takes ==> script == script_of_words(platform, seq![program] + args.skip(2))
            &&& !file && !command && !directory && !takes ==> script == script_of_words(
                platform,
                seq![program] + args.skip(1),
            )
        }),
{
    let low = lowered(args[0]);
    let files = seq!["-file"@, "-f"@];
    let commands = seq!["-command"@, "-c"@, "-encodedcommand"@, "-e"@];
    let values = seq!["-executionpolicy"@, "-inputformat"@, "-outputformat"@, "-windowstyle"@];
    assert(powershells().contains(name));
    lemma_names(name);
    lemma_known(platform, program, name);
    assert((seq![program] + args).skip(1) =~= args);
    assert((seq![program] + args.skip(1)).skip(1) =~= args.skip(1));
    assert((seq![program] + args.skip(2)).skip(1) =~= args.skip(2));
    assert(files[0] == "-file"@ && files[1] == "-f"@);
    assert(commands[0] == "-command"@ && commands[1] == "-c"@ && commands[2] == "-encodedcommand"@
        && commands[3] == "-e"@);
    assert(values[0] == "-executionpolicy"@ && values[1] == "-inputformat"@ && values[2]
        == "-outputformat"@ && values[3] == "-windowstyle"@);
    lemma_powershell_options();
    if starts_with(low, "-workingdirectory:"@) {
        assert(low.take(18)[1] == low[1] && low.take(18)[2] == low[2]);
    }
}

proof fn lemma_powershell_options()
    ensures
        "-file"@[1] == 'f',
        "-f"@[1] == 'f',
        "-command"@[1] == 'c',
        "-c"@[1] == 'c',
        "-encodedcommand"@[1] == 'e',
        "-encodedcommand"@[2] == 'n',
        "-e"@[1] == 'e',
        "-e"@.len() == 2,
        "-workingdirectory"@[1] == 'w',
        "-workingdirectory"@[2] == 'o',
        "-workingdirectory:"@[1] == 'w',
        "-workingdirectory:"@[2] == 'o',
        "-workingdirectory:"@.len() == 18,
        "-executionpolicy"@[1] == 'e',
        "-executionpolicy"@[2] == 'x',
        "-executionpolicy"@.len() > 2,
        "-inputformat"@[1] == 'i',
        "-outputformat"@[1] == 'o',
        "-windowstyle"@[1] == 'w',
        "-windowstyle"@[2] == 'i',
{
    reveal_strlit("-command");
    reveal_strlit("-c");
    reveal_strlit("-encodedcommand");
    reveal_strlit("-e");
    reveal_strlit("-file");
    reveal_strlit("-f");
    reveal_strlit("-workingdirectory");
    reveal_strlit("-workingdirectory:");
    reveal_strlit("-executionpolicy");
    reveal_strlit("-inputformat");
    reveal_strlit("-outputformat");
    reveal_strlit("-windowstyle");
}

/// A program that is no interpreter is itself the script exactly where it is given
/// by a path, whatever its arguments are.
pub proof fn law_program_given_by_a_path_is_the_script(
    platform: Platform,
    words: Seq<Seq<char>>,
    file: Seq<char>,
)
    requires
        words.len() > 0,
        program_name(platform, words[0]) == Some(file),
        !plain_interpreters().contains(file),
        !powershells().contains(file),
        file != "deno"@,
    ensures
        words[0].contains('/') || words[0].contains('\\') ==> script_of_words(platform, words)
            == Some(words[0]),
        !words[0].contains('/') && !words[0].contains('\\') ==> script_of_words(
            platform,
            words,
        ) is None,
{
    let p = plain_interpreters();
    let s = powershells();
    assert(p[0] == "python"@ && p[1] == "python3"@ && p[2] == "bash"@ && p[3] == "zsh"@ && p[4]
        == "sh"@ && p[5] == "node"@ && p[6] == "ruby"@ && p[7] == "perl"@);
    assert(s[0] == "pwsh"@ && s[1] == "powershell"@);
}

/// A program is known by its file name; on Windows by that name in small letters,
/// without the ending of executables.
pub proof fn law_program_is_known_by_its_file_name(
    platform: Platform,
    program: Seq<char>,
    file: Seq<char>,
)
    requires
        file_name_of(platform, program) == Some(file),
    ensures
        platform == Platform::Unix ==> program_name(platform, program) == Some(file),
        platform == Platform::Windows && !ends_with(lowered(file), ".exe"@) ==> program_name(
            platform,
            program,
        ) == Some(lowered(file)),
        platform == Platform::Windows ==> forall|stem: Seq<char>|
            lowered(file) == #[trigger] (stem + ".exe"@) ==> program_name(platform, program) == Some(
                stem,
            ),
{
    reveal_strlit(".exe");
    assert forall|stem: Seq<char>| lowered(file) == #[trigger] (stem + ".exe"@) && platform
        == Platform::Windows implies program_name(platform, program) == Some(stem) by {
        let low = lowered(file);
        assert(low.skip(low.len() - 4) =~= ".exe"@);
        assert(low.take(low.len() - 4) =~= stem);
    }
}

/// Behind a running subcommand Deno passes over options, and over their values
/// where they take one, up to a double dash.
pub proof fn law_deno_passes_over_options_of_its_subcommand(
    platform: Platform,
    deno: Seq<char>,
    subcommand: Seq<char>,
    option: Seq<char>,
    value: Seq<char>,
    rest: Seq<Seq<char>>,
)
    requires
        is_interpreter(platform, deno, "deno"@),
        seq!["run"@, "test"@, "bench"@].contains(lowered(subcommand)),
        !starts_with(subcommand, "-"@),
        starts_with(option, "-"@),
    ensures
        deno_value_options().contains(option) ==> script_of_words(
            platform,
            seq![deno, subcommand, option, value] + rest,
        ) == script_of_words(platform, seq![deno, subcommand] + rest),
        !deno_value_options().contains(option) && option != "--"@ ==> script_of_words(
            platform,
            seq![deno, subcommand, option] + rest,
        ) == script_of_words(platform, seq![deno, subcommand] + rest),
        script_of_words(platform, seq![deno, subcommand, "--"@, value] + rest) == Some(value),
{
    lemma_deno_rest(platform, deno, subcommand, rest);
    lemma_deno_rest(platform, deno, subcommand, seq![option] + rest);
    lemma_deno_rest(platform, deno, subcommand, seq![option, value] + rest);
    lemma_deno_rest(platform, deno, subcommand, seq!["--"@, value] + rest);
    lemma_deno_options_begin_with_a_dash();
    let none = Seq::<Seq<char>>::empty();
    assert(!is_no_script_option(option, none));
    assert(seq![deno, subcommand] + (seq![option] + rest) =~= seq![deno, subcommand, option] + rest);
    assert(seq![deno, subcommand] + (seq![option, value] + rest) =~= seq![
        deno,
        subcommand,
        option,
        value,
    ] + rest);
    assert(seq![deno, subcommand] + (seq!["--"@, value] + rest) =~= seq![
        deno,
        subcommand,
        "--"@,
        value,
    ] + rest);
    assert((seq![option] + rest).skip(1) =~= rest);
    assert((seq![option, value] + rest).skip(2) =~= rest);
    assert((seq![option] + rest)[0] == option);
    assert((seq![option, value] + rest)[0] == option);
    assert((seq!["--"@, value] + rest)[0] == "--"@);
    assert((seq!["--"@, value] + rest)[1] == value);
}

proof fn lemma_deno_rest(
    platform: Platform,
    deno: Seq<char>,
    subcommand: Seq<char>,
    rest: Seq<Seq<char>>,
)
    requires
        is_interpreter(platform, deno, "deno"@),
        seq!["run"@, "test"@, "bench"@].contains(lowered(subcommand)),
        !starts_with(subcommand, "-"@),
    ensures
        script_of_words(platform, seq![deno, subcommand] + rest) == script_after(
            rest,
            deno_value_options(),
            Seq::empty(),
        ),
{
    let words = seq![deno, subcommand] + rest;
    lemma_names("deno"@);
    lemma_known(platform, deno, "deno"@);
    lemma_deno_plain(subcommand);
    assert(words.skip(1)[0] == subcommand);
    assert(words.skip(1).skip(1) =~= rest);
    assert(deno_script_of(words.skip(1)) == script_after(
        rest,
        deno_value_options(),
        Seq::empty(),
    ));
}

} // verus!
