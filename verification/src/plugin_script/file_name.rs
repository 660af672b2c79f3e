//! The last component of a path.
use vstd::prelude::*;
use crate::text::chars::ascii_alphabetic;
use crate::text::chars::is_ascii_alphabetic;
use crate::text::chars::is_text;
use crate::text::search::begins_with_text;
use crate::text::search::find_char;
use crate::text::search::first_index;
use crate::text::search::lemma_first_index;
use crate::text::search::starts_with;
use crate::text::split::copied;
use crate::text::split::law_every_separator_splits;
use crate::text::split::law_text_without_separator_is_one_piece;
use crate::text::split::pieces;
use crate::text::split::split;
use crate::text::split::split_at;

verus! {

/// The rules by which commands and paths are read.
#[derive(Debug, Clone, Copy, PartialEq, Eq, Structural)]
pub enum Platform {
    /// Those of POSIX systems.
    Unix,
    /// Those of Windows.
    Windows,
}

/// The last component that names something. Empty components do not count, and
/// behind `..` nothing is named. A `.` does not count either, but where it is
/// `literal` it is a component that names nothing.
pub open spec fn last_name(parts: Seq<Seq<char>>, literal: bool) -> Option<Seq<char>>
    decreases parts.len(),
{
    if parts.len() == 0 {
        None
    } else if parts.last().len() == 0 || (parts.last() == "."@ && !literal) {
        last_name(parts.drop_last(), literal)
    } else if parts.last() == ".."@ || parts.last() == "."@ {
        None
    } else {
        Some(parts.last())
    }
}

/// A path with slashes in place of backslashes.
pub open spec fn slashed(path: Seq<char>) -> Seq<char> {
    path.map_values(
        |c: char|
            if c == '\\' {
                '/'
            } else {
                c
            },
    )
}

/// Whether a text begins with a drive.
pub open spec fn has_drive(s: Seq<char>) -> bool {
    s.len() >= 2 && ascii_alphabetic(s[0]) && s[1] == ':'
}

/// How long the text is up to its first separator. A slash is one unless the path
/// is taken literally.
pub open spec fn part_len(s: Seq<char>, literal: bool) -> int {
    if literal {
        first_index(s, '\\')
    } else {
        first_index(slashed(s), '/')
    }
}

/// The text from its first separator on.
pub open spec fn after_part(s: Seq<char>, literal: bool) -> Seq<char> {
    s.skip(part_len(s, literal))
}

/// How long the share behind a server is.
pub open spec fn share_len(s: Seq<char>, literal: bool) -> int {
    let rest = after_part(s, literal);
    if rest.len() == 0 {
        0
    } else {
        part_len(rest.skip(1), literal)
    }
}

/// The text behind a server and its share, if there is one.
pub open spec fn after_share(s: Seq<char>, literal: bool) -> Seq<char> {
    let rest = after_part(s, literal);
    if share_len(s, literal) == 0 {
        rest
    } else {
        rest.skip(1 + share_len(s, literal))
    }
}

/// What follows the prefix of a Windows path, and whether it is taken literally.
/// The prefixes are `\\?\UNC\server\share`, `\\?\C:` and `\\?\name`, which are
/// literal, `\\.\device`, `\\server\share` and `C:`.
pub open spec fn windows_rest(path: Seq<char>) -> (Seq<char>, bool) {
    if starts_with(path, "\\\\?\\"@) {
        let t = path.skip(4);
        if starts_with(slashed(t), "UNC/"@) {
            (after_share(t.skip(4), true), true)
        } else if has_drive(t) && (t.len() == 2 || t[2] == '/' || t[2] == '\\') {
            (t.skip(2), true)
        } else {
            (after_part(t, true), true)
        }
    } else if starts_with(slashed(path), "//./"@) {
        (after_part(path.skip(4), false), false)
    } else if starts_with(slashed(path), "//"@) {
        let t = path.skip(2);
        if part_len(t, false) > 0 && share_len(t, false) > 0 {
            (after_share(t, false), false)
        } else {
            (path, false)
        }
    } else if has_drive(path) {
        (path.skip(2), false)
    } else {
        (path, false)
    }
}

/// The components of a path behind its prefix. In a literal path only backslashes
/// separate them.
pub open spec fn path_parts(platform: Platform, path: Seq<char>) -> Seq<Seq<char>> {
    match platform {
        Platform::Unix => split(path, '/'),
        Platform::Windows => {
            let (rest, literal) = windows_rest(path);
            if !literal {
                split(slashed(rest), '/')
            } else if rest.len() == 0 {
                Seq::empty()
            } else {
                split(rest.skip(1), '\\')
            }
        },
    }
}

/// Whether the components of a path are taken literally.
pub open spec fn is_literal(platform: Platform, path: Seq<char>) -> bool {
    platform == Platform::Windows && windows_rest(path).1
}

/// The last component of a path.
pub open spec fn file_name_of(platform: Platform, path: Seq<char>) -> Option<Seq<char>> {
    last_name(path_parts(platform, path), is_literal(platform, path))
}

/// How long the text is up to its first separator.
fn part_length(s: &[char], literal: bool) -> (r: usize)
    ensures
        r == part_len(s@, literal),
        r <= s@.len(),
{
    if literal {
        find_char(s, '\\')
    } else {
        find_char(&to_slashed(s), '/')
    }
}

/// The text from the given place on.
fn behind(s: &[char], n: usize) -> (r: &[char])
    requires
        n <= s@.len(),
    ensures
        r@ == s@.skip(n as int),
{
    let r = &s[n..s.len()];
    assert(r@ =~= s@.skip(n as int));
    r
}

/// The text behind a server and its share, and how long the two are.
fn behind_share(s: &[char], literal: bool) -> (r: (&[char], usize, usize))
    ensures
        (r.0)@ == after_share(s@, literal),
        r.1 == part_len(s@, literal),
        r.2 == share_len(s@, literal),
{
    let server = part_length(s, literal);
    let rest = behind(s, server);
    if rest.len() == 0 {
        return (rest, server, 0);
    }
    let tail = behind(rest, 1);
    let share = part_length(tail, literal);
    if share == 0 {
        (rest, server, 0)
    } else {
        (behind(rest, share + 1), server, share)
    }
}

/// Whether a text begins with a drive.
fn begins_with_drive(s: &[char]) -> (r: bool)
    ensures
        r == has_drive(s@),
{
    s.len() >= 2 && is_ascii_alphabetic(s[0]) && s[1] == ':'
}

/// What follows the prefix of a Windows path, and whether it is taken literally.
fn behind_prefix(path: &[char]) -> (r: (&[char], bool))
    ensures
        ((r.0)@, r.1) == windows_rest(path@),
{
    proof {
        reveal_strlit("\\\\?\\");
        reveal_strlit("UNC/");
        reveal_strlit("//./");
        reveal_strlit("//");
    }
    if begins_with_text(path, "\\\\?\\") {
        let t = behind(path, 4);
        let p = to_slashed(t);
        if begins_with_text(&p, "UNC/") {
            let (rest, _, _) = behind_share(behind(t, 4), true);
            return (rest, true);
        }
        if begins_with_drive(t) && (t.len() == 2 || t[2] == '/' || t[2] == '\\') {
            return (behind(t, 2), true);
        }
        return (behind(t, part_length(t, true)), true);
    }
    let p = to_slashed(path);
    if begins_with_text(&p, "//./") {
        let t = behind(path, 4);
        return (behind(t, part_length(t, false)), false);
    }
    if begins_with_text(&p, "//") {
        let t = behind(path, 2);
        let (rest, server, share) = behind_share(t, false);
        if server > 0 && share > 0 {
            return (rest, false);
        }
        return (path, false);
    }
    if begins_with_drive(path) {
        return (behind(path, 2), false);
    }
    (path, false)
}

/// The components of a path behind its prefix, and whether they are taken literally.
fn parts_of(platform: Platform, path: &[char]) -> (r: (Vec<Vec<char>>, bool))
    ensures
        pieces((r.0)@) == path_parts(platform, path@),
        r.1 == is_literal(platform, path@),
{
    match platform {
        Platform::Unix => (split_at(path, '/'), false),
        Platform::Windows => {
            let (rest, literal) = behind_prefix(path);
            if !literal {
                (split_at(&to_slashed(rest), '/'), false)
            } else if rest.len() == 0 {
                let none: Vec<Vec<char>> = Vec::new();
                assert(pieces(none@) =~= Seq::empty());
                (none, true)
            } else {
                (split_at(behind(rest, 1), '\\'), true)
            }
        },
    }
}

/// The last component of a path.
pub fn file_name(platform: Platform, path: &[char]) -> (r: Option<Vec<char>>)
    ensures
        match r {
            Some(name) => file_name_of(platform, path@) == Some(name@),
            None => file_name_of(platform, path@) is None,
        },
{
    let (parts, literal) = parts_of(platform, path);
    let ghost all = pieces(parts@);
    let mut n: usize = parts.len();
    assert(all.take(n as int) =~= all);
    while n > 0
        invariant
            n <= parts@.len(),
            all == pieces(parts@),
            last_name(all, literal) == last_name(all.take(n as int), literal),
            last_name(all, literal) == file_name_of(platform, path@),
        decreases n,
    {
        let part = &parts[n - 1];
        let ghost here = all.take(n as int);
        assert(here.last() == part@);
        assert(here.drop_last() =~= all.take(n - 1));
        if part.len() == 0 || (!literal && is_text(part, ".")) {
            n -= 1;
        } else if is_text(part, "..") || is_text(part, ".") {
            return None;
        } else {
            return Some(copied(part));
        }
    }
    None
}

/// A path with slashes in place of backslashes.
fn to_slashed(path: &[char]) -> (r: Vec<char>)
    ensures
        r@ == slashed(path@),
{
    let mut r: Vec<char> = Vec::new();
    let mut i: usize = 0;
    while i < path.len()
        invariant
            i <= path@.len(),
            r@ == slashed(path@.take(i as int)),
        decreases path@.len() - i,
    {
        r.push(
            if path[i] == '\\' {
                '/'
            } else {
                path[i]
            },
        );
        i += 1;
        assert(path@.take(i as int) == path@.take(i - 1).push(path@[i - 1]));
    }
    assert(path@.take(i as int) == path@);
    r
}

/// A name without separators and drives is its own file name.
pub proof fn law_bare_name_is_its_own_file_name(platform: Platform, name: Seq<char>)
    requires
        name.len() > 0,
        !name.contains('/'),
        !name.contains('\\'),
        !name.contains(':'),
        name != "."@,
        name != ".."@,
    ensures
        file_name_of(platform, name) == Some(name),
{
    lemma_plain_parts(platform, name);
    law_text_without_separator_is_one_piece(name, '/');
    lemma_slashed(name);
    assert(seq![name].last() == name);
}

/// Without a backslash there is nothing to replace by slashes.
proof fn lemma_slashed(s: Seq<char>)
    requires
        !s.contains('\\'),
    ensures
        slashed(s) == s,
{
    assert forall|i: int| 0 <= i < s.len() implies slashed(s)[i] == s[i] by {
        assert(s.contains(s[i]));
    }
    assert(slashed(s) =~= s);
}

/// The components of a path that begins with neither a separator nor a drive.
proof fn lemma_plain_parts(platform: Platform, path: Seq<char>)
    requires
        path.len() > 0,
        path[0] != '/',
        path[0] != '\\',
        path.len() < 2 || path[1] != ':',
    ensures
        path_parts(platform, path) == split(
            if platform == Platform::Unix {
                path
            } else {
                slashed(path)
            },
            '/',
        ),
        !is_literal(platform, path),
{
    reveal_strlit("\\\\?\\");
    reveal_strlit("//./");
    reveal_strlit("//");
    assert("\\\\?\\"@[0] == '\\');
    assert("//./"@[0] == '/' && "//"@[0] == '/');
    assert(starts_with(path, "\\\\?\\"@) ==> path[0] == path.take(4)[0]);
    assert(starts_with(slashed(path), "//./"@) ==> slashed(path)[0] == slashed(path).take(4)[0]);
    assert(starts_with(slashed(path), "//"@) ==> slashed(path)[0] == slashed(path).take(2)[0]);
}

/// The file name of a path stands behind its last separator, which on Windows may
/// be a slash or a backslash, whatever the directories before it are.
pub proof fn law_file_name_stands_behind_the_last_separator(
    platform: Platform,
    directory: Seq<char>,
    separator: char,
    name: Seq<char>,
)
    requires
        separator == '/' || (platform == Platform::Windows && separator == '\\'),
        platform == Platform::Windows ==> directory.len() > 0 && directory[0] != '/' && directory[0]
            != '\\' && (directory.len() == 1 || directory[1] != ':'),
        name.len() > 0,
        !name.contains('/'),
        !name.contains('\\'),
        name != "."@,
        name != ".."@,
    ensures
        file_name_of(platform, directory + seq![separator] + name) == Some(name),
{
    let path = directory + seq![separator] + name;
    law_text_without_separator_is_one_piece(name, '/');
    if platform == Platform::Unix {
        law_every_separator_splits(directory, name, '/');
    } else {
        lemma_plain_parts(platform, path);
        lemma_slashed(name);
        assert(slashed(path) =~= slashed(directory) + seq!['/'] + name);
        law_every_separator_splits(slashed(directory), name, '/');
    }
    let parts = path_parts(platform, path);
    assert(parts.last() == name);
}

/// Separators and single dots at the end of a path of POSIX systems do not matter,
/// and a path that ends in two dots names nothing.
pub proof fn law_trailing_separators_do_not_matter(path: Seq<char>)
    ensures
        file_name_of(Platform::Unix, path + seq!['/']) == file_name_of(Platform::Unix, path),
        file_name_of(Platform::Unix, path + seq!['/'] + "."@) == file_name_of(Platform::Unix, path),
        file_name_of(Platform::Unix, path + seq!['/'] + ".."@) is None,
{
    reveal_strlit(".");
    reveal_strlit("..");
    let none = Seq::<char>::empty();
    assert(path + seq!['/'] =~= path + seq!['/'] + none);
    assert(".."@.len() == 2 && "."@.len() == 1);
    law_every_separator_splits(path, none, '/');
    law_every_separator_splits(path, "."@, '/');
    law_every_separator_splits(path, ".."@, '/');
    law_text_without_separator_is_one_piece(none, '/');
    law_text_without_separator_is_one_piece("."@, '/');
    law_text_without_separator_is_one_piece(".."@, '/');
    let parts = split(path, '/');
    assert((parts + seq![none]).drop_last() =~= parts);
    assert((parts + seq!["."@]).drop_last() =~= parts);
    assert((parts + seq![".."@]).last() == ".."@);
    assert((parts + seq!["."@]).last() == "."@);
    assert((parts + seq![none]).last() == none);
    assert(last_name(parts + seq![none], false) == last_name(parts, false));
    assert(last_name(parts + seq!["."@], false) == last_name(parts, false));
}

/// The drive of a path of Windows does not matter.
pub proof fn law_drive_does_not_matter(drive: char, path: Seq<char>)
    requires
        ascii_alphabetic(drive),
        path.len() > 0,
        path[0] != '/',
        path[0] != '\\',
        path.len() < 2 || path[1] != ':',
    ensures
        file_name_of(Platform::Windows, seq![drive, ':'] + path) == file_name_of(
            Platform::Windows,
            path,
        ),
{
    let full = seq![drive, ':'] + path;
    reveal_strlit("\\\\?\\");
    reveal_strlit("//./");
    reveal_strlit("//");
    assert("\\\\?\\"@[0] == '\\');
    assert("//./"@[0] == '/' && "//"@[0] == '/');
    assert(starts_with(full, "\\\\?\\"@) ==> full[0] == full.take(4)[0]);
    assert(starts_with(slashed(full), "//./"@) ==> slashed(full)[0] == slashed(full).take(4)[0]);
    assert(starts_with(slashed(full), "//"@) ==> slashed(full)[0] == slashed(full).take(2)[0]);
    assert(full.skip(2) =~= path);
    lemma_plain_parts(Platform::Windows, path);
}

/// What stands before the first separator holds none.
proof fn lemma_part(head: Seq<char>, tail: Seq<char>, literal: bool)
    requires
        !head.contains('\\'),
        !literal ==> !head.contains('/'),
    ensures
        part_len(head + seq!['\\'] + tail, literal) == head.len(),
        after_part(head + seq!['\\'] + tail, literal) == seq!['\\'] + tail,
        part_len(head, literal) == head.len(),
        after_part(head, literal) == Seq::<char>::empty(),
{
    let all = head + seq!['\\'] + tail;
    let (read, alone, c) = if literal {
        (all, head, '\\')
    } else {
        (slashed(all), slashed(head), '/')
    };
    lemma_slashed(head);
    assert(alone == head);
    lemma_first_index(read, c);
    lemma_first_index(alone, c);
    assert(read[head.len() as int] == c);
    assert(read.contains(c));
    assert forall|i: int| 0 <= i < head.len() implies read[i] != c by {
        assert(head.contains(head[i]));
        assert(all[i] == head[i]);
    }
    let n = first_index(read, c);
    assert(!(n < head.len()));
    assert(!(n > head.len()));
    assert(all.skip(head.len() as int) =~= seq!['\\'] + tail);
    assert(head.skip(head.len() as int) =~= Seq::<char>::empty());
}

/// A single component behind a literal prefix is the file name, unless it is a dot
/// or two, and without one there is none.
proof fn lemma_literal_parts(path: Seq<char>, name: Seq<char>)
    requires
        windows_rest(path) == (seq!['\\'] + name, true),
        name.len() > 0,
        !name.contains('\\'),
    ensures
        file_name_of(Platform::Windows, path) == (if name == "."@ || name == ".."@ {
            None
        } else {
            Some(name)
        }),
{
    assert((seq!['\\'] + name).skip(1) =~= name);
    law_text_without_separator_is_one_piece(name, '\\');
    assert(seq![name].last() == name);
}

/// Behind a prefix that is not literal, a single component is the file name.
proof fn lemma_behind_prefix(path: Seq<char>, name: Seq<char>)
    requires
        windows_rest(path) == (seq!['\\'] + name, false),
        name.len() > 0,
        !name.contains('/'),
        !name.contains('\\'),
        name != "."@,
        name != ".."@,
    ensures
        file_name_of(Platform::Windows, path) == Some(name),
{
    let none = Seq::<char>::empty();
    lemma_slashed(name);
    assert(slashed(seq!['\\'] + name) =~= none + seq!['/'] + name);
    law_every_separator_splits(none, name, '/');
    law_text_without_separator_is_one_piece(name, '/');
    let parts = path_parts(Platform::Windows, path);
    assert(parts.last() == name);
}

/// Behind the literal prefix with a drive, slashes are characters like others and a
/// dot names nothing; the prefix alone names nothing either.
pub proof fn law_literal_drive_does_not_matter(drive: char, name: Seq<char>)
    requires
        ascii_alphabetic(drive),
        name.len() > 0,
        !name.contains('\\'),
    ensures
        file_name_of(Platform::Windows, "\\\\?\\"@ + seq![drive, ':', '\\'] + name) == (if name
            == "."@ || name == ".."@ {
            None
        } else {
            Some(name)
        }),
        file_name_of(Platform::Windows, "\\\\?\\"@ + seq![drive, ':']) is None,
{
    reveal_strlit("\\\\?\\");
    reveal_strlit("UNC/");
    let path = "\\\\?\\"@ + seq![drive, ':', '\\'] + name;
    let t = path.skip(4);
    assert(path.take(4) =~= "\\\\?\\"@);
    assert(t =~= seq![drive, ':', '\\'] + name);
    assert(slashed(t)[1] == ':');
    assert(starts_with(slashed(t), "UNC/"@) ==> slashed(t).take(4)[1] == "UNC/"@[1]);
    assert(t.skip(2) =~= seq!['\\'] + name);
    lemma_literal_parts(path, name);
    let bare = "\\\\?\\"@ + seq![drive, ':'];
    assert(bare.take(4) =~= "\\\\?\\"@);
    assert(bare.skip(4) =~= seq![drive, ':']);
    assert(seq![drive, ':'].skip(2).len() == 0);
    assert(path_parts(Platform::Windows, bare).len() == 0);
}

/// The first component behind the literal prefix belongs to the prefix.
pub proof fn law_literal_prefix_takes_one_component(first: Seq<char>, name: Seq<char>)
    requires
        !first.contains('\\'),
        !first.contains('/'),
        !first.contains(':'),
        first != "UNC"@,
        name.len() > 0,
        !name.contains('\\'),
    ensures
        file_name_of(Platform::Windows, "\\\\?\\"@ + first + seq!['\\'] + name) == (if name == "."@
            || name == ".."@ {
            None
        } else {
            Some(name)
        }),
        file_name_of(Platform::Windows, "\\\\?\\"@ + first) is None,
{
    reveal_strlit("\\\\?\\");
    reveal_strlit("UNC/");
    reveal_strlit("UNC");
    lemma_part(first, name, true);
    let path = "\\\\?\\"@ + first + seq!['\\'] + name;
    let t = path.skip(4);
    assert(path.take(4) =~= "\\\\?\\"@);
    assert(t =~= first + seq!['\\'] + name);
    lemma_no_share(first, seq!['\\'] + name);
    assert(first + (seq!['\\'] + name) =~= t);
    lemma_literal_parts(path, name);
    let bare = "\\\\?\\"@ + first;
    let none = Seq::<char>::empty();
    assert(bare.take(4) =~= "\\\\?\\"@);
    assert(bare.skip(4) =~= first);
    lemma_no_share(first, none);
    assert(first + none =~= first);
    assert(path_parts(Platform::Windows, bare).len() == 0);
}

/// A component other than `UNC` and without a drive begins neither a share nor a
/// drive.
proof fn lemma_no_share(first: Seq<char>, rest: Seq<char>)
    requires
        !first.contains('\\'),
        !first.contains('/'),
        !first.contains(':'),
        first != "UNC"@,
        rest.len() == 0 || rest[0] == '\\',
    ensures
        !starts_with(slashed(first + rest), "UNC/"@),
        !(has_drive(first + rest)),
{
    reveal_strlit("UNC/");
    reveal_strlit("UNC");
    let t = first + rest;
    if starts_with(slashed(t), "UNC/"@) {
        let begin = slashed(t).take(4);
        assert(begin[0] == 'U' && begin[1] == 'N' && begin[2] == 'C' && begin[3] == '/');
        assert(t[0] == 'U' && t[1] == 'N' && t[2] == 'C');
        assert(t[3] == '/' || t[3] == '\\');
        if first.len() > 3 {
            assert(first.contains(first[3]));
            assert(t[3] == first[3]);
        } else if first.len() < 3 {
            assert(t[first.len() as int] == rest[0]);
        }
        assert(first =~= "UNC"@);
    }
    if has_drive(t) {
        if first.len() >= 2 {
            assert(first.contains(first[1]));
            assert(t[1] == first[1]);
        } else if first.len() == 0 {
            assert(t[0] == rest[0]);
            assert(!ascii_alphabetic('\\'));
        } else {
            assert(t[1] == rest[0]);
        }
    }
}

/// Server and share of a path belong to its prefix, in a literal path as in others.
pub proof fn law_share_does_not_matter(server: Seq<char>, share: Seq<char>, name: Seq<char>)
    requires
        server.len() > 0 && !server.contains('/') && !server.contains('\\'),
        share.len() > 0 && !share.contains('/') && !share.contains('\\'),
        server != "?"@,
        server != "."@,
        name.len() > 0 && !name.contains('/') && !name.contains('\\'),
        name != "."@,
        name != ".."@,
    ensures
        file_name_of(
            Platform::Windows,
            "\\\\"@ + server + seq!['\\'] + share + seq!['\\'] + name,
        ) == Some(name),
        file_name_of(
            Platform::Windows,
            "\\\\?\\UNC\\"@ + server + seq!['\\'] + share + seq!['\\'] + name,
        ) == Some(name),
        file_name_of(Platform::Windows, "\\\\"@ + server + seq!['\\'] + share) is None,
        file_name_of(Platform::Windows, "\\\\?\\UNC\\"@ + server + seq!['\\'] + share) is None,
{
    reveal_strlit("\\\\?\\");
    reveal_strlit("\\\\?\\UNC\\");
    reveal_strlit("\\\\");
    reveal_strlit("UNC/");
    let full = server + seq!['\\'] + share + seq!['\\'] + name;
    let bare = server + seq!['\\'] + share;
    let inner = share + seq!['\\'] + name;
    assert(full =~= server + seq!['\\'] + inner);
    assert forall|literal: bool|
        #![auto]
        part_len(full, literal) == server.len() && share_len(full, literal) == share.len()
            && after_share(full, literal) == seq!['\\'] + name && part_len(bare, literal)
            == server.len() && share_len(bare, literal) == share.len() && after_share(bare, literal)
            == Seq::<char>::empty() by {
        lemma_part(server, inner, literal);
        lemma_part(share, name, literal);
        lemma_part(server, share, literal);
        assert((seq!['\\'] + inner).skip(1) =~= inner);
        assert((seq!['\\'] + share).skip(1) =~= share);
        assert((seq!['\\'] + inner).skip(1 + share.len() as int) =~= seq!['\\'] + name);
        assert((seq!['\\'] + share).skip(1 + share.len() as int) =~= Seq::<char>::empty());
    }
    let path = "\\\\"@ + server + seq!['\\'] + share + seq!['\\'] + name;
    assert(path =~= "\\\\"@ + full);
    lemma_share_prefix(server, seq!['\\'] + inner);
    assert(full =~= server + (seq!['\\'] + inner));
    assert(path.skip(2) =~= full);
    lemma_behind_prefix(path, name);
    let short = "\\\\"@ + server + seq!['\\'] + share;
    assert(short =~= "\\\\"@ + bare);
    lemma_share_prefix(server, seq!['\\'] + share);
    assert(bare =~= server + (seq!['\\'] + share));
    assert(short.skip(2) =~= bare);
    let none = Seq::<char>::empty();
    assert(slashed(none) =~= none);
    law_text_without_separator_is_one_piece(none, '/');
    assert(seq![none].drop_last() =~= Seq::<Seq<char>>::empty());
    assert(last_name(seq![none], false) == last_name(seq![none].drop_last(), false));
    let literal = "\\\\?\\UNC\\"@ + server + seq!['\\'] + share + seq!['\\'] + name;
    assert(literal =~= "\\\\?\\UNC\\"@ + full);
    lemma_unc(literal, full);
    lemma_literal_parts(literal, name);
    let alone = "\\\\?\\UNC\\"@ + server + seq!['\\'] + share;
    assert(alone =~= "\\\\?\\UNC\\"@ + bare);
    lemma_unc(alone, bare);
    assert(path_parts(Platform::Windows, alone).len() == 0);
}

/// Two backslashes and a server are neither the literal prefix nor that of a device.
proof fn lemma_share_prefix(server: Seq<char>, rest: Seq<char>)
    requires
        server.len() > 0 && !server.contains('/') && !server.contains('\\'),
        server != "?"@,
        server != "."@,
        rest.len() > 0 && rest[0] == '\\',
    ensures
        !starts_with("\\\\"@ + (server + rest), "\\\\?\\"@),
        !starts_with(slashed("\\\\"@ + (server + rest)), "//./"@),
        starts_with(slashed("\\\\"@ + (server + rest)), "//"@),
{
    reveal_strlit("\\\\?\\");
    reveal_strlit("\\\\");
    reveal_strlit("//./");
    reveal_strlit("//");
    reveal_strlit("?");
    reveal_strlit(".");
    let path = "\\\\"@ + (server + rest);
    assert(slashed(path).take(2) =~= "//"@);
    assert(path[2] == server[0]);
    assert(server.contains(server[0]));
    if server.len() > 1 {
        assert(server.contains(server[1]));
        assert(path[3] == server[1]);
    }
    if starts_with(path, "\\\\?\\"@) {
        assert(path.take(4)[2] == '?' && path.take(4)[3] == '\\');
        assert(server =~= "?"@);
    }
    if starts_with(slashed(path), "//./"@) {
        assert(slashed(path).take(4)[2] == '.' && slashed(path).take(4)[3] == '/');
        assert(server =~= "."@);
    }
}

/// What follows a share of a literal path.
proof fn lemma_unc(path: Seq<char>, behind: Seq<char>)
    requires
        path == "\\\\?\\UNC\\"@ + behind,
    ensures
        windows_rest(path) == (after_share(behind, true), true),
{
    reveal_strlit("\\\\?\\");
    reveal_strlit("\\\\?\\UNC\\");
    reveal_strlit("UNC/");
    assert(path.take(4) =~= "\\\\?\\"@);
    let t = path.skip(4);
    assert(slashed(t).take(4) =~= "UNC/"@);
    assert(t.skip(4) =~= behind);
}

/// The device of a path belongs to its prefix.
pub proof fn law_device_does_not_matter(device: Seq<char>, name: Seq<char>)
    requires
        !device.contains('/') && !device.contains('\\'),
        name.len() > 0 && !name.contains('/') && !name.contains('\\'),
        name != "."@,
        name != ".."@,
    ensures
        file_name_of(Platform::Windows, "\\\\.\\"@ + device + seq!['\\'] + name) == Some(name),
        file_name_of(Platform::Windows, "\\\\.\\"@ + device) is None,
{
    reveal_strlit("\\\\.\\");
    reveal_strlit("\\\\?\\");
    reveal_strlit("//./");
    let path = "\\\\.\\"@ + device + seq!['\\'] + name;
    let bare = "\\\\.\\"@ + device;
    lemma_part(device, name, false);
    assert(starts_with(path, "\\\\?\\"@) ==> path.take(4)[2] == '?');
    assert(starts_with(bare, "\\\\?\\"@) ==> bare.take(4)[2] == '?');
    assert(slashed(path).take(4) =~= "//./"@);
    assert(slashed(bare).take(4) =~= "//./"@);
    assert(path.skip(4) =~= device + seq!['\\'] + name);
    assert(bare.skip(4) =~= device);
    lemma_behind_prefix(path, name);
    let none = Seq::<char>::empty();
    assert(slashed(none) =~= none);
    law_text_without_separator_is_one_piece(none, '/');
    assert(seq![none].drop_last() =~= Seq::<Seq<char>>::empty());
    assert(last_name(seq![none], false) == last_name(seq![none].drop_last(), false));
}

/// A path of Windows that begins with two separators and no server, or with a
/// server and no share, has no prefix.
pub proof fn law_server_needs_its_share(server: Seq<char>)
    requires
        server.len() > 0 && !server.contains('/') && !server.contains('\\'),
        server != "?"@,
        server != "."@,
        server != ".."@,
    ensures
        file_name_of(Platform::Windows, "\\\\"@ + server + seq!['\\']) == Some(server),
{
    reveal_strlit("\\\\");
    let none = Seq::<char>::empty();
    let tail = seq!['\\'];
    let path = "\\\\"@ + server + tail;
    assert(path =~= "\\\\"@ + (server + tail));
    lemma_share_prefix(server, tail);
    lemma_part(server, none, false);
    assert(server + tail =~= server + seq!['\\'] + none);
    assert(path.skip(2) =~= server + tail);
    assert((tail + none).skip(1) =~= none);
    lemma_slashed(server);
    let head = slashed("\\\\"@);
    assert(head =~= seq!['/'] + seq!['/']);
    assert(slashed(path) =~= (seq!['/'] + seq!['/'] + server) + seq!['/'] + none);
    law_every_separator_splits(seq!['/'] + seq!['/'] + server, none, '/');
    law_every_separator_splits(seq!['/'], server, '/');
    law_text_without_separator_is_one_piece(server, '/');
    law_text_without_separator_is_one_piece(none, '/');
    let parts = split(seq!['/'] + seq!['/'] + server, '/');
    assert(parts.last() == server);
    assert((parts + seq![none]).drop_last() =~= parts);
    assert(last_name(parts + seq![none], false) == last_name(parts, false));
}

} // verus!
