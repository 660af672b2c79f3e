//! Hosts that are to be reached without a proxy.
use vstd::prelude::*;
use super::origin::OriginModel;
use super::origin::RequestOrigin;
use crate::text::chars::ascii_lower;
use crate::text::chars::chars_of;
use crate::text::chars::has_char;
use crate::text::chars::is_text;
use crate::text::chars::lowered;
use crate::text::chars::push_all;
use crate::text::chars::same_chars;
use crate::text::chars::to_lowered;
use crate::text::chars::trim;
use crate::text::chars::trim_chars;
use crate::text::chars::trim_of;
use crate::text::chars::trimmed;
use crate::text::chars::trimmed_end;
use crate::text::chars::trimmed_start;
use crate::text::chars::TrimClass;
use crate::text::number::decimal;
use crate::text::number::law_decimal_is_read_back;
use crate::text::number::lemma_decimal_digits;
use crate::text::number::parse_unsigned;
use crate::text::number::unsigned_value;
use crate::text::search::begins_with;
use crate::text::search::contains;
use crate::text::search::ends_with;
use crate::text::search::find;
use crate::text::search::find_last_char;
use crate::text::search::find_text;
use crate::text::search::finishes_with;
use crate::text::search::first_index;
use crate::text::search::first_occurrence;
use crate::text::search::last_index;
use crate::text::search::lemma_find;
use crate::text::search::lemma_find_exists;
use crate::text::search::lemma_first_index;
use crate::text::search::occurs_at;
use crate::text::search::starts_with;
use crate::text::search::strip_prefix;
use crate::text::search::without_prefix;
use crate::text::split::law_every_separator_splits;
use crate::text::split::law_text_without_separator_is_one_piece;
use crate::text::split::pieces;
use crate::text::split::split;
use crate::text::split::split_at;

verus! {

/// What is left of the host after the parts were found in it one after another,
/// each at its first place behind the one before; the first part that is not
/// empty stands at the beginning if `anchored`.
pub open spec fn after_parts(parts: Seq<Seq<char>>, rest: Seq<char>, anchored: bool) -> Option<
    Seq<char>,
>
    decreases parts.len(),
{
    if parts.len() == 0 {
        Some(rest)
    } else if parts[0].len() == 0 {
        after_parts(parts.skip(1), rest, anchored)
    } else if anchored {
        match strip_prefix(rest, parts[0]) {
            Some(tail) => after_parts(parts.skip(1), tail, false),
            None => None,
        }
    } else {
        match find(rest, parts[0]) {
            Some(i) => after_parts(parts.skip(1), rest.skip(i + parts[0].len()), false),
            None => None,
        }
    }
}

/// Whether the host has the parts of the pattern between its asterisks, in
/// order, with nothing behind the last part unless the pattern ends there with
/// an asterisk.
pub open spec fn wildcard_matches(pattern: Seq<char>, host: Seq<char>) -> bool {
    match after_parts(split(pattern, '*'), host, !starts_with(pattern, seq!['*'])) {
        Some(rest) => ends_with(pattern, seq!['*']) || rest.len() == 0,
        None => false,
    }
}

/// An entry without its scheme and brackets, with small letters.
pub open spec fn entry_body(entry: Seq<char>) -> Seq<char> {
    let body = match strip_prefix(entry, "http://"@) {
        Some(rest) => rest,
        None => match strip_prefix(entry, "https://"@) {
            Some(rest) => rest,
            None => entry,
        },
    };
    lowered(trimmed(TrimClass::Bracket, body))
}

/// The host and the port of an entry. There is a port where a single colon
/// stands before a port number.
pub open spec fn entry_host_port(body: Seq<char>) -> (Seq<char>, Option<int>) {
    let i = last_index(body, ':');
    if i >= 0 && !body.take(i).contains(':') {
        match unsigned_value(body.skip(i + 1), 10, 65535) {
            Some(port) => (body.take(i), Some(port)),
            None => (body, None),
        }
    } else {
        (body, None)
    }
}

/// Whether a host is the domain or lies under it.
pub open spec fn in_domain(host: Seq<char>, domain: Seq<char>) -> bool {
    host == domain || ends_with(host, seq!['.'] + domain)
}

/// Whether the host of an entry covers a host.
pub open spec fn host_covered(entry: Seq<char>, host: Seq<char>) -> bool {
    if starts_with(entry, seq!['.']) {
        in_domain(host, entry.skip(1))
    } else if entry.contains('*') {
        wildcard_matches(entry, host)
    } else {
        in_domain(host, entry)
    }
}

/// Whether an entry covers an origin.
pub open spec fn entry_covers(entry: Seq<char>, origin: OriginModel) -> bool {
    let (host, port) = entry_host_port(entry_body(entry));
    entry == "*"@ || ((port matches Some(p) ==> p == origin.port) && host_covered(
        host,
        origin.host,
    ))
}

/// Whether one of the entries of a comma-separated list covers an origin.
pub open spec fn list_covers(no_proxy: Seq<char>, origin: OriginModel) -> bool {
    exists|i: int|
        0 <= i < split(no_proxy, ',').len() && #[trigger] entry_at_covers(no_proxy, i, origin)
}

/// Whether the entry at a position of the list is not blank and covers an origin.
pub open spec fn entry_at_covers(no_proxy: Seq<char>, i: int, origin: OriginModel) -> bool {
    let entry = trim(split(no_proxy, ',')[i]);
    entry.len() > 0 && entry_covers(entry, origin)
}

/// Whether one of the entries of a comma-separated list covers an origin.
pub fn no_proxy_matches_origin(no_proxy: &str, origin: &RequestOrigin) -> (r: bool)
    ensures
        r == list_covers(no_proxy@, origin@),
{
    let entries = split_at(&chars_of(no_proxy), ',');
    let mut i: usize = 0;
    while i < entries.len()
        invariant
            i <= entries@.len(),
            pieces(entries@) == split(no_proxy@, ','),
            forall|j: int| 0 <= j < i ==> !#[trigger] entry_at_covers(no_proxy@, j, origin@),
        decreases entries@.len() - i,
    {
        assert(pieces(entries@)[i as int] == entries@[i as int]@);
        let entry = trim_chars(&entries[i]);
        if entry.len() > 0 && no_proxy_entry_matches_origin(entry, origin) {
            assert(entry_at_covers(no_proxy@, i as int, origin@));
            return true;
        }
        i += 1;
    }
    false
}

/// Whether an entry covers an origin.
pub fn no_proxy_entry_matches_origin(entry: &[char], origin: &RequestOrigin) -> (r: bool)
    ensures
        r == entry_covers(entry@, origin@),
{
    if is_text(entry, "*") {
        return true;
    }
    let body = match without_prefix(entry, "http://") {
        Some(rest) => rest,
        None => match without_prefix(entry, "https://") {
            Some(rest) => rest,
            None => entry,
        },
    };
    let body = to_lowered(trim_of(TrimClass::Bracket, body));
    assert(body@ == entry_body(entry@));
    let (host, port) = split_port(&body);
    if let Some(port) = port {
        if port != origin.port {
            return false;
        }
    }
    host_is_covered(host, &chars_of(origin.host.as_str()))
}

/// The host and the port of an entry.
fn split_port(body: &[char]) -> (r: (&[char], Option<u16>))
    ensures
        r.0@ == entry_host_port(body@).0,
        match r.1 {
            Some(p) => entry_host_port(body@).1 == Some(p as int),
            None => entry_host_port(body@).1 is None,
        },
{
    let n: usize = body.len();
    match find_last_char(body, ':') {
        Some(i) => {
            let host = &body[0..i];
            let tail = &body[i + 1..n];
            assert(host@ == body@.take(i as int));
            assert(tail@ == body@.skip(i + 1));
            if has_char(host, ':') {
                return (body, None);
            }
            match parse_unsigned(tail, 10, 65535) {
                Some(port) => (host, Some(port as u16)),
                None => (body, None),
            }
        },
        None => (body, None),
    }
}

/// Whether the host of an entry covers a host.
fn host_is_covered(entry: &[char], host: &[char]) -> (r: bool)
    ensures
        r == host_covered(entry@, host@),
{
    let dot = chars_of(".");
    proof {
        reveal_strlit(".");
        assert("."@ == seq!['.']);
    }
    if begins_with(entry, &dot) {
        let domain = &entry[1..entry.len()];
        assert(domain@ == entry@.skip(1));
        assert(seq!['.'] + domain@ == entry@) by {
            assert(entry@.take(1)[0] == '.');
        }
        return same_chars(host, domain) || finishes_with(host, entry);
    }
    if has_char(entry, '*') {
        return wildcard_host_match(entry, host);
    }
    let mut dotted: Vec<char> = Vec::new();
    dotted.push('.');
    push_all(&mut dotted, entry);
    assert(dotted@ == seq!['.'] + entry@);
    same_chars(host, entry) || finishes_with(host, &dotted)
}

/// Whether a host matches a pattern with asterisks.
pub fn wildcard_host_match(pattern: &[char], host: &[char]) -> (r: bool)
    ensures
        r == wildcard_matches(pattern@, host@),
{
    let star = chars_of("*");
    proof {
        reveal_strlit("*");
        assert("*"@ == seq!['*']);
    }
    let parts = split_at(pattern, '*');
    let mut anchored = !begins_with(pattern, &star);
    let mut from: usize = 0;
    let mut i: usize = 0;
    let ghost all = split(pattern@, '*');
    let ghost first_anchored = anchored;
    assert(all.skip(0) == all);
    assert(host@.skip(0) == host@);
    while i < parts.len()
        invariant
            i <= parts@.len(),
            from <= host@.len(),
            pieces(parts@) == all,
            all == split(pattern@, '*'),
            first_anchored == !starts_with(pattern@, seq!['*']),
            after_parts(all, host@, first_anchored) == after_parts(
                all.skip(i as int),
                host@.skip(from as int),
                anchored,
            ),
        decreases parts@.len() - i,
    {
        let part = &parts[i];
        let rest = &host[from..host.len()];
        assert(rest@ == host@.skip(from as int));
        assert(pieces(parts@)[i as int] == part@);
        assert(all.skip(i as int)[0] == part@);
        assert(all.skip(i as int).skip(1) == all.skip(i + 1));
        if part.len() > 0 {
            if anchored {
                if !begins_with(rest, part) {
                    return false;
                }
                assert(rest@.skip(part@.len() as int) == host@.skip(from + part@.len()));
                from = from + part.len();
            } else {
                match find_text(rest, part) {
                    None => {
                        return false;
                    },
                    Some(at) => {
                        assert(rest@.skip(at + part@.len()) == host@.skip(from + at + part@.len()));
                        from = from + at + part.len();
                    },
                }
            }
            anchored = false;
        }
        i += 1;
    }
    finishes_with(pattern, &star) || from == host.len()
}

/// Whether a text is the pattern with something in place of each asterisk.
pub open spec fn glob(pattern: Seq<char>, text: Seq<char>) -> bool
    decreases pattern.len(),
{
    if pattern.len() == 0 {
        text.len() == 0
    } else if pattern[0] == '*' {
        exists|k: int| 0 <= k <= text.len() && glob(pattern.skip(1), #[trigger] text.skip(k))
    } else {
        text.len() > 0 && text[0] == pattern[0] && glob(pattern.skip(1), text.skip(1))
    }
}

/// A literal beginning of the pattern stands for itself.
proof fn lemma_glob_literal(a: Seq<char>, pattern: Seq<char>, text: Seq<char>)
    requires
        !a.contains('*'),
        glob(pattern, text),
    ensures
        glob(a + pattern, a + text),
    decreases a.len(),
{
    if a.len() == 0 {
        assert(a + pattern == pattern);
        assert(a + text == text);
    } else {
        let b = a.skip(1);
        assert(a[0] != '*');
        assert(!b.contains('*')) by {
            if b.contains('*') {
                let i = choose|i: int| 0 <= i < b.len() && b[i] == '*';
                assert(a[i + 1] == '*');
            }
        }
        lemma_glob_literal(b, pattern, text);
        assert((a + pattern).skip(1) == b + pattern);
        assert((a + text).skip(1) == b + text);
    }
}

/// An asterisk before the pattern stands for any beginning of the text.
proof fn lemma_glob_star(pattern: Seq<char>, text: Seq<char>, k: int)
    requires
        0 <= k <= text.len(),
        glob(pattern, text.skip(k)),
    ensures
        glob(seq!['*'] + pattern, text),
{
    assert((seq!['*'] + pattern).skip(1) == pattern);
}

proof fn lemma_glob_any(text: Seq<char>)
    ensures
        glob(seq!['*'], text),
{
    assert(seq!['*'].skip(1) == Seq::<char>::empty());
    assert(glob(seq!['*'].skip(1), text.skip(text.len() as int)));
}

/// Finding the parts of `pattern` one after another shows the text to be the
/// pattern, behind an asterisk unless `anchored`, with each asterisk filled in.
proof fn lemma_parts_glob(pattern: Seq<char>, text: Seq<char>, anchored: bool)
    requires
        anchored ==> pattern.len() == 0 || pattern[0] != '*',
        after_parts(split(pattern, '*'), text, anchored) matches Some(rest) && (ends_with(
            pattern,
            seq!['*'],
        ) || rest.len() == 0),
    ensures
        glob(
            if anchored {
                pattern
            } else {
                seq!['*'] + pattern
            },
            text,
        ),
    decreases pattern.len(),
{
    let i = first_index(pattern, '*');
    lemma_first_index(pattern, '*');
    let parts = split(pattern, '*');
    let a = if i < pattern.len() {
        pattern.take(i)
    } else {
        pattern
    };
    assert(parts[0] == a);
    assert(!a.contains('*'));
    // Where the first part stands, and what follows it.
    let at = if a.len() == 0 || anchored {
        0
    } else {
        lemma_find_if_some(text, a);
        find(text, a)->0
    };
    let tail = text.skip(at + a.len());
    assert(text.skip(at) == a + tail) by {
        if a.len() > 0 {
            if anchored {
                assert(text.take(a.len() as int) == a);
            } else {
                assert(occurs_at(text, a, at));
                assert(text.subrange(at, at + a.len()) == a);
            }
        }
    }
    if i < pattern.len() {
        let b = pattern.skip(i + 1);
        assert(parts.skip(1) == split(b, '*'));
        assert(pattern == a + (seq!['*'] + b));
        assert(glob(seq!['*'] + b, tail)) by {
            if b.len() == 0 {
                assert(seq!['*'] + b == seq!['*']);
                lemma_glob_any(tail);
            } else {
                assert(ends_with(pattern, seq!['*']) == ends_with(b, seq!['*'])) by {
                    assert(pattern.last() == b.last());
                    assert(pattern.skip(pattern.len() - 1) == seq![pattern.last()]);
                    assert(b.skip(b.len() - 1) == seq![b.last()]);
                }
                assert(a.len() == 0 ==> tail == text);
                lemma_parts_glob(b, tail, false);
            }
        }
        lemma_glob_literal(a, seq!['*'] + b, tail);
    } else {
        assert(parts.skip(1).len() == 0);
        assert(after_parts(parts.skip(1), tail, false) == Some(tail));
        assert(after_parts(parts.skip(1), text, anchored) == Some(text));
        assert(!ends_with(pattern, seq!['*'])) by {
            if ends_with(pattern, seq!['*']) {
                assert(pattern.skip(pattern.len() - 1)[0] == pattern.last());
            }
        }
        assert(a.len() == 0 ==> tail == text);
        assert(tail == Seq::<char>::empty());
        assert(a + Seq::<char>::empty() == a);
        lemma_glob_literal(a, Seq::empty(), tail);
    }
    assert(glob(pattern, text.skip(at)));
    if anchored {
        assert(text.skip(0) == text);
    } else {
        lemma_glob_star(pattern, text, at);
    }
}

proof fn lemma_find_if_some(s: Seq<char>, p: Seq<char>)
    ensures
        find(s, p) is Some ==> first_occurrence(s, p, find(s, p)->0),
{
    if contains(s, p) {
        lemma_find_exists(s, p);
    }
}

/// A host that matches a pattern is the pattern with something in place of each
/// asterisk: no host matches that the pattern does not describe.
pub proof fn law_wildcard_match_is_a_glob_match(pattern: Seq<char>, host: Seq<char>)
    requires
        wildcard_matches(pattern, host),
    ensures
        glob(pattern, host),
{
    let anchored = !starts_with(pattern, seq!['*']);
    assert(anchored ==> pattern.len() == 0 || pattern[0] != '*') by {
        if pattern.len() > 0 {
            assert(pattern.take(1) == seq![pattern[0]]);
        }
    }
    lemma_parts_glob(pattern, host, anchored);
    if !anchored {
        // The pattern begins with an asterisk, which absorbs the one before it.
        let rest = pattern.skip(1);
        assert(pattern.take(1)[0] == '*');
        let doubled = seq!['*'] + pattern;
        assert(doubled.skip(1) == pattern);
        let k = choose|k: int| 0 <= k <= host.len() && glob(doubled.skip(1), #[trigger] host.skip(k));
        let inner = host.skip(k);
        let l = choose|l: int| 0 <= l <= inner.len() && glob(rest, #[trigger] inner.skip(l));
        assert(inner.skip(l) == host.skip(k + l));
        assert(glob(rest, host.skip(k + l)));
    }
}

/// What a literal beginning of the pattern stands for.
proof fn lemma_glob_begins(a: Seq<char>, pattern: Seq<char>, text: Seq<char>)
    requires
        !a.contains('*'),
        glob(a + pattern, text),
    ensures
        starts_with(text, a),
        glob(pattern, text.skip(a.len() as int)),
    decreases a.len(),
{
    if a.len() == 0 {
        assert(a + pattern == pattern);
        assert(text.skip(0) == text);
        assert(text.take(0) == a);
    } else {
        let b = a.skip(1);
        let whole = a + pattern;
        assert(whole[0] == a[0]);
        assert(a[0] != '*');
        assert(!b.contains('*')) by {
            if b.contains('*') {
                let i = choose|i: int| 0 <= i < b.len() && b[i] == '*';
                assert(a[i + 1] == '*');
            }
        }
        assert(whole.skip(1) == b + pattern);
        lemma_glob_begins(b, pattern, text.skip(1));
        assert(text.skip(1).skip(b.len() as int) == text.skip(a.len() as int));
        assert forall|i: int| 0 <= i < a.len() implies text[i] == a[i] by {
            if i > 0 {
                assert(text.skip(1).take(b.len() as int)[i - 1] == b[i - 1]);
            }
        }
        assert(text.take(a.len() as int) == a);
    }
}

/// Where the pattern ends with an asterisk, or an asterisk stands before all of
/// it, taking the first place of each part loses nothing.
proof fn lemma_glob_parts(pattern: Seq<char>, text: Seq<char>, anchored: bool)
    requires
        anchored ==> pattern.len() > 0 && pattern[0] != '*',
        ends_with(pattern, seq!['*']) || pattern.len() == 0,
        glob(
            if anchored {
                pattern
            } else {
                seq!['*'] + pattern
            },
            text,
        ),
    ensures
        after_parts(split(pattern, '*'), text, anchored) is Some,
    decreases pattern.len(),
{
    let parts = split(pattern, '*');
    if pattern.len() == 0 {
        assert(parts[0].len() == 0);
        assert(after_parts(parts.skip(1), text, anchored) == Some(text));
    } else {
        let i = first_index(pattern, '*');
        lemma_first_index(pattern, '*');
        assert(pattern.skip(pattern.len() - 1)[0] == pattern.last());
        assert(pattern.contains('*'));
        let a = pattern.take(i);
        let b = pattern.skip(i + 1);
        assert(!a.contains('*'));
        assert(parts[0] == a);
        assert(parts.skip(1) == split(b, '*'));
        assert(pattern == a + (seq!['*'] + b));
        if b.len() > 0 {
            assert(pattern.last() == b.last());
            assert(b.skip(b.len() - 1) == seq![b.last()]);
        }
        // Where the text can be cut so that it is the pattern from there on.
        let k = if anchored {
            0
        } else {
            let starred = seq!['*'] + pattern;
            assert(starred.skip(1) == pattern);
            choose|k: int| 0 <= k <= text.len() && glob(starred.skip(1), #[trigger] text.skip(k))
        };
        assert(text.skip(0) == text);
        let cut = text.skip(k);
        lemma_glob_begins(a, seq!['*'] + b, cut);
        let behind = cut.skip(a.len() as int);
        // Where the part is found, which is not later.
        let at = if anchored || a.len() == 0 {
            0
        } else {
            assert(cut.take(a.len() as int) == a);
            assert(text.subrange(k, k + a.len()) == a);
            assert(occurs_at(text, a, k));
            lemma_find_exists(text, a);
            find(text, a)->0
        };
        assert(at <= k) by {
            if !anchored && a.len() > 0 {
                assert(first_occurrence(text, a, at));
            }
        }
        let tail = text.skip(at + a.len());
        assert(tail.skip(k - at) == behind);
        let starred = seq!['*'] + b;
        assert(starred.skip(1) == b);
        let l = choose|l: int| 0 <= l <= behind.len() && glob(starred.skip(1), #[trigger] behind.skip(l));
        assert(behind.skip(l) == tail.skip(k - at + l));
        lemma_glob_star(b, tail, k - at + l);
        assert(a.len() == 0 ==> tail == text);
        lemma_glob_parts(b, tail, false);
    }
}

/// Where a pattern ends with an asterisk, or has none, exactly those hosts match
/// that are the pattern with something in place of each asterisk.
pub proof fn law_wildcard_match_decides_the_glob(pattern: Seq<char>, host: Seq<char>)
    requires
        ends_with(pattern, seq!['*']) || !pattern.contains('*'),
    ensures
        wildcard_matches(pattern, host) <==> glob(pattern, host),
{
    if wildcard_matches(pattern, host) {
        law_wildcard_match_is_a_glob_match(pattern, host);
    }
    if glob(pattern, host) {
        let anchored = !starts_with(pattern, seq!['*']);
        if !pattern.contains('*') {
            lemma_first_index(pattern, '*');
            let parts = split(pattern, '*');
            assert(parts[0] == pattern && parts.skip(1).len() == 0);
            assert(pattern + Seq::<char>::empty() == pattern);
            lemma_glob_begins(pattern, Seq::empty(), host);
            assert(!starts_with(pattern, seq!['*'])) by {
                if starts_with(pattern, seq!['*']) {
                    assert(pattern.take(1)[0] == pattern[0]);
                }
            }
            if pattern.len() == 0 {
                assert(host.skip(0) == host);
            }
            assert(after_parts(parts.skip(1), host.skip(pattern.len() as int), false) == Some(
                host.skip(pattern.len() as int),
            ));
            assert(after_parts(parts.skip(1), host, anchored) == Some(host));
        } else {
            assert(pattern.len() > 0);
            assert(anchored == (pattern[0] != '*')) by {
                assert(pattern.take(1) == seq![pattern[0]]);
                if !anchored {
                    assert(pattern.take(1)[0] == '*');
                }
            }
            if !anchored {
                assert(host.skip(0) == host);
                lemma_glob_star(pattern, host, 0);
            }
            lemma_glob_parts(pattern, host, anchored);
        }
    }
}

/// An entry covers an origin or not without regard to ASCII case.
pub proof fn law_entry_without_scheme_ignores_case(entry: Seq<char>, origin: OriginModel)
    requires
        strip_prefix(entry, "http://"@) is None,
        strip_prefix(entry, "https://"@) is None,
        strip_prefix(lowered(entry), "http://"@) is None,
        strip_prefix(lowered(entry), "https://"@) is None,
    ensures
        entry_covers(entry, origin) == entry_covers(lowered(entry), origin),
{
    lemma_trimmed_lowered(entry);
    let body = trimmed(TrimClass::Bracket, entry);
    assert(lowered(lowered(body)) == lowered(body));
    assert(entry_body(lowered(entry)) == entry_body(entry));
    reveal_strlit("*");
    assert((entry == "*"@) == (lowered(entry) == "*"@)) by {
        if lowered(entry) == "*"@ {
            assert(lowered(entry)[0] == '*');
            assert(entry == "*"@);
        }
        if entry == "*"@ {
            assert(lowered(entry) == "*"@);
        }
    }
}

proof fn lemma_trimmed_lowered(s: Seq<char>)
    ensures
        trimmed(TrimClass::Bracket, lowered(s)) == lowered(trimmed(TrimClass::Bracket, s)),
{
    lemma_trimmed_start_lowered(s);
    lemma_trimmed_end_lowered(trimmed_start(TrimClass::Bracket, s));
}

proof fn lemma_trimmed_start_lowered(s: Seq<char>)
    ensures
        trimmed_start(TrimClass::Bracket, lowered(s)) == lowered(
            trimmed_start(TrimClass::Bracket, s),
        ),
    decreases s.len(),
{
    if s.len() > 0 {
        assert(lowered(s).skip(1) == lowered(s.skip(1)));
        lemma_trimmed_start_lowered(s.skip(1));
    }
}

proof fn lemma_trimmed_end_lowered(s: Seq<char>)
    ensures
        trimmed_end(TrimClass::Bracket, lowered(s)) == lowered(
            trimmed_end(TrimClass::Bracket, s),
        ),
    decreases s.len(),
{
    if s.len() > 0 {
        assert(lowered(s).drop_last() == lowered(s.drop_last()));
        assert(lowered(s).last() == ascii_lower(s.last()));
        lemma_trimmed_end_lowered(s.drop_last());
    }
}

/// Whether a text is a plain host name in small letters.
pub open spec fn is_plain_host(s: Seq<char>) -> bool {
    &&& s.len() > 0
    &&& s[0] != '.'
    &&& forall|i: int|
        0 <= i < s.len() ==> #[trigger] s[i] != '*' && s[i] != ':' && s[i] != '[' && s[i] != ']'
            && !('A' <= s[i] <= 'Z')
}

proof fn lemma_plain_body(s: Seq<char>)
    requires
        s.len() > 0,
        forall|i: int|
            0 <= i < s.len() ==> #[trigger] s[i] != '[' && s[i] != ']' && !('A' <= s[i] <= 'Z'),
        s.len() <= 5 || s[4] != ':' || s[5] != '/',
        s.len() <= 6 || s[5] != ':' || s[6] != '/',
    ensures
        entry_body(s) == s,
{
    reveal_strlit("http://");
    reveal_strlit("https://");
    if starts_with(s, "http://"@) {
        assert(s.take(7)[4] == ':' && s.take(7)[5] == '/');
    }
    if starts_with(s, "https://"@) {
        assert(s.take(8)[5] == ':' && s.take(8)[6] == '/');
    }
    assert(s[0] != '[' && s[s.len() - 1] != ']' && s[0] != ']' && s[s.len() - 1] != '[');
    assert(lowered(s) =~= s);
}

/// A plain host name covers that host and every host below it, at any port, and no
/// other; a dot before the name does not matter.
pub proof fn law_plain_entry_covers_its_domain(domain: Seq<char>, origin: OriginModel)
    requires
        is_plain_host(domain),
    ensures
        entry_covers(domain, origin) <==> origin.host == domain || ends_with(
            origin.host,
            seq!['.'] + domain,
        ),
        entry_covers(seq!['.'] + domain, origin) == entry_covers(domain, origin),
{
    let dotted = seq!['.'] + domain;
    reveal_strlit("*");
    assert("*"@[0] == '*');
    assert(domain[0] != '*' && domain[0] != ':');
    lemma_no_colon(domain);
    lemma_no_colon(dotted);
    if domain.len() > 4 {
        assert(domain[4] != ':');
    }
    if domain.len() > 5 {
        assert(domain[5] != ':');
    }
    if dotted.len() > 4 {
        assert(dotted[4] == domain[3] && domain[3] != ':');
    }
    if dotted.len() > 5 {
        assert(dotted[5] == domain[4] && domain[4] != ':');
    }
    lemma_plain_body(domain);
    assert forall|i: int| 0 <= i < dotted.len() implies #[trigger] dotted[i] != '[' && dotted[i] != ']'
        && !('A' <= dotted[i] <= 'Z') by {
        if i > 0 {
            assert(dotted[i] == domain[i - 1]);
        }
    }
    lemma_plain_body(dotted);
    assert(dotted.take(1) =~= seq!['.']);
    assert(dotted.skip(1) =~= domain);
    assert(!starts_with(domain, seq!['.'])) by {
        if starts_with(domain, seq!['.']) {
            assert(domain.take(1)[0] == '.');
        }
    }
    assert(!domain.contains('*'));
}

proof fn lemma_no_colon(s: Seq<char>)
    requires
        forall|i: int| 0 <= i < s.len() ==> #[trigger] s[i] != ':',
    ensures
        last_index(s, ':') == -1,
        entry_host_port(s) == (s, None::<int>),
    decreases s.len(),
{
    if s.len() > 0 {
        let head = s.drop_last();
        assert forall|i: int| 0 <= i < head.len() implies #[trigger] head[i] != ':' by {
            assert(head[i] == s[i]);
        }
        lemma_no_colon(head);
        assert(s.last() == s[s.len() - 1]);
    }
}

/// With a port behind it, an entry covers what it covers without one at that port
/// only.
pub proof fn law_port_of_an_entry_counts(domain: Seq<char>, port: u16, origin: OriginModel)
    requires
        is_plain_host(domain),
    ensures
        entry_covers(domain + seq![':'] + decimal(port as nat), origin) <==> origin.port == port
            && entry_covers(domain, origin),
{
    let digits = decimal(port as nat);
    let entry = domain + seq![':'] + digits;
    let n = domain.len() as int;
    law_decimal_is_read_back(port as nat, 65535);
    lemma_decimal_digits(port as nat);
    law_plain_entry_covers_its_domain(domain, origin);
    assert forall|i: int| 0 <= i < entry.len() implies #[trigger] entry[i] != '[' && entry[i] != ']'
        && !('A' <= entry[i] <= 'Z') && (entry[i] == ':' ==> i == n) by {
        if i < n {
            assert(entry[i] == domain[i]);
        } else if i > n {
            assert(entry[i] == digits[i - n - 1]);
        }
    }
    if entry.len() > 5 && entry[4] == ':' {
        assert(entry[5] == digits[0]);
    }
    if entry.len() > 6 && entry[5] == ':' {
        assert(entry[6] == digits[0]);
    }
    lemma_plain_body(entry);
    if domain.len() > 4 {
        assert(domain[4] != ':');
    }
    if domain.len() > 5 {
        assert(domain[5] != ':');
    }
    lemma_plain_body(domain);
    lemma_last_colon(entry, n);
    assert(entry.take(n) =~= domain);
    assert(entry.skip(n + 1) =~= digits);
    assert(!domain.contains(':'));
    assert(unsigned_value(digits, 10, 65535) == Some(port as int));
    lemma_no_colon(domain);
    reveal_strlit("*");
    assert("*"@.len() == 1);
    assert(entry.len() > 1);
    assert("*"@[0] == '*');
    assert(domain[0] != '*');
}

proof fn lemma_last_colon(s: Seq<char>, n: int)
    requires
        0 <= n < s.len(),
        s[n] == ':',
        forall|i: int| n < i < s.len() ==> s[i] != ':',
    ensures
        last_index(s, ':') == n,
    decreases s.len(),
{
    if n < s.len() - 1 {
        lemma_last_colon(s.drop_last(), n);
    }
}

/// An asterisk alone covers every origin, and so does a list that has it.
pub proof fn law_asterisk_covers_everything(origin: OriginModel)
    ensures
        entry_covers("*"@, origin),
        list_covers("*"@, origin),
{
    reveal_strlit("*");
    assert("*"@ =~= seq!['*']);
    assert(!"*"@.contains(','));
    law_text_without_separator_is_one_piece("*"@, ',');
    assert(trim("*"@) =~= "*"@);
    assert(entry_at_covers("*"@, 0, origin));
}

/// A list covers what one of its entries covers: its entries stand between commas,
/// white space around them does not matter, and blank ones cover nothing.
pub proof fn law_list_covers_what_its_entries_cover(
    a: Seq<char>,
    b: Seq<char>,
    origin: OriginModel,
)
    ensures
        list_covers(a + seq![','] + b, origin) <==> list_covers(a, origin) || list_covers(
            b,
            origin,
        ),
        !a.contains(',') ==> (list_covers(a, origin) <==> trim(a).len() > 0 && entry_covers(
            trim(a),
            origin,
        )),
{
    let all = a + seq![','] + b;
    let (x, y) = (split(a, ','), split(b, ','));
    law_every_separator_splits(a, b, ',');
    assert(split(all, ',') == x + y);
    if list_covers(a, origin) {
        let i = choose|i: int| 0 <= i < x.len() && #[trigger] entry_at_covers(a, i, origin);
        assert((x + y)[i] == x[i]);
        assert(entry_at_covers(all, i, origin));
    }
    if list_covers(b, origin) {
        let i = choose|i: int| 0 <= i < y.len() && #[trigger] entry_at_covers(b, i, origin);
        assert((x + y)[x.len() + i] == y[i]);
        assert(entry_at_covers(all, x.len() + i, origin));
    }
    if list_covers(all, origin) {
        let i = choose|i: int|
            0 <= i < split(all, ',').len() && #[trigger] entry_at_covers(all, i, origin);
        if i < x.len() {
            assert((x + y)[i] == x[i]);
            assert(entry_at_covers(a, i, origin));
        } else {
            assert((x + y)[i] == y[i - x.len()]);
            assert(entry_at_covers(b, i - x.len(), origin));
        }
    }
    if !a.contains(',') {
        law_text_without_separator_is_one_piece(a, ',');
        assert(x[0] == a);
        if trim(a).len() > 0 && entry_covers(trim(a), origin) {
            assert(entry_at_covers(a, 0, origin));
        }
        if list_covers(a, origin) {
            let i = choose|i: int| 0 <= i < x.len() && #[trigger] entry_at_covers(a, i, origin);
            assert(i == 0);
        }
    }
}

/// A scheme before an entry, and brackets around its host, do not matter.
pub proof fn law_scheme_and_brackets_of_an_entry_do_not_matter(
    host: Seq<char>,
    origin: OriginModel,
)
    requires
        is_plain_host(host),
    ensures
        entry_covers("http://"@ + host, origin) == entry_covers(host, origin),
        entry_covers("https://"@ + host, origin) == entry_covers(host, origin),
        entry_covers(seq!['['] + host + seq![']'], origin) == entry_covers(host, origin),
{
    reveal_strlit("http://");
    reveal_strlit("https://");
    reveal_strlit("*");
    assert("*"@.len() == 1);
    let http = "http://"@ + host;
    let https = "https://"@ + host;
    let bracketed = seq!['['] + host + seq![']'];
    assert(host[0] != '*' && host[0] != '[' && host[0] != ']');
    assert(host[host.len() - 1] != '[' && host[host.len() - 1] != ']');
    if host.len() > 4 {
        assert(host[4] != ':');
    }
    if host.len() > 5 {
        assert(host[5] != ':');
    }
    lemma_plain_body(host);
    assert(http.take(7) =~= "http://"@);
    assert(http.skip(7) =~= host);
    assert(https.take(8) =~= "https://"@);
    assert(https.skip(8) =~= host);
    assert(!starts_with(https, "http://"@)) by {
        if starts_with(https, "http://"@) {
            assert(https.take(7)[4] == ':');
            assert(https[4] == 's');
        }
    }
    assert(lowered(host) =~= host);
    assert(trimmed(TrimClass::Bracket, host) == host);
    assert(bracketed.skip(1) =~= host.push(']'));
    assert(trimmed_start(TrimClass::Bracket, bracketed) == trimmed_start(
        TrimClass::Bracket,
        host.push(']'),
    ));
    assert(host.push(']').drop_last() =~= host);
    assert(host.push(']').last() == ']');
    assert(trimmed_end(TrimClass::Bracket, host.push(']')) == trimmed_end(
        TrimClass::Bracket,
        host,
    ));
    assert(trimmed(TrimClass::Bracket, bracketed) == host);
    if starts_with(bracketed, "http://"@) {
        assert(bracketed.take(7)[0] == 'h');
    }
    if starts_with(bracketed, "https://"@) {
        assert(bracketed.take(8)[0] == 'h');
    }
}

/// An asterisk before a text matches the hosts in which the text stands for the
/// first time at the very end.
pub proof fn law_leading_asterisk_matches_the_ending(tail: Seq<char>, host: Seq<char>)
    requires
        tail.len() > 0,
        !tail.contains('*'),
    ensures
        wildcard_matches(seq!['*'] + tail, host) <==> first_occurrence(
            host,
            tail,
            host.len() - tail.len(),
        ),
{
    let pattern = seq!['*'] + tail;
    let none = Seq::<char>::empty();
    law_every_separator_splits(none, tail, '*');
    assert(none + seq!['*'] + tail =~= pattern);
    law_text_without_separator_is_one_piece(none, '*');
    law_text_without_separator_is_one_piece(tail, '*');
    let parts = split(pattern, '*');
    assert(parts =~= seq![none, tail]);
    assert(pattern.take(1) =~= seq!['*']);
    assert(!ends_with(pattern, seq!['*'])) by {
        if ends_with(pattern, seq!['*']) {
            assert(pattern.skip(pattern.len() - 1)[0] == tail.last());
            assert(tail.contains('*'));
        }
    }
    let rest = parts.skip(1);
    assert(rest[0] == tail);
    assert(rest.skip(1).len() == 0);
    assert(after_parts(parts, host, false) == after_parts(rest, host, false));
    lemma_find_if_some(host, tail);
    match find(host, tail) {
        Some(i) => {
            let left = host.skip(i + tail.len());
            assert(after_parts(rest.skip(1), left, false) == Some(left));
            assert(after_parts(rest, host, false) == Some(left));
            assert(occurs_at(host, tail, i));
            if first_occurrence(host, tail, host.len() - tail.len()) {
                lemma_find(host, tail, host.len() - tail.len());
            }
        },
        None => {
            if occurs_at(host, tail, host.len() - tail.len()) {
                assert(contains(host, tail));
            }
        },
    }
}

/// An entry with one asterisk, in front of some text, covers the hosts in which that
/// text stands at the end and not before.
pub proof fn law_asterisk_entry_covers_by_the_ending(tail: Seq<char>, host: Seq<char>)
    requires
        tail.len() > 0,
        !tail.contains('*'),
    ensures
        host_covered(seq!['*'] + tail, host) <==> first_occurrence(
            host,
            tail,
            host.len() - tail.len(),
        ),
{
    let entry = seq!['*'] + tail;
    law_leading_asterisk_matches_the_ending(tail, host);
    assert(entry[0] == '*');
    assert(entry.contains('*'));
    assert(entry.take(1)[0] == '*');
    assert(seq!['.'][0] == '.');
}

} // verus!
