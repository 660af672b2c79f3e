//! Proxy lists of the platform: auto-configuration results such as
//! `PROXY host:port; DIRECT` and static settings such as `http=host:port`.
use vstd::prelude::*;
use crate::text::chars::chars_of;
use crate::text::chars::is_text;
use crate::text::chars::lowered;
use crate::text::chars::push_all;
use crate::text::chars::same_ignoring_case;
use crate::text::chars::string_of;
use crate::text::chars::to_lowered;
use crate::text::chars::trim;
use crate::text::chars::trim_chars;
use crate::text::search::contains;
use crate::text::search::contains_text;
use crate::text::search::lemma_first_index;
use crate::text::search::occurs_at;
use crate::text::split::pieces;
use crate::text::split::split;
use crate::text::split::split_at;
use crate::text::split::split_first;
use crate::text::split::split_once;

verus! {

/// What a proxy list says.
#[derive(Debug, Clone, PartialEq, Eq)]
pub enum ParsedProxyListDecision {
    /// Connect without a proxy.
    Direct,
    /// Connect through this proxy.
    Proxy(String),
    /// Only proxies of a scheme that is not supported are named.
    UnsupportedScheme,
    /// Nothing is said for the target.
    Unavailable,
}

/// What a proxy list says, over the characters of the address.
pub enum ListDecision {
    /// Connect without a proxy.
    Direct,
    /// Connect through this proxy.
    Proxy(Seq<char>),
    /// Only proxies of a scheme that is not supported are named.
    UnsupportedScheme,
    /// Nothing is said for the target.
    Unavailable,
}

impl View for ParsedProxyListDecision {
    type V = ListDecision;

    open spec fn view(&self) -> ListDecision {
        match *self {
            ParsedProxyListDecision::Direct => ListDecision::Direct,
            ParsedProxyListDecision::Proxy(url) => ListDecision::Proxy(url@),
            ParsedProxyListDecision::UnsupportedScheme => ListDecision::UnsupportedScheme,
            ParsedProxyListDecision::Unavailable => ListDecision::Unavailable,
        }
    }
}

/// The proxy at a host and port: the scheme is put before them unless they have one.
pub open spec fn hostport_decision(proxy_scheme: Seq<char>, hostport: Seq<char>) -> ListDecision {
    if hostport.len() == 0 {
        ListDecision::Unavailable
    } else if contains(hostport, "://"@) {
        ListDecision::Proxy(hostport)
    } else {
        ListDecision::Proxy(proxy_scheme + "://"@ + hostport)
    }
}

/// What a `key=value` token says for the target scheme; `None` for another token.
pub open spec fn key_decision(token: Seq<char>, target_scheme: Seq<char>) -> Option<ListDecision> {
    match split_once(token, '=') {
        Some((key, value)) => if lowered(trim(key)) == lowered(target_scheme) {
            Some(hostport_decision("http"@, trim(value)))
        } else {
            Some(ListDecision::Unavailable)
        },
        None => None,
    }
}

/// What one token says for the target scheme.
pub open spec fn token_decision(token: Seq<char>, target_scheme: Seq<char>) -> ListDecision {
    if lowered(token) == lowered("DIRECT"@) {
        ListDecision::Direct
    } else {
        match key_decision(token, target_scheme) {
            Some(decision) => decision,
            None => match split_once(token, ' ') {
                Some((scheme, hostport)) => {
                    let scheme = lowered(trim(scheme));
                    if scheme == "proxy"@ || scheme == "http"@ {
                        hostport_decision("http"@, trim(hostport))
                    } else if scheme == "https"@ {
                        hostport_decision("https"@, trim(hostport))
                    } else if scheme == "socks"@ || scheme == "socks4"@ || scheme == "socks5"@ {
                        ListDecision::UnsupportedScheme
                    } else {
                        ListDecision::Unavailable
                    }
                },
                None => hostport_decision("http"@, token),
            },
        }
    }
}

/// The proxy that a token names for plain HTTP, where the target is HTTPS.
pub open spec fn http_fallback(token: Seq<char>, target_scheme: Seq<char>) -> Option<Seq<char>> {
    match key_decision(token, "http"@) {
        Some(ListDecision::Proxy(url)) if target_scheme == "https"@ => Some(url),
        _ => None,
    }
}

/// What the tokens say: the first that decides counts; failing that, the first
/// plain HTTP proxy where the target is HTTPS.
pub open spec fn tokens_decision(
    tokens: Seq<Seq<char>>,
    target_scheme: Seq<char>,
    saw_unsupported: bool,
    fallback: Option<Seq<char>>,
) -> ListDecision
    decreases tokens.len(),
{
    if tokens.len() == 0 {
        match fallback {
            Some(url) => ListDecision::Proxy(url),
            None => if saw_unsupported {
                ListDecision::UnsupportedScheme
            } else {
                ListDecision::Unavailable
            },
        }
    } else {
        let token = trim(tokens[0]);
        if token.len() == 0 {
            tokens_decision(tokens.skip(1), target_scheme, saw_unsupported, fallback)
        } else {
            let fallback = if fallback is None {
                http_fallback(token, target_scheme)
            } else {
                fallback
            };
            match token_decision(token, target_scheme) {
                ListDecision::Direct => ListDecision::Direct,
                ListDecision::Proxy(url) => ListDecision::Proxy(url),
                ListDecision::UnsupportedScheme => tokens_decision(
                    tokens.skip(1),
                    target_scheme,
                    true,
                    fallback,
                ),
                ListDecision::Unavailable => tokens_decision(
                    tokens.skip(1),
                    target_scheme,
                    saw_unsupported,
                    fallback,
                ),
            }
        }
    }
}

/// What a proxy list says for the target scheme.
pub open spec fn list_decision(input: Seq<char>, target_scheme: Seq<char>) -> ListDecision {
    tokens_decision(split(input, ';'), target_scheme, false, None)
}

/// Reads a proxy list for the target scheme.
pub fn parse_proxy_list(input: &str, target_scheme: &str) -> (r: ParsedProxyListDecision)
    ensures
        r@ == list_decision(input@, target_scheme@),
{
    let tokens = split_at(&chars_of(input), ';');
    let scheme = chars_of(target_scheme);
    let for_https = is_text(&scheme, "https");
    let http = chars_of("http");
    let mut saw_unsupported = false;
    let mut fallback: Option<String> = None;
    let mut i: usize = 0;
    let ghost all = split(input@, ';');
    assert(all.skip(0) == all);
    while i < tokens.len()
        invariant
            i <= tokens@.len(),
            all == split(input@, ';'),
            pieces(tokens@) == all,
            scheme@ == target_scheme@,
            http@ == "http"@,
            for_https == (target_scheme@ == "https"@),
            list_decision(input@, target_scheme@) == tokens_decision(
                all.skip(i as int),
                target_scheme@,
                saw_unsupported,
                fallback.deep_view(),
            ),
        decreases tokens@.len() - i,
    {
        assert(pieces(tokens@)[i as int] == tokens@[i as int]@);
        assert(all.skip(i as int)[0] == tokens@[i as int]@);
        assert(all.skip(i as int).skip(1) == all.skip(i + 1));
        let token = trim_chars(&tokens[i]);
        i += 1;
        if token.len() > 0 {
            if for_https && fallback.is_none() {
                if let Some(ParsedProxyListDecision::Proxy(url)) = parse_proxy_key_token(
                    token,
                    &http,
                ) {
                    fallback = Some(url);
                }
            }
            match parse_proxy_token(token, &scheme) {
                ParsedProxyListDecision::Direct => {
                    return ParsedProxyListDecision::Direct;
                },
                ParsedProxyListDecision::Proxy(url) => {
                    return ParsedProxyListDecision::Proxy(url);
                },
                ParsedProxyListDecision::UnsupportedScheme => {
                    saw_unsupported = true;
                },
                ParsedProxyListDecision::Unavailable => {},
            }
        }
    }
    assert(all.skip(i as int).len() == 0);
    match fallback {
        Some(url) => ParsedProxyListDecision::Proxy(url),
        None => if saw_unsupported {
            ParsedProxyListDecision::UnsupportedScheme
        } else {
            ParsedProxyListDecision::Unavailable
        },
    }
}

/// Reads one token for the target scheme.
pub fn parse_proxy_token(token: &[char], target_scheme: &[char]) -> (r: ParsedProxyListDecision)
    ensures
        r@ == token_decision(token@, target_scheme@),
{
    let direct = chars_of("DIRECT");
    if same_ignoring_case(token, &direct) {
        return ParsedProxyListDecision::Direct;
    }
    if let Some(decision) = parse_proxy_key_token(token, target_scheme) {
        return decision;
    }
    match split_first(token, ' ') {
        Some((scheme, hostport)) => {
            let scheme = to_lowered(trim_chars(scheme));
            let hostport = trim_chars(hostport);
            if is_text(&scheme, "proxy") || is_text(&scheme, "http") {
                proxy_url_from_hostport("http", hostport)
            } else if is_text(&scheme, "https") {
                proxy_url_from_hostport("https", hostport)
            } else if is_text(&scheme, "socks") || is_text(&scheme, "socks4") || is_text(
                &scheme,
                "socks5",
            ) {
                ParsedProxyListDecision::UnsupportedScheme
            } else {
                ParsedProxyListDecision::Unavailable
            }
        },
        None => proxy_url_from_hostport("http", token),
    }
}

/// Reads a `key=value` token for the target scheme.
pub fn parse_proxy_key_token(token: &[char], target_scheme: &[char]) -> (r: Option<
    ParsedProxyListDecision,
>)
    ensures
        match r {
            Some(decision) => key_decision(token@, target_scheme@) == Some(decision@),
            None => key_decision(token@, target_scheme@) is None,
        },
{
    match split_first(token, '=') {
        Some((key, value)) => if same_ignoring_case(trim_chars(key), target_scheme) {
            Some(proxy_url_from_hostport("http", trim_chars(value)))
        } else {
            Some(ParsedProxyListDecision::Unavailable)
        },
        None => None,
    }
}

/// The proxy at a host and port.
pub fn proxy_url_from_hostport(proxy_scheme: &str, hostport: &[char]) -> (r:
    ParsedProxyListDecision)
    ensures
        r@ == hostport_decision(proxy_scheme@, hostport@),
{
    if hostport.len() == 0 {
        return ParsedProxyListDecision::Unavailable;
    }
    let separator = chars_of("://");
    if contains_text(hostport, &separator) {
        return ParsedProxyListDecision::Proxy(string_of(hostport));
    }
    let mut url = chars_of(proxy_scheme);
    push_all(&mut url, &separator);
    push_all(&mut url, hostport);
    ParsedProxyListDecision::Proxy(string_of(&url))
}

/// Whether a token of a list, without white space around it, decides for the target.
pub open spec fn decides(token: Seq<char>, target_scheme: Seq<char>) -> bool {
    let said = token_decision(trim(token), target_scheme);
    trim(token).len() > 0 && (said is Direct || said is Proxy)
}

/// Whether a token of a list names a proxy for plain HTTP.
pub open spec fn names_plain_proxy(token: Seq<char>) -> bool {
    let said = key_decision(trim(token), "http"@);
    trim(token).len() > 0 && said is Some && said->0 is Proxy
}

/// The first token that decides for the target counts, whatever else the list says.
pub proof fn law_first_deciding_token_counts(
    input: Seq<char>,
    target_scheme: Seq<char>,
    i: int,
)
    requires
        0 <= i < split(input, ';').len(),
        decides(split(input, ';')[i], target_scheme),
        forall|j: int| 0 <= j < i ==> !decides(#[trigger] split(input, ';')[j], target_scheme),
    ensures
        list_decision(input, target_scheme) == token_decision(
            trim(split(input, ';')[i]),
            target_scheme,
        ),
{
    lemma_first_deciding(split(input, ';'), target_scheme, i, false, None);
}

proof fn lemma_first_deciding(
    tokens: Seq<Seq<char>>,
    target_scheme: Seq<char>,
    i: int,
    saw_unsupported: bool,
    fallback: Option<Seq<char>>,
)
    requires
        0 <= i < tokens.len(),
        decides(tokens[i], target_scheme),
        forall|j: int| 0 <= j < i ==> !decides(#[trigger] tokens[j], target_scheme),
    ensures
        tokens_decision(tokens, target_scheme, saw_unsupported, fallback) == token_decision(
            trim(tokens[i]),
            target_scheme,
        ),
    decreases tokens.len(),
{
    if i > 0 {
        let rest = tokens.skip(1);
        let token = trim(tokens[0]);
        assert(!decides(tokens[0], target_scheme));
        assert forall|j: int| 0 <= j < i - 1 implies !decides(#[trigger] rest[j], target_scheme) by {
            assert(rest[j] == tokens[j + 1]);
        }
        let next = if fallback is None && token.len() > 0 {
            http_fallback(token, target_scheme)
        } else {
            fallback
        };
        lemma_first_deciding(rest, target_scheme, i - 1, saw_unsupported, next);
        lemma_first_deciding(rest, target_scheme, i - 1, true, next);
    }
}

/// Where no token decides, a secure target takes the first proxy that is named for
/// plain HTTP; failing that too, the list says that a scheme is not supported
/// where a token names one, and nothing otherwise.
pub proof fn law_undecided_list_falls_back(input: Seq<char>, target_scheme: Seq<char>)
    requires
        forall|j: int|
            0 <= j < split(input, ';').len() ==> !decides(
                #[trigger] split(input, ';')[j],
                target_scheme,
            ),
    ensures
        ({
            let tokens = split(input, ';');
            let said = list_decision(input, target_scheme);
            let secure = target_scheme == "https"@;
            &&& forall|i: int|
                secure && 0 <= i < tokens.len() && names_plain_proxy(#[trigger] tokens[i]) && (
                forall|j: int| 0 <= j < i ==> !names_plain_proxy(#[trigger] tokens[j])) ==> Some(
                    said,
                ) == key_decision(trim(tokens[i]), "http"@)
            &&& (!secure || forall|j: int|
                0 <= j < tokens.len() ==> !names_plain_proxy(#[trigger] tokens[j])) ==> {
                &&& said is UnsupportedScheme <==> exists|j: int|
                    0 <= j < tokens.len() && names_unsupported(#[trigger] tokens[j], target_scheme)
                &&& said is UnsupportedScheme || said is Unavailable
            }
        }),
{
    let tokens = split(input, ';');
    let secure = target_scheme == "https"@;
    assert forall|i: int|
        secure && 0 <= i < tokens.len() && names_plain_proxy(#[trigger] tokens[i]) && (forall|
            j: int,
        |
            0 <= j < i ==> !names_plain_proxy(#[trigger] tokens[j])) implies Some(
        list_decision(input, target_scheme),
    ) == key_decision(trim(tokens[i]), "http"@) by {
        lemma_plain_fallback(tokens, target_scheme, i, false);
    }
    if !secure || forall|j: int|
        0 <= j < tokens.len() ==> !names_plain_proxy(#[trigger] tokens[j]) {
        lemma_no_fallback(tokens, target_scheme, false);
    }
}

/// Whether a token of a list names a proxy of a scheme that is not supported.
pub open spec fn names_unsupported(token: Seq<char>, target_scheme: Seq<char>) -> bool {
    trim(token).len() > 0 && token_decision(trim(token), target_scheme) is UnsupportedScheme
}

proof fn lemma_settled(
    tokens: Seq<Seq<char>>,
    target_scheme: Seq<char>,
    saw_unsupported: bool,
    url: Seq<char>,
)
    requires
        forall|j: int| 0 <= j < tokens.len() ==> !decides(#[trigger] tokens[j], target_scheme),
    ensures
        tokens_decision(tokens, target_scheme, saw_unsupported, Some(url)) == ListDecision::Proxy(
            url,
        ),
    decreases tokens.len(),
{
    if tokens.len() > 0 {
        let rest = tokens.skip(1);
        assert(!decides(tokens[0], target_scheme));
        assert forall|j: int| 0 <= j < rest.len() implies !decides(
            #[trigger] rest[j],
            target_scheme,
        ) by {
            assert(rest[j] == tokens[j + 1]);
        }
        lemma_settled(rest, target_scheme, saw_unsupported, url);
        lemma_settled(rest, target_scheme, true, url);
    }
}

proof fn lemma_plain_fallback(
    tokens: Seq<Seq<char>>,
    target_scheme: Seq<char>,
    i: int,
    saw_unsupported: bool,
)
    requires
        target_scheme == "https"@,
        0 <= i < tokens.len(),
        forall|j: int| 0 <= j < tokens.len() ==> !decides(#[trigger] tokens[j], target_scheme),
        names_plain_proxy(tokens[i]),
        forall|j: int| 0 <= j < i ==> !names_plain_proxy(#[trigger] tokens[j]),
    ensures
        Some(tokens_decision(tokens, target_scheme, saw_unsupported, None)) == key_decision(
            trim(tokens[i]),
            "http"@,
        ),
    decreases tokens.len(),
{
    let rest = tokens.skip(1);
    let token = trim(tokens[0]);
    assert(!decides(tokens[0], target_scheme));
    assert forall|j: int| 0 <= j < rest.len() implies !decides(#[trigger] rest[j], target_scheme) by {
        assert(rest[j] == tokens[j + 1]);
    }
    if i == 0 {
        let url = (key_decision(token, "http"@)->0)->Proxy_0;
        lemma_settled(rest, target_scheme, saw_unsupported, url);
        lemma_settled(rest, target_scheme, true, url);
    } else {
        assert(!names_plain_proxy(tokens[0]));
        assert forall|j: int| 0 <= j < i - 1 implies !names_plain_proxy(#[trigger] rest[j]) by {
            assert(rest[j] == tokens[j + 1]);
        }
        assert(rest[i - 1] == tokens[i]);
        lemma_plain_fallback(rest, target_scheme, i - 1, saw_unsupported);
        lemma_plain_fallback(rest, target_scheme, i - 1, true);
    }
}

proof fn lemma_no_fallback(
    tokens: Seq<Seq<char>>,
    target_scheme: Seq<char>,
    saw_unsupported: bool,
)
    requires
        forall|j: int| 0 <= j < tokens.len() ==> !decides(#[trigger] tokens[j], target_scheme),
        target_scheme != "https"@ || forall|j: int|
            0 <= j < tokens.len() ==> !names_plain_proxy(#[trigger] tokens[j]),
    ensures
        ({
            let said = tokens_decision(tokens, target_scheme, saw_unsupported, None);
            &&& said is UnsupportedScheme || said is Unavailable
            &&& said is UnsupportedScheme <==> saw_unsupported || exists|j: int|
                0 <= j < tokens.len() && names_unsupported(#[trigger] tokens[j], target_scheme)
        }),
    decreases tokens.len(),
{
    if tokens.len() > 0 {
        let rest = tokens.skip(1);
        let token = trim(tokens[0]);
        assert(!decides(tokens[0], target_scheme));
        assert(target_scheme != "https"@ || !names_plain_proxy(tokens[0]));
        assert forall|j: int| 0 <= j < rest.len() implies !decides(
            #[trigger] rest[j],
            target_scheme,
        ) && (target_scheme != "https"@ || !names_plain_proxy(rest[j])) by {
            assert(rest[j] == tokens[j + 1]);
        }
        lemma_no_fallback(rest, target_scheme, saw_unsupported);
        lemma_no_fallback(rest, target_scheme, true);
        if exists|j: int|
            0 <= j < tokens.len() && names_unsupported(#[trigger] tokens[j], target_scheme) {
            let j = choose|j: int|
                0 <= j < tokens.len() && names_unsupported(#[trigger] tokens[j], target_scheme);
            if j > 0 {
                assert(names_unsupported(rest[j - 1], target_scheme));
            }
        }
        if exists|j: int|
            0 <= j < rest.len() && names_unsupported(#[trigger] rest[j], target_scheme) {
            let j = choose|j: int|
                0 <= j < rest.len() && names_unsupported(#[trigger] rest[j], target_scheme);
            assert(names_unsupported(tokens[j + 1], target_scheme));
        }
    }
}

/// A token that is the word for a direct connection, in any case, says so. A token
/// for another scheme than the target's says nothing, and one for the target's, a
/// plain token, or one behind a word for a proxy names that proxy, which is one of
/// HTTP unless it says otherwise. A token behind a word for a SOCKS proxy names one
/// that is not supported.
pub proof fn law_tokens_say_what_their_words_say(
    word: Seq<char>,
    place: Seq<char>,
    target_scheme: Seq<char>,
)
    requires
        place.len() > 0,
        trim(place) == place,
        trim(word) == word,
        !word.contains('='),
        !word.contains(' '),
        !place.contains('='),
        !place.contains(' '),
        !contains(place, "://"@),
        lowered(place) != "direct"@,
    ensures
        ({
            let said = token_decision(word + seq![' '] + place, target_scheme);
            &&& lowered(word) == "proxy"@ || lowered(word) == "http"@ ==> said
                == ListDecision::Proxy("http://"@ + place)
            &&& lowered(word) == "https"@ ==> said == ListDecision::Proxy("https://"@ + place)
            &&& lowered(word) == "socks"@ || lowered(word) == "socks4"@ || lowered(word)
                == "socks5"@ ==> said is UnsupportedScheme
            &&& lowered(word) == "direct"@ ==> token_decision(word, target_scheme) is Direct
            &&& token_decision(place, target_scheme) == ListDecision::Proxy("http://"@ + place)
            &&& lowered(word) == lowered(target_scheme) ==> token_decision(
                word + seq!['='] + place,
                target_scheme,
            ) == ListDecision::Proxy("http://"@ + place)
            &&& lowered(word) != lowered(target_scheme) ==> token_decision(
                word + seq!['='] + place,
                target_scheme,
            ) is Unavailable
        }),
{
    reveal_strlit("http");
    reveal_strlit("https");
    reveal_strlit("://");
    reveal_strlit("http://");
    reveal_strlit("https://");
    reveal_strlit("proxy");
    reveal_strlit("socks");
    reveal_strlit("socks4");
    reveal_strlit("socks5");
    reveal_strlit("direct");
    reveal_strlit("DIRECT");
    assert(lowered("DIRECT"@) =~= "direct"@);
    assert("http"@ + "://"@ + place =~= "http://"@ + place);
    assert("https"@ + "://"@ + place =~= "https://"@ + place);
    assert("proxy"@[0] == 'p' && "http"@[0] == 'h' && "https"@[0] == 'h' && "http"@.len() == 4
        && "https"@.len() == 5);
    assert("socks"@[0] == 's' && "socks4"@[0] == 's' && "socks5"@[0] == 's');
    let spaced = word + seq![' '] + place;
    let keyed = word + seq!['='] + place;
    lemma_split_behind(word, ' ', place);
    lemma_split_behind(word, '=', place);
    assert(!spaced.contains('=')) by {
        if spaced.contains('=') {
            let i = choose|i: int| 0 <= i < spaced.len() && spaced[i] == '=';
            if i < word.len() {
                assert(word[i] == '=');
            } else if i > word.len() {
                assert(place[i - word.len() - 1] == '=');
            }
        }
    }
    assert(lowered(spaced) != "direct"@) by {
        if lowered(spaced) == "direct"@ {
            assert(lowered(spaced)[word.len() as int] == ' ');
            assert("direct"@.contains(' '));
        }
    }
    assert(lowered(keyed) != "direct"@) by {
        if lowered(keyed) == "direct"@ {
            assert(lowered(keyed)[word.len() as int] == '=');
            assert("direct"@.contains('='));
        }
    }
}

proof fn lemma_split_behind(a: Seq<char>, sep: char, b: Seq<char>)
    requires
        !a.contains(sep),
    ensures
        split_once(a + seq![sep] + b, sep) == Some((a, b)),
{
    let s = a + seq![sep] + b;
    let n = a.len() as int;
    assert(s[n] == sep);
    assert(s.contains(sep));
    lemma_first_index(s, sep);
    assert forall|i: int| 0 <= i < n implies s[i] != sep by {
        assert(s[i] == a[i]);
    }
    assert(s.take(n) =~= a);
    assert(s.skip(n + 1) =~= b);
}

/// A place with a scheme of its own is taken as it is, and an empty one is none.
pub proof fn law_places_keep_their_own_scheme(proxy_scheme: Seq<char>, place: Seq<char>)
    ensures
        contains(place, "://"@) ==> hostport_decision(proxy_scheme, place) == ListDecision::Proxy(
            place,
        ),
        place.len() > 0 && !contains(place, "://"@) ==> hostport_decision(proxy_scheme, place)
            == ListDecision::Proxy(proxy_scheme + "://"@ + place),
        place.len() == 0 ==> hostport_decision(proxy_scheme, place) is Unavailable,
{
    reveal_strlit("://");
    if contains(place, "://"@) {
        let i = choose|i: int| occurs_at(place, "://"@, i);
        assert(place.len() >= 3);
    }
}

} // verus!
