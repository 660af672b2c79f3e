//! XML entities and the end marker of channel messages.
use vstd::prelude::*;
use crate::outside::is_scalar_value;
use crate::text::chars::ascii_lower;
use crate::text::chars::chars_of;
use crate::text::chars::is_text;
use crate::text::chars::lowered;
use crate::text::chars::push_all;
use crate::text::chars::push_text;
use crate::text::chars::to_lowered;
use crate::text::number::decimal;
use crate::text::number::law_decimal_is_read_back;
use crate::text::number::lemma_decimal_digits;
use crate::text::number::parse_unsigned;
use crate::text::number::unsigned_value;
use crate::text::search::contains;
use crate::text::search::find;
use crate::text::search::find_char;
use crate::text::search::find_text;
use crate::text::search::first_index;
use crate::text::search::first_occurrence;
use crate::text::search::lemma_find;
use crate::text::search::lemma_find_exists;
use crate::text::search::lemma_first_index;
use crate::text::search::occurs_at;
use crate::text::search::starts_with;
use crate::text::search::strip_prefix;
use crate::text::search::without_prefix;

verus! {

/// The text that stands for a character in an attribute.
pub open spec fn escaped_char(c: char) -> Seq<char> {
    if c == '&' {
        "&amp;"@
    } else if c == '<' {
        "&lt;"@
    } else if c == '>' {
        "&gt;"@
    } else if c == '"' {
        "&quot;"@
    } else if c == '\'' {
        "&apos;"@
    } else {
        seq![c]
    }
}

/// A text with entities in place of the characters that mark up.
pub open spec fn escaped(s: Seq<char>) -> Seq<char>
    decreases s.len(),
{
    if s.len() == 0 {
        Seq::empty()
    } else {
        escaped_char(s[0]) + escaped(s.skip(1))
    }
}

/// Puts entities in place of the characters that mark up.
pub fn xml_escape(value: &[char]) -> (r: Vec<char>)
    ensures
        r@ == escaped(value@),
{
    let mut r: Vec<char> = Vec::new();
    let mut i: usize = 0;
    assert(value@.skip(0) =~= value@);
    assert(r@ + escaped(value@) =~= escaped(value@));
    while i < value.len()
        invariant
            i <= value@.len(),
            r@ + escaped(value@.skip(i as int)) == escaped(value@),
        decreases value@.len() - i,
    {
        let c = value[i];
        let ghost before = r@;
        assert(value@.skip(i as int)[0] == c);
        assert(value@.skip(i as int).skip(1) =~= value@.skip(i + 1));
        if c == '&' {
            push_text(&mut r, "&amp;");
        } else if c == '<' {
            push_text(&mut r, "&lt;");
        } else if c == '>' {
            push_text(&mut r, "&gt;");
        } else if c == '"' {
            push_text(&mut r, "&quot;");
        } else if c == '\'' {
            push_text(&mut r, "&apos;");
        } else {
            r.push(c);
        }
        assert(r@ =~= before + escaped_char(c));
        i += 1;
        assert(r@ + escaped(value@.skip(i as int)) =~= before + (escaped_char(c) + escaped(
            value@.skip(i as int),
        )));
    }
    assert(value@.skip(i as int).len() == 0);
    assert(r@ + Seq::<char>::empty() =~= r@);
    r
}

/// The number that a numeric entity spells.
pub open spec fn entity_number(entity: Seq<char>) -> Option<int> {
    match strip_prefix(entity, "#x"@) {
        Some(hex) => unsigned_value(hex, 16, u32::MAX as int),
        None => match strip_prefix(entity, "#X"@) {
            Some(hex) => unsigned_value(hex, 16, u32::MAX as int),
            None => match strip_prefix(entity, "#"@) {
                Some(digits) => unsigned_value(digits, 10, u32::MAX as int),
                None => None,
            },
        },
    }
}

/// The character that an entity stands for, given without `&` and `;`.
pub open spec fn entity_char(entity: Seq<char>) -> Option<char> {
    if entity == "amp"@ {
        Some('&')
    } else if entity == "apos"@ {
        Some('\'')
    } else if entity == "gt"@ {
        Some('>')
    } else if entity == "lt"@ {
        Some('<')
    } else if entity == "quot"@ {
        Some('"')
    } else {
        match entity_number(entity) {
            Some(n) if is_scalar_value(n) => Some((n as u32) as char),
            _ => None,
        }
    }
}

/// The character that an entity stands for.
pub fn decode_xml_entity(entity: &[char]) -> (r: Option<char>)
    ensures
        r == entity_char(entity@),
{
    if is_text(entity, "amp") {
        Some('&')
    } else if is_text(entity, "apos") {
        Some('\'')
    } else if is_text(entity, "gt") {
        Some('>')
    } else if is_text(entity, "lt") {
        Some('<')
    } else if is_text(entity, "quot") {
        Some('"')
    } else {
        decode_numeric_xml_entity(entity)
    }
}

/// The character that a numeric entity stands for.
pub fn decode_numeric_xml_entity(entity: &[char]) -> (r: Option<char>)
    ensures
        r == (match entity_number(entity@) {
            Some(n) if is_scalar_value(n) => Some((n as u32) as char),
            _ => None,
        }),
{
    let number = if let Some(hex) = without_prefix(entity, "#x") {
        parse_unsigned(hex, 16, u32::MAX)
    } else if let Some(hex) = without_prefix(entity, "#X") {
        parse_unsigned(hex, 16, u32::MAX)
    } else if let Some(digits) = without_prefix(entity, "#") {
        parse_unsigned(digits, 10, u32::MAX)
    } else {
        None
    };
    match number {
        Some(n) => {
            char::from_u32(n)
        },
        None => None,
    }
}

/// A text with characters in place of its entities. What is no entity stays.
pub open spec fn decoded(s: Seq<char>) -> Seq<char>
    decreases s.len(),
{
    let i = first_index(s, '&');
    if 0 <= i < s.len() {
        let rest = s.skip(i);
        let j = first_index(rest, ';');
        if 0 < j < rest.len() {
            let middle = match entity_char(rest.subrange(1, j)) {
                Some(c) => seq![c],
                None => rest.take(j + 1),
            };
            s.take(i) + middle + decoded(rest.skip(j + 1))
        } else {
            s
        }
    } else {
        s
    }
}

/// Puts characters in place of entities.
pub fn decode_xml_entities(s: &[char]) -> (r: Vec<char>)
    ensures
        r@ == decoded(s@),
{
    let mut r: Vec<char> = Vec::new();
    let mut from: usize = 0;
    assert(s@.skip(0) =~= s@);
    assert(r@ + decoded(s@) =~= decoded(s@));
    loop
        invariant_except_break
            from <= s@.len(),
            r@ + decoded(s@.skip(from as int)) == decoded(s@),
        ensures
            r@ == decoded(s@),
        decreases s@.len() - from,
    {
        let tail = &s[from..s.len()];
        assert(tail@ =~= s@.skip(from as int));
        let i = find_char(tail, '&');
        if i == tail.len() {
            push_all(&mut r, tail);
            break;
        }
        let rest = &tail[i..tail.len()];
        assert(rest@ =~= tail@.skip(i as int));
        let j = find_char(rest, ';');
        assert(rest@[0] == '&');
        if j == rest.len() {
            push_all(&mut r, tail);
            break;
        }
        let ghost before = r@;
        push_all(&mut r, &tail[0..i]);
        let entity = &rest[1..j];
        assert(entity@ =~= rest@.subrange(1, j as int));
        let ghost middle = match entity_char(entity@) {
            Some(c) => seq![c],
            None => rest@.take(j + 1),
        };
        match decode_xml_entity(entity) {
            Some(c) => {
                r.push(c);
            },
            None => {
                push_all(&mut r, &rest[0..j + 1]);
            },
        }
        assert(r@ =~= before + tail@.take(i as int) + middle);
        assert(rest@.skip(j + 1) =~= s@.skip(from + i + j + 1));
        from = from + i + j + 1;
        assert(r@ + decoded(s@.skip(from as int)) =~= before + (tail@.take(i as int) + middle
            + decoded(s@.skip(from as int))));
    }
    r
}

/// The marker behind a channel message.
pub const END_MARKER: &'static str = "</channel>";

/// What stands for the end marker inside a message.
pub const ESCAPED_END_MARKER: &'static str = "&lt;/channel&gt;";

/// The first place of the text in another, in any mixture of ASCII case.
pub open spec fn find_ignoring_case(s: Seq<char>, p: Seq<char>) -> Option<int> {
    find(lowered(s), lowered(p))
}

/// A message with an escaped form in place of each end marker.
pub open spec fn end_markers_escaped(s: Seq<char>) -> Seq<char>
    decreases s.len(),
{
    match find_ignoring_case(s, END_MARKER@) {
        Some(i) => if 0 <= i && i + END_MARKER@.len() <= s.len() && END_MARKER@.len() > 0 {
            s.take(i) + ESCAPED_END_MARKER@ + end_markers_escaped(
                s.skip(i + END_MARKER@.len()),
            )
        } else {
            s
        },
        None => s,
    }
}

/// The first place of the text in another, in any mixture of ASCII case.
pub fn find_ascii_case_insensitive(haystack: &[char], needle: &[char]) -> (r: Option<usize>)
    ensures
        match r {
            Some(i) => find_ignoring_case(haystack@, needle@) == Some(i as int) && i
                + needle@.len() <= haystack@.len(),
            None => find_ignoring_case(haystack@, needle@) is None,
        },
{
    let h = to_lowered(haystack);
    let n = to_lowered(needle);
    find_text(&h, &n)
}

/// Puts an escaped form in place of each end marker.
pub fn escape_channel_end_markers(s: &[char]) -> (r: Vec<char>)
    ensures
        r@ == end_markers_escaped(s@),
{
    let marker = chars_of(END_MARKER);
    proof {
        reveal_strlit("</channel>");
    }
    let mut r: Vec<char> = Vec::new();
    let mut from: usize = 0;
    assert(s@.skip(0) =~= s@);
    assert(r@ + end_markers_escaped(s@) =~= end_markers_escaped(s@));
    loop
        invariant_except_break
            from <= s@.len(),
            r@ + end_markers_escaped(s@.skip(from as int)) == end_markers_escaped(s@),
        invariant
            marker@ == END_MARKER@,
            marker@.len() == 10,
        ensures
            r@ == end_markers_escaped(s@),
        decreases s@.len() - from,
    {
        let rest = &s[from..s.len()];
        assert(rest@ =~= s@.skip(from as int));
        match find_ascii_case_insensitive(rest, &marker) {
            None => {
                push_all(&mut r, rest);
                break;
            },
            Some(i) => {
                let ghost before = r@;
                push_all(&mut r, &rest[0..i]);
                push_text(&mut r, ESCAPED_END_MARKER);
                assert(r@ =~= before + rest@.take(i as int) + ESCAPED_END_MARKER@);
                assert(rest@.skip(i + 10) =~= s@.skip(from + i + 10));
                from = from + i + marker.len();
                assert(r@ + end_markers_escaped(s@.skip(from as int)) =~= before + (rest@.take(
                    i as int,
                ) + ESCAPED_END_MARKER@ + end_markers_escaped(s@.skip(from as int))));
            },
        }
    }
    r
}

/// An escaped text has no character that marks up.
pub proof fn law_escaped_text_has_no_markup(s: Seq<char>)
    ensures
        forall|i: int|
            0 <= i < escaped(s).len() ==> (#[trigger] escaped(s)[i]) != '<' && escaped(s)[i] != '>'
                && escaped(s)[i] != '"' && escaped(s)[i] != '\'',
    decreases s.len(),
{
    if s.len() > 0 {
        let head = escaped_char(s[0]);
        let tail = escaped(s.skip(1));
        law_escaped_text_has_no_markup(s.skip(1));
        reveal_strlit("&amp;");
        reveal_strlit("&lt;");
        reveal_strlit("&gt;");
        reveal_strlit("&quot;");
        reveal_strlit("&apos;");
        assert forall|i: int| 0 <= i < escaped(s).len() implies (#[trigger] escaped(s)[i]) != '<'
            && escaped(s)[i] != '>' && escaped(s)[i] != '"' && escaped(s)[i] != '\'' by {
            if i >= head.len() {
                assert(escaped(s)[i] == tail[i - head.len()]);
            }
        }
    }
}

/// A character that begins no entity is decoded to itself.
proof fn lemma_decoded_plain(c: char, s: Seq<char>)
    requires
        c != '&',
    ensures
        decoded(seq![c] + s) == seq![c] + decoded(s),
{
    let t = seq![c] + s;
    assert(t.skip(1) =~= s);
    let i = first_index(s, '&');
    lemma_first_index(s, '&');
    assert(first_index(t, '&') == 1 + i);
    if i < s.len() {
        assert(t.skip(1 + i) =~= s.skip(i));
        assert(t.take(1 + i) =~= seq![c] + s.take(i));
        let rest = s.skip(i);
        let j = first_index(rest, ';');
        lemma_first_index(rest, ';');
        if 0 < j < rest.len() {
            let middle = match entity_char(rest.subrange(1, j)) {
                Some(c) => seq![c],
                None => rest.take(j + 1),
            };
            assert(decoded(t) =~= seq![c] + (s.take(i) + middle + decoded(rest.skip(j + 1))));
        }
    }
}

/// A named entity is decoded to its character.
proof fn lemma_decoded_entity(entity: Seq<char>, c: char, s: Seq<char>)
    requires
        entity_char(entity) == Some(c),
        !entity.contains(';'),
    ensures
        decoded(seq!['&'] + entity + seq![';'] + s) == seq![c] + decoded(s),
{
    let t = seq!['&'] + entity + seq![';'] + s;
    let j = first_index(t, ';');
    lemma_first_index(t, ';');
    let n = entity.len() as int + 1;
    assert(t[n] == ';');
    assert(t.contains(';'));
    assert(j == n) by {
        if j < n {
            assert(t[j] == entity[j - 1]);
            assert(entity.contains(';'));
        }
    }
    assert(first_index(t, '&') == 0);
    assert(t.skip(0) =~= t);
    assert(t.take(0) =~= Seq::<char>::empty());
    assert(t.subrange(1, j) =~= entity);
    assert(t.skip(j + 1) =~= s);
    assert(Seq::<char>::empty() + seq![c] + decoded(s) =~= seq![c] + decoded(s));
}

/// Decoding an escaped text gives the text back.
pub proof fn law_decoding_undoes_escaping(s: Seq<char>)
    ensures
        decoded(escaped(s)) == s,
    decreases s.len(),
{
    if s.len() == 0 {
        assert(escaped(s) =~= Seq::<char>::empty());
    } else {
        let c = s[0];
        let tail = escaped(s.skip(1));
        law_decoding_undoes_escaping(s.skip(1));
        reveal_strlit("amp");
        reveal_strlit("lt");
        reveal_strlit("gt");
        reveal_strlit("quot");
        reveal_strlit("apos");
        if c == '&' {
            reveal_strlit("&amp;");
            assert("&amp;"@ =~= seq!['&'] + "amp"@ + seq![';']);
            lemma_decoded_entity("amp"@, c, tail);
        } else if c == '<' {
            reveal_strlit("&lt;");
            assert("&lt;"@ =~= seq!['&'] + "lt"@ + seq![';']);
            assert("lt"@[0] != "gt"@[0]);
            lemma_decoded_entity("lt"@, c, tail);
        } else if c == '>' {
            reveal_strlit("&gt;");
            assert("&gt;"@ =~= seq!['&'] + "gt"@ + seq![';']);
            lemma_decoded_entity("gt"@, c, tail);
        } else if c == '"' {
            reveal_strlit("&quot;");
            assert("&quot;"@ =~= seq!['&'] + "quot"@ + seq![';']);
            assert("quot"@[0] != "apos"@[0]);
            lemma_decoded_entity("quot"@, c, tail);
        } else if c == '\'' {
            reveal_strlit("&apos;");
            assert("&apos;"@ =~= seq!['&'] + "apos"@ + seq![';']);
            lemma_decoded_entity("apos"@, c, tail);
        } else {
            lemma_decoded_plain(c, tail);
        }
        assert(seq![c] + s.skip(1) =~= s);
    }
}

/// Whether the end marker stands at a position, in any mixture of ASCII case.
pub open spec fn marker_at(s: Seq<char>, i: int) -> bool {
    occurs_at(lowered(s), lowered(END_MARKER@), i)
}

/// What a place of the end marker looks like: it begins with `<`, holds no other
/// `<` and no `&`, and ends with `>`.
pub proof fn lemma_marker_at(s: Seq<char>, i: int)
    requires
        marker_at(s, i),
    ensures
        0 <= i && i + 10 <= s.len(),
        s[i] == '<',
        forall|j: int| i < j < i + 10 ==> s[j] != '<',
        forall|j: int| i <= j < i + 10 ==> s[j] != '&',
{
    reveal_strlit("</channel>");
    let m = lowered(END_MARKER@);
    let w = lowered(s).subrange(i, i + 10);
    assert(m == w);
    assert forall|j: int| i <= j < i + 10 implies ascii_lower(s[j]) == m[j - i] by {
        assert(w[j - i] == lowered(s)[j]);
    }
    assert(m[0] == '<');
    assert(s[i] == '<');
}

/// No end marker is left in a message whose end markers were escaped.
pub proof fn law_no_end_marker_is_left(s: Seq<char>, p: int)
    ensures
        !marker_at(end_markers_escaped(s), p),
    decreases s.len(),
{
    reveal_strlit("</channel>");
    reveal_strlit("&lt;/channel&gt;");
    let out = end_markers_escaped(s);
    let l = lowered(s);
    let m = lowered(END_MARKER@);
    if marker_at(out, p) {
        lemma_marker_at(out, p);
        if contains(l, m) {
            lemma_find_exists(l, m);
            let i = find_ignoring_case(s, END_MARKER@)->0;
            assert(first_occurrence(l, m, i));
            assert(occurs_at(l, m, i));
            let rest = s.skip(i + 10);
            let tail = end_markers_escaped(rest);
            let middle = ESCAPED_END_MARKER@;
            assert(out == s.take(i) + middle + tail);
            assert(out[i] == '&');
            if p < i {
                assert(p + 10 <= i);
                assert(lowered(out).subrange(p, p + 10) =~= l.subrange(p, p + 10));
                assert(occurs_at(l, m, p));
            } else if p < i + 16 {
                assert(out[p] == middle[p - i]);
            } else {
                assert(lowered(out).subrange(p, p + 10) =~= lowered(tail).subrange(
                    p - i - 16,
                    p - i - 6,
                ));
                assert(marker_at(tail, p - i - 16));
                law_no_end_marker_is_left(rest, p - i - 16);
            }
        } else {
            assert(occurs_at(l, m, p));
        }
    }
}

/// An escaped text is made character by character: five characters become their
/// entities, and every other one stays.
pub proof fn law_five_characters_become_entities(a: Seq<char>, b: Seq<char>, c: char)
    ensures
        escaped(Seq::empty()) == Seq::<char>::empty(),
        escaped(a + b) == escaped(a) + escaped(b),
        escaped(seq!['&']) == "&amp;"@,
        escaped(seq!['<']) == "&lt;"@,
        escaped(seq!['>']) == "&gt;"@,
        escaped(seq!['"']) == "&quot;"@,
        escaped(seq!['\'']) == "&apos;"@,
        c != '&' && c != '<' && c != '>' && c != '"' && c != '\'' ==> escaped(seq![c]) == seq![c],
    decreases a.len(),
{
    lemma_single_escape('&');
    lemma_single_escape('<');
    lemma_single_escape('>');
    lemma_single_escape('"');
    lemma_single_escape('\'');
    lemma_single_escape(c);
    if a.len() == 0 {
        assert(a + b =~= b);
        assert(escaped(a) + escaped(b) =~= escaped(b));
    } else {
        law_five_characters_become_entities(a.skip(1), b, c);
        assert((a + b).skip(1) =~= a.skip(1) + b);
        assert((a + b)[0] == a[0]);
        assert(escaped(a + b) =~= escaped(a) + escaped(b));
    }
}

proof fn lemma_single_escape(c: char)
    ensures
        escaped(seq![c]) == escaped_char(c),
{
    assert(seq![c].skip(1) =~= Seq::<char>::empty());
    assert(escaped(Seq::empty()) =~= Seq::<char>::empty());
    assert(escaped(seq![c]) =~= escaped_char(c));
}

/// A text without an ampersand has nothing to decode, and one that has no semicolon
/// behind its ampersand neither.
pub proof fn law_plain_text_is_decoded_to_itself(s: Seq<char>)
    requires
        !s.contains('&') || !s.contains(';'),
    ensures
        decoded(s) == s,
{
    let i = first_index(s, '&');
    lemma_first_index(s, '&');
    if i < s.len() {
        let rest = s.skip(i);
        lemma_first_index(rest, ';');
        if first_index(rest, ';') < rest.len() {
            let j = first_index(rest, ';');
            assert(rest[j] == s[i + j]);
        }
    }
}

/// An entity by number stands for the character with that number, in decimal or in
/// hexadecimal notation, whatever comes behind it.
pub proof fn law_numbers_stand_for_characters(c: char, hex: Seq<char>, s: Seq<char>)
    requires
        unsigned_value(hex, 16, u32::MAX as int) == Some(c as int),
        !hex.contains(';'),
    ensures
        decoded("&#"@ + decimal(c as nat) + ";"@ + s) == seq![c] + decoded(s),
        decoded("&#x"@ + hex + ";"@ + s) == seq![c] + decoded(s),
        decoded("&#X"@ + hex + ";"@ + s) == seq![c] + decoded(s),
{
    reveal_strlit("&#");
    reveal_strlit("&#x");
    reveal_strlit("&#X");
    reveal_strlit(";");
    reveal_strlit("#");
    reveal_strlit("#x");
    reveal_strlit("#X");
    reveal_strlit("amp");
    reveal_strlit("apos");
    reveal_strlit("gt");
    reveal_strlit("lt");
    reveal_strlit("quot");
    assert("amp"@[0] == 'a' && "apos"@[0] == 'a' && "gt"@[0] == 'g' && "lt"@[0] == 'l' && "quot"@[0]
        == 'q');
    let digits = decimal(c as nat);
    law_decimal_is_read_back(c as nat, u32::MAX as int);
    lemma_decimal_digits(c as nat);
    assert(is_scalar_value(c as int));
    assert((c as int as u32) as char == c);
    let plain = "#"@ + digits;
    assert(plain[0] == '#' && plain[1] == digits[0]);
    assert(plain.take(1) =~= "#"@);
    assert(plain.skip(1) =~= digits);
    assert(!starts_with(plain, "#x"@)) by {
        if starts_with(plain, "#x"@) {
            assert(plain.take(2)[1] == 'x');
        }
    }
    assert(!starts_with(plain, "#X"@)) by {
        if starts_with(plain, "#X"@) {
            assert(plain.take(2)[1] == 'X');
        }
    }
    assert(!plain.contains(';')) by {
        if plain.contains(';') {
            let i = choose|i: int| 0 <= i < plain.len() && plain[i] == ';';
            if i > 0 {
                assert(plain[i] == digits[i - 1]);
            }
        }
    }
    assert(entity_char(plain) == Some(c));
    lemma_decoded_entity(plain, c, s);
    assert("&#"@ + digits + ";"@ + s =~= seq!['&'] + plain + seq![';'] + s);
    let small = "#x"@ + hex;
    assert(small[0] == '#');
    assert(small.take(2) =~= "#x"@);
    assert(small.skip(2) =~= hex);
    assert(!small.contains(';')) by {
        if small.contains(';') {
            let i = choose|i: int| 0 <= i < small.len() && small[i] == ';';
            if i > 1 {
                assert(small[i] == hex[i - 2]);
            }
        }
    }
    assert(entity_char(small) == Some(c));
    lemma_decoded_entity(small, c, s);
    assert("&#x"@ + hex + ";"@ + s =~= seq!['&'] + small + seq![';'] + s);
    let large = "#X"@ + hex;
    assert(large[0] == '#');
    assert(large.take(2) =~= "#X"@);
    assert(large.skip(2) =~= hex);
    assert(!starts_with(large, "#x"@)) by {
        if starts_with(large, "#x"@) {
            assert(large.take(2)[1] == 'x');
        }
    }
    assert(!large.contains(';')) by {
        if large.contains(';') {
            let i = choose|i: int| 0 <= i < large.len() && large[i] == ';';
            if i > 1 {
                assert(large[i] == hex[i - 2]);
            }
        }
    }
    assert(entity_char(large) == Some(c));
    lemma_decoded_entity(large, c, s);
    assert("&#X"@ + hex + ";"@ + s =~= seq!['&'] + large + seq![';'] + s);
}

/// What is no entity stays as it is, whatever comes behind it.
pub proof fn law_unknown_entities_stay(entity: Seq<char>, s: Seq<char>)
    requires
        entity_char(entity) is None,
        !entity.contains(';'),
    ensures
        decoded(seq!['&'] + entity + seq![';'] + s) == seq!['&'] + entity + seq![';'] + decoded(s),
{
    let t = seq!['&'] + entity + seq![';'] + s;
    let j = first_index(t, ';');
    lemma_first_index(t, ';');
    let n = entity.len() as int + 1;
    assert(t[n] == ';');
    assert(t.contains(';'));
    assert(j == n) by {
        if j < n {
            assert(t[j] == entity[j - 1]);
            assert(entity.contains(';'));
        }
    }
    assert(first_index(t, '&') == 0);
    assert(t.skip(0) =~= t);
    assert(t.take(0) =~= Seq::<char>::empty());
    assert(t.subrange(1, j) =~= entity);
    assert(t.skip(j + 1) =~= s);
    assert(t.take(j + 1) =~= seq!['&'] + entity + seq![';']);
    assert(decoded(t) =~= seq!['&'] + entity + seq![';'] + decoded(s));
}

/// Only end markers are replaced: a message without one stays as it is, and
/// otherwise what comes before the first one stays, the marker becomes its escaped
/// form, and what comes behind it is treated in the same way.
pub proof fn law_only_end_markers_are_replaced(s: Seq<char>, i: int)
    ensures
        (forall|p: int| !#[trigger] marker_at(s, p)) ==> end_markers_escaped(s) == s,
        marker_at(s, i) && (forall|p: int| 0 <= p < i ==> !#[trigger] marker_at(s, p))
            ==> end_markers_escaped(s) == s.take(i) + "&lt;/channel&gt;"@ + end_markers_escaped(
            s.skip(i + 10),
        ),
{
    reveal_strlit("</channel>");
    let l = lowered(s);
    let m = lowered(END_MARKER@);
    if forall|p: int| !#[trigger] marker_at(s, p) {
        assert(!contains(l, m)) by {
            if contains(l, m) {
                let p = choose|p: int| occurs_at(l, m, p);
                assert(marker_at(s, p));
            }
        }
    }
    if marker_at(s, i) && (forall|p: int| 0 <= p < i ==> !#[trigger] marker_at(s, p)) {
        assert forall|p: int| 0 <= p < i implies !occurs_at(l, m, p) by {
            assert(!marker_at(s, p));
        }
        assert(first_occurrence(l, m, i));
        lemma_find(l, m, i);
    }
}

} // verus!
