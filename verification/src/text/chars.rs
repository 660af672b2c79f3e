//! Character classes, conversions between texts and characters, comparison and trimming.
use vstd::prelude::*;

verus! {

/// The characters of a list of texts.
pub open spec fn texts(v: Seq<&str>) -> Seq<Seq<char>> {
    v.map_values(|s: &str| s@)
}

/// Unicode `White_Space`.
pub open spec fn whitespace(c: char) -> bool {
    ||| '\u{9}' <= c <= '\u{d}'
    ||| c == ' '
    ||| c == '\u{85}'
    ||| c == '\u{a0}'
    ||| c == '\u{1680}'
    ||| '\u{2000}' <= c <= '\u{200a}'
    ||| c == '\u{2028}'
    ||| c == '\u{2029}'
    ||| c == '\u{202f}'
    ||| c == '\u{205f}'
    ||| c == '\u{3000}'
}

/// Whether a character has the Unicode `White_Space` property.
pub fn is_whitespace(c: char) -> (r: bool)
    ensures
        r == whitespace(c),
{
    ('\u{9}' <= c && c <= '\u{d}') || c == ' ' || c == '\u{85}' || c == '\u{a0}' || c == '\u{1680}'
        || ('\u{2000}' <= c && c <= '\u{200a}') || c == '\u{2028}' || c == '\u{2029}' || c
        == '\u{202f}' || c == '\u{205f}' || c == '\u{3000}'
}

/// The Unicode control characters, general category `Cc`.
pub open spec fn control(c: char) -> bool {
    c <= '\u{1f}' || '\u{7f}' <= c <= '\u{9f}'
}

/// Whether a character is a control character.
pub fn is_control(c: char) -> (r: bool)
    ensures
        r == control(c),
{
    c <= '\u{1f}' || ('\u{7f}' <= c && c <= '\u{9f}')
}

/// The ASCII decimal digits.
pub open spec fn ascii_digit(c: char) -> bool {
    '0' <= c <= '9'
}

/// The ASCII letters.
pub open spec fn ascii_alphabetic(c: char) -> bool {
    'a' <= c <= 'z' || 'A' <= c <= 'Z'
}

/// The ASCII letters and digits.
pub open spec fn ascii_alphanumeric(c: char) -> bool {
    ascii_alphabetic(c) || ascii_digit(c)
}

/// Whether a character is an ASCII letter.
pub fn is_ascii_alphabetic(c: char) -> (r: bool)
    ensures
        r == ascii_alphabetic(c),
{
    ('a' <= c && c <= 'z') || ('A' <= c && c <= 'Z')
}

/// Whether a character is an ASCII letter or digit.
pub fn is_ascii_alphanumeric(c: char) -> (r: bool)
    ensures
        r == ascii_alphanumeric(c),
{
    is_ascii_alphabetic(c) || ('0' <= c && c <= '9')
}

/// A character with ASCII capitals replaced by small letters.
pub open spec fn ascii_lower(c: char) -> char {
    if 'A' <= c <= 'Z' {
        ((c as u8 + 32) as u8) as char
    } else {
        c
    }
}

/// A text with ASCII capitals replaced by small letters.
pub open spec fn lowered(s: Seq<char>) -> Seq<char> {
    s.map_values(|c: char| ascii_lower(c))
}

/// Replaces an ASCII capital by its small letter.
pub fn to_ascii_lower(c: char) -> (r: char)
    ensures
        r == ascii_lower(c),
{
    if 'A' <= c && c <= 'Z' {
        (c as u8 + 32u8) as char
    } else {
        c
    }
}

/// Replaces every ASCII capital of a text by its small letter.
pub fn to_lowered(s: &[char]) -> (r: Vec<char>)
    ensures
        r@ == lowered(s@),
{
    let mut r: Vec<char> = Vec::new();
    let mut i: usize = 0;
    while i < s.len()
        invariant
            i <= s@.len(),
            r@ == lowered(s@.take(i as int)),
        decreases s@.len() - i,
    {
        r.push(to_ascii_lower(s[i]));
        i += 1;
        assert(s@.take(i as int) == s@.take(i - 1).push(s@[i - 1]));
    }
    assert(s@.take(i as int) == s@);
    r
}

/// The characters of a text.
pub fn chars_of(s: &str) -> (v: Vec<char>)
    ensures
        v@ == s@,
{
    let mut v: Vec<char> = Vec::new();
    for c in it: s.chars()
        invariant
            v@ == s@.take(it.index() as int),
            it.seq() == s@,
    {
        v.push(c);
    }
    v
}

/// The text made of the given characters.
pub fn string_of(v: &[char]) -> (s: String)
    ensures
        s@ == v@,
{
    let mut s = String::new();
    let mut i: usize = 0;
    while i < v.len()
        invariant
            i <= v@.len(),
            s@ == v@.take(i as int),
        decreases v@.len() - i,
    {
        s.push(v[i]);
        i += 1;
    }
    s
}

/// Appends every character of `tail`.
pub fn push_all(out: &mut Vec<char>, tail: &[char])
    ensures
        final(out)@ == old(out)@ + tail@,
{
    let mut i: usize = 0;
    while i < tail.len()
        invariant
            i <= tail@.len(),
            out@ == old(out)@ + tail@.take(i as int),
        decreases tail@.len() - i,
    {
        out.push(tail[i]);
        i += 1;
    }
}

/// Appends a text.
pub fn push_text(out: &mut Vec<char>, tail: &str)
    ensures
        final(out)@ == old(out)@ + tail@,
{
    let tail_chars = chars_of(tail);
    push_all(out, &tail_chars);
}

/// Whether two character sequences are the same.
pub fn same_chars(a: &[char], b: &[char]) -> (r: bool)
    ensures
        r == (a@ == b@),
{
    if a.len() != b.len() {
        return false;
    }
    let mut i: usize = 0;
    while i < a.len()
        invariant
            a@.len() == b@.len(),
            i <= a@.len(),
            a@.take(i as int) == b@.take(i as int),
        decreases a@.len() - i,
    {
        if a[i] != b[i] {
            assert(a@[i as int] != b@[i as int]);
            return false;
        }
        i += 1;
        assert(a@.take(i as int) == a@.take(i - 1).push(a@[i - 1]));
        assert(b@.take(i as int) == b@.take(i - 1).push(b@[i - 1]));
    }
    assert(a@.take(i as int) == a@);
    assert(b@.take(i as int) == b@);
    true
}

/// Whether a character sequence spells the given text.
pub fn is_text(a: &[char], b: &str) -> (r: bool)
    ensures
        r == (a@ == b@),
{
    let b_chars = chars_of(b);
    same_chars(a, &b_chars)
}

/// Whether two texts are the same.
pub fn same_text(a: &str, b: &str) -> (r: bool)
    ensures
        r == (a@ == b@),
{
    let a_chars = chars_of(a);
    is_text(&a_chars, b)
}

/// Whether a character sequence is one of the given texts.
pub fn is_one_of(a: &[char], options: &[&str]) -> (r: bool)
    ensures
        r == texts(options@).contains(a@),
{
    let mut i: usize = 0;
    while i < options.len()
        invariant
            i <= options@.len(),
            forall|j: int| 0 <= j < i ==> texts(options@)[j] != a@,
        decreases options@.len() - i,
    {
        if is_text(a, options[i]) {
            assert(texts(options@)[i as int] == a@);
            return true;
        }
        i += 1;
    }
    false
}

/// Whether two texts agree when ASCII case is ignored.
pub fn same_ignoring_case(a: &[char], b: &[char]) -> (r: bool)
    ensures
        r == (lowered(a@) == lowered(b@)),
{
    let a_low = to_lowered(a);
    let b_low = to_lowered(b);
    same_chars(&a_low, &b_low)
}

/// The character classes that texts are trimmed of.
#[derive(Clone, Copy, PartialEq, Eq, Structural)]
pub enum TrimClass {
    /// Unicode white space.
    Whitespace,
    /// The slash.
    Slash,
    /// The two square brackets.
    Bracket,
}

/// Whether a character belongs to a trimming class.
pub open spec fn in_class(k: TrimClass, c: char) -> bool {
    match k {
        TrimClass::Whitespace => whitespace(c),
        TrimClass::Slash => c == '/',
        TrimClass::Bracket => c == '[' || c == ']',
    }
}

/// Decides membership of a trimming class.
pub fn is_in_class(k: TrimClass, c: char) -> (r: bool)
    ensures
        r == in_class(k, c),
{
    match k {
        TrimClass::Whitespace => is_whitespace(c),
        TrimClass::Slash => c == '/',
        TrimClass::Bracket => c == '[' || c == ']',
    }
}

/// A text without its leading characters of the class.
pub open spec fn trimmed_start(k: TrimClass, s: Seq<char>) -> Seq<char>
    decreases s.len(),
{
    if s.len() > 0 && in_class(k, s[0]) {
        trimmed_start(k, s.skip(1))
    } else {
        s
    }
}

/// A text without its trailing characters of the class.
pub open spec fn trimmed_end(k: TrimClass, s: Seq<char>) -> Seq<char>
    decreases s.len(),
{
    if s.len() > 0 && in_class(k, s.last()) {
        trimmed_end(k, s.drop_last())
    } else {
        s
    }
}

/// A text without the characters of the class at either end.
pub open spec fn trimmed(k: TrimClass, s: Seq<char>) -> Seq<char> {
    trimmed_end(k, trimmed_start(k, s))
}

/// A text without white space at either end.
pub open spec fn trim(s: Seq<char>) -> Seq<char> {
    trimmed(TrimClass::Whitespace, s)
}

/// Cuts off the leading characters of the class.
pub fn trim_start_of(k: TrimClass, s: &[char]) -> (r: &[char])
    ensures
        r@ == trimmed_start(k, s@),
{
    let mut i: usize = 0;
    assert(s@.skip(0) == s@);
    while i < s.len() && is_in_class(k, s[i])
        invariant
            i <= s@.len(),
            trimmed_start(k, s@) == trimmed_start(k, s@.skip(i as int)),
        decreases s@.len() - i,
    {
        assert(s@.skip(i as int).skip(1) == s@.skip(i + 1));
        i += 1;
    }
    let r = &s[i..s.len()];
    assert(r@ == s@.skip(i as int));
    r
}

/// Cuts off the trailing characters of the class.
pub fn trim_end_of(k: TrimClass, s: &[char]) -> (r: &[char])
    ensures
        r@ == trimmed_end(k, s@),
{
    let mut n: usize = s.len();
    assert(s@.take(n as int) == s@);
    while n > 0 && is_in_class(k, s[n - 1])
        invariant
            n <= s@.len(),
            trimmed_end(k, s@) == trimmed_end(k, s@.take(n as int)),
        decreases n,
    {
        assert(s@.take(n as int).drop_last() == s@.take(n - 1));
        n -= 1;
    }
    let r = &s[0..n];
    assert(r@ == s@.take(n as int));
    r
}

/// Cuts off the characters of the class at either end.
pub fn trim_of(k: TrimClass, s: &[char]) -> (r: &[char])
    ensures
        r@ == trimmed(k, s@),
{
    trim_end_of(k, trim_start_of(k, s))
}

/// Cuts off white space at either end.
pub fn trim_chars(s: &[char]) -> (r: &[char])
    ensures
        r@ == trim(s@),
{
    trim_of(TrimClass::Whitespace, s)
}

/// Whether every character is an ASCII letter, a digit or one of `extra`.
pub fn all_alphanumeric_or(s: &[char], extra: &[char]) -> (r: bool)
    ensures
        r == (forall|i: int|
            0 <= i < s@.len() ==> ascii_alphanumeric(#[trigger] s@[i]) || extra@.contains(s@[i])),
{
    let mut i: usize = 0;
    while i < s.len()
        invariant
            i <= s@.len(),
            forall|j: int|
                0 <= j < i ==> ascii_alphanumeric(#[trigger] s@[j]) || extra@.contains(s@[j]),
        decreases s@.len() - i,
    {
        if !is_ascii_alphanumeric(s[i]) && !has_char(extra, s[i]) {
            assert(!ascii_alphanumeric(s@[i as int]));
            return false;
        }
        i += 1;
    }
    true
}

/// Whether a character occurs.
pub fn has_char(s: &[char], c: char) -> (r: bool)
    ensures
        r == s@.contains(c),
{
    let mut i: usize = 0;
    while i < s.len()
        invariant
            i <= s@.len(),
            forall|j: int| 0 <= j < i ==> s@[j] != c,
        decreases s@.len() - i,
    {
        if s[i] == c {
            return true;
        }
        i += 1;
    }
    false
}

/// Trimming cuts off characters of the class and no others, until neither end has
/// one: what is left stands in the text, and all around it belongs to the class.
pub proof fn law_trimming_cuts_the_class_and_no_more(k: TrimClass, s: Seq<char>)
    ensures
        exists|i: int, j: int|
            {
                &&& 0 <= i <= j <= s.len()
                &&& #[trigger] s.subrange(i, j) == trimmed(k, s)
                &&& forall|n: int| 0 <= n < i || j <= n < s.len() ==> in_class(k, #[trigger] s[n])
            },
        trimmed(k, s).len() > 0 ==> !in_class(k, trimmed(k, s)[0]) && !in_class(
            k,
            trimmed(k, s).last(),
        ),
{
    lemma_trimmed_start(k, s);
    let t = trimmed_start(k, s);
    lemma_trimmed_end(k, t);
    let i = s.len() - t.len();
    let j = i + trimmed(k, s).len();
    assert(s.subrange(i, j) =~= trimmed(k, s));
    assert forall|n: int| 0 <= n < i || j <= n < s.len() implies in_class(k, #[trigger] s[n]) by {
        if j <= n {
            assert(t[n - i] == s[n]);
        }
    }
}

/// What is cut off at the front belongs to the class, and what is left does not
/// begin with a character of the class.
pub proof fn lemma_trimmed_start(k: TrimClass, s: Seq<char>)
    ensures
        trimmed_start(k, s).len() <= s.len(),
        trimmed_start(k, s) == s.skip(s.len() - trimmed_start(k, s).len()),
        forall|n: int|
            0 <= n < s.len() - trimmed_start(k, s).len() ==> in_class(k, #[trigger] s[n]),
        trimmed_start(k, s).len() > 0 ==> !in_class(k, trimmed_start(k, s)[0]),
    decreases s.len(),
{
    if s.len() > 0 && in_class(k, s[0]) {
        let rest = s.skip(1);
        lemma_trimmed_start(k, rest);
        assert(trimmed_start(k, s) =~= s.skip(s.len() - trimmed_start(k, s).len()));
        assert forall|n: int| 0 <= n < s.len() - trimmed_start(k, s).len() implies in_class(
            k,
            #[trigger] s[n],
        ) by {
            if n > 0 {
                assert(rest[n - 1] == s[n]);
            }
        }
    } else {
        assert(s.skip(0) =~= s);
    }
}

/// What is cut off at the end belongs to the class, and what is left does not end
/// in a character of the class.
pub proof fn lemma_trimmed_end(k: TrimClass, s: Seq<char>)
    ensures
        trimmed_end(k, s).len() <= s.len(),
        trimmed_end(k, s) == s.take(trimmed_end(k, s).len() as int),
        forall|n: int| trimmed_end(k, s).len() <= n < s.len() ==> in_class(k, #[trigger] s[n]),
        trimmed_end(k, s).len() > 0 ==> !in_class(k, trimmed_end(k, s).last()),
    decreases s.len(),
{
    if s.len() > 0 && in_class(k, s.last()) {
        let rest = s.drop_last();
        lemma_trimmed_end(k, rest);
        assert(trimmed_end(k, s) =~= s.take(trimmed_end(k, s).len() as int));
        assert forall|n: int| trimmed_end(k, s).len() <= n < s.len() implies in_class(
            k,
            #[trigger] s[n],
        ) by {
            if n < s.len() - 1 {
                assert(rest[n] == s[n]);
            }
        }
    } else {
        assert(s.take(s.len() as int) =~= s);
    }
}

/// The space, the tab and the ends of lines are white space; no other visible
/// character of ASCII is, and no control character but those between the tab and
/// the carriage return.
pub proof fn law_white_space_of_ascii(c: char)
    requires
        c as int <= 0x7f,
    ensures
        whitespace(c) <==> c as int == 0x20 || 0x9 <= c as int <= 0xd,
        c as int > 0x20 ==> !whitespace(c),
        control(c) <==> 0x20 > c as int || c as int == 0x7f,
{
}

/// Small letters replace the capitals of ASCII one for one; everything else stays
/// as it is, so that doing it twice changes nothing more.
pub proof fn law_only_capitals_are_lowered(s: Seq<char>, i: int)
    requires
        0 <= i < s.len(),
    ensures
        lowered(s).len() == s.len(),
        'A' <= s[i] <= 'Z' ==> lowered(s)[i] as int == s[i] as int + 32,
        !('A' <= s[i] <= 'Z') ==> lowered(s)[i] == s[i],
        lowered(lowered(s)) == lowered(s),
{
    assert(lowered(lowered(s)) =~= lowered(s));
}

/// The control characters are those below the space, that behind the printable ones
/// of ASCII, and the thirty-two that follow it.
pub proof fn law_control_characters(c: char)
    ensures
        control(c) <==> 0x20 > c as int || 0x7f <= c as int && 0xa0 > c as int,
{
}

/// The digits and letters of ASCII stand together in three runs.
pub proof fn law_digits_and_letters_of_ascii(c: char)
    ensures
        ascii_digit(c) <==> 0x30 <= c as int <= 0x39,
        ascii_alphabetic(c) <==> 0x41 <= c as int <= 0x5a || 0x61 <= c as int <= 0x7a,
        ascii_alphanumeric(c) <==> 0x30 <= c as int <= 0x39 || 0x41 <= c as int <= 0x5a || 0x61
            <= c as int <= 0x7a,
{
}

/// Beyond ASCII, white space is the next line, the spaces of any width and the
/// separators of lines and paragraphs.
pub proof fn law_white_space_beyond_ascii(c: char)
    requires
        c as int > 0x7f,
    ensures
        whitespace(c) <==> c as int == 0x85 || c as int == 0xa0 || c as int == 0x1680 || 0x2000
            <= c as int <= 0x200a || c as int == 0x2028 || c as int == 0x2029 || c as int == 0x202f
            || c as int == 0x205f || c as int == 0x3000,
{
}

/// Trimming cuts white space, slashes or square brackets, as it is told, and no
/// class has a character of another.
pub proof fn law_trimming_classes_are_apart(c: char)
    ensures
        in_class(TrimClass::Slash, '/'),
        in_class(TrimClass::Bracket, '[') && in_class(TrimClass::Bracket, ']'),
        in_class(TrimClass::Slash, c) ==> c as int == 0x2f,
        in_class(TrimClass::Bracket, c) ==> c as int == 0x5b || c as int == 0x5d,
        in_class(TrimClass::Whitespace, c) <==> whitespace(c),
{
}

} // verus!
