//! The detail of a tab status: one line of bounded length whose characters are
//! safe in a control sequence.
use vstd::prelude::*;
use crate::osc_text::disallowed;
use crate::osc_text::is_disallowed_osc_text_char;
use crate::text::chars::chars_of;
use crate::text::chars::is_whitespace;
use crate::text::chars::string_of;
use crate::text::chars::whitespace;

verus! {

/// How many characters of a detail are shown.
pub const MAX_TAB_STATUS_DETAIL_CHARS: usize = 200;

/// Whether white space has come since the last character that is shown.
pub open spec fn gap(s: Seq<char>) -> bool
    decreases s.len(),
{
    s.len() > 0 && (whitespace(s.last()) || (disallowed(s.last()) && gap(s.drop_last())))
}

/// The characters of a detail that are shown: those that are allowed, with one
/// space where white space stands between two of them.
pub open spec fn shown(s: Seq<char>) -> Seq<char>
    decreases s.len(),
{
    if s.len() == 0 {
        Seq::empty()
    } else {
        let before = shown(s.drop_last());
        let c = s.last();
        if whitespace(c) || disallowed(c) {
            before
        } else if before.len() > 0 && gap(s.drop_last()) {
            before.push(' ').push(c)
        } else {
            before.push(c)
        }
    }
}

/// Whether a character is preceded by a backslash in a value.
pub open spec fn is_escaped(c: char) -> bool {
    c == ';' || c == '\\'
}

/// A text as a value: semicolons and backslashes are preceded by a backslash.
pub open spec fn escaped(s: Seq<char>) -> Seq<char>
    decreases s.len(),
{
    if s.len() == 0 {
        Seq::empty()
    } else {
        let before = escaped(s.drop_last());
        if is_escaped(s.last()) {
            before.push('\\').push(s.last())
        } else {
            before.push(s.last())
        }
    }
}

/// Whether part of a detail is left out: something follows when as many
/// characters are shown as can be, or the last one does not fit.
pub open spec fn cut(s: Seq<char>) -> bool {
    full_before_end(s) || shown(s).len() > MAX_TAB_STATUS_DETAIL_CHARS
}

/// Whether as many characters are shown as can be before the detail ends.
pub open spec fn full_before_end(s: Seq<char>) -> bool {
    exists|n: int|
        0 <= n < s.len() && (#[trigger] shown(s.take(n))).len() >= MAX_TAB_STATUS_DETAIL_CHARS
}

/// The first characters that are shown, with an ellipsis where part is left out.
pub open spec fn visible(s: Seq<char>) -> Seq<char> {
    let all = shown(s);
    let head = if all.len() > MAX_TAB_STATUS_DETAIL_CHARS {
        all.take(MAX_TAB_STATUS_DETAIL_CHARS as int)
    } else {
        all
    };
    if cut(s) {
        head.push('…')
    } else {
        head
    }
}

proof fn lemma_shown_grows(s: Seq<char>, n: int)
    requires
        0 <= n <= s.len(),
    ensures
        shown(s.take(n)).len() <= shown(s).len(),
        shown(s).take(shown(s.take(n)).len() as int) == shown(s.take(n)),
    decreases s.len(),
{
    if n == s.len() {
        assert(s.take(n) =~= s);
        assert(shown(s).take(shown(s).len() as int) =~= shown(s));
    } else {
        lemma_shown_grows(s.drop_last(), n);
        assert(s.drop_last().take(n) =~= s.take(n));
        let k = shown(s.take(n)).len() as int;
        assert(shown(s).take(k) =~= shown(s.drop_last()).take(k));
    }
}

proof fn lemma_escaped_push(s: Seq<char>, c: char)
    ensures
        escaped(s.push(c)) == (if is_escaped(c) {
            escaped(s).push('\\').push(c)
        } else {
            escaped(s).push(c)
        }),
{
    assert(s.push(c).drop_last() =~= s);
}

proof fn lemma_escaped_len(s: Seq<char>)
    ensures
        s.len() <= escaped(s).len() <= 2 * s.len(),
    decreases s.len(),
{
    if s.len() > 0 {
        lemma_escaped_len(s.drop_last());
    }
}

/// The detail as a value of a control sequence.
pub fn sanitize_detail(detail: &str) -> (r: String)
    ensures
        r@ == escaped(visible(detail@)),
{
    let s = chars_of(detail);
    let mut out: Vec<char> = Vec::new();
    let mut written: usize = 0;
    let mut pending_space = false;
    let mut i: usize = 0;
    assert(s@.take(0).len() == 0);
    while i < s.len()
        invariant
            s@ == detail@,
            i <= s@.len(),
            out@ == escaped(shown(s@.take(i as int))),
            written == shown(s@.take(i as int)).len(),
            written <= MAX_TAB_STATUS_DETAIL_CHARS,
            pending_space == (gap(s@.take(i as int)) && written > 0),
            forall|n: int|
                0 <= n < i ==> (#[trigger] shown(s@.take(n))).len() < MAX_TAB_STATUS_DETAIL_CHARS,
        decreases s@.len() - i,
    {
        let ghost before = s@.take(i as int);
        let ghost next = s@.take(i + 1);
        assert(next.drop_last() =~= before);
        assert(next.last() == s@[i as int]);
        proof {
            lemma_shown_grows(s@, i as int);
            lemma_shown_grows(s@, i + 1);
            lemma_escaped_len(shown(before));
        }
        if written >= MAX_TAB_STATUS_DETAIL_CHARS {
            proof {
                lemma_escaped_push(shown(before), '…');
            }
            assert(full_before_end(s@));
            out.push('…');
            assert(visible(s@) =~= shown(before).push('…'));
            return string_of(&out);
        }
        let ch = s[i];
        if is_whitespace(ch) {
            pending_space = out.len() > 0;
        } else if !is_disallowed_osc_text_char(ch) {
            if pending_space {
                proof {
                    lemma_escaped_push(shown(before), ' ');
                }
                out.push(' ');
                written += 1;
                pending_space = false;
                if written >= MAX_TAB_STATUS_DETAIL_CHARS {
                    proof {
                        lemma_escaped_push(shown(before).push(' '), '…');
                        assert(shown(s@).len() > MAX_TAB_STATUS_DETAIL_CHARS);
                        let k = MAX_TAB_STATUS_DETAIL_CHARS as int;
                        assert(shown(s@).take(k) =~= shown(next).take(k)) by {
                            let whole = shown(s@).take(shown(next).len() as int);
                            assert(whole.take(k) =~= shown(s@).take(k));
                        }
                        assert(shown(next).take(k) =~= shown(before).push(' '));
                    }
                    out.push('…');
                    return string_of(&out);
                }
            }
            proof {
                let so_far = if gap(before) && shown(before).len() > 0 {
                    shown(before).push(' ')
                } else {
                    shown(before)
                };
                lemma_escaped_push(so_far, ch);
            }
            if ch == ';' || ch == '\\' {
                out.push('\\');
            }
            out.push(ch);
            written += 1;
        }
        i += 1;
    }
    assert(s@.take(i as int) =~= s@);
    assert(!full_before_end(s@));
    string_of(&out)
}

/// The text of a value: a backslash stands for the character after it, and a
/// semicolon would end the value. `None` if the value ends before the text does.
pub open spec fn decoded(s: Seq<char>) -> Option<Seq<char>>
    decreases s.len(),
{
    if s.len() == 0 {
        Some(Seq::empty())
    } else if s.len() >= 2 && s[s.len() - 2] == '\\' && is_escaped(s.last()) {
        match decoded(s.take(s.len() - 2)) {
            Some(before) => Some(before.push(s.last())),
            None => None,
        }
    } else if is_escaped(s.last()) {
        None
    } else {
        match decoded(s.drop_last()) {
            Some(before) => Some(before.push(s.last())),
            None => None,
        }
    }
}

/// A value holds the whole of its text: no semicolon in the text ends the value
/// early, and reading the value gives the text back.
pub proof fn law_value_is_read_back(s: Seq<char>)
    ensures
        decoded(escaped(s)) == Some(s),
    decreases s.len(),
{
    if s.len() > 0 {
        law_value_is_read_back(s.drop_last());
        let before = escaped(s.drop_last());
        let e = escaped(s);
        if is_escaped(s.last()) {
            assert(e.take(e.len() - 2) =~= before);
        } else {
            assert(e.drop_last() =~= before);
        }
        assert(s.drop_last().push(s.last()) =~= s);
    } else {
        assert(s =~= Seq::<char>::empty());
    }
}

proof fn lemma_shown_allowed(s: Seq<char>)
    ensures
        forall|i: int| 0 <= i < shown(s).len() ==> !disallowed(#[trigger] shown(s)[i]),
    decreases s.len(),
{
    if s.len() > 0 {
        lemma_shown_allowed(s.drop_last());
        let before = shown(s.drop_last());
        assert forall|i: int| 0 <= i < shown(s).len() implies !disallowed(#[trigger] shown(s)[i]) by {
            if i < before.len() {
                assert(shown(s)[i] == before[i]);
            }
        }
    }
}

proof fn lemma_escaped_allowed(s: Seq<char>)
    requires
        forall|i: int| 0 <= i < s.len() ==> !disallowed(#[trigger] s[i]),
    ensures
        forall|i: int| 0 <= i < escaped(s).len() ==> !disallowed(#[trigger] escaped(s)[i]),
    decreases s.len(),
{
    if s.len() > 0 {
        let before = s.drop_last();
        assert forall|i: int| 0 <= i < before.len() implies !disallowed(#[trigger] before[i]) by {
            assert(before[i] == s[i]);
        }
        lemma_escaped_allowed(before);
        assert(!disallowed(s[s.len() - 1]));
        let head = escaped(before);
        assert forall|i: int| 0 <= i < escaped(s).len() implies !disallowed(
            #[trigger] escaped(s)[i],
        ) by {
            if i < head.len() {
                assert(escaped(s)[i] == head[i]);
            }
        }
    }
}

/// Whatever the detail is, its value is bounded and none of its characters is
/// unsafe.
pub proof fn law_detail_is_safe_and_bounded(detail: Seq<char>)
    ensures
        visible(detail).len() <= MAX_TAB_STATUS_DETAIL_CHARS + 1,
        escaped(visible(detail)).len() <= 2 * MAX_TAB_STATUS_DETAIL_CHARS + 1,
        forall|i: int|
            0 <= i < escaped(visible(detail)).len() ==> !disallowed(
                #[trigger] escaped(visible(detail))[i],
            ),
{
    let v = visible(detail);
    lemma_shown_allowed(detail);
    let all = shown(detail);
    let head = if all.len() > MAX_TAB_STATUS_DETAIL_CHARS {
        all.take(MAX_TAB_STATUS_DETAIL_CHARS as int)
    } else {
        all
    };
    assert forall|i: int| 0 <= i < v.len() implies !disallowed(#[trigger] v[i]) by {
        if i < head.len() {
            assert(v[i] == all[i]);
        }
    }
    lemma_escaped_allowed(v);
    lemma_escaped_len(head);
    lemma_escaped_push(head, '…');
}

proof fn lemma_shown_around_white_space(a: Seq<char>, c: char, b: Seq<char>)
    requires
        whitespace(c),
    ensures
        ({
            let s = a + seq![c] + b;
            &&& shown(s) == (if shown(a).len() == 0 {
                shown(b)
            } else if shown(b).len() == 0 {
                shown(a)
            } else {
                shown(a) + seq![' '] + shown(b)
            })
            &&& shown(b).len() == 0 ==> gap(s)
            &&& shown(b).len() > 0 ==> gap(s) == gap(b)
        }),
    decreases b.len(),
{
    let s = a + seq![c] + b;
    if b.len() == 0 {
        assert(s.drop_last() =~= a);
        assert(s.last() == c);
        if shown(a).len() == 0 {
            assert(shown(a) =~= shown(b));
        }
    } else {
        let fewer = b.drop_last();
        lemma_shown_around_white_space(a, c, fewer);
        assert(s.drop_last() =~= a + seq![c] + fewer);
        assert(s.last() == b.last());
        let last = b.last();
        if !whitespace(last) && !disallowed(last) {
            if shown(fewer).len() == 0 {
                assert(shown(fewer) =~= Seq::empty());
                assert(shown(a).len() > 0 ==> shown(s) =~= shown(a) + seq![' '] + shown(b));
                assert(shown(a).len() == 0 ==> shown(s) =~= shown(b));
            } else {
                assert(shown(a).len() > 0 ==> shown(s) =~= shown(a) + seq![' '] + shown(b));
            }
        }
    }
}

/// White space between two parts of a detail shows as one space, and white space at
/// either end does not show.
pub proof fn law_white_space_shows_as_one_space(a: Seq<char>, c: char, b: Seq<char>)
    requires
        whitespace(c),
    ensures
        shown(a).len() > 0 && shown(b).len() > 0 ==> shown(a + seq![c] + b) == shown(a) + seq![' ']
            + shown(b),
        shown(a).len() == 0 ==> shown(a + seq![c] + b) == shown(b),
        shown(b).len() == 0 ==> shown(a + seq![c] + b) == shown(a),
{
    lemma_shown_around_white_space(a, c, b);
    if shown(a).len() == 0 && shown(b).len() == 0 {
        assert(shown(a) =~= shown(b));
    }
}

/// Characters that are safe and no white space show as they are.
pub proof fn law_safe_characters_show(s: Seq<char>)
    requires
        forall|i: int| 0 <= i < s.len() ==> !whitespace(#[trigger] s[i]) && !disallowed(s[i]),
    ensures
        shown(s) == s,
    decreases s.len(),
{
    if s.len() > 0 {
        let fewer = s.drop_last();
        assert forall|i: int| 0 <= i < fewer.len() implies !whitespace(#[trigger] fewer[i])
            && !disallowed(fewer[i]) by {
            assert(fewer[i] == s[i]);
        }
        law_safe_characters_show(fewer);
        assert(s.last() == s[s.len() - 1]);
        if fewer.len() > 0 {
            assert(fewer.last() == s[s.len() - 2]);
        }
        assert(fewer.push(s.last()) =~= s);
    } else {
        assert(shown(s) =~= s);
    }
}

/// Characters that are unsafe do not show, as if they were not there.
pub proof fn law_unsafe_characters_do_not_show(a: Seq<char>, c: char, b: Seq<char>)
    requires
        disallowed(c),
        !whitespace(c),
    ensures
        shown(a + seq![c] + b) == shown(a + b),
        gap(a + seq![c] + b) == gap(a + b),
    decreases b.len(),
{
    let s = a + seq![c] + b;
    let t = a + b;
    if b.len() == 0 {
        assert(s.drop_last() =~= a);
        assert(s.last() == c);
        assert(t =~= a);
    } else {
        law_unsafe_characters_do_not_show(a, c, b.drop_last());
        assert(s.drop_last() =~= a + seq![c] + b.drop_last());
        assert(t.drop_last() =~= a + b.drop_last());
        assert(s.last() == b.last() && t.last() == b.last());
    }
}

/// What fits shows whole; of what does not, the first 200 characters show, with an
/// ellipsis behind them. The ellipsis also stands where nothing that shows follows
/// the first 200, but something else does.
pub proof fn law_details_are_cut_at_two_hundred(s: Seq<char>)
    ensures
        shown(s).len() < 200 ==> visible(s) == shown(s),
        shown(s).len() > 200 ==> visible(s) == shown(s).take(200) + seq!['…'],
        shown(s).len() == 200 ==> visible(s) == shown(s) || visible(s) == shown(s) + seq!['…'],
        shown(s).len() == 200 && s.len() > 0 && shown(s.drop_last()).len() < 200 ==> visible(s)
            == shown(s),
        shown(s).len() == 200 && s.len() > 0 && shown(s.drop_last()).len() == 200 ==> visible(s)
            == shown(s) + seq!['…'],
{
    assert(s.len() > 0 ==> s.drop_last() == s.take(s.len() - 1));
    if full_before_end(s) {
        let n = choose|n: int|
            0 <= n < s.len() && (#[trigger] shown(s.take(n))).len() >= MAX_TAB_STATUS_DETAIL_CHARS;
        lemma_shown_grows(s, n);
        lemma_shown_grows(s.drop_last(), n);
        assert(s.drop_last().take(n) =~= s.take(n));
    }
    assert(shown(s).take(200).push('…') =~= shown(s).take(200) + seq!['…']);
    assert(shown(s).push('…') =~= shown(s) + seq!['…']);
    if shown(s).len() == 200 {
        assert(shown(s).take(200) =~= shown(s));
    }
}

/// In a value, each semicolon and each backslash has a backslash before it, and
/// every other character stays.
pub proof fn law_value_escapes_its_separators(a: Seq<char>, b: Seq<char>, c: char)
    ensures
        escaped(Seq::empty()) == Seq::<char>::empty(),
        escaped(a + b) == escaped(a) + escaped(b),
        escaped(seq![';']) == seq!['\\', ';'],
        escaped(seq!['\\']) == seq!['\\', '\\'],
        c != ';' && c != '\\' ==> escaped(seq![c]) == seq![c],
    decreases b.len(),
{
    let none = Seq::<char>::empty();
    lemma_escaped_push(none, ';');
    lemma_escaped_push(none, '\\');
    lemma_escaped_push(none, c);
    assert(none.push(';') =~= seq![';'] && none.push('\\') =~= seq!['\\'] && none.push(c)
        =~= seq![c]);
    assert(escaped(none) =~= none);
    assert(none.push('\\').push(';') =~= seq!['\\', ';']);
    assert(none.push('\\').push('\\') =~= seq!['\\', '\\']);
    if b.len() == 0 {
        assert(a + b =~= a);
        assert(escaped(a) + escaped(b) =~= escaped(a));
    } else {
        law_value_escapes_its_separators(a, b.drop_last(), c);
        assert((a + b).drop_last() =~= a + b.drop_last());
        assert(escaped(a + b) =~= escaped(a) + escaped(b));
    }
}

} // verus!
