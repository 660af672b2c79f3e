//! Splitting and joining texts.
use vstd::prelude::*;
use super::chars::chars_of;
use super::chars::is_whitespace;
use super::chars::push_all;
use super::chars::push_text;
use super::chars::string_of;
use super::chars::whitespace;
use super::search::find_char;
use super::search::first_index;
use super::search::lemma_first_index;

verus! {

/// The pieces of `s` between occurrences of `sep`.
pub open spec fn split(s: Seq<char>, sep: char) -> Seq<Seq<char>>
    decreases s.len(),
{
    let i = first_index(s, sep);
    if 0 <= i < s.len() {
        seq![s.take(i)] + split(s.skip(i + 1), sep)
    } else {
        seq![s]
    }
}

/// The characters of each piece.
pub open spec fn pieces(v: Seq<Vec<char>>) -> Seq<Seq<char>> {
    v.map_values(|p: Vec<char>| p@)
}

/// A copy of the characters.
pub fn copied(s: &[char]) -> (r: Vec<char>)
    ensures
        r@ == s@,
{
    let mut r: Vec<char> = Vec::new();
    push_all(&mut r, s);
    r
}

/// Splits at every occurrence of `sep`.
pub fn split_at(s: &[char], sep: char) -> (r: Vec<Vec<char>>)
    ensures
        pieces(r@) == split(s@, sep),
        r@.len() >= 1,
{
    let mut r: Vec<Vec<char>> = Vec::new();
    let mut from: usize = 0;
    assert(s@.skip(0) == s@);
    assert(pieces(r@) + split(s@.skip(0), sep) == split(s@, sep));
    loop
        invariant_except_break
            from <= s@.len(),
            pieces(r@) + split(s@.skip(from as int), sep) == split(s@, sep),
        ensures
            pieces(r@) == split(s@, sep),
            r@.len() >= 1,
        decreases s@.len() - from,
    {
        let rest = &s[from..s.len()];
        assert(rest@ == s@.skip(from as int));
        let i = find_char(rest, sep);
        let ghost before = r@;
        if i == rest.len() {
            r.push(copied(rest));
            assert(pieces(r@) == pieces(before).push(rest@));
            break;
        }
        r.push(copied(&rest[0..i]));
        assert(pieces(r@) == pieces(before).push(rest@.take(i as int)));
        assert(rest@.skip(i + 1) == s@.skip(from + i + 1));
        assert(pieces(r@) + split(rest@.skip(i + 1), sep) == pieces(before) + (seq![
            rest@.take(i as int),
        ] + split(rest@.skip(i + 1), sep)));
        from = from + i + 1;
    }
    r
}

/// The two sides of the first occurrence of `sep`, where there is one.
pub open spec fn split_once(s: Seq<char>, sep: char) -> Option<(Seq<char>, Seq<char>)> {
    let i = first_index(s, sep);
    if s.contains(sep) {
        Some((s.take(i), s.skip(i + 1)))
    } else {
        None
    }
}

/// Splits at the first occurrence of `sep`.
pub fn split_first(s: &[char], sep: char) -> (r: Option<(&[char], &[char])>)
    ensures
        match r {
            Some((a, b)) => split_once(s@, sep) == Some((a@, b@)),
            None => split_once(s@, sep) is None,
        },
{
    proof {
        lemma_first_index(s@, sep);
    }
    let i = find_char(s, sep);
    if i == s.len() {
        return None;
    }
    let a = &s[0..i];
    let b = &s[i + 1..s.len()];
    assert(a@ == s@.take(i as int));
    assert(b@ == s@.skip(i + 1));
    Some((a, b))
}

/// The maximal runs of characters that are not white space, `run` being the run
/// that is open when the rest of the text begins.
pub open spec fn words_from(run: Seq<char>, s: Seq<char>) -> Seq<Seq<char>>
    decreases s.len(),
{
    if s.len() == 0 {
        if run.len() == 0 {
            Seq::empty()
        } else {
            seq![run]
        }
    } else if !whitespace(s[0]) {
        words_from(run.push(s[0]), s.skip(1))
    } else if run.len() == 0 {
        words_from(run, s.skip(1))
    } else {
        seq![run] + words_from(Seq::empty(), s.skip(1))
    }
}

/// The maximal runs of characters that are not white space.
pub open spec fn words(s: Seq<char>) -> Seq<Seq<char>> {
    words_from(Seq::empty(), s)
}

/// Splits into the runs of characters that are not white space.
pub fn split_words(s: &[char]) -> (r: Vec<Vec<char>>)
    ensures
        pieces(r@) == words(s@),
{
    let mut r: Vec<Vec<char>> = Vec::new();
    let mut run: Vec<char> = Vec::new();
    let mut i: usize = 0;
    assert(s@.skip(0) == s@);
    assert(pieces(r@) + words_from(run@, s@.skip(0)) == words(s@));
    while i < s.len()
        invariant
            i <= s@.len(),
            pieces(r@) + words_from(run@, s@.skip(i as int)) == words(s@),
        decreases s@.len() - i,
    {
        let c = s[i];
        assert(s@.skip(i as int).skip(1) == s@.skip(i + 1));
        assert(s@.skip(i as int)[0] == c);
        if !is_whitespace(c) {
            run.push(c);
        } else if run.len() > 0 {
            let ghost before = r@;
            let ghost word = run@;
            r.push(run);
            assert(pieces(r@) == pieces(before).push(word));
            run = Vec::new();
            assert(run@ == Seq::<char>::empty());
            assert(pieces(r@) + words_from(run@, s@.skip(i + 1)) == pieces(before) + (seq![word]
                + words_from(Seq::empty(), s@.skip(i + 1))));
        }
        i += 1;
    }
    if run.len() > 0 {
        let ghost before = r@;
        let ghost word = run@;
        r.push(run);
        assert(pieces(r@) == pieces(before).push(word));
        assert(pieces(before) + seq![word] == pieces(before).push(word));
    }
    r
}

/// The parts with `sep` between each two.
pub open spec fn join(parts: Seq<Seq<char>>, sep: Seq<char>) -> Seq<char>
    decreases parts.len(),
{
    if parts.len() == 0 {
        Seq::empty()
    } else if parts.len() == 1 {
        parts[0]
    } else {
        join(parts.drop_last(), sep) + sep + parts.last()
    }
}

/// Joins the parts with `sep` between each two.
pub fn join_parts(parts: &[Vec<char>], sep: &str) -> (r: Vec<char>)
    ensures
        r@ == join(pieces(parts@), sep@),
{
    let mut r: Vec<char> = Vec::new();
    let mut i: usize = 0;
    while i < parts.len()
        invariant
            i <= parts@.len(),
            r@ == join(pieces(parts@.take(i as int)), sep@),
        decreases parts@.len() - i,
    {
        if i > 0 {
            push_text(&mut r, sep);
        }
        push_all(&mut r, &parts[i]);
        i += 1;
        assert(pieces(parts@.take(i as int)).drop_last() == pieces(parts@.take(i - 1)));
        assert(pieces(parts@.take(i as int)).last() == parts@[i - 1]@);
    }
    assert(parts@.take(i as int) == parts@);
    r
}

/// The texts of lists of characters.
pub fn to_strings(parts: &Vec<Vec<char>>) -> (r: Vec<String>)
    ensures
        r.deep_view() == pieces(parts@),
{
    let mut r: Vec<String> = Vec::new();
    let mut i: usize = 0;
    while i < parts.len()
        invariant
            i <= parts@.len(),
            r@.len() == i,
            forall|j: int| 0 <= j < i ==> (#[trigger] r@[j])@ == parts@[j]@,
        decreases parts@.len() - i,
    {
        r.push(string_of(&parts[i]));
        i += 1;
    }
    assert(r.deep_view() =~= pieces(parts@));
    r
}

/// The characters of texts.
pub fn to_char_lists(parts: &Vec<String>) -> (r: Vec<Vec<char>>)
    ensures
        pieces(r@) == parts.deep_view(),
{
    let mut r: Vec<Vec<char>> = Vec::new();
    let mut i: usize = 0;
    while i < parts.len()
        invariant
            i <= parts@.len(),
            r@.len() == i,
            forall|j: int| 0 <= j < i ==> (#[trigger] r@[j])@ == parts@[j]@,
        decreases parts@.len() - i,
    {
        r.push(chars_of(parts[i].as_str()));
        i += 1;
    }
    assert(pieces(r@) =~= parts.deep_view());
    r
}

proof fn lemma_first_index_is(s: Seq<char>, c: char, i: int)
    requires
        0 <= i < s.len(),
        s[i] == c,
        forall|j: int| 0 <= j < i ==> s[j] != c,
    ensures
        first_index(s, c) == i,
{
    lemma_first_index(s, c);
}

/// A text without the separator is one piece.
pub proof fn law_text_without_separator_is_one_piece(s: Seq<char>, sep: char)
    requires
        !s.contains(sep),
    ensures
        split(s, sep) == seq![s],
{
    lemma_first_index(s, sep);
}

/// A separator splits a text into the pieces of what comes before it and the
/// pieces of what comes after it.
pub proof fn law_every_separator_splits(s: Seq<char>, t: Seq<char>, sep: char)
    ensures
        split(s + seq![sep] + t, sep) == split(s, sep) + split(t, sep),
    decreases s.len(),
{
    let all = s + seq![sep] + t;
    lemma_first_index(s, sep);
    let i = first_index(s, sep);
    if i < s.len() {
        assert(all[i] == s[i]);
        assert forall|j: int| 0 <= j < i implies all[j] != sep by {
            assert(all[j] == s[j]);
        }
        lemma_first_index_is(all, sep, i);
        assert(all.take(i) =~= s.take(i));
        assert(all.skip(i + 1) =~= s.skip(i + 1) + seq![sep] + t);
        law_every_separator_splits(s.skip(i + 1), t, sep);
        assert(split(all, sep) =~= split(s, sep) + split(t, sep));
    } else {
        assert(all[s.len() as int] == sep);
        assert forall|j: int| 0 <= j < s.len() implies all[j] != sep by {
            assert(all[j] == s[j]);
        }
        lemma_first_index_is(all, sep, s.len() as int);
        assert(all.take(s.len() as int) =~= s);
        assert(all.skip(s.len() as int + 1) =~= t);
        assert(split(all, sep) =~= split(s, sep) + split(t, sep));
    }
}

/// The two sides of a text split once, with the separator between them, are the
/// text again, and the first side has no separator in it.
pub proof fn law_split_once_is_at_the_first_separator(s: Seq<char>, sep: char)
    ensures
        split_once(s, sep) is Some <==> s.contains(sep),
        split_once(s, sep) matches Some((a, b)) ==> s == a + seq![sep] + b && !a.contains(sep),
{
    lemma_first_index(s, sep);
    if let Some((a, b)) = split_once(s, sep) {
        assert(s =~= a + seq![sep] + b);
    }
}

/// A text without white space is one word, unless it is empty.
pub proof fn law_text_without_white_space_is_one_word(s: Seq<char>)
    requires
        forall|i: int| 0 <= i < s.len() ==> !whitespace(#[trigger] s[i]),
    ensures
        s.len() > 0 ==> words(s) == seq![s],
        s.len() == 0 ==> words(s) == Seq::<Seq<char>>::empty(),
{
    lemma_one_run(Seq::empty(), s);
    assert(Seq::<char>::empty() + s =~= s);
}

proof fn lemma_one_run(run: Seq<char>, s: Seq<char>)
    requires
        forall|i: int| 0 <= i < s.len() ==> !whitespace(#[trigger] s[i]),
    ensures
        (run + s).len() > 0 ==> words_from(run, s) == seq![run + s],
        (run + s).len() == 0 ==> words_from(run, s) == Seq::<Seq<char>>::empty(),
    decreases s.len(),
{
    if s.len() > 0 {
        assert(!whitespace(s[0]));
        assert forall|i: int| 0 <= i < s.skip(1).len() implies !whitespace(
            #[trigger] s.skip(1)[i],
        ) by {
            assert(s.skip(1)[i] == s[i + 1]);
        }
        lemma_one_run(run.push(s[0]), s.skip(1));
        assert(run.push(s[0]) + s.skip(1) =~= run + s);
    } else {
        assert(run + s =~= run);
    }
}

/// White space splits a text into the words of what comes before it and the words
/// of what comes after it.
pub proof fn law_white_space_splits_words(s: Seq<char>, c: char, t: Seq<char>)
    requires
        whitespace(c),
    ensures
        words(s + seq![c] + t) == words(s) + words(t),
{
    lemma_words_from(Seq::empty(), s, c, t);
}

proof fn lemma_words_from(run: Seq<char>, s: Seq<char>, c: char, t: Seq<char>)
    requires
        whitespace(c),
    ensures
        words_from(run, s + seq![c] + t) == words_from(run, s) + words(t),
    decreases s.len(),
{
    let all = s + seq![c] + t;
    if s.len() == 0 {
        assert(all[0] == c);
        assert(all.skip(1) =~= t);
        if run.len() == 0 {
            assert(run =~= Seq::empty());
            assert(words_from(run, s) + words(t) =~= words(t));
        }
    } else {
        assert(all[0] == s[0]);
        assert(all.skip(1) =~= s.skip(1) + seq![c] + t);
        if !whitespace(s[0]) {
            lemma_words_from(run.push(s[0]), s.skip(1), c, t);
        } else if run.len() == 0 {
            lemma_words_from(run, s.skip(1), c, t);
        } else {
            lemma_words_from(Seq::empty(), s.skip(1), c, t);
            assert(words_from(run, all) =~= words_from(run, s) + words(t));
        }
    }
}

/// Joined parts stand one behind another, with the separator between each two: no
/// parts give nothing, one part gives itself, and two lists of parts give what
/// each gives, with one separator between.
pub proof fn law_joined_parts_stand_in_order(
    a: Seq<Seq<char>>,
    b: Seq<Seq<char>>,
    part: Seq<char>,
    sep: Seq<char>,
)
    ensures
        join(Seq::empty(), sep) == Seq::<char>::empty(),
        join(seq![part], sep) == part,
        a.len() > 0 && b.len() > 0 ==> join(a + b, sep) == join(a, sep) + sep + join(b, sep),
    decreases b.len(),
{
    if a.len() > 0 && b.len() > 0 {
        let all = a + b;
        assert(all.last() == b.last());
        if b.len() == 1 {
            assert(all.drop_last() =~= a);
        } else {
            law_joined_parts_stand_in_order(a, b.drop_last(), part, sep);
            assert(all.drop_last() =~= a + b.drop_last());
            assert(join(all, sep) =~= join(a, sep) + sep + join(b, sep));
        }
    }
}

/// Words are not empty and hold no white space.
pub proof fn law_words_hold_no_white_space(s: Seq<char>, i: int, j: int)
    requires
        0 <= i < words(s).len(),
        0 <= j < words(s)[i].len(),
    ensures
        words(s)[i].len() > 0,
        !whitespace(words(s)[i][j]),
{
    lemma_words_are_words(Seq::empty(), s);
}

/// Whether a text is not empty and holds no white space.
pub open spec fn is_word(w: Seq<char>) -> bool {
    w.len() > 0 && forall|j: int| 0 <= j < w.len() ==> !whitespace(#[trigger] w[j])
}

/// What a text is split into are words.
pub proof fn lemma_words_are_words(run: Seq<char>, s: Seq<char>)
    requires
        forall|j: int| 0 <= j < run.len() ==> !whitespace(#[trigger] run[j]),
    ensures
        forall|i: int| 0 <= i < words_from(run, s).len() ==> is_word(#[trigger] words_from(run, s)[i]),
    decreases s.len(),
{
    let all = words_from(run, s);
    if s.len() == 0 {
        assert(run.len() > 0 ==> is_word(run));
    } else {
        let rest = s.skip(1);
        if !whitespace(s[0]) {
            lemma_words_are_words(run.push(s[0]), rest);
            assert(all == words_from(run.push(s[0]), rest));
        } else if run.len() == 0 {
            lemma_words_are_words(run, rest);
            assert(all == words_from(run, rest));
        } else {
            lemma_words_are_words(Seq::empty(), rest);
            let tail = words_from(Seq::empty(), rest);
            assert(is_word(run));
            assert forall|i: int| 0 <= i < all.len() implies is_word(#[trigger] all[i]) by {
                if i > 0 {
                    assert(all[i] == tail[i - 1]);
                } else {
                    assert(all[i] == run);
                }
            }
        }
    }
}

/// Words that are joined with single spaces are split into the same words again.
pub proof fn law_joined_words_are_split_again(parts: Seq<Seq<char>>)
    requires
        forall|i: int| 0 <= i < parts.len() ==> is_word(#[trigger] parts[i]),
    ensures
        words(join(parts, " "@)) == parts,
    decreases parts.len(),
{
    reveal_strlit(" ");
    if parts.len() == 0 {
        assert(words(Seq::empty()) =~= parts);
    } else {
        let last = parts.last();
        assert(is_word(last));
        law_text_without_white_space_is_one_word(last);
        if parts.len() == 1 {
            assert(seq![last] =~= parts);
        } else {
            let head = parts.drop_last();
            assert forall|i: int| 0 <= i < head.len() implies is_word(#[trigger] head[i]) by {
                assert(head[i] == parts[i]);
            }
            law_joined_words_are_split_again(head);
            law_white_space_splits_words(join(head, " "@), ' ', last);
            assert(" "@ =~= seq![' ']);
            assert(head + seq![last] =~= parts);
        }
    }
}

} // verus!
