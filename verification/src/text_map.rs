//! A map from texts to values, kept in the order of its keys.
use vstd::prelude::*;
use crate::text::chars::chars_of;

verus! {

/// The lexicographic order of texts by code point, which is also the order of
/// their UTF-8 bytes.
pub open spec fn text_lt(a: Seq<char>, b: Seq<char>) -> bool
    decreases a.len(),
{
    if b.len() == 0 {
        false
    } else if a.len() == 0 {
        true
    } else {
        a[0] < b[0] || (a[0] == b[0] && text_lt(a.skip(1), b.skip(1)))
    }
}

/// No text is before itself.
pub proof fn lemma_text_lt_irreflexive(a: Seq<char>)
    ensures
        !text_lt(a, a),
    decreases a.len(),
{
    if a.len() > 0 {
        lemma_text_lt_irreflexive(a.skip(1));
    }
}

/// The order of texts is transitive.
pub proof fn lemma_text_lt_transitive(a: Seq<char>, b: Seq<char>, c: Seq<char>)
    requires
        text_lt(a, b),
        text_lt(b, c),
    ensures
        text_lt(a, c),
    decreases a.len(),
{
    if a.len() > 0 && a[0] == b[0] && b[0] == c[0] {
        lemma_text_lt_transitive(a.skip(1), b.skip(1), c.skip(1));
    }
}

/// Of two different texts one is before the other.
pub proof fn lemma_text_lt_total(a: Seq<char>, b: Seq<char>)
    ensures
        a == b || text_lt(a, b) || text_lt(b, a),
    decreases a.len(),
{
    if a.len() > 0 && b.len() > 0 {
        lemma_text_lt_total(a.skip(1), b.skip(1));
        if a[0] == b[0] && a.skip(1) == b.skip(1) {
            assert(a == seq![a[0]] + a.skip(1));
            assert(b == seq![b[0]] + b.skip(1));
        }
    } else if a.len() == 0 && b.len() == 0 {
        assert(a == b);
    }
}

/// Whether one text is before another.
pub fn is_before(a: &[char], b: &[char]) -> (r: bool)
    ensures
        r == text_lt(a@, b@),
{
    let mut i: usize = 0;
    assert(a@.skip(0) == a@);
    assert(b@.skip(0) == b@);
    loop
        invariant
            i <= a@.len(),
            i <= b@.len(),
            text_lt(a@, b@) == text_lt(a@.skip(i as int), b@.skip(i as int)),
        decreases a@.len() - i,
    {
        if i == b.len() {
            return false;
        }
        if i == a.len() {
            return true;
        }
        if a[i] < b[i] {
            return true;
        }
        if a[i] != b[i] {
            return false;
        }
        assert(a@.skip(i as int).skip(1) == a@.skip(i + 1));
        assert(b@.skip(i as int).skip(1) == b@.skip(i + 1));
        i += 1;
    }
}

/// Whether the keys are strictly increasing.
pub open spec fn sorted_by_key<V>(s: Seq<(Seq<char>, V)>) -> bool {
    forall|i: int, j: int| 0 <= i < j < s.len() ==> text_lt(#[trigger] s[i].0, #[trigger] s[j].0)
}

/// Whether position `i` holds key `k`.
pub open spec fn holds_at<V>(s: Seq<(Seq<char>, V)>, k: Seq<char>, i: int) -> bool {
    0 <= i < s.len() && s[i].0 == k
}

/// The map that a list of pairs stands for.
pub open spec fn pairs_map<V>(s: Seq<(Seq<char>, V)>) -> Map<Seq<char>, V> {
    Map::new(
        |k: Seq<char>| exists|i: int| holds_at(s, k, i),
        |k: Seq<char>| s[choose|i: int| holds_at(s, k, i)].1,
    )
}

/// In a sorted list a key stands at one position only.
pub proof fn lemma_key_unique<V>(s: Seq<(Seq<char>, V)>, k: Seq<char>, i: int)
    requires
        sorted_by_key(s),
        holds_at(s, k, i),
    ensures
        forall|j: int| holds_at(s, k, j) ==> j == i,
        pairs_map(s).contains_key(k),
        pairs_map(s)[k] == s[i].1,
{
    assert forall|j: int| holds_at(s, k, j) implies j == i by {
        lemma_text_lt_irreflexive(k);
        if i < j {
            assert(text_lt(s[i].0, s[j].0));
        } else if j < i {
            assert(text_lt(s[j].0, s[i].0));
        }
    }
}

/// A map from texts to values.
#[derive(Debug, Clone, PartialEq, Eq)]
pub struct TextMap<V> {
    entries: Vec<(String, V)>,
}

impl<V> TextMap<V> {
    /// The pairs in key order.
    pub closed spec fn pairs(self) -> Seq<(Seq<char>, V)> {
        self.entries@.map_values(|e: (String, V)| (e.0@, e.1))
    }

    /// The keys are strictly increasing.
    pub closed spec fn wf(self) -> bool {
        sorted_by_key(self.pairs())
    }

    /// A well-formed map lists its pairs in strictly increasing key order.
    pub proof fn lemma_pairs(self)
        requires
            self.wf(),
        ensures
            sorted_by_key(self.pairs()),
            self@ == pairs_map(self.pairs()),
            self@.dom().finite(),
            self@.dom().len() == self.pairs().len(),
    {
        let keys = self.pairs().map_values(|p: (Seq<char>, V)| p.0);
        self.lemma_keys(keys);
        keys.unique_seq_to_set();
    }

    /// The keys of a well-formed map, listed once each.
    pub proof fn lemma_keys(self, keys: Seq<Seq<char>>)
        requires
            self.wf(),
            keys.len() == self.pairs().len(),
            forall|i: int| 0 <= i < keys.len() ==> #[trigger] keys[i] == self.pairs()[i].0,
        ensures
            keys.no_duplicates(),
            keys.to_set() == self@.dom(),
            forall|i: int, j: int|
                0 <= i < j < keys.len() ==> text_lt(#[trigger] keys[i], #[trigger] keys[j]),
    {
        assert forall|i: int, j: int|
            0 <= i < keys.len() && 0 <= j < keys.len() && i != j implies keys[i] != keys[j] by {
            lemma_text_lt_irreflexive(keys[i]);
            if i < j {
                assert(text_lt(self.pairs()[i].0, self.pairs()[j].0));
            } else {
                assert(text_lt(self.pairs()[j].0, self.pairs()[i].0));
            }
        }
        assert forall|i: int, j: int| 0 <= i < j < keys.len() implies text_lt(
            #[trigger] keys[i],
            #[trigger] keys[j],
        ) by {
            assert(text_lt(self.pairs()[i].0, self.pairs()[j].0));
        }
        assert(self@.dom() =~= keys.to_set()) by {
            assert forall|k: Seq<char>| self@.dom().contains(k) == keys.to_set().contains(k) by {
                if self@.dom().contains(k) {
                    let i = choose|i: int| holds_at(self.pairs(), k, i);
                    assert(keys[i] == k);
                }
                if keys.contains(k) {
                    let i = choose|i: int| 0 <= i < keys.len() && keys[i] == k;
                    assert(holds_at(self.pairs(), k, i));
                }
            }
        }
    }

    /// An empty map.
    pub fn new() -> (r: Self)
        ensures
            r.wf(),
            r@ == Map::<Seq<char>, V>::empty(),
    {
        let r = TextMap { entries: Vec::new() };
        assert(r@ =~= Map::<Seq<char>, V>::empty());
        r
    }

    /// The number of keys.
    pub fn len(&self) -> (n: usize)
        requires
            self.wf(),
        ensures
            n == self@.dom().len(),
            n == self.pairs().len(),
    {
        proof {
            self.lemma_pairs();
        }
        self.entries.len()
    }

    /// The position of the first key that is not before `key`.
    fn position(&self, key: &[char]) -> (i: usize)
        requires
            self.wf(),
        ensures
            i <= self.pairs().len(),
            forall|j: int| 0 <= j < i ==> text_lt(#[trigger] self.pairs()[j].0, key@),
            forall|j: int| i <= j < self.pairs().len() ==> !text_lt(#[trigger] self.pairs()[j].0, key@),
    {
        let mut i: usize = 0;
        while i < self.entries.len()
            invariant
                self.wf(),
                i <= self.pairs().len(),
                self.pairs().len() == self.entries@.len(),
                forall|j: int| 0 <= j < i ==> text_lt(#[trigger] self.pairs()[j].0, key@),
            decreases self.entries@.len() - i,
        {
            let here = chars_of(self.entries[i].0.as_str());
            assert(self.pairs()[i as int].0 == here@);
            if !is_before(&here, key) {
                proof {
                    assert forall|j: int| i <= j < self.pairs().len() implies !text_lt(
                        #[trigger] self.pairs()[j].0,
                        key@,
                    ) by {
                        if i < j && text_lt(self.pairs()[j].0, key@) {
                            assert(text_lt(self.pairs()[i as int].0, self.pairs()[j].0));
                            lemma_text_lt_transitive(
                                self.pairs()[i as int].0,
                                self.pairs()[j].0,
                                key@,
                            );
                        }
                    }
                }
                return i;
            }
            i += 1;
        }
        i
    }

    /// The position of `key`, where the map holds it.
    fn find(&self, key: &str) -> (r: Result<usize, usize>)
        requires
            self.wf(),
        ensures
            match r {
                Ok(i) => holds_at(self.pairs(), key@, i as int) && self@.contains_key(key@)
                    && self@[key@] == self.pairs()[i as int].1,
                Err(i) => !self@.contains_key(key@) && i <= self.pairs().len() && (forall|j: int|
                    0 <= j < i ==> text_lt(#[trigger] self.pairs()[j].0, key@)) && (forall|j: int|
                    i <= j < self.pairs().len() ==> text_lt(key@, #[trigger] self.pairs()[j].0)),
            },
    {
        let key_chars = chars_of(key);
        let i = self.position(&key_chars);
        let ghost pairs = self.pairs();
        if i < self.entries.len() {
            let here = chars_of(self.entries[i].0.as_str());
            assert(pairs[i as int].0 == here@);
            if !is_before(&key_chars, &here) {
                proof {
                    lemma_text_lt_total(key@, here@);
                    assert(holds_at(pairs, key@, i as int));
                    lemma_key_unique(pairs, key@, i as int);
                }
                return Ok(i);
            }
        }
        proof {
            assert forall|j: int| i <= j < pairs.len() implies text_lt(
                key@,
                #[trigger] pairs[j].0,
            ) by {
                if i < j {
                    assert(text_lt(pairs[i as int].0, pairs[j].0));
                    lemma_text_lt_transitive(key@, pairs[i as int].0, pairs[j].0);
                }
            }
            if self@.contains_key(key@) {
                let j = choose|j: int| holds_at(pairs, key@, j);
                lemma_text_lt_irreflexive(key@);
                assert(pairs[j].0 == key@);
            }
        }
        Err(i)
    }

    /// Whether the map holds the key.
    pub fn contains_key(&self, key: &str) -> (r: bool)
        requires
            self.wf(),
        ensures
            r == self@.contains_key(key@),
    {
        self.find(key).is_ok()
    }

    /// The value of the key.
    pub fn get(&self, key: &str) -> (r: Option<&V>)
        requires
            self.wf(),
        ensures
            match r {
                Some(v) => self@.contains_key(key@) && self@[key@] == *v,
                None => !self@.contains_key(key@),
            },
    {
        match self.find(key) {
            Ok(i) => Some(&self.entries[i].1),
            Err(_) => None,
        }
    }

    /// Gives the key a value, in place of the one that it had.
    pub fn insert(&mut self, key: String, value: V)
        requires
            old(self).wf(),
        ensures
            final(self).wf(),
            final(self)@ == old(self)@.insert(key@, value),
    {
        let ghost before = self.pairs();
        let ghost k = key@;
        match self.find(key.as_str()) {
            Ok(i) => {
                self.entries.set(i, (key, value));
                proof {
                    let after = self.pairs();
                    assert(after == before.update(i as int, (k, value)));
                    assert(sorted_by_key(after));
                    lemma_update(before, after, k, value, i as int);
                }
            },
            Err(i) => {
                self.entries.insert(i, (key, value));
                proof {
                    let after = self.pairs();
                    assert(after == before.insert(i as int, (k, value)));
                    assert(sorted_by_key(after));
                    lemma_insert(before, after, k, value, i as int);
                }
            },
        }
    }

    /// Takes the key out and returns its value.
    pub fn remove(&mut self, key: &str) -> (r: Option<V>)
        requires
            old(self).wf(),
        ensures
            final(self).wf(),
            final(self)@ == old(self)@.remove(key@),
            match r {
                Some(v) => old(self)@.contains_key(key@) && old(self)@[key@] == v,
                None => !old(self)@.contains_key(key@),
            },
    {
        let ghost before = self.pairs();
        match self.find(key) {
            Ok(i) => {
                let (_, value) = self.entries.remove(i);
                proof {
                    let after = self.pairs();
                    assert(after == before.remove(i as int));
                    assert(sorted_by_key(after));
                    lemma_remove(before, after, key@, i as int);
                }
                Some(value)
            },
            Err(_) => {
                assert(self@ =~= old(self)@.remove(key@));
                None
            },
        }
    }

    /// The entry at a position of the key order.
    pub fn entry_at(&self, i: usize) -> (r: (&String, &V))
        requires
            i < self.pairs().len(),
        ensures
            (r.0@, *r.1) == self.pairs()[i as int],
    {
        let e = &self.entries[i];
        (&e.0, &e.1)
    }

    /// The entries in key order.
    pub fn into_entries(self) -> (r: Vec<(String, V)>)
        requires
            self.wf(),
        ensures
            r@.len() == self.pairs().len(),
            forall|i: int|
                0 <= i < r@.len() ==> ((#[trigger] r@[i]).0@, r@[i].1) == self.pairs()[i],
    {
        self.entries
    }

    /// The keys in order.
    pub fn keys(&self) -> (r: Vec<String>)
        requires
            self.wf(),
        ensures
            r@.len() == self.pairs().len(),
            forall|i: int| 0 <= i < r@.len() ==> (#[trigger] r@[i])@ == self.pairs()[i].0,
    {
        let mut r: Vec<String> = Vec::new();
        let mut i: usize = 0;
        while i < self.entries.len()
            invariant
                i <= self.entries@.len(),
                self.entries@.len() == self.pairs().len(),
                r@.len() == i,
                forall|j: int| 0 <= j < i ==> (#[trigger] r@[j])@ == self.pairs()[j].0,
            decreases self.entries@.len() - i,
        {
            r.push(self.entries[i].0.clone());
            i += 1;
        }
        r
    }
}

impl<V> View for TextMap<V> {
    type V = Map<Seq<char>, V>;

    closed spec fn view(&self) -> Map<Seq<char>, V> {
        pairs_map(self.pairs())
    }
}

proof fn lemma_same_map<V>(a: Map<Seq<char>, V>, b: Map<Seq<char>, V>)
    requires
        forall|q: Seq<char>| #[trigger] a.dom().contains(q) == b.dom().contains(q),
        forall|q: Seq<char>| #[trigger] a.dom().contains(q) ==> a[q] == b[q],
    ensures
        a == b,
{
    assert(a =~= b);
}

proof fn lemma_update<V>(
    before: Seq<(Seq<char>, V)>,
    after: Seq<(Seq<char>, V)>,
    k: Seq<char>,
    v: V,
    i: int,
)
    requires
        sorted_by_key(before),
        sorted_by_key(after),
        holds_at(before, k, i),
        after == before.update(i, (k, v)),
    ensures
        pairs_map(after) == pairs_map(before).insert(k, v),
{
    let a = pairs_map(after);
    let b = pairs_map(before).insert(k, v);
    assert(holds_at(after, k, i));
    lemma_key_unique(after, k, i);
    lemma_key_unique(before, k, i);
    assert forall|q: Seq<char>| #[trigger] a.dom().contains(q) == b.dom().contains(q) && (
    a.dom().contains(q) ==> a[q] == b[q]) by {
        if q != k {
            if pairs_map(before).contains_key(q) {
                let j = choose|j: int| holds_at(before, q, j);
                assert(holds_at(after, q, j));
                lemma_key_unique(before, q, j);
                lemma_key_unique(after, q, j);
            }
            if pairs_map(after).contains_key(q) {
                let j = choose|j: int| holds_at(after, q, j);
                assert(holds_at(before, q, j));
            }
        }
    }
    lemma_same_map(a, b);
}

proof fn lemma_insert<V>(
    before: Seq<(Seq<char>, V)>,
    after: Seq<(Seq<char>, V)>,
    k: Seq<char>,
    v: V,
    i: int,
)
    requires
        sorted_by_key(before),
        sorted_by_key(after),
        0 <= i <= before.len(),
        after == before.insert(i, (k, v)),
    ensures
        pairs_map(after) == pairs_map(before).insert(k, v),
{
    let a = pairs_map(after);
    let b = pairs_map(before).insert(k, v);
    assert(holds_at(after, k, i));
    lemma_key_unique(after, k, i);
    assert forall|q: Seq<char>| #[trigger] a.dom().contains(q) == b.dom().contains(q) && (
    a.dom().contains(q) ==> a[q] == b[q]) by {
        if q != k {
            if pairs_map(before).contains_key(q) {
                let j = choose|j: int| holds_at(before, q, j);
                let n = if j < i {
                    j
                } else {
                    j + 1
                };
                assert(holds_at(after, q, n));
                lemma_key_unique(before, q, j);
                lemma_key_unique(after, q, n);
            }
            if pairs_map(after).contains_key(q) {
                let n = choose|n: int| holds_at(after, q, n);
                let j = if n < i {
                    n
                } else {
                    n - 1
                };
                assert(holds_at(before, q, j));
            }
        }
    }
    lemma_same_map(a, b);
}

proof fn lemma_remove<V>(
    before: Seq<(Seq<char>, V)>,
    after: Seq<(Seq<char>, V)>,
    k: Seq<char>,
    i: int,
)
    requires
        sorted_by_key(before),
        sorted_by_key(after),
        holds_at(before, k, i),
        after == before.remove(i),
    ensures
        pairs_map(after) == pairs_map(before).remove(k),
{
    let a = pairs_map(after);
    let b = pairs_map(before).remove(k);
    lemma_key_unique(before, k, i);
    assert forall|q: Seq<char>| #[trigger] a.dom().contains(q) == b.dom().contains(q) && (
    a.dom().contains(q) ==> a[q] == b[q]) by {
        if pairs_map(after).contains_key(q) {
            let n = choose|n: int| holds_at(after, q, n);
            let j = if n < i {
                n
            } else {
                n + 1
            };
            assert(holds_at(before, q, j));
            lemma_key_unique(before, q, j);
            lemma_key_unique(after, q, n);
        }
        if pairs_map(before).contains_key(q) && q != k {
            let j = choose|j: int| holds_at(before, q, j);
            let n = if j < i {
                j
            } else {
                j - 1
            };
            assert(holds_at(after, q, n));
        }
    }
    lemma_same_map(a, b);
}

/// Texts are in the order of their first different characters, and a text comes
/// before every longer one that begins with it.
pub proof fn law_first_difference_decides_the_order(
    common: Seq<char>,
    x: char,
    y: char,
    a: Seq<char>,
    b: Seq<char>,
)
    requires
        x < y,
    ensures
        text_lt(common + seq![x] + a, common + seq![y] + b),
        !text_lt(common + seq![y] + b, common + seq![x] + a),
        text_lt(common, common + seq![x] + a),
        !text_lt(common + seq![x] + a, common),
    decreases common.len(),
{
    let p = common + seq![x] + a;
    let q = common + seq![y] + b;
    if common.len() > 0 {
        let rest = common.skip(1);
        law_first_difference_decides_the_order(rest, x, y, a, b);
        assert(p.skip(1) =~= rest + seq![x] + a);
        assert(q.skip(1) =~= rest + seq![y] + b);
        assert(p[0] == common[0] && q[0] == common[0]);
    } else {
        assert(p[0] == x && q[0] == y);
    }
}

} // verus!
