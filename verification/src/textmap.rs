//! A map whose keys are texts, kept in key order.
use vstd::prelude::*;

use crate::text::chars_of;

verus! {

/// Dictionary order of texts, by character code.
pub open spec fn text_lt(a: Seq<char>, b: Seq<char>) -> bool
    decreases a.len(),
{
    if b.len() == 0 {
        false
    } else if a.len() == 0 {
        true
    } else if a[0] != b[0] {
        a[0] < b[0]
    } else {
        text_lt(a.drop_first(), b.drop_first())
    }
}

/// Of two different texts, one comes first.
pub proof fn lemma_text_lt_total(a: Seq<char>, b: Seq<char>)
    ensures
        text_lt(a, b) || text_lt(b, a) || a == b,
    decreases a.len(),
{
    if a.len() > 0 && b.len() > 0 && a[0] == b[0] {
        lemma_text_lt_total(a.drop_first(), b.drop_first());
        if a.drop_first() == b.drop_first() {
            assert(a =~= seq![a[0]] + a.drop_first());
            assert(b =~= seq![b[0]] + b.drop_first());
        }
    } else if a.len() == 0 && b.len() == 0 {
        assert(a =~= b);
    }
}

/// The order of texts is transitive.
pub proof fn lemma_text_lt_transitive(a: Seq<char>, b: Seq<char>, c: Seq<char>)
    requires
        text_lt(a, b),
        text_lt(b, c),
    ensures
        text_lt(a, c),
    decreases a.len(),
{
    if a.len() > 0 && a[0] == b[0] && b[0] == c[0] {
        lemma_text_lt_transitive(a.drop_first(), b.drop_first(), c.drop_first());
    }
}

/// No text comes before itself.
pub proof fn lemma_text_lt_irreflexive(a: Seq<char>)
    ensures
        !text_lt(a, a),
    decreases a.len(),
{
    if a.len() > 0 {
        lemma_text_lt_irreflexive(a.drop_first());
    }
}

/// Whether `a` comes before `b` in dictionary order.
pub fn text_less(a: &str, b: &str) -> (r: bool)
    ensures
        r == text_lt(a@, b@),
{
    let left = chars_of(a);
    let right = chars_of(b);
    let mut i: usize = 0;
    assert(a@.skip(0) =~= a@);
    assert(b@.skip(0) =~= b@);
    while i < left.len() && i < right.len() && left[i] == right[i]
        invariant
            left@ == a@,
            right@ == b@,
            i <= left@.len(),
            i <= right@.len(),
            text_lt(a@, b@) == text_lt(a@.skip(i as int), b@.skip(i as int)),
        decreases left@.len() - i,
    {
        assert(a@.skip(i as int).drop_first() =~= a@.skip(i + 1));
        assert(b@.skip(i as int).drop_first() =~= b@.skip(i + 1));
        i += 1;
    }
    if i == right.len() {
        false
    } else if i == left.len() {
        true
    } else {
        left[i] < right[i]
    }
}

/// What a list of entries maps each key to: the last entry of a key counts.
pub open spec fn entries_map<V>(entries: Seq<(String, V)>) -> Map<Seq<char>, V>
    decreases entries.len(),
{
    if entries.len() == 0 {
        Map::empty()
    } else {
        entries_map(entries.drop_last()).insert(entries.last().0@, entries.last().1)
    }
}

/// Whether some entry has the key `k`.
pub open spec fn has_key<V>(entries: Seq<(String, V)>, k: Seq<char>) -> bool {
    exists|i: int| 0 <= i < entries.len() && (#[trigger] entries[i]).0@ == k
}

/// The keys of the map are those of its entries.
pub proof fn lemma_entries_keys<V>(entries: Seq<(String, V)>, k: Seq<char>)
    ensures
        entries_map(entries).contains_key(k) == has_key(entries, k),
    decreases entries.len(),
{
    if entries.len() > 0 {
        let front = entries.drop_last();
        lemma_entries_keys(front, k);
        if has_key(front, k) {
            let i = choose|i: int| 0 <= i < front.len() && (#[trigger] front[i]).0@ == k;
            assert(entries[i].0@ == k);
        }
        if entries.last().0@ == k {
            assert(entries[entries.len() - 1].0@ == k);
        }
        if has_key(entries, k) && entries.last().0@ != k {
            let i = choose|i: int| 0 <= i < entries.len() && (#[trigger] entries[i]).0@ == k;
            assert(front[i].0@ == k);
        }
    }
}

/// The map holds, for a key, the value of its last entry.
pub proof fn lemma_entries_value<V>(entries: Seq<(String, V)>, i: int)
    requires
        0 <= i < entries.len(),
        forall|j: int| i < j < entries.len() ==> (#[trigger] entries[j]).0@ != entries[i].0@,
    ensures
        entries_map(entries).contains_key(entries[i].0@),
        entries_map(entries)[entries[i].0@] == entries[i].1,
    decreases entries.len(),
{
    if i < entries.len() - 1 {
        let front = entries.drop_last();
        assert(front[i] == entries[i]);
        assert forall|j: int| i < j < front.len() implies (#[trigger] front[j]).0@
            != front[i].0@ by {
            assert(front[j] == entries[j]);
        }
        lemma_entries_value(front, i);
        assert(entries[entries.len() - 1].0@ != entries[i].0@);
    }
}

proof fn lemma_entries_update<V>(entries: Seq<(String, V)>, i: int, e: (String, V))
    requires
        0 <= i < entries.len(),
        entries[i].0@ == e.0@,
        forall|j: int| i < j < entries.len() ==> (#[trigger] entries[j]).0@ != e.0@,
    ensures
        entries_map(entries.update(i, e)) == entries_map(entries).insert(e.0@, e.1),
    decreases entries.len(),
{
    let front = entries.drop_last();
    if i == entries.len() - 1 {
        assert(entries.update(i, e).drop_last() =~= front);
        assert(entries_map(entries.update(i, e)) =~= entries_map(entries).insert(e.0@, e.1));
    } else {
        assert(front[i] == entries[i]);
        assert forall|j: int| i < j < front.len() implies (#[trigger] front[j]).0@ != e.0@ by {
            assert(front[j] == entries[j]);
        }
        lemma_entries_update(front, i, e);
        assert(entries.update(i, e).drop_last() =~= front.update(i, e));
        assert(entries[entries.len() - 1].0@ != e.0@);
        assert(entries_map(entries.update(i, e)) =~= entries_map(entries).insert(e.0@, e.1));
    }
}

proof fn lemma_entries_insert<V>(entries: Seq<(String, V)>, p: int, e: (String, V))
    requires
        0 <= p <= entries.len(),
        forall|j: int| 0 <= j < entries.len() ==> (#[trigger] entries[j]).0@ != e.0@,
    ensures
        entries_map(entries.insert(p, e)) == entries_map(entries).insert(e.0@, e.1),
    decreases entries.len(),
{
    if p == entries.len() {
        assert(entries.insert(p, e).drop_last() =~= entries);
        assert(entries.insert(p, e).last() == e);
    } else {
        let front = entries.drop_last();
        assert forall|j: int| 0 <= j < front.len() implies (#[trigger] front[j]).0@ != e.0@ by {
            assert(front[j] == entries[j]);
        }
        lemma_entries_insert(front, p, e);
        assert(entries.insert(p, e).drop_last() =~= front.insert(p, e));
        assert(entries.insert(p, e).last() == entries.last());
        assert(entries[entries.len() - 1].0@ != e.0@);
        assert(entries_map(entries.insert(p, e)) =~= entries_map(entries).insert(e.0@, e.1));
    }
}

/// Whether the keys are strictly increasing: no key occurs twice, and the
/// entries stand in dictionary order.
pub open spec fn keys_sorted<V>(entries: Seq<(String, V)>) -> bool {
    forall|i: int, j: int|
        0 <= i < j < entries.len() ==> text_lt(
            (#[trigger] entries[i]).0@,
            (#[trigger] entries[j]).0@,
        )
}

/// A map from texts. Its entries stand in the order of their keys.
#[derive(Debug)]
pub struct TextMap<V> {
    entries: Vec<(String, V)>,
}

impl<V> View for TextMap<V> {
    type V = Map<Seq<char>, V>;

    open spec fn view(&self) -> Map<Seq<char>, V> {
        entries_map(self.pairs())
    }
}

impl<V> TextMap<V> {
    #[verifier::type_invariant]
    spec fn well_formed(self) -> bool {
        keys_sorted(self.entries@)
    }

    /// The keys with their values.
    pub closed spec fn pairs(self) -> Seq<(String, V)> {
        self.entries@
    }

    /// Whether the keys stand in order, without one twice, as they do in every
    /// map that was made.
    pub open spec fn sorted(self) -> bool {
        keys_sorted(self.pairs())
    }

    /// The keys and values of a map are smaller than the map.
    pub proof fn lemma_pairs_smaller(self)
        ensures
            decreases_to!(self => self.pairs()),
    {
    }

    /// The empty map.
    pub fn new() -> (r: Self)
        ensures
            r@ == Map::<Seq<char>, V>::empty(),
            r.pairs().len() == 0,
            r.sorted(),
    {
        TextMap { entries: Vec::new() }
    }

    /// The keys with their values, in key order.
    pub fn entries(&self) -> (r: &Vec<(String, V)>)
        ensures
            r@ == self.pairs(),
            self.sorted(),
    {
        proof {
            use_type_invariant(self);
        }
        &self.entries
    }

    /// The value of a key.
    pub fn get(&self, key: &str) -> (r: Option<&V>)
        ensures
            match r {
                Some(v) => self@.contains_key(key@) && *v == self@[key@],
                None => !self@.contains_key(key@),
            },
    {
        match position_of(&self.entries, key) {
            Some(i) => {
                proof {
                    lemma_entries_value(self.entries@, i as int);
                }
                Some(&self.entries[i].1)
            },
            None => {
                proof {
                    lemma_entries_keys(self.entries@, key@);
                }
                None
            },
        }
    }

    /// Gives a key a value, in place of the one that it had, if any.
    pub fn insert(&mut self, key: String, value: V)
        ensures
            final(self)@ == old(self)@.insert(key@, value),
            final(self).sorted(),
    {
        proof {
            use_type_invariant(&*self);
        }
        let mut entries: Vec<(String, V)> = Vec::new();
        std::mem::swap(&mut entries, &mut self.entries);
        let ghost before = entries@;
        match position_of(&entries, key.as_str()) {
            Some(i) => {
                proof {
                    lemma_entries_update(before, i as int, (key, value));
                }
                entries.set(i, (key, value));
            },
            None => {
                let mut p: usize = 0;
                while p < entries.len() && text_less(entries[p].0.as_str(), key.as_str())
                    invariant
                        entries@ == before,
                        p <= before.len(),
                        forall|j: int| 0 <= j < p ==> text_lt((#[trigger] before[j]).0@, key@),
                    decreases before.len() - p,
                {
                    p += 1;
                }
                proof {
                    lemma_entries_insert(before, p as int, (key, value));
                    lemma_insert_sorted(before, p as int, (key, value));
                }
                entries.insert(p, (key, value));
            },
        }
        self.entries = entries;
    }
}

/// The place of the last entry with a given key.
fn position_of<V>(entries: &Vec<(String, V)>, key: &str) -> (r: Option<usize>)
    ensures
        match r {
            Some(i) => {
                &&& i < entries@.len()
                &&& entries@[i as int].0@ == key@
                &&& forall|j: int| i < j < entries@.len() ==> (#[trigger] entries@[j]).0@ != key@
            },
            None => forall|j: int|
                0 <= j < entries@.len() ==> (#[trigger] entries@[j]).0@ != key@,
        },
{
    let mut i: usize = entries.len();
    while i > 0
        invariant
            i <= entries@.len(),
            forall|j: int| i <= j < entries@.len() ==> (#[trigger] entries@[j]).0@ != key@,
        decreases i,
    {
        i -= 1;
        if *entries[i].0.as_str() == *key {
            return Some(i);
        }
    }
    None
}

proof fn lemma_insert_sorted<V>(before: Seq<(String, V)>, p: int, e: (String, V))
    requires
        keys_sorted(before),
        0 <= p <= before.len(),
        forall|j: int| 0 <= j < p ==> text_lt((#[trigger] before[j]).0@, e.0@),
        p < before.len() ==> !text_lt(before[p].0@, e.0@) && before[p].0@ != e.0@,
    ensures
        keys_sorted(before.insert(p, e)),
{
    let after = before.insert(p, e);
    assert forall|i: int, j: int| 0 <= i < j < after.len() implies text_lt(
        (#[trigger] after[i]).0@,
        (#[trigger] after[j]).0@,
    ) by {
        if i < p && j > p {
            assert(after[i] == before[i] && after[j] == before[j - 1]);
        } else if i < p && j < p {
            assert(after[i] == before[i] && after[j] == before[j]);
        } else if i > p {
            assert(after[i] == before[i - 1] && after[j] == before[j - 1]);
        } else if i < p {
            assert(after[i] == before[i]);
        } else {
            assert(after[j] == before[j - 1]);
            lemma_text_lt_total(before[p].0@, e.0@);
            if j > p + 1 {
                lemma_text_lt_transitive(e.0@, before[p].0@, before[j - 1].0@);
            }
        }
    }
}

/// Texts are ordered by the first character in which they differ, and one that
/// goes on where another ends comes behind it.
pub proof fn law_dictionary_order(
    start: Seq<char>,
    c: char,
    a: Seq<char>,
    d: char,
    b: Seq<char>,
)
    requires
        c != d,
    ensures
        text_lt(start + (seq![c] + a), start + (seq![d] + b)) <==> c < d,
        text_lt(start, start + (seq![c] + a)),
        !text_lt(start + (seq![c] + a), start),
    decreases start.len(),
{
    let left = start + (seq![c] + a);
    let right = start + (seq![d] + b);
    if start.len() > 0 {
        let rest = start.drop_first();
        law_dictionary_order(rest, c, a, d, b);
        assert(left.drop_first() =~= rest + (seq![c] + a));
        assert(right.drop_first() =~= rest + (seq![d] + b));
    } else {
        assert(left[0] == c && right[0] == d);
    }
}

} // verus!
