//! Maps from texts to plain values, in key order.

use vstd::prelude::*;
use crate::order::{lemma_text_le_total, lemma_text_le_transitive, rank_texts, text_le, Rank};
use crate::text::same;

verus! {

/// Entries in ascending key order, each key once.
#[derive(Debug, Clone)]
pub struct TextMap<V> {
    entries: Vec<(String, V)>,
}

/// The key of entry `i`.
pub open spec fn entry_key<V>(s: Seq<(String, V)>, i: int) -> Seq<char> {
    s[i].0@
}

/// The map of a sequence of entries.
pub open spec fn entries_map<V>(s: Seq<(String, V)>) -> Map<Seq<char>, V>
    decreases s.len(),
{
    if s.len() == 0 {
        Map::empty()
    } else {
        entries_map(s.drop_last()).insert(s.last().0@, s.last().1)
    }
}

impl<V> View for TextMap<V> {
    type V = Map<Seq<char>, V>;

    closed spec fn view(&self) -> Map<Seq<char>, V> {
        entries_map(self.entries@)
    }
}

/// Whether the keys ascend and none occurs twice.
pub open spec fn keys_in_order<V>(s: Seq<(String, V)>) -> bool {
    forall|i: int, j: int|
        #![trigger entry_key(s, i), entry_key(s, j)]
        0 <= i < j < s.len() ==> text_le(entry_key(s, i), entry_key(s, j)) && entry_key(s, i)
            != entry_key(s, j)
}

proof fn lemma_entries_map<V>(s: Seq<(String, V)>)
    requires
        keys_in_order(s),
    ensures
        forall|k: Seq<char>|
            #[trigger] entries_map(s).dom().contains(k) <==> exists|i: int|
                0 <= i < s.len() && #[trigger] entry_key(s, i) == k,
        forall|i: int|
            0 <= i < s.len() ==> entries_map(s).dom().contains(#[trigger] entry_key(s, i))
                && entries_map(s)[entry_key(s, i)] == s[i].1,
    decreases s.len(),
{
    if s.len() > 0 {
        let t = s.drop_last();
        assert forall|i: int, j: int|
            #![trigger entry_key(t, i), entry_key(t, j)]
            0 <= i < j < t.len() implies text_le(entry_key(t, i), entry_key(t, j)) && entry_key(
            t,
            i,
        ) != entry_key(t, j) by {
            assert(entry_key(t, i) == entry_key(s, i));
            assert(entry_key(t, j) == entry_key(s, j));
        }
        lemma_entries_map(t);
        let last = s.len() - 1;
        assert forall|k: Seq<char>|
            #[trigger] entries_map(s).dom().contains(k) implies exists|i: int|
            0 <= i < s.len() && #[trigger] entry_key(s, i) == k by {
            assert(entries_map(s) == entries_map(t).insert(entry_key(s, last), s.last().1));
            if k != entry_key(s, last) {
                assert(entries_map(t).dom().contains(k));
                let i = choose|i: int| 0 <= i < t.len() && #[trigger] entry_key(t, i) == k;
                assert(entry_key(s, i) == k);
            }
        }
        assert forall|i: int| 0 <= i < s.len() implies entries_map(s).dom().contains(
            #[trigger] entry_key(s, i),
        ) && entries_map(s)[entry_key(s, i)] == s[i].1 by {
            if i < last {
                assert(entry_key(t, i) == entry_key(s, i));
                assert(entry_key(s, i) != entry_key(s, last));
            }
        }
    }
}

impl<V: Copy> TextMap<V> {
    /// Whether the entries are as the type promises.
    pub closed spec fn wf(&self) -> bool {
        keys_in_order(self.entries@)
    }

    /// The keys in order.
    pub closed spec fn keys_seq(&self) -> Seq<Seq<char>> {
        Seq::new(self.entries@.len(), |i: int| self.entries@[i].0@)
    }

    /// The keys ascend, and they are those of the map.
    pub proof fn lemma_keys(&self)
        requires
            self.wf(),
        ensures
            forall|i: int, j: int|
                0 <= i < j < self.keys_seq().len() ==> text_le(
                    #[trigger] self.keys_seq()[i],
                    #[trigger] self.keys_seq()[j],
                ) && self.keys_seq()[i] != self.keys_seq()[j],
            forall|k: Seq<char>| #[trigger]
                self@.dom().contains(k) <==> self.keys_seq().contains(k),
    {
        let s = self.entries@;
        lemma_entries_map(s);
        assert forall|i: int, j: int| 0 <= i < j < self.keys_seq().len() implies text_le(
            #[trigger] self.keys_seq()[i],
            #[trigger] self.keys_seq()[j],
        ) && self.keys_seq()[i] != self.keys_seq()[j] by {
            assert(self.keys_seq()[i] == entry_key(s, i));
            assert(self.keys_seq()[j] == entry_key(s, j));
        }
        assert forall|k: Seq<char>| #[trigger]
            self@.dom().contains(k) <==> self.keys_seq().contains(k) by {
            if self@.dom().contains(k) {
                let i = choose|i: int| 0 <= i < s.len() && #[trigger] entry_key(s, i) == k;
                assert(self.keys_seq()[i] == k);
            }
            if self.keys_seq().contains(k) {
                let i = self.keys_seq().index_of(k);
                assert(entry_key(s, i) == k);
            }
        }
    }

    /// The empty map.
    pub fn new() -> (r: Self)
        ensures
            r.wf(),
            r@ == Map::<Seq<char>, V>::empty(),
    {
        TextMap { entries: Vec::new() }
    }

    /// The number of entries.
    pub fn len(&self) -> (r: usize)
        requires
            self.wf(),
        ensures
            r == self.keys_seq().len(),
    {
        self.entries.len()
    }

    /// Entry `i` in key order.
    pub fn entry(&self, i: usize) -> (r: (&str, V))
        requires
            self.wf(),
            i < self.keys_seq().len(),
        ensures
            r.0@ == self.keys_seq()[i as int],
            self@.dom().contains(r.0@),
            self@[r.0@] == r.1,
    {
        proof {
            lemma_entries_map(self.entries@);
            assert(entry_key(self.entries@, i as int) == self.keys_seq()[i as int]);
        }
        (self.entries[i].0.as_str(), self.entries[i].1)
    }

    /// The value of `key`.
    pub fn get(&self, key: &str) -> (r: Option<V>)
        requires
            self.wf(),
        ensures
            r == (if self@.dom().contains(key@) {
                Some(self@[key@])
            } else {
                None
            }),
    {
        proof {
            lemma_entries_map(self.entries@);
        }
        let mut i: usize = 0;
        while i < self.entries.len()
            invariant
                i <= self.entries@.len(),
                keys_in_order(self.entries@),
                forall|k: int| 0 <= k < i ==> #[trigger] entry_key(self.entries@, k) != key@,
            decreases self.entries@.len() - i,
        {
            if same(&self.entries[i].0, key) {
                proof {
                    lemma_entries_map(self.entries@);
                    assert(entry_key(self.entries@, i as int) == key@);
                }
                return Some(self.entries[i].1);
            }
            i += 1;
        }
        None
    }

    /// Whether any key is not `key`.
    pub fn has_other_key(&self, key: &str) -> (r: bool)
        requires
            self.wf(),
        ensures
            r == exists|k: Seq<char>| #[trigger] self@.dom().contains(k) && k != key@,
    {
        proof {
            lemma_entries_map(self.entries@);
        }
        let mut i: usize = 0;
        while i < self.entries.len()
            invariant
                i <= self.entries@.len(),
                keys_in_order(self.entries@),
                forall|k: int| 0 <= k < i ==> #[trigger] entry_key(self.entries@, k) == key@,
            decreases self.entries@.len() - i,
        {
            if !same(&self.entries[i].0, key) {
                proof {
                    lemma_entries_map(self.entries@);
                    assert(self@.dom().contains(entry_key(self.entries@, i as int)));
                }
                return true;
            }
            i += 1;
        }
        false
    }

    /// Sets the value of `key`.
    pub fn insert(&mut self, key: String, value: V)
        requires
            old(self).wf(),
        ensures
            final(self).wf(),
            final(self)@ == old(self)@.insert(key@, value),
    {
        let ghost s = self.entries@;
        let ghost k = key@;
        let mut i: usize = 0;
        while i < self.entries.len()
            invariant
                i <= self.entries@.len(),
                s == self.entries@,
                k == key@,
                old(self)@ == entries_map(s),
                keys_in_order(s),
                forall|j: int|
                    0 <= j < i ==> text_le(#[trigger] entry_key(s, j), k) && entry_key(s, j) != k,
            decreases self.entries@.len() - i,
        {
            match rank_texts(&self.entries[i].0, &key) {
                Rank::Same => {
                    self.entries.set(i, (key, value));
                    proof {
                        let t = self.entries@;
                        assert forall|a: int| 0 <= a < t.len() implies #[trigger] entry_key(t, a)
                            == entry_key(s, a) by {
                            if a == i {
                                assert(entry_key(s, a) == s[a].0@);
                            }
                        }
                        lemma_same_keys(s, t, i as int, k, value);
                    }
                    return;
                },
                Rank::Less => {
                    proof {
                        assert(entry_key(s, i as int) == s[i as int].0@);
                    }
                    i += 1;
                },
                Rank::Greater => {
                    proof {
                        assert(entry_key(s, i as int) == s[i as int].0@);
                        lemma_text_le_total(entry_key(s, i as int), k);
                    }
                    self.entries.insert(i, (key, value));
                    proof {
                        lemma_insert_entry(s, i as int, self.entries@[i as int]);
                        assert(self.entries@ == s.insert(i as int, self.entries@[i as int]));
                    }
                    return;
                },
            }
        }
        self.entries.push((key, value));
        proof {
            let e = self.entries@.last();
            assert(self.entries@ == s.insert(s.len() as int, e));
            lemma_insert_entry(s, s.len() as int, e);
        }
    }

    /// Sets the value of `key` unless it has one.
    pub fn insert_if_absent(&mut self, key: String, value: V)
        requires
            old(self).wf(),
        ensures
            final(self).wf(),
            final(self)@ == (if old(self)@.dom().contains(key@) {
                old(self)@
            } else {
                old(self)@.insert(key@, value)
            }),
    {
        if self.get(&key).is_none() {
            self.insert(key, value);
        }
    }
}

/// Replacing the value of one entry replaces the value of its key.
proof fn lemma_same_keys<V>(s: Seq<(String, V)>, t: Seq<(String, V)>, i: int, k: Seq<char>, v: V)
    requires
        keys_in_order(s),
        s.len() == t.len(),
        0 <= i < s.len(),
        forall|a: int| 0 <= a < t.len() ==> #[trigger] entry_key(t, a) == entry_key(s, a),
        forall|a: int| 0 <= a < t.len() && a != i ==> #[trigger] t[a] == s[a],
        entry_key(s, i) == k,
        t[i].1 == v,
    ensures
        keys_in_order(t),
        entries_map(t) == entries_map(s).insert(k, v),
{
    assert(keys_in_order(t)) by {
        assert forall|a: int, b: int|
            #![trigger entry_key(t, a), entry_key(t, b)]
            0 <= a < b < t.len() implies text_le(entry_key(t, a), entry_key(t, b)) && entry_key(
            t,
            a,
        ) != entry_key(t, b) by {
            assert(entry_key(t, a) == entry_key(s, a));
            assert(entry_key(t, b) == entry_key(s, b));
        }
    }
    lemma_entries_map(s);
    lemma_entries_map(t);
    let (ms, mt) = (entries_map(s).insert(k, v), entries_map(t));
    assert forall|x: Seq<char>| ms.dom().contains(x) <==> mt.dom().contains(x) by {
        if mt.dom().contains(x) {
            let a = choose|a: int| 0 <= a < t.len() && #[trigger] entry_key(t, a) == x;
            assert(entry_key(s, a) == x);
        }
        if ms.dom().contains(x) {
            if x == k {
                assert(entry_key(t, i) == x);
            } else {
                let a = choose|a: int| 0 <= a < s.len() && #[trigger] entry_key(s, a) == x;
                assert(entry_key(t, a) == x);
            }
        }
    }
    assert forall|x: Seq<char>| mt.dom().contains(x) implies ms[x] == mt[x] by {
        let a = choose|a: int| 0 <= a < t.len() && #[trigger] entry_key(t, a) == x;
        assert(entry_key(s, a) == x);
        if a == i {
        } else {
            assert(entry_key(s, a) != entry_key(s, i)) by {
                if a < i {
                    assert(entry_key(s, a) != entry_key(s, i));
                } else {
                    assert(entry_key(s, i) != entry_key(s, a));
                }
            }
        }
    }
    assert(ms =~= mt);
}

/// Inserting an entry where its key belongs keeps the order and adds the key.
proof fn lemma_insert_entry<V>(s: Seq<(String, V)>, p: int, e: (String, V))
    requires
        keys_in_order(s),
        0 <= p <= s.len(),
        forall|j: int|
            0 <= j < p ==> text_le(#[trigger] entry_key(s, j), e.0@) && entry_key(s, j) != e.0@,
        p < s.len() ==> text_le(e.0@, entry_key(s, p)) && entry_key(s, p) != e.0@,
    ensures
        keys_in_order(s.insert(p, e)),
        entries_map(s.insert(p, e)) == entries_map(s).insert(e.0@, e.1),
{
    let t = s.insert(p, e);
    let k = e.0@;
    assert forall|j: int| p <= j < s.len() implies text_le(k, #[trigger] entry_key(s, j))
        && entry_key(s, j) != k by {
        if j > p {
            assert(text_le(entry_key(s, p), entry_key(s, j)));
            lemma_text_le_transitive(k, entry_key(s, p), entry_key(s, j));
            if entry_key(s, j) == k {
                lemma_text_le_total(entry_key(s, p), k);
            }
        }
    }
    assert forall|a: int|
        0 <= a < t.len() implies #[trigger] entry_key(t, a) == (if a < p {
        entry_key(s, a)
    } else if a == p {
        k
    } else {
        entry_key(s, a - 1)
    }) by {}
    assert(keys_in_order(t)) by {
        assert forall|a: int, b: int|
            #![trigger entry_key(t, a), entry_key(t, b)]
            0 <= a < b < t.len() implies text_le(entry_key(t, a), entry_key(t, b)) && entry_key(
            t,
            a,
        ) != entry_key(t, b) by {
            let sa = if a < p {
                a
            } else {
                a - 1
            };
            let sb = if b < p {
                b
            } else {
                b - 1
            };
            if a != p && b != p {
                assert(text_le(entry_key(s, sa), entry_key(s, sb)));
            } else if a == p {
                assert(text_le(k, entry_key(s, sb)));
            } else {
                assert(text_le(entry_key(s, sa), k));
            }
        }
    }
    lemma_entries_map(s);
    lemma_entries_map(t);
    let (ms, mt) = (entries_map(s).insert(k, e.1), entries_map(t));
    assert forall|x: Seq<char>| ms.dom().contains(x) <==> mt.dom().contains(x) by {
        if mt.dom().contains(x) {
            let a = choose|a: int| 0 <= a < t.len() && #[trigger] entry_key(t, a) == x;
            if a < p {
                assert(entry_key(s, a) == x);
            } else if a > p {
                assert(entry_key(s, a - 1) == x);
            }
        }
        if ms.dom().contains(x) {
            if x == k {
                assert(entry_key(t, p) == x);
            } else {
                let a = choose|a: int| 0 <= a < s.len() && #[trigger] entry_key(s, a) == x;
                if a < p {
                    assert(entry_key(t, a) == x);
                } else {
                    assert(entry_key(t, a + 1) == x);
                }
            }
        }
    }
    assert forall|x: Seq<char>| mt.dom().contains(x) implies ms[x] == mt[x] by {
        let a = choose|a: int| 0 <= a < t.len() && #[trigger] entry_key(t, a) == x;
        if a < p {
            assert(entry_key(s, a) == x);
            assert(s[a] == t[a]);
        } else if a > p {
            assert(entry_key(s, a - 1) == x);
            assert(s[a - 1] == t[a]);
        }
    }
    assert(ms =~= mt);
}

} // verus!
