//! Stable sorting by texts.

use vstd::prelude::*;
use crate::text::chars_of;

verus! {

/// Texts in the order of their characters, a prefix first.
pub open spec fn text_le(a: Seq<char>, b: Seq<char>) -> bool
    decreases a.len(),
{
    a.len() == 0 || (b.len() > 0 && (a[0] < b[0] || (a[0] == b[0] && text_le(
        a.skip(1),
        b.skip(1),
    ))))
}

/// Lists of texts, compared by the first text in which they differ, a prefix first.
pub open spec fn key_le(a: Seq<Seq<char>>, b: Seq<Seq<char>>) -> bool
    decreases a.len(),
{
    a.len() == 0 || (b.len() > 0 && if a[0] == b[0] {
        key_le(a.skip(1), b.skip(1))
    } else {
        text_le(a[0], b[0])
    })
}

/// How two keys compare.
#[derive(Debug, Clone, Copy, PartialEq, Eq, Structural)]
pub enum Rank {
    Less,
    Same,
    Greater,
}

/// Compares two texts.
pub fn rank_texts(a: &str, b: &str) -> (r: Rank)
    ensures
        r is Same <==> a@ == b@,
        r is Greater <==> !text_le(a@, b@),
{
    let x = chars_of(a);
    let y = chars_of(b);
    let mut i: usize = 0;
    assert(x@.skip(0) == x@);
    assert(y@.skip(0) == y@);
    while i < x.len() && i < y.len() && x[i] == y[i]
        invariant
            i <= x@.len(),
            i <= y@.len(),
            forall|k: int| 0 <= k < i ==> x@[k] == y@[k],
            text_le(x@, y@) == text_le(x@.skip(i as int), y@.skip(i as int)),
        decreases x@.len() - i,
    {
        assert(x@.skip(i as int).skip(1) == x@.skip(i + 1));
        assert(y@.skip(i as int).skip(1) == y@.skip(i + 1));
        i += 1;
    }
    if i == x.len() {
        if i == y.len() {
            assert(x@ =~= y@);
            Rank::Same
        } else {
            assert(x@ != y@);
            Rank::Less
        }
    } else if i == y.len() {
        Rank::Greater
    } else {
        assert(x@[i as int] != y@[i as int]);
        if x[i] < y[i] {
            Rank::Less
        } else {
            Rank::Greater
        }
    }
}

/// What can be sorted: values whose key is read off their contents.
pub trait Keyed: DeepView + Sized {
    /// The key of contents.
    spec fn key_of(v: Self::V) -> Seq<Seq<char>>;

    /// Whether `self` may stand before `other`.
    fn may_precede(&self, other: &Self) -> (r: bool)
        ensures
            r == key_le(Self::key_of(self.deep_view()), Self::key_of(other.deep_view())),
    ;
}

/// The number of leading elements whose keys do not exceed `key`.
pub open spec fn insert_pos<A>(
    s: Seq<A>,
    key: Seq<Seq<char>>,
    key_of: spec_fn(A) -> Seq<Seq<char>>,
) -> nat
    decreases s.len(),
{
    if s.len() == 0 || !key_le(key_of(s[0]), key) {
        0
    } else {
        1 + insert_pos(s.skip(1), key, key_of)
    }
}

/// `s` in the order of the keys; of two elements with the same key the earlier stays first.
pub open spec fn sorted_by<A>(s: Seq<A>, key_of: spec_fn(A) -> Seq<Seq<char>>) -> Seq<A>
    decreases s.len(),
{
    if s.len() == 0 {
        s
    } else {
        let rest = sorted_by(s.drop_last(), key_of);
        rest.insert(insert_pos(rest, key_of(s.last()), key_of) as int, s.last())
    }
}

pub proof fn lemma_insert_pos<A>(
    s: Seq<A>,
    key: Seq<Seq<char>>,
    key_of: spec_fn(A) -> Seq<Seq<char>>,
)
    ensures
        insert_pos(s, key, key_of) <= s.len(),
        forall|i: int|
            0 <= i < insert_pos(s, key, key_of) ==> key_le(key_of(#[trigger] s[i]), key),
        insert_pos(s, key, key_of) < s.len() ==> !key_le(
            key_of(s[insert_pos(s, key, key_of) as int]),
            key,
        ),
    decreases s.len(),
{
    if s.len() == 0 || !key_le(key_of(s[0]), key) {
    } else {
        lemma_insert_pos(s.skip(1), key, key_of);
        assert forall|i: int| 0 <= i < insert_pos(s, key, key_of) implies key_le(
            key_of(#[trigger] s[i]),
            key,
        ) by {
            if i > 0 {
                assert(s.skip(1)[i - 1] == s[i]);
            }
        }
    }
}

pub proof fn lemma_text_le_total(a: Seq<char>, b: Seq<char>)
    ensures
        text_le(a, b) || text_le(b, a),
        text_le(a, b) && text_le(b, a) ==> a == b,
    decreases a.len(),
{
    if a.len() > 0 && b.len() > 0 && a[0] == b[0] {
        lemma_text_le_total(a.skip(1), b.skip(1));
        if text_le(a, b) && text_le(b, a) {
            assert(a =~= seq![a[0]] + a.skip(1));
            assert(b =~= seq![b[0]] + b.skip(1));
        }
    } else if a.len() == 0 && b.len() == 0 {
        assert(a =~= b);
    }
}

pub proof fn lemma_text_le_transitive(a: Seq<char>, b: Seq<char>, c: Seq<char>)
    requires
        text_le(a, b),
        text_le(b, c),
    ensures
        text_le(a, c),
    decreases a.len(),
{
    if a.len() > 0 && a[0] == b[0] && b[0] == c[0] {
        lemma_text_le_transitive(a.skip(1), b.skip(1), c.skip(1));
    }
}

proof fn lemma_key_le_total(a: Seq<Seq<char>>, b: Seq<Seq<char>>)
    ensures
        key_le(a, b) || key_le(b, a),
    decreases a.len(),
{
    if a.len() > 0 && b.len() > 0 {
        if a[0] == b[0] {
            lemma_key_le_total(a.skip(1), b.skip(1));
        } else {
            lemma_text_le_total(a[0], b[0]);
        }
    }
}

proof fn lemma_key_le_transitive(a: Seq<Seq<char>>, b: Seq<Seq<char>>, c: Seq<Seq<char>>)
    requires
        key_le(a, b),
        key_le(b, c),
    ensures
        key_le(a, c),
    decreases a.len(),
{
    if a.len() > 0 {
        if a[0] == b[0] && b[0] == c[0] {
            lemma_key_le_transitive(a.skip(1), b.skip(1), c.skip(1));
        } else if a[0] != b[0] && b[0] != c[0] {
            lemma_text_le_transitive(a[0], b[0], c[0]);
            if a[0] == c[0] {
                lemma_text_le_total(a[0], b[0]);
            }
        }
    }
}

/// Whether the keys of `s` never fall.
pub open spec fn keys_ascend<A>(s: Seq<A>, key_of: spec_fn(A) -> Seq<Seq<char>>) -> bool {
    forall|i: int, j: int|
        0 <= i <= j < s.len() ==> key_le(key_of(#[trigger] s[i]), key_of(#[trigger] s[j]))
}

proof fn lemma_key_le_reflexive(a: Seq<Seq<char>>)
    ensures
        key_le(a, a),
    decreases a.len(),
{
    if a.len() > 0 {
        lemma_key_le_reflexive(a.skip(1));
    }
}

/// A sorted sequence holds what it was made from, each as often, and its keys never fall.
pub proof fn law_sorted<A>(s: Seq<A>, key_of: spec_fn(A) -> Seq<Seq<char>>)
    ensures
        sorted_by(s, key_of).to_multiset() == s.to_multiset(),
        keys_ascend(sorted_by(s, key_of), key_of),
        sorted_by(s, key_of).len() == s.len(),
    decreases s.len(),
{
    broadcast use vstd::seq_lib::group_to_multiset_ensures;

    if s.len() > 0 {
        let rest = sorted_by(s.drop_last(), key_of);
        let x = s.last();
        let p = insert_pos(rest, key_of(x), key_of) as int;
        law_sorted(s.drop_last(), key_of);
        lemma_insert_pos(rest, key_of(x), key_of);
        let out = rest.insert(p, x);
        assert(rest.insert(p, x).to_multiset() == rest.to_multiset().insert(x)) by {
            vstd::seq_lib::to_multiset_insert(rest, p, x);
        }
        assert(s == s.drop_last().push(x));
        assert(s.to_multiset() == s.drop_last().to_multiset().insert(x));
        assert forall|i: int, j: int| 0 <= i <= j < out.len() implies key_le(
            key_of(#[trigger] out[i]),
            key_of(#[trigger] out[j]),
        ) by {
            lemma_key_le_reflexive(key_of(x));
            let bi = if i < p {
                i
            } else {
                i - 1
            };
            let bj = if j < p {
                j
            } else {
                j - 1
            };
            if i != p {
                assert(out[i] == rest[bi]);
            }
            if j != p {
                assert(out[j] == rest[bj]);
            }
            if i == p && j > p {
                lemma_key_le_total(key_of(rest[p]), key_of(x));
                assert(key_le(key_of(rest[p]), key_of(rest[bj])));
                lemma_key_le_transitive(key_of(x), key_of(rest[p]), key_of(rest[bj]));
            }
        }
    }
}

/// Elements with the same key keep the order in which they stood.
pub proof fn law_sorted_stable<A>(
    s: Seq<A>,
    key_of: spec_fn(A) -> Seq<Seq<char>>,
    key: Seq<Seq<char>>,
)
    ensures
        sorted_by(s, key_of).filter(|x: A| key_of(x) == key) == s.filter(
            |x: A| key_of(x) == key,
        ),
    decreases s.len(),
{
    let same = |x: A| key_of(x) == key;
    if s.len() > 0 {
        let rest = sorted_by(s.drop_last(), key_of);
        let x = s.last();
        let p = insert_pos(rest, key_of(x), key_of) as int;
        law_sorted_stable(s.drop_last(), key_of, key);
        law_sorted(s.drop_last(), key_of);
        lemma_insert_pos(rest, key_of(x), key_of);
        let out = rest.insert(p, x);
        let (front, back) = (rest.take(p), rest.skip(p));
        assert(out == front + seq![x] + back);
        assert(rest == front + back);
        Seq::filter_distributes_over_add(front, back, same);
        Seq::filter_distributes_over_add(front + seq![x], back, same);
        Seq::filter_distributes_over_add(front, seq![x], same);
        assert(s == s.drop_last() + seq![x]);
        Seq::filter_distributes_over_add(s.drop_last(), seq![x], same);
        if same(x) {
            assert forall|j: int| 0 <= j < back.len() implies !same(#[trigger] back[j]) by {
                assert(back[j] == rest[p + j]);
                assert(key_le(key_of(rest[p]), key_of(rest[p + j])));
            }
            lemma_filter_none(back, same);
            assert(out.filter(same) == front.filter(same) + seq![x].filter(same));
        } else {
            lemma_filter_none(seq![x], same);
        }
    }
}

proof fn lemma_filter_none<A>(s: Seq<A>, keep: spec_fn(A) -> bool)
    requires
        forall|i: int| 0 <= i < s.len() ==> !keep(#[trigger] s[i]),
    ensures
        s.filter(keep) == Seq::<A>::empty(),
    decreases s.len(),
{
    reveal(Seq::filter);
    if s.len() > 0 {
        assert(!keep(s.last()));
        lemma_filter_none(s.drop_last(), keep);
    }
}

/// Sorts by key, keeping the order of elements with the same key.
pub fn sort<T: Keyed>(v: Vec<T>) -> (r: Vec<T>)
    ensures
        r.deep_view() == sorted_by(v.deep_view(), |x: T::V| T::key_of(x)),
{
    let ghost key_of = |x: T::V| T::key_of(x);
    let ghost whole = v.deep_view();
    let mut v = v;
    let mut rest: Vec<T> = Vec::new();
    // The input is taken from its end, so it is turned round first.
    while v.len() > 0
        invariant
            whole.len() == v@.len() + rest@.len(),
            forall|i: int| 0 <= i < v@.len() ==> (#[trigger] v@[i]).deep_view() == whole[i],
            forall|i: int|
                0 <= i < rest@.len() ==> (#[trigger] rest@[i]).deep_view() == whole[whole.len() - 1
                    - i],
        decreases v@.len(),
    {
        match v.pop() {
            Some(x) => rest.push(x),
            None => {},
        }
    }
    let mut out: Vec<T> = Vec::new();
    assert(whole.take(0) =~= Seq::empty());
    assert(out.deep_view() =~= Seq::empty());
    let ghost mut n: int = 0;
    while rest.len() > 0
        invariant
            n == whole.len() - rest@.len(),
            0 <= n,
            forall|i: int|
                0 <= i < rest@.len() ==> (#[trigger] rest@[i]).deep_view() == whole[whole.len() - 1
                    - i],
            key_of == (|x: T::V| T::key_of(x)),
            out.deep_view() == sorted_by(whole.take(n), key_of),
        decreases rest@.len(),
    {
        match rest.pop() {
            Some(x) => {
                let ghost next = whole.take(n + 1);
                assert(next.drop_last() == whole.take(n));
                assert(next.last() == x.deep_view());
                insert_sorted(&mut out, x);
                proof {
                    n = n + 1;
                }
            },
            None => {},
        }
    }
    assert(whole.take(whole.len() as int) == whole);
    out
}

fn insert_sorted<T: Keyed>(v: &mut Vec<T>, x: T)
    ensures
        final(v).deep_view() == old(v).deep_view().insert(
            insert_pos(
                old(v).deep_view(),
                T::key_of(x.deep_view()),
                |y: T::V| T::key_of(y),
            ) as int,
            x.deep_view(),
        ),
{
    let ghost key_of = |y: T::V| T::key_of(y);
    let ghost key = T::key_of(x.deep_view());
    let ghost all = v.deep_view();
    let mut i: usize = 0;
    assert(all.skip(0) == all);
    while i < v.len() && v[i].may_precede(&x)
        invariant
            i <= v@.len(),
            all == v.deep_view(),
            key == T::key_of(x.deep_view()),
            key_of == (|y: T::V| T::key_of(y)),
            insert_pos(all, key, key_of) == i + insert_pos(all.skip(i as int), key, key_of),
        decreases v@.len() - i,
    {
        assert(all.skip(i as int)[0] == v@[i as int].deep_view());
        assert(all.skip(i as int).skip(1) == all.skip(i + 1));
        i += 1;
    }
    proof {
        if i < v@.len() {
            assert(all.skip(i as int)[0] == v@[i as int].deep_view());
        }
        lemma_insert_pos(all, key, key_of);
    }
    let ghost view = x.deep_view();
    v.insert(i, x);
    assert(v.deep_view() =~= all.insert(i as int, view));
}

impl Keyed for String {
    open spec fn key_of(v: Seq<char>) -> Seq<Seq<char>> {
        seq![v]
    }

    fn may_precede(&self, other: &Self) -> (r: bool) {
        proof {
            reveal_with_fuel(key_le, 2);
        }
        rank_texts(self, other) != Rank::Greater
    }
}

/// Texts are ordered by the first character in which they differ, and a text goes before every
/// longer one that begins with it.
pub proof fn law_texts_are_ordered_by_first_difference(
    common: Seq<char>,
    x: char,
    y: char,
    a: Seq<char>,
    b: Seq<char>,
)
    requires
        x != y,
    ensures
        text_le(common + seq![x] + a, common + seq![y] + b) <==> x < y,
        text_le(common, common + b),
        !text_le(common + seq![x] + a, common),
    decreases common.len(),
{
    let p = common + seq![x] + a;
    let q = common + seq![y] + b;
    if common.len() == 0 {
        assert(p[0] == x);
        assert(q[0] == y);
    } else {
        let rest = common.skip(1);
        law_texts_are_ordered_by_first_difference(rest, x, y, a, b);
        assert(p.skip(1) =~= rest + seq![x] + a);
        assert(q.skip(1) =~= rest + seq![y] + b);
        assert((common + b).skip(1) =~= rest + b);
        assert(p[0] == common[0] && q[0] == common[0] && (common + b)[0] == common[0]);
    }
}

/// Keys are ordered by the first text in which they differ, and a key goes before every longer one
/// that begins with it.
pub proof fn law_keys_are_ordered_by_first_difference(
    common: Seq<Seq<char>>,
    x: Seq<char>,
    y: Seq<char>,
    a: Seq<Seq<char>>,
    b: Seq<Seq<char>>,
)
    requires
        x != y,
    ensures
        key_le(common + seq![x] + a, common + seq![y] + b) <==> text_le(x, y),
        key_le(common, common + b),
        !key_le(common + seq![x] + a, common),
    decreases common.len(),
{
    let p = common + seq![x] + a;
    let q = common + seq![y] + b;
    if common.len() == 0 {
        assert(p[0] == x);
        assert(q[0] == y);
    } else {
        let rest = common.skip(1);
        law_keys_are_ordered_by_first_difference(rest, x, y, a, b);
        assert(p.skip(1) =~= rest + seq![x] + a);
        assert(q.skip(1) =~= rest + seq![y] + b);
        assert((common + b).skip(1) =~= rest + b);
        assert(p[0] == common[0] && q[0] == common[0] && (common + b)[0] == common[0]);
    }
}

} // verus!
