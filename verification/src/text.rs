//! Text as sequences of characters.
//!
//! Contracts speak of `Seq<char>`; the executable functions work on character slices, so that a
//! trimmed or stripped part of a text is a view into it and nothing is copied before it must be.

use vstd::prelude::*;

verus! {

/// `String::push`: the text grows by the one character.
pub assume_specification[ String::push ](s: &mut String, c: char)
    ensures
        final(s)@ == old(s)@.push(c),
;

/// The characters with the Unicode property White_Space.
pub open spec fn is_white(c: char) -> bool {
    ||| 0x9 <= c as int <= 0xd
    ||| c as int == 0x20
    ||| c as int == 0x85
    ||| c as int == 0xa0
    ||| c as int == 0x1680
    ||| 0x2000 <= c as int <= 0x200a
    ||| c as int == 0x2028
    ||| c as int == 0x2029
    ||| c as int == 0x202f
    ||| c as int == 0x205f
    ||| c as int == 0x3000
}

/// Whether `c` is white space.
pub fn white(c: char) -> (r: bool)
    ensures
        r == is_white(c),
{
    let n: u32 = c as u32;
    (0x9 <= n && n <= 0xd) || n == 0x20 || n == 0x85 || n == 0xa0 || n == 0x1680 || (0x2000 <= n
        && n <= 0x200a) || n == 0x2028 || n == 0x2029 || n == 0x202f || n == 0x205f || n == 0x3000
}

/// A text as a vector of its characters.
pub fn chars_of(s: &str) -> (r: Vec<char>)
    ensures
        r@ == s@,
{
    let mut out: Vec<char> = Vec::new();
    for c in it: s.chars()
        invariant
            out@ == it.seq().take(it.index() as int),
            it.seq() == s@,
    {
        out.push(c);
        assert(it.seq().take(it.index() as int + 1) == it.seq().take(it.index() as int).push(
            it.seq()[it.index() as int],
        ));
    }
    assert(s@.take(s@.len() as int) == s@);
    out
}

/// A character slice as an owned text.
pub fn string_of(s: &[char]) -> (r: String)
    ensures
        r@ == s@,
{
    let mut out = String::new();
    push_chars(&mut out, s);
    out
}

/// Appends a character slice to a text.
pub fn push_chars(out: &mut String, s: &[char])
    ensures
        final(out)@ == old(out)@ + s@,
{
    let mut i: usize = 0;
    assert(s@.take(0) == Seq::<char>::empty());
    while i < s.len()
        invariant
            i <= s@.len(),
            out@ == old(out)@ + s@.take(i as int),
        decreases s@.len() - i,
    {
        out.push(s[i]);
        assert(s@.take(i as int + 1) == s@.take(i as int).push(s@[i as int]));
        i += 1;
    }
    assert(s@.take(s@.len() as int) == s@);
}

/// Whether two texts are the same.
pub fn same(a: &str, b: &str) -> (r: bool)
    ensures
        r == (a@ == b@),
{
    let x = chars_of(a);
    slice_is(&x, b)
}

/// Whether a character slice spells `b`.
pub fn slice_is(a: &[char], b: &str) -> (r: bool)
    ensures
        r == (a@ == b@),
{
    let y = chars_of(b);
    slices_same(a, &y)
}

/// Whether two character slices are the same.
pub fn slices_same(a: &[char], b: &[char]) -> (r: bool)
    ensures
        r == (a@ == b@),
{
    if a.len() != b.len() {
        return false;
    }
    let mut i: usize = 0;
    while i < a.len()
        invariant
            i <= a@.len(),
            a@.len() == b@.len(),
            forall|k: int| 0 <= k < i ==> a@[k] == b@[k],
        decreases a@.len() - i,
    {
        if a[i] != b[i] {
            return false;
        }
        i += 1;
    }
    assert(a@ =~= b@);
    true
}

/// Whether `s` begins with `p`.
pub fn starts_with(s: &[char], p: &str) -> (r: bool)
    ensures
        r == p@.is_prefix_of(s@),
{
    let y = chars_of(p);
    if y.len() > s.len() {
        return false;
    }
    slices_same(&s[0..y.len()], &y)
}

/// Whether `s` ends with `p`.
pub fn ends_with(s: &[char], p: &str) -> (r: bool)
    ensures
        r == p@.is_suffix_of(s@),
{
    let y = chars_of(p);
    if y.len() > s.len() {
        return false;
    }
    slices_same(&s[s.len() - y.len()..s.len()], &y)
}

/// What follows `p` in a text that begins with it.
pub open spec fn after_prefix(s: Seq<char>, p: Seq<char>) -> Option<Seq<char>> {
    if p.is_prefix_of(s) {
        Some(s.skip(p.len() as int))
    } else {
        None
    }
}

/// What precedes `p` in a text that ends with it.
pub open spec fn before_suffix(s: Seq<char>, p: Seq<char>) -> Option<Seq<char>> {
    if p.is_suffix_of(s) {
        Some(s.take(s.len() - p.len()))
    } else {
        None
    }
}

/// Strips the prefix `p`.
pub fn strip_prefix<'a>(s: &'a [char], p: &str) -> (r: Option<&'a [char]>)
    ensures
        r.deep_view() == after_prefix(s@, p@),
{
    if starts_with(s, p) {
        let n: usize = chars_of(p).len();
        let rest = &s[n..s.len()];
        assert(rest@ == s@.skip(n as int));
        assert(rest.deep_view() =~= rest@);
        Some(rest)
    } else {
        None
    }
}

/// Strips the suffix `p`.
pub fn strip_suffix<'a>(s: &'a [char], p: &str) -> (r: Option<&'a [char]>)
    ensures
        r.deep_view() == before_suffix(s@, p@),
{
    if ends_with(s, p) {
        let n: usize = chars_of(p).len();
        let rest = &s[0..s.len() - n];
        assert(rest@ == s@.take(s@.len() - n));
        assert(rest.deep_view() =~= rest@);
        Some(rest)
    } else {
        None
    }
}

/// A text without its leading white space.
pub open spec fn trimmed_start(s: Seq<char>) -> Seq<char>
    decreases s.len(),
{
    if s.len() > 0 && is_white(s[0]) {
        trimmed_start(s.skip(1))
    } else {
        s
    }
}

/// A text without its trailing white space.
pub open spec fn trimmed_end(s: Seq<char>) -> Seq<char>
    decreases s.len(),
{
    if s.len() > 0 && is_white(s.last()) {
        trimmed_end(s.drop_last())
    } else {
        s
    }
}

/// A text without leading and trailing white space.
pub open spec fn trimmed(s: Seq<char>) -> Seq<char> {
    trimmed_end(trimmed_start(s))
}

/// Drops leading white space.
pub fn trim_start<'a>(s: &'a [char]) -> (r: &'a [char])
    ensures
        r@ == trimmed_start(s@),
{
    let mut i: usize = 0;
    assert(s@.skip(0) == s@);
    while i < s.len() && white(s[i])
        invariant
            i <= s@.len(),
            trimmed_start(s@) == trimmed_start(s@.skip(i as int)),
        decreases s@.len() - i,
    {
        assert(s@.skip(i as int).skip(1) == s@.skip(i as int + 1));
        i += 1;
    }
    let r = &s[i..s.len()];
    assert(r@ == s@.skip(i as int));
    r
}

/// Drops trailing white space.
pub fn trim_end<'a>(s: &'a [char]) -> (r: &'a [char])
    ensures
        r@ == trimmed_end(s@),
{
    let mut n: usize = s.len();
    assert(s@.take(n as int) == s@);
    while n > 0 && white(s[n - 1])
        invariant
            n <= s@.len(),
            trimmed_end(s@) == trimmed_end(s@.take(n as int)),
        decreases n,
    {
        assert(s@.take(n as int).drop_last() == s@.take(n as int - 1));
        n -= 1;
    }
    let r = &s[0..n];
    assert(r@ == s@.take(n as int));
    r
}

/// Drops leading and trailing white space.
pub fn trim<'a>(s: &'a [char]) -> (r: &'a [char])
    ensures
        r@ == trimmed(s@),
{
    trim_end(trim_start(s))
}

/// The position of the first `c`, or the length where there is none.
pub open spec fn first_index(s: Seq<char>, c: char) -> nat
    decreases s.len(),
{
    if s.len() == 0 || s[0] == c {
        0
    } else {
        1 + first_index(s.skip(1), c)
    }
}

/// `first_index` is where the first `c` stands: nothing before it equals `c`.
pub proof fn lemma_first_index(s: Seq<char>, c: char)
    ensures
        first_index(s, c) <= s.len(),
        first_index(s, c) < s.len() ==> s[first_index(s, c) as int] == c,
        forall|i: int| 0 <= i < first_index(s, c) ==> s[i] != c,
        s.contains(c) == (first_index(s, c) < s.len()),
    decreases s.len(),
{
    if s.len() == 0 || s[0] == c {
    } else {
        lemma_first_index(s.skip(1), c);
        assert forall|i: int| 0 <= i < first_index(s, c) implies s[i] != c by {
            if i > 0 {
                assert(s.skip(1)[i - 1] == s[i]);
            }
        }
        if s.contains(c) {
            let k = s.index_of(c);
            assert(s.skip(1)[k - 1] == c);
        }
    }
}

/// The position of the first `c`, or the length where there is none.
pub fn find_char(s: &[char], c: char) -> (r: usize)
    ensures
        r == first_index(s@, c),
        r <= s@.len(),
{
    let mut i: usize = 0;
    assert(s@.skip(0) == s@);
    while i < s.len() && s[i] != c
        invariant
            i <= s@.len(),
            first_index(s@, c) == i + first_index(s@.skip(i as int), c),
        decreases s@.len() - i,
    {
        assert(s@.skip(i as int).skip(1) == s@.skip(i as int + 1));
        i += 1;
    }
    i
}

/// Whether `c` occurs.
pub fn has_char(s: &[char], c: char) -> (r: bool)
    ensures
        r == s@.contains(c),
{
    proof {
        lemma_first_index(s@, c);
    }
    find_char(s, c) < s.len()
}

/// The position of the last `c`, or the length where there is none.
pub open spec fn last_index(s: Seq<char>, c: char) -> nat {
    if s.contains(c) {
        (s.len() - 1 - first_index(s.reverse(), c)) as nat
    } else {
        s.len()
    }
}

/// The position of the last `c`, or the length where there is none.
pub fn find_last_char(s: &[char], c: char) -> (r: usize)
    ensures
        r == last_index(s@, c),
        r <= s@.len(),
{
    let mut n: usize = s.len();
    let ghost rev = s@.reverse();
    proof {
        assert(rev.skip(0) == rev);
        lemma_first_index(rev, c);
    }
    while n > 0
        invariant
            n <= s@.len(),
            rev == s@.reverse(),
            first_index(rev, c) == (s@.len() - n) + first_index(rev.skip(s@.len() - n), c),
            forall|k: int| n <= k < s@.len() ==> s@[k] != c,
        decreases n,
    {
        let ghost tail = rev.skip(s@.len() - n);
        assert(tail[0] == s@[n - 1]);
        if s[n - 1] == c {
            assert(s@.contains(c));
            return n - 1;
        }
        assert(tail.skip(1) == rev.skip(s@.len() - (n - 1)));
        n -= 1;
    }
    assert(!s@.contains(c));
    s.len()
}

/// The position at which `p` first occurs in `s`, where it does.
pub open spec fn first_match(s: Seq<char>, p: Seq<char>) -> Option<int>
    decreases s.len(),
{
    if p.is_prefix_of(s) {
        Some(0)
    } else if s.len() == 0 {
        None
    } else {
        match first_match(s.skip(1), p) {
            Some(i) => Some(i + 1),
            None => None,
        }
    }
}

/// Whether `p` occurs in `s` as consecutive characters.
pub open spec fn occurs_in(p: Seq<char>, s: Seq<char>) -> bool {
    exists|i: int| 0 <= i <= s.len() - p.len() && #[trigger] s.subrange(i, i + p.len()) == p
}

/// A first match is a match, and there is one exactly where the pattern occurs.
pub proof fn lemma_first_match(s: Seq<char>, p: Seq<char>)
    ensures
        first_match(s, p) is Some <==> occurs_in(p, s),
        first_match(s, p) matches Some(i) ==> 0 <= i && i + p.len() <= s.len() && s.subrange(
            i,
            i + p.len(),
        ) == p,
        first_match(s, p) matches Some(i) ==> forall|k: int|
            0 <= k < i ==> #[trigger] s.subrange(k, k + p.len()) != p,
    decreases s.len(),
{
    if p.is_prefix_of(s) {
        assert(s.subrange(0int, 0int + p.len()) == p);
    } else if s.len() == 0 {
        assert forall|i: int|
            0 <= i <= s.len() - p.len() implies #[trigger] s.subrange(i, i + p.len()) != p by {
            assert(s.subrange(0int, 0int + p.len()) == s.subrange(0, p.len() as int));
        }
    } else {
        let t = s.skip(1);
        lemma_first_match(t, p);
        if occurs_in(p, s) {
            let i = choose|i: int|
                0 <= i <= s.len() - p.len() && #[trigger] s.subrange(i, i + p.len()) == p;
            assert(i > 0) by {
                if i == 0 {
                    assert(s.subrange(0int, 0int + p.len()) == s.subrange(0, p.len() as int));
                }
            }
            assert(t.subrange(i - 1, i - 1 + p.len()) == s.subrange(i, i + p.len()));
            assert(occurs_in(p, t));
        }
        if let Some(i) = first_match(t, p) {
            assert(t.subrange(i, i + p.len()) == s.subrange(i + 1, i + 1 + p.len()));
            assert(occurs_in(p, s));
            assert forall|k: int| 0 <= k < i + 1 implies #[trigger] s.subrange(k, k + p.len())
                != p by {
                if k == 0 {
                    assert(s.subrange(0int, 0int + p.len()) == s.subrange(0, p.len() as int));
                } else {
                    assert(t.subrange(k - 1, k - 1 + p.len()) == s.subrange(k, k + p.len()));
                }
            }
        }
    }
}

/// The position at which `p` first occurs, if it does.
pub fn find_slice(s: &[char], p: &[char]) -> (r: Option<usize>)
    ensures
        r is Some <==> first_match(s@, p@) is Some,
        r matches Some(i) ==> first_match(s@, p@) == Some(i as int) && i + p@.len() <= s@.len(),
{
    let mut i: usize = 0;
    assert(s@.skip(0) == s@);
    proof {
        lemma_first_match(s@, p@);
    }
    loop
        invariant
            i <= s@.len(),
            first_match(s@, p@) == match first_match(s@.skip(i as int), p@) {
                Some(k) => Some(i + k),
                None => None,
            },
        decreases s@.len() - i,
    {
        let tail = &s[i..s.len()];
        assert(tail@ == s@.skip(i as int));
        if p.len() <= tail.len() && slices_same(&tail[0..p.len()], p) {
            return Some(i);
        }
        assert(!p@.is_prefix_of(tail@));
        if i == s.len() {
            return None;
        }
        assert(s@.skip(i as int).skip(1) == s@.skip(i as int + 1));
        i += 1;
    }
}

/// The position at which the text `p` first occurs, if it does.
pub fn find_text(s: &[char], p: &str) -> (r: Option<usize>)
    ensures
        r is Some <==> first_match(s@, p@) is Some,
        r matches Some(i) ==> first_match(s@, p@) == Some(i as int) && i + p@.len() <= s@.len(),
{
    let y = chars_of(p);
    find_slice(s, &y)
}

/// Whether `p` occurs in `s`.
pub fn contains_text(s: &[char], p: &str) -> (r: bool)
    ensures
        r == occurs_in(p@, s@),
{
    proof {
        lemma_first_match(s@, p@);
    }
    find_text(s, p).is_some()
}

/// The length of the word that a text begins with.
pub open spec fn word_len(s: Seq<char>) -> nat
    decreases s.len(),
{
    if s.len() == 0 || is_white(s[0]) {
        0
    } else {
        1 + word_len(s.skip(1))
    }
}

pub proof fn lemma_word_len(s: Seq<char>)
    ensures
        word_len(s) <= s.len(),
        forall|i: int| 0 <= i < word_len(s) ==> !is_white(s[i]),
        word_len(s) < s.len() ==> is_white(s[word_len(s) as int]),
    decreases s.len(),
{
    if s.len() == 0 || is_white(s[0]) {
    } else {
        lemma_word_len(s.skip(1));
        assert forall|i: int| 0 <= i < word_len(s) implies !is_white(s[i]) by {
            if i > 0 {
                assert(s.skip(1)[i - 1] == s[i]);
            }
        }
    }
}

pub proof fn lemma_trimmed_start(s: Seq<char>)
    ensures
        trimmed_start(s).len() <= s.len(),
        trimmed_start(s).len() > 0 ==> !is_white(trimmed_start(s)[0]),
        trimmed_start(s).is_suffix_of(s),
    decreases s.len(),
{
    if s.len() > 0 && is_white(s[0]) {
        lemma_trimmed_start(s.skip(1));
        let t = trimmed_start(s);
        assert(s.skip(1).subrange(s.skip(1).len() - t.len(), s.skip(1).len() as int) == s.subrange(
            s.len() - t.len(),
            s.len() as int,
        ));
    } else {
        assert(s.subrange(0, s.len() as int) == s);
    }
}

pub proof fn lemma_trimmed_end(s: Seq<char>)
    ensures
        trimmed_end(s).len() <= s.len(),
        trimmed_end(s).len() > 0 ==> !is_white(trimmed_end(s).last()),
        trimmed_end(s).is_prefix_of(s),
    decreases s.len(),
{
    if s.len() > 0 && is_white(s.last()) {
        lemma_trimmed_end(s.drop_last());
        let t = trimmed_end(s);
        assert(s.drop_last().subrange(0, t.len() as int) == s.subrange(0, t.len() as int));
    } else {
        assert(s.subrange(0, s.len() as int) == s);
    }
}

/// The words of a text: its longest runs without white space, in order.
pub open spec fn words_of(s: Seq<char>) -> Seq<Seq<char>>
    decreases s.len(),
{
    proof {
        lemma_trimmed_start(s);
        lemma_word_len(trimmed_start(s));
    }
    let t = trimmed_start(s);
    if t.len() == 0 {
        Seq::empty()
    } else {
        let n = word_len(t) as int;
        seq![t.take(n)] + words_of(t.skip(n))
    }
}

/// The texts of `parts`, with `sep` between each two of them.
pub open spec fn joined(parts: Seq<Seq<char>>, sep: Seq<char>) -> Seq<char>
    decreases parts.len(),
{
    if parts.len() == 0 {
        Seq::empty()
    } else if parts.len() == 1 {
        parts[0]
    } else {
        joined(parts.drop_last(), sep) + sep + parts.last()
    }
}

/// Splits a text into its words and joins them again with single spaces.
pub fn compress_white(s: &[char]) -> (r: Vec<char>)
    ensures
        r@ == joined(words_of(s@), seq![' ']),
{
    let mut out: Vec<char> = Vec::new();
    let mut rest = trim_start(s);
    let ghost mut done: Seq<Seq<char>> = Seq::empty();
    proof {
        lemma_trimmed_start(s@);
        assert(trimmed_start(rest@) == rest@);
        assert(words_of(s@) == words_of(rest@)) by {
            lemma_word_len(rest@);
        }
        assert(done + words_of(rest@) == words_of(s@));
    }
    while rest.len() > 0
        invariant
            rest@.len() > 0 ==> !is_white(rest@[0]),
            done + words_of(rest@) == words_of(s@),
            out@ == joined(done, seq![' ']),
            done.len() == 0 ==> out@.len() == 0,
            done.len() > 0 ==> out@.len() > 0,
        decreases rest@.len(),
    {
        let mut n: usize = 0;
        assert(rest@.skip(0) == rest@);
        while n < rest.len() && !white(rest[n])
            invariant
                n <= rest@.len(),
                word_len(rest@) == n + word_len(rest@.skip(n as int)),
            decreases rest@.len() - n,
        {
            assert(rest@.skip(n as int).skip(1) == rest@.skip(n as int + 1));
            n += 1;
        }
        let word = &rest[0..n];
        let tail = &rest[n..rest.len()];
        let ghost before = out@;
        if out.len() > 0 {
            out.push(' ');
        }
        let mut k: usize = 0;
        let ghost start = out@;
        assert(word@.take(0) == Seq::<char>::empty());
        while k < word.len()
            invariant
                k <= word@.len(),
                out@ == start + word@.take(k as int),
            decreases word@.len() - k,
        {
            out.push(word[k]);
            assert(word@.take(k as int + 1) == word@.take(k as int).push(word@[k as int]));
            k += 1;
        }
        assert(word@.take(word@.len() as int) == word@);
        proof {
            lemma_word_len(rest@);
            assert(trimmed_start(rest@) == rest@);
            assert(word@ == rest@.take(n as int));
            assert(tail@ == rest@.skip(n as int));
            assert(words_of(rest@) == seq![word@] + words_of(tail@));
            let next = done.push(word@);
            assert(next.drop_last() == done);
            assert(next + words_of(tail@) == done + words_of(rest@));
            if done.len() > 0 {
                assert(before.push(' ') == before + seq![' ']);
                assert(out@ == joined(done, seq![' ']) + seq![' '] + word@);
            } else {
                assert(out@ == word@);
            }
            assert(out@ == joined(next, seq![' ']));
            done = next;
        }
        rest = trim_start(tail);
        proof {
            lemma_trimmed_start(tail@);
            lemma_word_len(rest@);
            assert(trimmed_start(rest@) == rest@);
            assert(words_of(tail@) == words_of(rest@));
        }
    }
    assert(words_of(rest@) == Seq::<Seq<char>>::empty()) by {
        lemma_trimmed_start(rest@);
    }
    assert(done == words_of(s@));
    out
}

/// A line as it stood before its line feed: a carriage return that ends it belongs to the line
/// ending.
pub open spec fn without_cr(s: Seq<char>) -> Seq<char> {
    if s.len() > 0 && s.last() == '\r' {
        s.drop_last()
    } else {
        s
    }
}

/// The lines of a text, without their line endings. A line feed at the very end begins no new
/// line, and a carriage return counts only before a line feed.
pub open spec fn lines_of(s: Seq<char>) -> Seq<Seq<char>>
    decreases s.len(),
{
    let n = first_index(s, '\n') as int;
    if s.len() == 0 {
        Seq::empty()
    } else if n < s.len() {
        seq![without_cr(s.take(n))] + lines_of(s.skip(n + 1))
    } else {
        seq![s]
    }
}

/// A text has no more lines than characters, and none longer than itself.
pub proof fn lemma_lines_of(s: Seq<char>)
    ensures
        lines_of(s).len() <= s.len(),
        forall|i: int| 0 <= i < lines_of(s).len() ==> (#[trigger] lines_of(s)[i]).len() <= s.len(),
    decreases s.len(),
{
    lemma_first_index(s, '\n');
    let n = first_index(s, '\n') as int;
    if s.len() > 0 && n < s.len() {
        lemma_lines_of(s.skip(n + 1));
        assert forall|i: int| 0 <= i < lines_of(s).len() implies (#[trigger] lines_of(s)[i]).len()
            <= s.len() by {
            if i > 0 {
                assert(lines_of(s)[i] == lines_of(s.skip(n + 1))[i - 1]);
            }
        }
    }
}

/// Splits a text into its lines.
pub fn lines<'a>(s: &'a [char]) -> (r: Vec<&'a [char]>)
    ensures
        r@.len() == lines_of(s@).len(),
        forall|i: int| 0 <= i < r@.len() ==> (#[trigger] r@[i])@ == lines_of(s@)[i],
        r@.len() <= s@.len(),
        forall|i: int| 0 <= i < r@.len() ==> (#[trigger] r@[i])@.len() <= s@.len(),
{
    let mut out: Vec<&'a [char]> = Vec::new();
    let mut rest = s;
    let ghost mut done: Seq<Seq<char>> = Seq::empty();
    assert(done + lines_of(rest@) == lines_of(s@));
    while rest.len() > 0
        invariant
            done + lines_of(rest@) == lines_of(s@),
            out@.len() == done.len(),
            forall|i: int| 0 <= i < out@.len() ==> (#[trigger] out@[i])@ == done[i],
        decreases rest@.len(),
    {
        let n: usize = find_char(rest, '\n');
        proof {
            lemma_first_index(rest@, '\n');
        }
        if n < rest.len() {
            let line = if n > 0 && rest[n - 1] == '\r' {
                &rest[0..n - 1]
            } else {
                &rest[0..n]
            };
            let tail = &rest[n + 1..rest.len()];
            proof {
                assert(tail@ == rest@.skip(n as int + 1));
                assert(line@ == without_cr(rest@.take(n as int)));
                assert(done.push(line@) + lines_of(tail@) == done + lines_of(rest@));
                done = done.push(line@);
            }
            out.push(line);
            rest = tail;
        } else {
            proof {
                assert(rest@.subrange(0, rest@.len() as int) == rest@);
                done = done.push(rest@);
                assert(done == lines_of(s@));
            }
            out.push(rest);
            rest = &rest[n..n];
        }
    }
    proof {
        assert(done == lines_of(s@));
        lemma_lines_of(s@);
    }
    out
}

/// A text with every `from` replaced by `to`.
pub open spec fn replaced(s: Seq<char>, from: char, to: char) -> Seq<char> {
    s.map_values(|c: char| if c == from { to } else { c })
}

/// Replaces every `from` by `to`.
pub fn replace_char(s: &[char], from: char, to: char) -> (r: Vec<char>)
    ensures
        r@ == replaced(s@, from, to),
{
    let mut out: Vec<char> = Vec::new();
    let mut i: usize = 0;
    while i < s.len()
        invariant
            i <= s@.len(),
            out@.len() == i,
            forall|k: int| 0 <= k < i ==> out@[k] == replaced(s@, from, to)[k],
        decreases s@.len() - i,
    {
        out.push(if s[i] == from { to } else { s[i] });
        i += 1;
    }
    assert(out@ =~= replaced(s@, from, to));
    out
}

/// The decimal digit `d`.
pub open spec fn digit(d: int) -> char {
    (48 + d) as char
}

/// A number in decimal, without leading zeros.
pub open spec fn decimal(n: nat) -> Seq<char>
    decreases n,
{
    if n < 10 {
        seq![digit(n as int)]
    } else {
        decimal(n / 10).push(digit((n % 10) as int))
    }
}

fn digit_char(d: u64) -> (r: char)
    requires
        d < 10,
    ensures
        r == digit(d as int),
{
    match d {
        0 => '0',
        1 => '1',
        2 => '2',
        3 => '3',
        4 => '4',
        5 => '5',
        6 => '6',
        7 => '7',
        8 => '8',
        _ => '9',
    }
}

/// Appends a number in decimal.
pub fn push_number(out: &mut String, n: u64)
    ensures
        final(out)@ == old(out)@ + decimal(n as nat),
    decreases n,
{
    if n >= 10 {
        push_number(out, n / 10);
    }
    out.push(digit_char(n % 10));
    proof {
        if n >= 10 {
            assert(out@ == old(out)@ + decimal(n as nat));
        } else {
            assert(out@ == old(out)@ + decimal(n as nat));
        }
    }
}

/// A number in decimal.
pub fn number(n: u64) -> (r: String)
    ensures
        r@ == decimal(n as nat),
{
    let mut out = String::new();
    push_number(&mut out, n);
    assert(out@ == decimal(n as nat));
    out
}

/// A text without the characters `c` that it begins with.
pub open spec fn without_leading(s: Seq<char>, c: char) -> Seq<char>
    decreases s.len(),
{
    if s.len() > 0 && s[0] == c {
        without_leading(s.skip(1), c)
    } else {
        s
    }
}

/// Drops the characters `c` that a text begins with.
pub fn trim_leading<'a>(s: &'a [char], c: char) -> (r: &'a [char])
    ensures
        r@ == without_leading(s@, c),
{
    let mut i: usize = 0;
    assert(s@.skip(0) == s@);
    while i < s.len() && s[i] == c
        invariant
            i <= s@.len(),
            without_leading(s@, c) == without_leading(s@.skip(i as int), c),
        decreases s@.len() - i,
    {
        assert(s@.skip(i as int).skip(1) == s@.skip(i as int + 1));
        i += 1;
    }
    let r = &s[i..s.len()];
    assert(r@ == s@.skip(i as int));
    r
}

/// A text without the repetitions of `p` that it begins with.
pub open spec fn without_prefixes(s: Seq<char>, p: Seq<char>) -> Seq<char>
    decreases s.len(),
{
    if p.len() > 0 && p.is_prefix_of(s) {
        without_prefixes(s.skip(p.len() as int), p)
    } else {
        s
    }
}

/// Drops the repetitions of `p` that a text begins with.
pub fn trim_prefixes<'a>(s: &'a [char], p: &str) -> (r: &'a [char])
    ensures
        r@ == without_prefixes(s@, p@),
{
    let n: usize = chars_of(p).len();
    let mut rest = s;
    while n > 0 && starts_with(rest, p)
        invariant
            n == p@.len(),
            without_prefixes(s@, p@) == without_prefixes(rest@, p@),
        decreases rest@.len(),
    {
        let next = &rest[n..rest.len()];
        assert(next@ == rest@.skip(n as int));
        rest = next;
    }
    rest
}

/// An ASCII capital letter as its small letter; other characters stay.
pub open spec fn lower(c: char) -> char {
    if 'A' <= c && c <= 'Z' {
        (c as int + 32) as char
    } else {
        c
    }
}

/// A text with its ASCII letters small.
pub open spec fn lowered(s: Seq<char>) -> Seq<char> {
    s.map_values(|c: char| lower(c))
}

fn lower_char(c: char) -> (r: char)
    ensures
        r == lower(c),
{
    if 'A' <= c && c <= 'Z' {
        (c as u8 + 32) as char
    } else {
        c
    }
}

/// A text with its ASCII letters small.
pub fn lowercase(s: &[char]) -> (r: Vec<char>)
    ensures
        r@ == lowered(s@),
{
    let mut out: Vec<char> = Vec::new();
    let mut i: usize = 0;
    while i < s.len()
        invariant
            i <= s@.len(),
            out@.len() == i,
            forall|k: int| 0 <= k < i ==> out@[k] == lower(s@[k]),
        decreases s@.len() - i,
    {
        out.push(lower_char(s[i]));
        i += 1;
    }
    assert(out@ =~= lowered(s@));
    out
}

/// Whether every character is a decimal digit.
pub open spec fn all_digits(s: Seq<char>) -> bool {
    forall|i: int| 0 <= i < s.len() ==> '0' <= #[trigger] s[i] && s[i] <= '9'
}

/// The number that digits spell.
pub open spec fn digits_value(s: Seq<char>) -> nat
    decreases s.len(),
{
    if s.len() == 0 {
        0
    } else {
        (digits_value(s.drop_last()) * 10 + (s.last() as int - 48)) as nat
    }
}

/// The number that a text spells in decimal, with an optional plus sign, if it is at most `max`.
pub open spec fn unsigned_of(s: Seq<char>, max: nat) -> Option<nat> {
    let digits = if s.len() > 0 && s[0] == '+' {
        s.skip(1)
    } else {
        s
    };
    if digits.len() > 0 && all_digits(digits) && digits_value(digits) <= max {
        Some(digits_value(digits))
    } else {
        None
    }
}

/// More digits never spell a smaller number.
pub proof fn lemma_digits_grow(s: Seq<char>, n: int)
    requires
        0 <= n <= s.len(),
        all_digits(s),
    ensures
        digits_value(s.take(n)) <= digits_value(s),
    decreases s.len(),
{
    if n == s.len() {
        assert(s.take(n) == s);
    } else {
        let t = s.drop_last();
        assert(t.take(n) == s.take(n));
        assert(all_digits(t)) by {
            assert forall|i: int| 0 <= i < t.len() implies '0' <= #[trigger] t[i] && t[i]
                <= '9' by {
                assert(t[i] == s[i]);
            }
        }
        lemma_digits_grow(t, n);
        assert('0' <= s[s.len() - 1]);
    }
}

/// A number in decimal reads back as itself.
pub proof fn lemma_decimal(n: nat)
    ensures
        decimal(n).len() > 0,
        all_digits(decimal(n)),
        digits_value(decimal(n)) == n,
    decreases n,
{
    let d = decimal(n);
    if n < 10 {
        assert(d.drop_last() == Seq::<char>::empty());
        assert(digits_value(d.drop_last()) == 0);
        assert(d.last() == digit(n as int));
    } else {
        lemma_decimal(n / 10);
        assert(d.drop_last() == decimal(n / 10));
        assert(d.last() == digit((n % 10) as int));
    }
}

fn digit_value(c: char) -> (r: u64)
    requires
        '0' <= c && c <= '9',
    ensures
        r == c as int - 48,
        r < 10,
{
    (c as u64) - 48
}

/// Reads a decimal number that is at most `max`.
pub fn parse_unsigned(s: &[char], max: u64) -> (r: Option<u64>)
    ensures
        r is Some <==> unsigned_of(s@, max as nat) is Some,
        r matches Some(n) ==> unsigned_of(s@, max as nat) == Some(n as nat),
{
    let digits: &[char] = if s.len() > 0 && s[0] == '+' {
        let d = &s[1..s.len()];
        assert(d@ == s@.skip(1));
        d
    } else {
        s
    };
    if digits.len() == 0 {
        return None;
    }
    let mut n: u64 = 0;
    let mut i: usize = 0;
    let mut over = false;
    assert(digits@.take(0) == Seq::<char>::empty());
    while i < digits.len()
        invariant
            i <= digits@.len(),
            all_digits(digits@.take(i as int)),
            over ==> digits_value(digits@.take(i as int)) > max,
            !over ==> n == digits_value(digits@.take(i as int)) && n <= max,
            digits@.len() > 0,
            digits@ == (if s@.len() > 0 && s@[0] == '+' {
                s@.skip(1)
            } else {
                s@
            }),
        decreases digits@.len() - i,
    {
        let c = digits[i];
        let ghost head = digits@.take(i as int);
        let ghost next = digits@.take(i + 1);
        assert(next.drop_last() == head);
        assert(next.last() == c);
        if !('0' <= c && c <= '9') {
            assert(!all_digits(digits@)) by {
                assert(digits@[i as int] == c);
            }
            return None;
        }
        assert(all_digits(next)) by {
            assert forall|k: int| 0 <= k < next.len() implies '0' <= #[trigger] next[k] && next[k]
                <= '9' by {
                if k < i {
                    assert(next[k] == head[k]);
                }
            }
        }
        if !over {
            let d: u64 = digit_value(c);
            if n > (u64::MAX - d) / 10 || n * 10 + d > max {
                over = true;
            } else {
                n = n * 10 + d;
            }
        }
        i += 1;
    }
    assert(digits@.take(digits@.len() as int) == digits@);
    if over {
        None
    } else {
        Some(n)
    }
}

/// The bytes of an ASCII text.
pub open spec fn ascii(s: Seq<char>) -> Seq<u8> {
    s.map_values(|c: char| c as u8)
}

/// The byte of an ASCII character.
pub fn ascii_byte(c: char) -> (r: u8)
    ensures
        r == c as u8,
{
    c as u8
}

/// The bytes of an ASCII text.
pub fn ascii_bytes(s: &str) -> (r: Vec<u8>)
    ensures
        r@ == ascii(s@),
{
    let chars = chars_of(s);
    let mut out: Vec<u8> = Vec::new();
    let mut i: usize = 0;
    while i < chars.len()
        invariant
            i <= chars@.len(),
            chars@ == s@,
            out@.len() == i,
            forall|k: int| 0 <= k < i ==> out@[k] == chars@[k] as u8,
        decreases chars@.len() - i,
    {
        out.push(ascii_byte(chars[i]));
        i += 1;
    }
    assert(out@ =~= ascii(s@));
    out
}

/// A text occurs in anything that holds it whole.
pub proof fn lemma_occurs_between(before: Seq<char>, s: Seq<char>, after: Seq<char>)
    ensures
        occurs_in(s, before + s + after),
{
    let at = before.len() as int;
    assert((before + s + after).subrange(at, at + s.len()) =~= s);
}

/// What occurs in a text occurs in every longer one that begins or ends with it.
pub proof fn lemma_occurs_in_longer(x: Seq<char>, y: Seq<char>)
    ensures
        forall|s: Seq<char>| occurs_in(s, x) ==> #[trigger] occurs_in(s, x + y),
        forall|s: Seq<char>| occurs_in(s, y) ==> #[trigger] occurs_in(s, x + y),
{
    assert forall|s: Seq<char>| occurs_in(s, x) implies #[trigger] occurs_in(s, x + y) by {
        let k = choose|k: int| 0 <= k <= x.len() - s.len() && #[trigger] x.subrange(
            k,
            k + s.len(),
        ) == s;
        assert((x + y).subrange(k, k + s.len()) =~= x.subrange(k, k + s.len()));
    }
    assert forall|s: Seq<char>| occurs_in(s, y) implies #[trigger] occurs_in(s, x + y) by {
        let k = choose|k: int| 0 <= k <= y.len() - s.len() && #[trigger] y.subrange(
            k,
            k + s.len(),
        ) == s;
        let at = x.len() + k;
        assert((x + y).subrange(at, at + s.len()) =~= y.subrange(k, k + s.len()));
    }
}

/// Every text occurs in itself.
pub proof fn lemma_occurs_in_itself(s: Seq<char>)
    ensures
        occurs_in(s, s),
{
    let at: int = 0;
    assert(s.subrange(at, at + s.len()) =~= s);
}

/// White space is the blank, the tabulators and line breaks, and some characters beyond ASCII; no
/// character that prints in ASCII is.
pub proof fn law_white_space(c: char)
    ensures
        is_white(' ') && is_white('\t') && is_white('\n') && is_white('\r') && is_white('\u{b}')
            && is_white('\u{c}'),
        is_white('\u{85}') && is_white('\u{a0}') && is_white('\u{1680}') && is_white('\u{2028}')
            && is_white('\u{2029}') && is_white('\u{202f}') && is_white('\u{205f}') && is_white(
            '\u{3000}',
        ),
        '\u{2000}' <= c <= '\u{200a}' ==> is_white(c),
        '!' <= c <= '~' ==> !is_white(c),
        is_white(c) ==> c <= ' ' || c >= '\u{85}',
        c >= '\u{3001}' ==> !is_white(c),
{
}

proof fn lemma_trimmed_start_cuts_white(s: Seq<char>)
    ensures
        forall|i: int| 0 <= i < s.len() - trimmed_start(s).len() ==> is_white(#[trigger] s[i]),
    decreases s.len(),
{
    if s.len() > 0 && is_white(s[0]) {
        let t = s.skip(1);
        lemma_trimmed_start_cuts_white(t);
        assert forall|i: int| 0 <= i < s.len() - trimmed_start(s).len() implies is_white(
            #[trigger] s[i],
        ) by {
            if i > 0 {
                assert(is_white(t[i - 1]));
            }
        }
    }
}

/// What trimming takes away at the end is white space.
pub proof fn lemma_trimmed_end_cuts_white(s: Seq<char>)
    ensures
        forall|i: int| trimmed_end(s).len() <= i < s.len() ==> is_white(#[trigger] s[i]),
    decreases s.len(),
{
    if s.len() > 0 && is_white(s.last()) {
        let t = s.drop_last();
        lemma_trimmed_end_cuts_white(t);
        assert forall|i: int| trimmed_end(s).len() <= i < s.len() implies is_white(
            #[trigger] s[i],
        ) by {
            if i < s.len() - 1 {
                assert(is_white(t[i]));
            }
        }
    }
}

/// Trimming takes away white space at both ends, all of it and nothing else.
pub proof fn law_trimming_takes_white_space_only(s: Seq<char>)
    ensures
        trimmed(s).len() > 0 ==> !is_white(trimmed(s)[0]) && !is_white(trimmed(s).last()),
        exists|i: int, j: int|
            {
                &&& 0 <= i <= j <= s.len()
                &&& trimmed(s) == #[trigger] s.subrange(i, j)
                &&& forall|k: int| 0 <= k < i ==> is_white(#[trigger] s[k])
                &&& forall|k: int| j <= k < s.len() ==> is_white(#[trigger] s[k])
            },
        trimmed(trimmed(s)) == trimmed(s),
{
    let t = trimmed_start(s);
    let u = trimmed_end(t);
    lemma_trimmed_start(s);
    lemma_trimmed_start_cuts_white(s);
    lemma_trimmed_end(t);
    lemma_trimmed_end_cuts_white(t);
    let i = s.len() - t.len();
    let j = i + u.len();
    assert(t =~= s.skip(i));
    assert(u =~= t.take(u.len() as int));
    assert(u =~= s.subrange(i, j));
    assert forall|k: int| j <= k < s.len() implies is_white(#[trigger] s[k]) by {
        assert(t[k - i] == s[k]);
    }
    if u.len() > 0 {
        assert(u[0] == t[0]);
    }
    assert(trimmed_start(u) == u);
    assert(trimmed_end(u) == u);
}

proof fn lemma_filter_white_prefix(s: Seq<char>, n: int)
    requires
        0 <= n <= s.len(),
        forall|k: int| 0 <= k < n ==> is_white(#[trigger] s[k]),
    ensures
        s.filter(|c: char| !is_white(c)) == s.skip(n).filter(|c: char| !is_white(c)),
{
    let keep = |c: char| !is_white(c);
    assert(s =~= s.take(n) + s.skip(n));
    Seq::filter_distributes_over_add(s.take(n), s.skip(n), keep);
    lemma_filter_white(s.take(n));
    assert(s.take(n).filter(keep) + s.skip(n).filter(keep) =~= s.skip(n).filter(keep));
}

proof fn lemma_filter_white(s: Seq<char>)
    requires
        forall|k: int| 0 <= k < s.len() ==> is_white(#[trigger] s[k]),
    ensures
        s.filter(|c: char| !is_white(c)) == Seq::<char>::empty(),
    decreases s.len(),
{
    reveal(Seq::filter);
    if s.len() > 0 {
        assert forall|k: int| 0 <= k < s.drop_last().len() implies is_white(
            #[trigger] s.drop_last()[k],
        ) by {
            assert(s.drop_last()[k] == s[k]);
        }
        lemma_filter_white(s.drop_last());
        assert(is_white(s[s.len() - 1]));
    }
}

/// A text without white space loses nothing where white space is taken out.
pub proof fn lemma_filter_word(s: Seq<char>)
    requires
        forall|k: int| 0 <= k < s.len() ==> !is_white(#[trigger] s[k]),
    ensures
        s.filter(|c: char| !is_white(c)) == s,
    decreases s.len(),
{
    reveal(Seq::filter);
    if s.len() > 0 {
        assert forall|k: int| 0 <= k < s.drop_last().len() implies !is_white(
            #[trigger] s.drop_last()[k],
        ) by {
            assert(s.drop_last()[k] == s[k]);
        }
        lemma_filter_word(s.drop_last());
        assert(!is_white(s[s.len() - 1]));
        assert(s =~= s.drop_last().push(s.last()));
    }
}

/// The words of a text are never empty and hold no white space, and one after another they are the
/// text without its white space.
pub proof fn law_words_are_what_is_between_white_space(s: Seq<char>)
    ensures
        forall|i: int| 0 <= i < words_of(s).len() ==> (#[trigger] words_of(s)[i]).len() > 0,
        forall|i: int, k: int|
            0 <= i < words_of(s).len() && 0 <= k < words_of(s)[i].len() ==> !is_white(
                #[trigger] words_of(s)[i][k],
            ),
        words_of(s).flatten() == s.filter(|c: char| !is_white(c)),
    decreases s.len(),
{
    let keep = |c: char| !is_white(c);
    let t = trimmed_start(s);
    lemma_trimmed_start(s);
    lemma_trimmed_start_cuts_white(s);
    assert(t =~= s.skip(s.len() - t.len()));
    lemma_filter_white_prefix(s, s.len() - t.len());
    if t.len() == 0 {
        assert(words_of(s).flatten() =~= Seq::<char>::empty());
        lemma_filter_white(t);
    } else {
        let n = word_len(t) as int;
        lemma_word_len(t);
        assert(n > 0);
        let w = t.take(n);
        let rest = t.skip(n);
        law_words_are_what_is_between_white_space(rest);
        assert(words_of(s) =~= seq![w] + words_of(rest));
        assert forall|i: int| 0 <= i < words_of(s).len() implies (#[trigger] words_of(s)[i]).len()
            > 0 by {
            if i > 0 {
                assert(words_of(s)[i] == words_of(rest)[i - 1]);
            }
        }
        assert forall|i: int, k: int|
            0 <= i < words_of(s).len() && 0 <= k < words_of(s)[i].len() implies !is_white(
            #[trigger] words_of(s)[i][k],
        ) by {
            if i > 0 {
                assert(words_of(s)[i] == words_of(rest)[i - 1]);
            } else {
                assert(w[k] == t[k]);
            }
        }
        assert(words_of(s).first() == w);
        assert(words_of(s).drop_first() =~= words_of(rest));
        assert(words_of(s).flatten() == w + words_of(rest).flatten());
        assert(t =~= w + rest);
        Seq::filter_distributes_over_add(w, rest, keep);
        assert forall|k: int| 0 <= k < w.len() implies !is_white(#[trigger] w[k]) by {
            assert(w[k] == t[k]);
        }
        lemma_filter_word(w);
    }
}

/// Joining puts the separator between two lists of texts, and none before the first or after the
/// last.
pub proof fn law_joined_lists(a: Seq<Seq<char>>, b: Seq<Seq<char>>, sep: Seq<char>)
    requires
        a.len() > 0,
        b.len() > 0,
    ensures
        joined(a + b, sep) == joined(a, sep) + sep + joined(b, sep),
        a.len() == 1 ==> joined(a, sep) == a[0],
    decreases b.len(),
{
    let all = a + b;
    assert(all.drop_last() =~= a + b.drop_last());
    assert(all.last() == b.last());
    if b.len() == 1 {
        assert(a + b.drop_last() =~= a);
    } else {
        law_joined_lists(a, b.drop_last(), sep);
        assert(joined(a, sep) + sep + joined(b.drop_last(), sep) + sep + b.last() =~= joined(a, sep)
            + sep + (joined(b.drop_last(), sep) + sep + b.last()));
    }
}

proof fn lemma_line_before_feed(line: Seq<char>, rest: Seq<char>)
    requires
        !line.contains('\n'),
    ensures
        ({
            let s = line + seq!['\n'] + rest;
            &&& s.len() > 0
            &&& first_index(s, '\n') == line.len()
            &&& s.take(line.len() as int) == line
            &&& s.skip(line.len() as int + 1) == rest
        }),
{
    let s = line + seq!['\n'] + rest;
    lemma_first_index(s, '\n');
    assert(s[line.len() as int] == '\n');
    assert(s.contains('\n'));
    let n = first_index(s, '\n') as int;
    if n < line.len() {
        assert(s[n] == line[n]);
    }
    assert(s.take(n) =~= line);
    assert(s.skip(n + 1) =~= rest);
}

/// A line ends at its line feed, or at a carriage return right before it; what is left over without
/// a line feed is a line of its own.
#[verifier::rlimit(60)]
pub proof fn law_lines_end_at_line_feeds(line: Seq<char>, rest: Seq<char>)
    requires
        !line.contains('\n'),
    ensures
        lines_of(Seq::empty()).len() == 0,
        line.len() > 0 ==> lines_of(line) == seq![line],
        line.len() == 0 || line.last() != '\r' ==> lines_of(line + seq!['\n'] + rest) == seq![line]
            + lines_of(rest),
        lines_of(line + seq!['\r', '\n'] + rest) == seq![line] + lines_of(rest),
{
    lemma_first_index(line, '\n');
    lemma_line_before_feed(line, rest);
    let ended = line.push('\r');
    if ended.contains('\n') {
        let k = ended.index_of('\n');
        assert(line[k] == '\n');
    }
    lemma_line_before_feed(ended, rest);
    assert(ended.drop_last() =~= line);
    assert(line + seq!['\r', '\n'] + rest =~= ended + seq!['\n'] + rest);
}

/// The last occurrence of a character is one, and none follows it.
pub proof fn law_last_index(s: Seq<char>, c: char)
    ensures
        s.contains(c) <==> last_index(s, c) < s.len(),
        last_index(s, c) < s.len() ==> s[last_index(s, c) as int] == c,
        forall|k: int| last_index(s, c) < k < s.len() ==> #[trigger] s[k] != c,
        !s.contains(c) ==> last_index(s, c) == s.len(),
{
    let rev = s.reverse();
    lemma_first_index(rev, c);
    if s.contains(c) {
        let k = s.index_of(c);
        assert(rev[s.len() - 1 - k] == c);
        assert(rev.contains(c));
        let f = first_index(rev, c) as int;
        assert forall|k: int| last_index(s, c) < k < s.len() implies #[trigger] s[k] != c by {
            assert(rev[s.len() - 1 - k] == s[k]);
        }
    }
}

/// A number is read from its decimal digits, with or without a plus sign, as long as it is not too
/// large; anything else is no number.
pub proof fn law_numbers_are_read_from_digits(n: nat, max: nat, s: Seq<char>, i: int)
    requires
        0 < i < s.len(),
        !('0' <= s[i] && s[i] <= '9'),
    ensures
        n <= max ==> unsigned_of(decimal(n), max) == Some(n),
        n <= max ==> unsigned_of(seq!['+'] + decimal(n), max) == Some(n),
        n <= max ==> unsigned_of(seq!['0'] + decimal(n), max) == Some(n),
        n > max ==> unsigned_of(decimal(n), max) is None,
        unsigned_of(s, max) is None,
        unsigned_of(Seq::empty(), max) is None,
        unsigned_of(seq!['+'], max) is None,
{
    lemma_decimal(n);
    let d = decimal(n);
    assert('0' <= d[0] && d[0] <= '9');
    let p = seq!['+'] + d;
    assert(p.skip(1) =~= d);
    lemma_leading_zero(d);
    assert(seq!['+'].skip(1) =~= Seq::<char>::empty());
    assert(s.skip(1)[i - 1] == s[i]);
}

proof fn lemma_leading_zero(d: Seq<char>)
    requires
        all_digits(d),
    ensures
        digits_value(seq!['0'] + d) == digits_value(d),
        all_digits(seq!['0'] + d),
    decreases d.len(),
{
    let z = seq!['0'] + d;
    assert forall|i: int| 0 <= i < z.len() implies '0' <= #[trigger] z[i] && z[i] <= '9' by {
        if i > 0 {
            assert(z[i] == d[i - 1]);
        }
    }
    if d.len() == 0 {
        assert(z.drop_last() =~= Seq::<char>::empty());
        assert(digits_value(z.drop_last()) == 0);
    } else {
        let e = d.drop_last();
        assert forall|i: int| 0 <= i < e.len() implies '0' <= #[trigger] e[i] && e[i] <= '9' by {
            assert(e[i] == d[i]);
        }
        lemma_leading_zero(e);
        assert(z.drop_last() =~= seq!['0'] + e);
        assert(z.last() == d.last());
    }
}

/// Lowering makes ASCII capitals small and leaves everything else; done twice it is done once.
pub proof fn law_lowering(s: Seq<char>, t: Seq<char>, i: int)
    requires
        0 <= i < s.len(),
    ensures
        lowered(s).len() == s.len(),
        'A' <= s[i] <= 'Z' ==> lowered(s)[i] as int - 'a' as int == s[i] as int - 'A' as int,
        !('A' <= s[i] <= 'Z') ==> lowered(s)[i] == s[i],
        lowered(lowered(s)) == lowered(s),
        lowered(s + t) == lowered(s) + lowered(t),
{
    assert(lowered(lowered(s)) =~= lowered(s));
    assert(lowered(s + t) =~= lowered(s) + lowered(t));
}

/// What is replaced is gone, and nothing else changes.
pub proof fn law_replacing(s: Seq<char>, from: char, to: char, i: int)
    requires
        0 <= i < s.len(),
        from != to,
    ensures
        replaced(s, from, to).len() == s.len(),
        !replaced(s, from, to).contains(from),
        s[i] == from ==> replaced(s, from, to)[i] == to,
        s[i] != from ==> replaced(s, from, to)[i] == s[i],
{
}

/// What follows a prefix, or goes before a suffix, is found exactly where the text has it.
pub proof fn law_affixes(s: Seq<char>, p: Seq<char>)
    ensures
        after_prefix(p + s, p) == Some(s),
        before_suffix(s + p, p) == Some(s),
        after_prefix(s, p) matches Some(rest) ==> s == p + rest,
        before_suffix(s, p) matches Some(rest) ==> s == rest + p,
        after_prefix(s, p) is None ==> forall|rest: Seq<char>| s != #[trigger] (p + rest),
        before_suffix(s, p) is None ==> forall|rest: Seq<char>| s != #[trigger] (rest + p),
{
    assert(p.is_prefix_of(p + s));
    assert((p + s).skip(p.len() as int) =~= s);
    assert(p.is_suffix_of(s + p)) by {
        assert((s + p).subrange((s + p).len() - p.len(), (s + p).len() as int) =~= p);
    }
    assert((s + p).take((s + p).len() - p.len()) =~= s);
    if p.is_prefix_of(s) {
        assert(s =~= p + s.skip(p.len() as int));
    } else {
        assert forall|rest: Seq<char>| s != #[trigger] (p + rest) by {
            if s == p + rest {
                assert(p.is_prefix_of(p + rest));
            }
        }
    }
    if p.is_suffix_of(s) {
        let n = s.len() - p.len();
        assert(s.subrange(n, s.len() as int) =~= p);
        assert forall|k: int| n <= k < s.len() implies s[k] == p[k - n] by {
            assert(s.subrange(n, s.len() as int)[k - n] == s[k]);
        }
        assert(s =~= s.take(n) + p);
    } else {
        assert forall|rest: Seq<char>| s != #[trigger] (rest + p) by {
            if s == rest + p {
                let all = rest + p;
                assert(all.subrange(all.len() - p.len(), all.len() as int) =~= p);
                assert(p.is_suffix_of(all));
            }
        }
    }
}

/// A text that lost the characters it began with begins with another one, and has lost nothing else.
pub proof fn law_leading_characters_go(s: Seq<char>, c: char)
    ensures
        without_leading(s, c).len() > 0 ==> without_leading(s, c)[0] != c,
        exists|n: int|
            {
                &&& 0 <= n <= s.len()
                &&& without_leading(s, c) == #[trigger] s.skip(n)
                &&& forall|k: int| 0 <= k < n ==> #[trigger] s[k] == c
            },
    decreases s.len(),
{
    if s.len() > 0 && s[0] == c {
        let t = s.skip(1);
        law_leading_characters_go(t, c);
        let n = choose|n: int|
            {
                &&& 0 <= n <= t.len()
                &&& without_leading(t, c) == #[trigger] t.skip(n)
                &&& forall|k: int| 0 <= k < n ==> #[trigger] t[k] == c
            };
        assert(t.skip(n) =~= s.skip(n + 1));
        assert forall|k: int| 0 <= k < n + 1 implies #[trigger] s[k] == c by {
            if k > 0 {
                assert(t[k - 1] == s[k]);
            }
        }
    } else {
        assert(s.skip(0) =~= s);
    }
}

/// A text that lost its leading repetitions does not begin with another one, and one more at the
/// front makes no difference.
pub proof fn law_leading_repetitions_go(s: Seq<char>, p: Seq<char>)
    requires
        p.len() > 0,
    ensures
        !p.is_prefix_of(without_prefixes(s, p)),
        without_prefixes(p + s, p) == without_prefixes(s, p),
        !p.is_prefix_of(s) ==> without_prefixes(s, p) == s,
    decreases s.len(),
{
    assert(p.is_prefix_of(p + s));
    assert((p + s).skip(p.len() as int) =~= s);
    if p.is_prefix_of(s) {
        law_leading_repetitions_go(s.skip(p.len() as int), p);
    }
}

} // verus!
