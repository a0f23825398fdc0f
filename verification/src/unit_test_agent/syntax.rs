//! Reading single lines and statements of Rust source.

use vstd::prelude::*;
use crate::text::{
    after_prefix, before_suffix, chars_of, compress_white, find_char, find_last_char, find_text,
    first_index, first_match, is_white, joined, last_index, law_affixes, law_joined_lists,
    law_last_index, lemma_filter_word, lemma_first_index, lemma_first_match, lemma_trimmed_end,
    lemma_trimmed_end_cuts_white, lemma_trimmed_start, lemma_word_len, occurs_in, slice_is,
    starts_with, ends_with, string_of, push_chars, strip_prefix, strip_suffix, trim, trim_start,
    trimmed, trimmed_end, trimmed_start, white, word_len, words_of,
};
use crate::unit_test_agent::types::{ItemKind, Visibility, VisibilityView};

verus! {

/// A text without its white space.
pub open spec fn without_white(s: Seq<char>) -> Seq<char> {
    s.filter(|c: char| !is_white(c))
}

fn remove_white(s: &[char]) -> (r: Vec<char>)
    ensures
        r@ == without_white(s@),
{
    let ghost keep = |c: char| !is_white(c);
    let mut out: Vec<char> = Vec::new();
    let mut i: usize = 0;
    proof {
        reveal(Seq::filter);
        assert(s@.take(0).filter(keep) =~= Seq::<char>::empty());
    }
    while i < s.len()
        invariant
            i <= s@.len(),
            keep == (|c: char| !is_white(c)),
            out@ == s@.take(i as int).filter(keep),
        decreases s@.len() - i,
    {
        proof {
            reveal(Seq::filter);
            assert(s@.take(i as int + 1).drop_last() == s@.take(i as int));
        }
        if !white(s[i]) {
            out.push(s[i]);
        }
        i += 1;
    }
    assert(s@.take(s@.len() as int) == s@);
    out
}

/// What a bracket adds to a nesting depth.
pub open spec fn nesting(c: char, open: char, close: char) -> int {
    if c == open {
        1
    } else if c == close {
        -1
    } else {
        0
    }
}

/// The pieces of `cur + s` between the commas that stand outside brackets, where `cur` is a
/// piece that was begun at `depth`.
pub open spec fn top_pieces(
    s: Seq<char>,
    open: char,
    close: char,
    depth: int,
    cur: Seq<char>,
) -> Seq<Seq<char>>
    decreases s.len(),
{
    if s.len() == 0 {
        seq![cur]
    } else if s[0] == ',' && depth == 0 {
        seq![cur] + top_pieces(s.skip(1), open, close, 0, Seq::empty())
    } else {
        top_pieces(s.skip(1), open, close, depth + nesting(s[0], open, close), cur.push(s[0]))
    }
}

/// Splits at the commas that stand outside brackets.
fn split_top_level(s: &[char], open: char, close: char) -> (r: Vec<Vec<char>>)
    requires
        open != ',',
        close != ',',
    ensures
        r.deep_view() == top_pieces(s@, open, close, 0, Seq::empty()),
        r@.len() > 0,
{
    let mut out: Vec<Vec<char>> = Vec::new();
    let mut cur: Vec<char> = Vec::new();
    let mut depth: i128 = 0;
    let mut i: usize = 0;
    let ghost whole = top_pieces(s@, open, close, 0, Seq::empty());
    assert(s@.skip(0) == s@);
    assert(out.deep_view() + whole == whole);
    while i < s.len()
        invariant
            i <= s@.len(),
            open != ',',
            close != ',',
            -(i as int) <= depth <= i,
            whole == out.deep_view() + top_pieces(
                s@.skip(i as int),
                open,
                close,
                depth as int,
                cur@,
            ),
        decreases s@.len() - i,
    {
        let c = s[i];
        let ghost rest = s@.skip(i as int);
        assert(rest.skip(1) == s@.skip(i as int + 1));
        if c == ',' && depth == 0 {
            let ghost before = out.deep_view();
            let ghost piece = cur@;
            let done = cur;
            cur = Vec::new();
            assert(done.deep_view() =~= done@);
            out.push(done);
            proof {
                assert(out.deep_view() =~= before.push(piece));
                let tail = top_pieces(s@.skip(i as int + 1), open, close, 0, Seq::empty());
                assert(before + (seq![piece] + tail) == before.push(piece) + tail);
            }
        } else {
            if c == open {
                depth += 1;
            } else if c == close {
                depth -= 1;
            }
            cur.push(c);
        }
        i += 1;
    }
    proof {
        assert(cur.deep_view() =~= cur@);
        assert(top_pieces(s@.skip(i as int), open, close, depth as int, cur@) == seq![cur@]);
    }
    let ghost before = out.deep_view();
    let ghost piece = cur@;
    out.push(cur);
    assert(out.deep_view() =~= before + seq![piece]);
    out
}

/// Whether one of the pieces, trimmed, is `w`.
pub open spec fn has_piece(pieces: Seq<Seq<char>>, w: Seq<char>) -> bool {
    exists|i: int| 0 <= i < pieces.len() && trimmed(#[trigger] pieces[i]) == w
}

/// What stands between the brackets of `#[cfg(all(...))]`, behind its opening.
pub open spec fn all_inner(rest: Seq<char>) -> Seq<char> {
    match before_suffix(rest, ")]"@) {
        Some(inner) => inner,
        None => match before_suffix(rest, "]"@) {
            Some(inner) => inner,
            None => rest,
        },
    }
}

/// Whether a line is `#[cfg(test)]` or `#[cfg(all(test, ...))]`, whatever its white space.
pub open spec fn cfg_test_attr(line: Seq<char>) -> bool {
    let t = trimmed(line);
    let compact = without_white(t);
    "#[cfg("@.is_prefix_of(t) && ("#[cfg(test)]"@.is_prefix_of(compact) || match after_prefix(
        compact,
        "#[cfg(all("@,
    ) {
        Some(rest) => has_piece(
            top_pieces(all_inner(rest), '(', ')', 0, Seq::empty()),
            "test"@,
        ),
        None => false,
    })
}

/// Whether `test` is one of the arguments of a `cfg(all(...))`.
fn cfg_all_args_have_test(inner: &[char]) -> (r: bool)
    ensures
        r == has_piece(top_pieces(inner@, '(', ')', 0, Seq::empty()), "test"@),
{
    let pieces = split_top_level(inner, '(', ')');
    let ghost all = pieces.deep_view();
    let mut i: usize = 0;
    while i < pieces.len()
        invariant
            i <= pieces@.len(),
            all == pieces.deep_view(),
            all == top_pieces(inner@, '(', ')', 0, Seq::empty()),
            forall|k: int| 0 <= k < i ==> trimmed(#[trigger] all[k]) != "test"@,
        decreases pieces@.len() - i,
    {
        assert(all[i as int] =~= pieces@[i as int]@);
        if slice_is(trim(&pieces[i]), "test") {
            return true;
        }
        i += 1;
    }
    false
}

/// True for `#[cfg(test)]` and space-tolerant `#[cfg(all(test, ...))]`.
/// Does **not** match `#[cfg(not(test))]`.
pub fn is_cfg_test_attr(line: &str) -> (r: bool)
    ensures
        r == cfg_test_attr(line@),
{
    let t = chars_of(line);
    cfg_test_attr_chars(&t)
}

/// As `is_cfg_test_attr`, on characters.
pub fn cfg_test_attr_chars(line: &[char]) -> (r: bool)
    ensures
        r == cfg_test_attr(line@),
{
    let t = trim(line);
    if !starts_with(t, "#[cfg(") {
        return false;
    }
    let compact = remove_white(t);
    if starts_with(&compact, "#[cfg(test)]") {
        return true;
    }
    match strip_prefix(&compact, "#[cfg(all(") {
        Some(rest) => {
            assert(rest.deep_view() =~= rest@);
            let inner = match strip_suffix(rest, ")]") {
                Some(inner) => {
                    assert(inner.deep_view() =~= inner@);
                    inner
                },
                None => match strip_suffix(rest, "]") {
                    Some(inner) => {
                        assert(inner.deep_view() =~= inner@);
                        inner
                    },
                    None => rest,
                },
            };
            cfg_all_args_have_test(inner)
        },
        None => false,
    }
}

/// What follows `pub` or `pub(...)`, without leading white space.
pub open spec fn after_pub(line: Seq<char>) -> Option<Seq<char>> {
    match after_prefix(trimmed_start(line), "pub"@) {
        None => None,
        Some(rest) => if rest.len() > 0 && rest[0] == '(' {
            if rest.contains(')') {
                Some(trimmed_start(rest.skip(first_index(rest, ')') + 1int)))
            } else {
                None
            }
        } else {
            Some(trimmed_start(rest))
        },
    }
}

/// Whether a line begins a `pub use` statement.
pub open spec fn pub_use_start(line: Seq<char>) -> bool {
    match after_pub(line) {
        None => false,
        Some(rest) => "use "@.is_prefix_of(rest) || rest == "use"@ || "use\t"@.is_prefix_of(rest),
    }
}

/// Whether a line begins a `pub use` statement.
pub fn is_pub_use_start(line: &[char]) -> (r: bool)
    ensures
        r == pub_use_start(line@),
{
    let t = trim_start(line);
    match strip_prefix(t, "pub") {
        None => false,
        Some(rest) => {
            assert(rest.deep_view() =~= rest@);
            let rest = if rest.len() > 0 && rest[0] == '(' {
                let i: usize = find_char(rest, ')');
                proof {
                    lemma_first_index(rest@, ')');
                }
                if i == rest.len() {
                    return false;
                }
                let behind = &rest[i + 1..rest.len()];
                assert(behind@ == rest@.skip(i + 1));
                trim_start(behind)
            } else {
                trim_start(rest)
            };
            starts_with(rest, "use ") || slice_is(rest, "use") || starts_with(rest, "use\t")
        },
    }
}

/// Whether a `;` stands in `s` where no brace is open, `depth` braces being open before it.
pub open spec fn complete_from(s: Seq<char>, depth: int) -> bool
    decreases s.len(),
{
    if s.len() == 0 {
        false
    } else if s[0] == ';' && depth <= 0 {
        true
    } else {
        complete_from(s.skip(1), depth + nesting(s[0], '{', '}'))
    }
}

/// Statement ends when a `;` appears at brace depth 0.
pub fn statement_complete_at_semi(s: &[char]) -> (r: bool)
    ensures
        r == complete_from(s@, 0),
{
    let mut depth: i128 = 0;
    let mut i: usize = 0;
    assert(s@.skip(0) == s@);
    while i < s.len()
        invariant
            i <= s@.len(),
            -(i as int) <= depth <= i,
            complete_from(s@, 0) == complete_from(s@.skip(i as int), depth as int),
        decreases s@.len() - i,
    {
        assert(s@.skip(i as int).skip(1) == s@.skip(i as int + 1));
        let c = s[i];
        if c == '{' {
            depth += 1;
        } else if c == '}' {
            depth -= 1;
        } else if c == ';' && depth <= 0 {
            return true;
        }
        i += 1;
    }
    false
}

/// A visibility prefix and what follows it.
pub open spec fn vis_split(line: Seq<char>) -> Option<(VisibilityView, Seq<char>)> {
    let t = trimmed_start(line);
    if "pub("@.is_prefix_of(t) {
        if t.contains(')') {
            let close = first_index(t, ')') as int;
            Some((VisibilityView::of(t.take(close + 1)), t.skip(close + 1)))
        } else {
            None
        }
    } else if "pub "@.is_prefix_of(t) || "pub\t"@.is_prefix_of(t) {
        Some((VisibilityView::Pub, t.skip(3)))
    } else {
        None
    }
}

/// Splits a visibility prefix from what follows it.
pub fn split_vis<'a>(line: &'a [char]) -> (r: Option<(Visibility, &'a [char])>)
    ensures
        r is Some <==> vis_split(line@) is Some,
        r matches Some(p) ==> vis_split(line@) == Some((p.0.deep_view(), p.1@)),
{
    let t = trim_start(line);
    proof {
        reveal_strlit("pub ");
        reveal_strlit("pub\t");
    }
    if starts_with(t, "pub(") {
        let close: usize = find_char(t, ')');
        proof {
            lemma_first_index(t@, ')');
        }
        if close == t.len() {
            return None;
        }
        let head = &t[0..close + 1];
        let tail = &t[close + 1..t.len()];
        assert(head@ == t@.take(close + 1));
        assert(tail@ == t@.skip(close + 1));
        Some((Visibility::parse_chars(head), tail))
    } else if starts_with(t, "pub ") || starts_with(t, "pub\t") {
        let tail = &t[3..t.len()];
        assert(tail@ == t@.skip(3));
        Some((Visibility::Pub, tail))
    } else {
        None
    }
}

/// The prefix of a use group, ending in `::` unless it is empty.
pub open spec fn group_prefix(p: Seq<char>) -> Seq<char> {
    if p.len() == 0 || "::"@.is_suffix_of(p) {
        p
    } else {
        p + "::"@
    }
}

/// The imports of the group whose members are `pieces`: one for each that is not blank.
pub open spec fn group_imports(prefix: Seq<char>, pieces: Seq<Seq<char>>) -> Seq<Seq<char>>
    decreases pieces.len(),
{
    if pieces.len() == 0 {
        Seq::empty()
    } else if trimmed(pieces.last()).len() == 0 {
        group_imports(prefix, pieces.drop_last())
    } else {
        group_imports(prefix, pieces.drop_last()).push(prefix + trimmed(pieces.last()))
    }
}

/// The use tree up to its `;`, with single spaces.
pub open spec fn use_text(body: Seq<char>) -> Seq<char> {
    trimmed(joined(words_of(body.take(first_index(body, ';') as int)), seq![' ']))
}

/// The import paths of a `use` tree.
pub open spec fn use_imports(body: Seq<char>) -> Seq<Seq<char>> {
    let s = use_text(body);
    if s.len() == 0 {
        Seq::empty()
    } else if s.contains('{') {
        let b = first_index(s, '{') as int;
        let prefix = group_prefix(trimmed(s.take(b)));
        let after = s.skip(b + 1);
        let inner = trimmed(after.take(last_index(after, '}') as int));
        let out = group_imports(prefix, top_pieces(inner, '{', '}', 0, Seq::empty()));
        if out.len() == 0 {
            seq![prefix + "{}"@]
        } else {
            out
        }
    } else {
        seq![s]
    }
}

/// The pieces of a use group between its outermost commas.
fn split_comma_top_level(s: &[char]) -> (r: Vec<Vec<char>>)
    ensures
        r.deep_view() == top_pieces(s@, '{', '}', 0, Seq::empty()),
{
    split_top_level(s, '{', '}')
}

/// Expand `use` tree text (after the `use` keyword) into concrete item paths.
pub fn expand_use_imports(body: &str) -> (r: Vec<String>)
    ensures
        r.deep_view() == use_imports(body@),
{
    let b = chars_of(body);
    expand_use_chars(&b)
}

/// As `expand_use_imports`, on characters.
pub fn expand_use_chars(body: &[char]) -> (r: Vec<String>)
    ensures
        r.deep_view() == use_imports(body@),
{
    let end: usize = find_char(body, ';');
    let head = &body[0..end];
    assert(head@ == body@.take(end as int));
    let compact = compress_white(head);
    let s = trim(&compact);
    let mut out: Vec<String> = Vec::new();
    if s.len() == 0 {
        assert(out.deep_view() =~= Seq::<Seq<char>>::empty());
        return out;
    }
    let b: usize = find_char(s, '{');
    proof {
        lemma_first_index(s@, '{');
    }
    if b == s.len() {
        out.push(string_of(s));
        assert(out.deep_view() =~= seq![s@]);
        return out;
    }
    let before = &s[0..b];
    assert(before@ == s@.take(b as int));
    let p = trim(before);
    let mut prefix = string_of(p);
    if p.len() > 0 && !ends_with(p, "::") {
        prefix.append("::");
    }
    assert(prefix@ == group_prefix(p@));
    let after = &s[b + 1..s.len()];
    assert(after@ == s@.skip(b + 1));
    let close: usize = find_last_char(after, '}');
    let within = &after[0..close];
    assert(within@ == after@.take(close as int));
    let inner = trim(within);
    let pieces = split_comma_top_level(inner);
    let ghost all = pieces.deep_view();
    let mut i: usize = 0;
    assert(all.take(0) == Seq::<Seq<char>>::empty());
    assert(out.deep_view() =~= Seq::<Seq<char>>::empty());
    while i < pieces.len()
        invariant
            i <= pieces@.len(),
            all == pieces.deep_view(),
            out.deep_view() == group_imports(prefix@, all.take(i as int)),
        decreases pieces@.len() - i,
    {
        assert(all[i as int] =~= pieces@[i as int]@);
        assert(all.take(i as int + 1).drop_last() == all.take(i as int));
        let part = trim(&pieces[i]);
        if part.len() > 0 {
            let mut name = prefix.clone();
            push_chars(&mut name, part);
            let ghost old_out = out.deep_view();
            out.push(name);
            assert(out.deep_view() =~= old_out.push(prefix@ + part@));
        }
        i += 1;
    }
    assert(all.take(all.len() as int) == all);
    if out.len() == 0 {
        let mut name = prefix.clone();
        name.append("{}");
        out.push(name);
        assert(out.deep_view() =~= seq![prefix@ + "{}"@]);
    }
    out
}

/// The visibility and the import names of a `pub use` statement.
pub open spec fn pub_use_statement(stmt: Seq<char>) -> Option<(VisibilityView, Seq<Seq<char>>)> {
    let t = trimmed(stmt);
    if !pub_use_start(t) {
        None
    } else {
        match vis_split(t) {
            None => None,
            Some((vis, rest)) => match after_prefix(trimmed_start(rest), "use"@) {
                None => None,
                Some(tree) => {
                    let names = use_imports(trimmed_start(tree));
                    if names.len() == 0 {
                        None
                    } else {
                        Some((vis, names))
                    }
                },
            },
        }
    }
}

/// Parse a full `pub use ...;` statement into visibility + expanded import names.
///
/// Brace groups expand to one item per imported name (`path::Name`).
pub fn parse_pub_use_statement(stmt: &str) -> (r: Option<(Visibility, Vec<String>)>)
    ensures
        r.deep_view() == pub_use_statement(stmt@),
{
    let t = chars_of(stmt);
    parse_pub_use_chars(&t)
}

/// As `parse_pub_use_statement`, on characters.
pub fn parse_pub_use_chars(stmt: &[char]) -> (r: Option<(Visibility, Vec<String>)>)
    ensures
        r.deep_view() == pub_use_statement(stmt@),
{
    let t = trim(stmt);
    if !is_pub_use_start(t) {
        return None;
    }
    match split_vis(t) {
        None => None,
        Some((vis, rest)) => match strip_prefix(trim_start(rest), "use") {
            None => None,
            Some(tree) => {
                assert(tree.deep_view() =~= tree@);
                let names = expand_use_chars(trim_start(tree));
                assert(names.deep_view().len() == names@.len());
                if names.len() == 0 {
                    None
                } else {
                    Some((vis, names))
                }
            },
        },
    }
}

/// The position behind the `>` that closes the first `<`, with `depth` angle brackets open.
pub open spec fn angle_end(s: Seq<char>, depth: int) -> Option<int>
    decreases s.len(),
{
    if s.len() == 0 {
        None
    } else if s[0] == '>' && depth == 1 {
        Some(1)
    } else {
        match angle_end(s.skip(1), depth + nesting(s[0], '<', '>')) {
            Some(i) => Some(i + 1),
            None => None,
        }
    }
}

fn skip_angle<'a>(s: &'a [char]) -> (r: Option<&'a [char]>)
    ensures
        r is Some <==> angle_end(s@, 0) is Some,
        r matches Some(t) ==> t@ == s@.skip(angle_end(s@, 0)->0),
{
    let mut depth: i128 = 0;
    let mut i: usize = 0;
    assert(s@.skip(0) == s@);
    while i < s.len()
        invariant
            i <= s@.len(),
            -(i as int) <= depth <= i,
            angle_end(s@, 0) == match angle_end(s@.skip(i as int), depth as int) {
                Some(k) => Some(i + k),
                None => None,
            },
        decreases s@.len() - i,
    {
        assert(s@.skip(i as int).skip(1) == s@.skip(i as int + 1));
        let c = s[i];
        if c == '<' {
            depth += 1;
        } else if c == '>' {
            depth -= 1;
            if depth == 0 {
                let t = &s[i + 1..s.len()];
                assert(t@ == s@.skip(i + 1));
                return Some(t);
            }
        }
        i += 1;
    }
    None
}

/// Letters, digits and the underscore.
pub open spec fn ident_char(c: char) -> bool {
    ('a' <= c && c <= 'z') || ('A' <= c && c <= 'Z') || ('0' <= c && c <= '9') || c == '_'
}

/// The number of identifier characters that a text begins with.
pub open spec fn ident_len(s: Seq<char>) -> nat
    decreases s.len(),
{
    if s.len() > 0 && ident_char(s[0]) {
        1 + ident_len(s.skip(1))
    } else {
        0
    }
}

/// The identifier that a text begins with, behind white space.
pub open spec fn head_ident(s: Seq<char>) -> Option<Seq<char>> {
    let t = trimmed_start(s);
    if ident_len(t) == 0 {
        None
    } else {
        Some(t.take(ident_len(t) as int))
    }
}

fn ident_head(s: &[char]) -> (r: Option<String>)
    ensures
        r.deep_view() == head_ident(s@),
{
    let t = trim_start(s);
    let mut n: usize = 0;
    assert(t@.skip(0) == t@);
    while n < t.len() && (('a' <= t[n] && t[n] <= 'z') || ('A' <= t[n] && t[n] <= 'Z') || ('0'
        <= t[n] && t[n] <= '9') || t[n] == '_')
        invariant
            n <= t@.len(),
            ident_len(t@) == n + ident_len(t@.skip(n as int)),
        decreases t@.len() - n,
    {
        assert(t@.skip(n as int).skip(1) == t@.skip(n as int + 1));
        n += 1;
    }
    if n == 0 {
        None
    } else {
        let head = &t[0..n];
        assert(head@ == t@.take(n as int));
        Some(string_of(head))
    }
}

/// The type whose methods an `impl` line opens: the one behind ` for ` where there is one.
pub open spec fn impl_type(line: Seq<char>) -> Option<Seq<char>> {
    match after_prefix(trimmed_start(line), "impl"@) {
        None => None,
        Some(rest) => {
            let t = trimmed_start(rest);
            if rest.len() == 0 || !(is_white(rest[0]) || rest[0] == '<' || rest[0] == '!') {
                None
            } else if t.len() > 0 && t[0] == '!' {
                None
            } else if t.len() > 0 && t[0] == '<' {
                match angle_end(t, 0) {
                    None => None,
                    Some(i) => impl_target(trimmed_start(t.skip(i))),
                }
            } else {
                impl_target(t)
            }
        },
    }
}

/// The type named by what follows `impl` and its generics.
pub open spec fn impl_target(rest: Seq<char>) -> Option<Seq<char>> {
    match first_match(rest, " for "@) {
        Some(i) => head_ident(trimmed(rest.skip(i + 5))),
        None => head_ident(rest),
    }
}

/// The type whose methods an `impl` line opens.
pub fn parse_impl_type(line: &[char]) -> (r: Option<String>)
    ensures
        r.deep_view() == impl_type(line@),
{
    match strip_prefix(trim_start(line), "impl") {
        None => None,
        Some(rest) => {
            assert(rest.deep_view() =~= rest@);
            if rest.len() == 0 || !(white(rest[0]) || rest[0] == '<' || rest[0] == '!') {
                return None;
            }
            let t = trim_start(rest);
            if t.len() > 0 && t[0] == '!' {
                return None;
            }
            let target = if t.len() > 0 && t[0] == '<' {
                match skip_angle(t) {
                    None => {
                        return None;
                    },
                    Some(u) => trim_start(u),
                }
            } else {
                t
            };
            proof {
                reveal_strlit(" for ");
            }
            let n: usize = target.len();
            match find_text(target, " for ") {
                Some(i) => {
                    let after = &target[i + 5..n];
                    assert(after@ == target@.skip(i + 5));
                    ident_head(trim(after))
                },
                None => ident_head(target),
            }
        },
    }
}

/// What follows the words that may stand between a visibility and `fn`.
pub open spec fn after_fn_prefixes(s: Seq<char>) -> Seq<char>
    decreases s.len(),
{
    proof {
        lemma_trimmed_start(s);
        reveal_strlit("async ");
        reveal_strlit("const ");
        reveal_strlit("unsafe ");
        reveal_strlit("extern ");
        lemma_trimmed_start(trimmed_start(s).skip(7));
        let r = trimmed_start(trimmed_start(s).skip(7));
        lemma_first_index(r.skip(1), '"');
        lemma_trimmed_start(r.skip(1).skip(first_index(r.skip(1), '"') + 1int));
    }
    let t = trimmed_start(s);
    if "async "@.is_prefix_of(t) {
        after_fn_prefixes(t.skip(6))
    } else if "const "@.is_prefix_of(t) {
        let r = t.skip(6);
        if "fn "@.is_prefix_of(trimmed_start(r)) || "async "@.is_prefix_of(trimmed_start(r)) {
            after_fn_prefixes(r)
        } else {
            t
        }
    } else if "unsafe "@.is_prefix_of(t) {
        after_fn_prefixes(t.skip(7))
    } else if "extern "@.is_prefix_of(t) {
        let r = trimmed_start(t.skip(7));
        if r.len() > 0 && r[0] == '"' && r.skip(1).contains('"') {
            after_fn_prefixes(trimmed_start(r.skip(1).skip(first_index(r.skip(1), '"') + 1int)))
        } else {
            after_fn_prefixes(r)
        }
    } else {
        t
    }
}

fn skip_fn_prefixes<'a>(src: &'a [char]) -> (r: &'a [char])
    ensures
        r@ == after_fn_prefixes(src@),
{
    let mut s = src;
    proof {
        reveal_strlit("async ");
        reveal_strlit("const ");
        reveal_strlit("unsafe ");
        reveal_strlit("extern ");
    }
    loop
        invariant
            after_fn_prefixes(s@) == after_fn_prefixes(src@),
            "async "@.len() == 6,
            "const "@.len() == 6,
            "unsafe "@.len() == 7,
            "extern "@.len() == 7,
        decreases s@.len(),
    {
        let t = trim_start(s);
        proof {
            lemma_trimmed_start(s@);
        }
        if starts_with(t, "async ") {
            s = &t[6..t.len()];
            assert(s@ == t@.skip(6));
            continue;
        }
        if starts_with(t, "const ") {
            let r = &t[6..t.len()];
            assert(r@ == t@.skip(6));
            let u = trim_start(r);
            if starts_with(u, "fn ") || starts_with(u, "async ") {
                s = r;
                continue;
            }
            return t;
        }
        if starts_with(t, "unsafe ") {
            s = &t[7..t.len()];
            assert(s@ == t@.skip(7));
            continue;
        }
        if starts_with(t, "extern ") {
            let r7 = &t[7..t.len()];
            assert(r7@ == t@.skip(7));
            let r = trim_start(r7);
            proof {
                lemma_trimmed_start(r7@);
            }
            if r.len() > 0 && r[0] == '"' {
                let stripped = &r[1..r.len()];
                assert(stripped@ == r@.skip(1));
                let end: usize = find_char(stripped, '"');
                proof {
                    lemma_first_index(stripped@, '"');
                }
                if end < stripped.len() {
                    let behind = &stripped[end + 1..stripped.len()];
                    assert(behind@ == stripped@.skip(end + 1));
                    proof {
                        lemma_trimmed_start(behind@);
                    }
                    s = trim_start(behind);
                    continue;
                }
            }
            s = r;
            continue;
        }
        return t;
    }
}

/// The item kind that a declaration's keyword stands for, and what follows the keyword.
pub open spec fn item_keyword(s: Seq<char>) -> Option<(ItemKind, Seq<char>)> {
    if "fn "@.is_prefix_of(s) {
        Some((ItemKind::Fn, s.skip(3)))
    } else if "struct "@.is_prefix_of(s) {
        Some((ItemKind::Struct, s.skip(7)))
    } else if "enum "@.is_prefix_of(s) {
        Some((ItemKind::Enum, s.skip(5)))
    } else if "trait "@.is_prefix_of(s) {
        Some((ItemKind::Trait, s.skip(6)))
    } else if "type "@.is_prefix_of(s) {
        Some((ItemKind::Type, s.skip(5)))
    } else if "const "@.is_prefix_of(s) {
        Some((ItemKind::Const, s.skip(6)))
    } else if "static "@.is_prefix_of(s) {
        Some((ItemKind::Static, s.skip(7)))
    } else if "mod "@.is_prefix_of(s) {
        Some((ItemKind::Mod, s.skip(4)))
    } else if "use "@.is_prefix_of(s) {
        Some((ItemKind::Use, s.skip(4)))
    } else if "macro_rules! "@.is_prefix_of(s) {
        Some((ItemKind::Macro, s.skip(13)))
    } else if "macro "@.is_prefix_of(s) {
        Some((ItemKind::Macro, s.skip(6)))
    } else {
        None
    }
}

/// `Some` of the kind and what follows, where `s` begins with the keyword.
fn keyword<'a>(s: &'a [char], word: &str, kind: ItemKind) -> (r: Option<(ItemKind, &'a [char])>)
    ensures
        r is Some <==> word@.is_prefix_of(s@),
        r matches Some(p) ==> p.0 == kind && p.1@ == s@.skip(word@.len() as int),
{
    match strip_prefix(s, word) {
        Some(rest) => {
            assert(rest.deep_view() =~= rest@);
            Some((kind, rest))
        },
        None => None,
    }
}

fn split_item_keyword<'a>(s: &'a [char]) -> (r: Option<(ItemKind, &'a [char])>)
    ensures
        r is Some <==> item_keyword(s@) is Some,
        r matches Some(p) ==> item_keyword(s@) == Some((p.0, p.1@)),
{
    proof {
        reveal_strlit("fn ");
        reveal_strlit("struct ");
        reveal_strlit("enum ");
        reveal_strlit("trait ");
        reveal_strlit("type ");
        reveal_strlit("const ");
        reveal_strlit("static ");
        reveal_strlit("mod ");
        reveal_strlit("use ");
        reveal_strlit("macro_rules! ");
        reveal_strlit("macro ");
    }
    let r = keyword(s, "fn ", ItemKind::Fn);
    if r.is_some() {
        return r;
    }
    let r = keyword(s, "struct ", ItemKind::Struct);
    if r.is_some() {
        return r;
    }
    let r = keyword(s, "enum ", ItemKind::Enum);
    if r.is_some() {
        return r;
    }
    let r = keyword(s, "trait ", ItemKind::Trait);
    if r.is_some() {
        return r;
    }
    let r = keyword(s, "type ", ItemKind::Type);
    if r.is_some() {
        return r;
    }
    let r = keyword(s, "const ", ItemKind::Const);
    if r.is_some() {
        return r;
    }
    let r = keyword(s, "static ", ItemKind::Static);
    if r.is_some() {
        return r;
    }
    let r = keyword(s, "mod ", ItemKind::Mod);
    if r.is_some() {
        return r;
    }
    let r = keyword(s, "use ", ItemKind::Use);
    if r.is_some() {
        return r;
    }
    let r = keyword(s, "macro_rules! ", ItemKind::Macro);
    if r.is_some() {
        return r;
    }
    keyword(s, "macro ", ItemKind::Macro)
}

/// A re-export's text up to its `;`, with single spaces.
pub open spec fn use_name(src: Seq<char>) -> Seq<char> {
    joined(words_of(trimmed(src.take(first_index(src, ';') as int))), seq![' '])
}

fn normalize_use_name(src: &[char]) -> (r: String)
    ensures
        r@ == use_name(src@),
{
    let end: usize = find_char(src, ';');
    let head = &src[0..end];
    assert(head@ == src@.take(end as int));
    let c = compress_white(trim(head));
    string_of(&c)
}

/// The visibility, kind and name of the public item that a line declares.
pub open spec fn pub_item(line: Seq<char>) -> Option<(VisibilityView, ItemKind, Seq<char>)> {
    match vis_split(line) {
        None => None,
        Some((vis, rest)) => match item_keyword(after_fn_prefixes(trimmed_start(rest))) {
            None => None,
            Some((kind, src)) => if kind == ItemKind::Use {
                Some((vis, kind, use_name(src)))
            } else {
                match head_ident(src) {
                    Some(name) => Some((vis, kind, name)),
                    None => None,
                }
            },
        },
    }
}

/// Parse a single logical line that may declare a public item.
///
/// Returns `(visibility, kind, name)`.
pub fn parse_pub_item_line(line: &str) -> (r: Option<(Visibility, ItemKind, String)>)
    ensures
        r.deep_view() == pub_item(line@),
{
    let t = chars_of(line);
    parse_pub_item_chars(&t)
}

/// As `parse_pub_item_line`, on characters.
pub fn parse_pub_item_chars(line: &[char]) -> (r: Option<(Visibility, ItemKind, String)>)
    ensures
        r.deep_view() == pub_item(line@),
{
    match split_vis(line) {
        None => None,
        Some((vis, rest)) => match split_item_keyword(skip_fn_prefixes(trim_start(rest))) {
            None => None,
            Some((kind, src)) => {
                if kind == ItemKind::Use {
                    Some((vis, kind, normalize_use_name(src)))
                } else {
                    match ident_head(src) {
                        Some(name) => Some((vis, kind, name)),
                        None => None,
                    }
                }
            },
        },
    }
}

/// Whether a text holds no white space.
pub open spec fn plain(s: Seq<char>) -> bool {
    forall|i: int| 0 <= i < s.len() ==> !is_white(#[trigger] s[i])
}

/// Whether a text holds none of three characters.
pub open spec fn free_of(s: Seq<char>, a: char, b: char, c: char) -> bool {
    !s.contains(a) && !s.contains(b) && !s.contains(c)
}

proof fn lemma_plain(s: Seq<char>)
    requires
        plain(s),
    ensures
        without_white(s) == s,
        trimmed_start(s) == s,
        trimmed(s) == s,
        s.len() > 0 ==> words_of(s) == seq![s],
{
    lemma_filter_word(s);
    if s.len() > 0 {
        assert(!is_white(s[0]));
        assert(!is_white(s[s.len() - 1]));
        lemma_word_len(s);
        let n = word_len(s) as int;
        assert(n == s.len());
        assert(s.take(n) =~= s);
        assert(s.skip(n) =~= Seq::<char>::empty());
        assert(words_of(s.skip(n)) =~= Seq::<Seq<char>>::empty());
        assert(words_of(s) =~= seq![s]);
    }
}

proof fn lemma_plain_sum(a: Seq<char>, b: Seq<char>)
    requires
        plain(a) && plain(b),
    ensures
        plain(a + b),
{
}

proof fn lemma_prefix_chars(p: Seq<char>, s: Seq<char>)
    ensures
        p.is_prefix_of(s) ==> p.len() <= s.len(),
        p.is_prefix_of(s) ==> forall|i: int|
            #![trigger p[i]]
            #![trigger s[i]]
            0 <= i < p.len() ==> p[i] == s[i],
{
    if p.is_prefix_of(s) {
        assert forall|i: int|
            #![trigger p[i]]
            #![trigger s[i]]
            0 <= i < p.len() implies p[i] == s[i] by {
            assert(s.subrange(0, p.len() as int)[i] == s[i]);
        }
    }
}

proof fn lemma_pieces_run(
    a: Seq<char>,
    rest: Seq<char>,
    open: char,
    close: char,
    depth: int,
    cur: Seq<char>,
)
    requires
        !a.contains(open) && !a.contains(close),
        depth > 0 || !a.contains(','),
        depth >= 0,
    ensures
        top_pieces(a + rest, open, close, depth, cur) == top_pieces(
            rest,
            open,
            close,
            depth,
            cur + a,
        ),
    decreases a.len(),
{
    if a.len() == 0 {
        assert(a + rest =~= rest);
        assert(cur + a =~= cur);
    } else {
        let c = a[0];
        assert(a.contains(c));
        let b = a.skip(1);
        assert forall|x: char| b.contains(x) implies a.contains(x) by {
            let k = b.index_of(x);
            assert(a[k + 1] == x);
        }
        assert((a + rest).skip(1) =~= b + rest);
        assert((a + rest)[0] == c);
        lemma_pieces_run(b, rest, open, close, depth, cur.push(c));
        assert(cur.push(c) + b =~= cur + a);
    }
}

/// A list is split at the commas outside of brackets: what stands before such a comma is a piece,
/// and a comma inside of brackets splits nothing.
pub proof fn law_commas_split_outside_brackets(
    a: Seq<char>,
    inner: Seq<char>,
    rest: Seq<char>,
    open: char,
    close: char,
)
    requires
        open != close && open != ',' && close != ',',
        free_of(a, ',', open, close),
        !inner.contains(open) && !inner.contains(close),
    ensures
        top_pieces(a, open, close, 0, Seq::empty()) == seq![a],
        top_pieces(a + seq![','] + rest, open, close, 0, Seq::empty()) == seq![a] + top_pieces(
            rest,
            open,
            close,
            0,
            Seq::empty(),
        ),
        top_pieces(
            a + seq![open] + inner + seq![close] + seq![','] + rest,
            open,
            close,
            0,
            Seq::empty(),
        ) == seq![a + seq![open] + inner + seq![close]] + top_pieces(
            rest,
            open,
            close,
            0,
            Seq::empty(),
        ),
{
    let none = Seq::<char>::empty();
    assert(none + a =~= a);
    lemma_pieces_run(a, none, open, close, 0, none);
    assert(a + none =~= a);
    let tail = seq![','] + rest;
    lemma_pieces_run(a, tail, open, close, 0, none);
    assert(a + seq![','] + rest =~= a + tail);
    assert(tail.skip(1) =~= rest);
    let t2 = seq![close] + tail;
    let t1 = inner + t2;
    let t0 = seq![open] + t1;
    lemma_pieces_run(a, t0, open, close, 0, none);
    assert(a + seq![open] + inner + seq![close] + seq![','] + rest =~= a + t0);
    assert(t0.skip(1) =~= t1);
    assert(t0[0] == open);
    assert(top_pieces(t0, open, close, 0, a) == top_pieces(t1, open, close, 1, a.push(open)));
    lemma_pieces_run(inner, t2, open, close, 1, a.push(open));
    assert(t2.skip(1) =~= tail);
    assert(t2[0] == close);
    let group = a + seq![open] + inner + seq![close];
    assert((a.push(open) + inner).push(close) =~= group);
    assert(top_pieces(t2, open, close, 1, a.push(open) + inner) == top_pieces(
        tail,
        open,
        close,
        0,
        group,
    ));
    assert(tail[0] == ',');
    assert(top_pieces(tail, open, close, 0, group) == seq![group] + top_pieces(
        rest,
        open,
        close,
        0,
        none,
    ));
}

/// The pieces of a list with commas between them are the list again.
pub proof fn law_pieces_make_up_the_list(
    s: Seq<char>,
    open: char,
    close: char,
    depth: int,
    cur: Seq<char>,
)
    ensures
        top_pieces(s, open, close, depth, cur).len() > 0,
        joined(top_pieces(s, open, close, depth, cur), seq![',']) == cur + s,
    decreases s.len(),
{
    let sep = seq![','];
    if s.len() == 0 {
        assert(cur + s =~= cur);
    } else if s[0] == ',' && depth == 0 {
        let rest = top_pieces(s.skip(1), open, close, 0, Seq::empty());
        law_pieces_make_up_the_list(s.skip(1), open, close, 0, Seq::empty());
        law_joined_lists(seq![cur], rest, sep);
        assert(cur + sep + (Seq::<char>::empty() + s.skip(1)) =~= cur + s);
    } else {
        let d = depth + nesting(s[0], open, close);
        law_pieces_make_up_the_list(s.skip(1), open, close, d, cur.push(s[0]));
        assert(cur.push(s[0]) + s.skip(1) =~= cur + s);
    }
}

/// What marks test code: `test` alone or first among the conditions that all have to hold. Another
/// condition does not, and neither does the negation of anything.
pub proof fn law_test_code_is_marked(x: Seq<char>, y: Seq<char>)
    requires
        plain(x) && !x.contains('(') && !x.contains(')'),
        plain(y),
    ensures
        cfg_test_attr("#[cfg("@ + x + ")]"@) <==> x == "test"@,
        cfg_test_attr("#[cfg(all(test,"@ + y + "))]"@),
        !cfg_test_attr("#[cfg(not("@ + y + "))]"@),
{
    lemma_single_condition(x);
    lemma_joint_conditions(y);
    lemma_negated_condition(y);
}

proof fn lemma_single_condition(x: Seq<char>)
    requires
        plain(x) && !x.contains('(') && !x.contains(')'),
    ensures
        cfg_test_attr("#[cfg("@ + x + ")]"@) <==> x == "test"@,
{
    reveal_strlit("#[cfg(");
    reveal_strlit(")]");
    let cfg = "#[cfg("@;
    assert(cfg =~= seq!['#', '[', 'c', 'f', 'g', '(']);
    assert(")]"@ =~= seq![')', ']']);
    assert(plain(cfg) && plain(")]"@));
    lemma_plain_sum(cfg, x);
    lemma_plain_sum(cfg + x, ")]"@);
    let a = cfg + x + ")]"@;
    lemma_plain(a);
    assert(a.subrange(0, 6) =~= cfg);
    assert(cfg.is_prefix_of(a));
    lemma_single_alone(x);
    lemma_single_not_all(x);
    assert(after_prefix(a, "#[cfg(all("@) is None);
}

proof fn lemma_single_alone(x: Seq<char>)
    requires
        !x.contains(')'),
    ensures
        "#[cfg(test)]"@.is_prefix_of("#[cfg("@ + x + ")]"@) <==> x == "test"@,
{
    reveal_strlit("#[cfg(");
    reveal_strlit(")]");
    reveal_strlit("test");
    reveal_strlit("#[cfg(test)]");
    let alone = "#[cfg(test)]"@;
    let a = "#[cfg("@ + x + ")]"@;
    let n = x.len() as int;
    if alone.is_prefix_of(a) {
        lemma_prefix_chars(alone, a);
        if n > 4 {
            assert(a[10] == x[4]);
            assert(x.contains(x[4]));
        }
        if n < 4 {
            assert(a[6 + n] == ')');
            assert(a[6] == 't' && a[7] == 'e' && a[8] == 's' && a[9] == 't');
        }
        assert(a[6] == x[0] && a[7] == x[1] && a[8] == x[2] && a[9] == x[3]);
        assert(x =~= "test"@);
    }
    if x == "test"@ {
        assert(a.subrange(0, 12) =~= alone);
    }
}

proof fn lemma_single_not_all(x: Seq<char>)
    requires
        !x.contains('('),
    ensures
        !"#[cfg(all("@.is_prefix_of("#[cfg("@ + x + ")]"@),
{
    reveal_strlit("#[cfg(");
    reveal_strlit(")]");
    reveal_strlit("#[cfg(all(");
    let all = "#[cfg(all("@;
    let a = "#[cfg("@ + x + ")]"@;
    let n = x.len() as int;
    if all.is_prefix_of(a) {
        lemma_prefix_chars(all, a);
        if n > 3 {
            assert(a[9] == x[3]);
            assert(x.contains(x[3]));
        } else {
            assert(a[6 + n] == ')');
            assert(a[6] == 'a' && a[7] == 'l' && a[8] == 'l' && a[9] == '(');
        }
    }
}

proof fn lemma_negated_condition(y: Seq<char>)
    requires
        plain(y),
    ensures
        !cfg_test_attr("#[cfg(not("@ + y + "))]"@),
{
    reveal_strlit("#[cfg(not(");
    reveal_strlit("))]");
    reveal_strlit("#[cfg(test)]");
    reveal_strlit("#[cfg(all(");
    let b = "#[cfg(not("@ + y + "))]"@;
    assert("#[cfg(not("@ =~= seq!['#', '[', 'c', 'f', 'g', '(', 'n', 'o', 't', '(']);
    assert("))]"@ =~= seq![')', ')', ']']);
    assert(plain(b));
    lemma_plain(b);
    lemma_prefix_chars("#[cfg(test)]"@, b);
    lemma_prefix_chars("#[cfg(all("@, b);
    assert(b[6] == 'n');
}

proof fn lemma_joint_conditions(y: Seq<char>)
    requires
        plain(y),
    ensures
        cfg_test_attr("#[cfg(all(test,"@ + y + "))]"@),
{
    let c = "#[cfg(all(test,"@ + y + "))]"@;
    let test = seq!['t', 'e', 's', 't'];
    let inner = test + seq![','] + (y + seq![')']);
    reveal_strlit("test");
    assert("test"@ =~= test);
    lemma_joint_text(y);
    lemma_plain(c);
    law_affixes(inner, ")]"@);
    assert(after_prefix(c, "#[cfg(all("@) == Some(inner + ")]"@));
    assert(all_inner(inner + ")]"@) == inner);
    lemma_first_is_test(y + seq![')']);
}

proof fn lemma_first_is_test(rest: Seq<char>)
    ensures
        has_piece(
            top_pieces(seq!['t', 'e', 's', 't'] + seq![','] + rest, '(', ')', 0, Seq::empty()),
            seq!['t', 'e', 's', 't'],
        ),
{
    let test = seq!['t', 'e', 's', 't'];
    assert(free_of(test, ',', '(', ')'));
    law_commas_split_outside_brackets(test, Seq::empty(), rest, '(', ')');
    let pieces = top_pieces(test + seq![','] + rest, '(', ')', 0, Seq::empty());
    assert(plain(test));
    lemma_plain(test);
    assert(pieces[0] == test);
    assert(trimmed(pieces[0]) == test);
}

proof fn lemma_joint_text(y: Seq<char>)
    requires
        plain(y),
    ensures
        ({
            let c = "#[cfg(all(test,"@ + y + "))]"@;
            let inner = seq!['t', 'e', 's', 't'] + seq![','] + (y + seq![')']);
            &&& plain(c)
            &&& "#[cfg("@.is_prefix_of(c)
            &&& "#[cfg(all("@.is_prefix_of(c)
            &&& c.skip("#[cfg(all("@.len() as int) == inner + ")]"@
        }),
{
    reveal_strlit("#[cfg(");
    reveal_strlit("#[cfg(all(");
    reveal_strlit("#[cfg(all(test,");
    reveal_strlit("))]");
    reveal_strlit(")]");
    let start = seq!['#', '[', 'c', 'f', 'g', '(', 'a', 'l', 'l', '(', 't', 'e', 's', 't', ','];
    assert("#[cfg(all(test,"@ =~= start);
    assert("))]"@ =~= seq![')', ')', ']']);
    let c = start + y + "))]"@;
    assert(plain(start) && plain("))]"@));
    lemma_plain_sum(start, y);
    lemma_plain_sum(start + y, "))]"@);
    assert(c.subrange(0, 6) =~= "#[cfg("@);
    assert(c.subrange(0, 10) =~= "#[cfg(all("@);
    let inner = seq!['t', 'e', 's', 't'] + seq![','] + (y + seq![')']);
    assert(c.skip(10) =~= inner + ")]"@);
}

proof fn lemma_complete_run(a: Seq<char>, rest: Seq<char>, depth: int)
    requires
        !a.contains('{') && !a.contains('}'),
        depth > 0 || !a.contains(';'),
    ensures
        complete_from(a + rest, depth) == complete_from(rest, depth),
    decreases a.len(),
{
    if a.len() == 0 {
        assert(a + rest =~= rest);
    } else {
        let b = a.skip(1);
        assert(a.contains(a[0]));
        assert forall|x: char| b.contains(x) implies a.contains(x) by {
            let k = b.index_of(x);
            assert(a[k + 1] == x);
        }
        assert((a + rest).skip(1) =~= b + rest);
        assert((a + rest)[0] == a[0]);
        lemma_complete_run(b, rest, depth);
    }
}

proof fn lemma_never_complete(s: Seq<char>, depth: int)
    requires
        !s.contains(';'),
    ensures
        !complete_from(s, depth),
    decreases s.len(),
{
    if s.len() > 0 {
        assert(s.contains(s[0]));
        let t = s.skip(1);
        if t.contains(';') {
            let k = t.index_of(';');
            assert(s[k + 1] == ';');
        }
        lemma_never_complete(t, depth + nesting(s[0], '{', '}'));
    }
}

/// A statement is complete with a `;` outside of braces; one inside of them completes nothing, and
/// without any it never is.
pub proof fn law_statement_ends_outside_braces(a: Seq<char>, inner: Seq<char>, rest: Seq<char>)
    requires
        free_of(a, ';', '{', '}'),
        !inner.contains('{') && !inner.contains('}'),
    ensures
        complete_from(a + seq![';'] + rest, 0),
        complete_from(a + seq!['{'] + inner + seq!['}'] + rest, 0) == complete_from(rest, 0),
        !rest.contains(';') ==> !complete_from(rest, 0),
{
    let tail = seq![';'] + rest;
    assert(a + seq![';'] + rest =~= a + tail);
    lemma_complete_run(a, tail, 0);
    let t2 = seq!['}'] + rest;
    let t1 = inner + t2;
    let t0 = seq!['{'] + t1;
    assert(a + seq!['{'] + inner + seq!['}'] + rest =~= a + t0);
    lemma_complete_run(a, t0, 0);
    assert(t0.skip(1) =~= t1 && t0[0] == '{');
    lemma_complete_run(inner, t2, 1);
    assert(t2.skip(1) =~= rest && t2[0] == '}');
    if !rest.contains(';') {
        lemma_never_complete(rest, 0);
    }
}

proof fn lemma_leading_white(w: Seq<char>, s: Seq<char>)
    requires
        forall|i: int| 0 <= i < w.len() ==> is_white(#[trigger] w[i]),
    ensures
        trimmed_start(w + s) == trimmed_start(s),
    decreases w.len(),
{
    if w.len() == 0 {
        assert(w + s =~= s);
    } else {
        let v = w.skip(1);
        assert forall|i: int| 0 <= i < v.len() implies is_white(#[trigger] v[i]) by {
            assert(v[i] == w[i + 1]);
        }
        lemma_leading_white(v, s);
        assert(is_white(w[0]));
        assert((w + s)[0] == w[0]);
        assert((w + s).skip(1) =~= v + s);
    }
}

/// A line that does not begin with `pub` declares nothing public and exports nothing, and how far it
/// is indented makes no difference.
pub proof fn law_only_public_lines_declare(line: Seq<char>, w: Seq<char>)
    requires
        forall|i: int| 0 <= i < w.len() ==> is_white(#[trigger] w[i]),
    ensures
        !"pub"@.is_prefix_of(trimmed_start(line)) ==> pub_item(line) is None && !pub_use_start(line)
            && pub_use_statement(line) is None,
        pub_item(w + line) == pub_item(line),
        pub_use_start(w + line) == pub_use_start(line),
        pub_use_statement(w + line) == pub_use_statement(line),
        impl_type(w + line) == impl_type(line),
{
    reveal_strlit("pub");
    reveal_strlit("pub(");
    reveal_strlit("pub ");
    reveal_strlit("pub\t");
    lemma_leading_white(w, line);
    let t = trimmed_start(line);
    let u = trimmed(line);
    lemma_trimmed_start(line);
    lemma_trimmed_end(t);
    if u.len() > 0 {
        assert(u[0] == t[0]);
    }
    assert(trimmed_start(u) == u);
    lemma_prefix_chars("pub"@, u);
    lemma_prefix_chars(u, t);
    lemma_prefix_chars("pub("@, t);
    lemma_prefix_chars("pub "@, t);
    lemma_prefix_chars("pub\t"@, t);
    if "pub"@.is_prefix_of(u) || "pub("@.is_prefix_of(t) || "pub "@.is_prefix_of(t)
        || "pub\t"@.is_prefix_of(t) {
        assert(t.subrange(0, 3) =~= "pub"@);
        assert("pub"@.is_prefix_of(t));
    }
}

/// How an item is introduced.
pub open spec fn introduces(word: Seq<char>, kind: ItemKind) -> bool {
    ||| word == "fn "@ && kind == ItemKind::Fn
    ||| word == "struct "@ && kind == ItemKind::Struct
    ||| word == "enum "@ && kind == ItemKind::Enum
    ||| word == "trait "@ && kind == ItemKind::Trait
    ||| word == "type "@ && kind == ItemKind::Type
    ||| word == "const "@ && kind == ItemKind::Const
    ||| word == "static "@ && kind == ItemKind::Static
    ||| word == "mod "@ && kind == ItemKind::Mod
    ||| word == "macro_rules! "@ && kind == ItemKind::Macro
    ||| word == "macro "@ && kind == ItemKind::Macro
}

/// Whether a text is a whole identifier in front of what follows it.
pub open spec fn names(name: Seq<char>, rest: Seq<char>) -> bool {
    &&& name.len() > 0
    &&& forall|i: int| 0 <= i < name.len() ==> ident_char(#[trigger] name[i])
    &&& rest.len() == 0 || !ident_char(rest[0])
}

proof fn lemma_names(name: Seq<char>, rest: Seq<char>)
    requires
        forall|i: int| 0 <= i < name.len() ==> ident_char(#[trigger] name[i]),
        rest.len() == 0 || !ident_char(rest[0]),
    ensures
        ident_len(name + rest) == name.len(),
    decreases name.len(),
{
    if name.len() == 0 {
        assert(name + rest =~= rest);
    } else {
        let n = name.skip(1);
        assert forall|i: int| 0 <= i < n.len() implies ident_char(#[trigger] n[i]) by {
            assert(n[i] == name[i + 1]);
        }
        lemma_names(n, rest);
        assert(ident_char(name[0]));
        assert((name + rest)[0] == name[0]);
        assert((name + rest).skip(1) =~= n + rest);
    }
}

proof fn lemma_head_ident(name: Seq<char>, rest: Seq<char>)
    requires
        names(name, rest),
    ensures
        trimmed_start(name + rest) == name + rest,
        head_ident(name + rest) == Some(name),
        head_ident(trimmed(name + rest)) == Some(name),
{
    let s = name + rest;
    assert(ident_char(name[0]));
    assert(s[0] == name[0]);
    lemma_names(name, rest);
    assert(s.take(name.len() as int) =~= name);
    let u = trimmed_end(s);
    lemma_trimmed_end(s);
    lemma_trimmed_end_cuts_white(s);
    assert(ident_char(name[name.len() - 1]));
    assert(s[name.len() - 1] == name[name.len() - 1]);
    assert(u.len() >= name.len()) by {
        if u.len() < name.len() {
            assert(is_white(s[name.len() - 1]));
        }
    }
    let r = u.skip(name.len() as int);
    lemma_prefix_chars(u, s);
    assert(u =~= name + r) by {
        assert forall|i: int| 0 <= i < name.len() implies u[i] == name[i] by {
            assert(u[i] == s[i]);
        }
    }
    if r.len() > 0 {
        assert(r[0] == u[name.len() as int]);
        assert(s[name.len() as int] == rest[0]);
    }
    lemma_names(name, r);
    assert(u[0] == s[0]);
    assert(u.take(name.len() as int) =~= name);
}

/// A public item is found under its kind and its name, whatever follows the name.
pub proof fn law_public_item_is_found(
    word: Seq<char>,
    kind: ItemKind,
    name: Seq<char>,
    rest: Seq<char>,
)
    requires
        introduces(word, kind),
        names(name, rest),
        kind == ItemKind::Const ==> name != "fn"@ && name != "async"@,
    ensures
        pub_item("pub "@ + word + name + rest) == Some((VisibilityView::Pub, kind, name)),
{
    let s = word + name + rest;
    let tail = name + rest;
    assert("pub "@ + word + name + rest =~= "pub "@ + s);
    lemma_introduced(word, kind, tail);
    assert(s =~= word + tail);
    lemma_pub_rest(s);
    lemma_head_ident(name, rest);
    if kind == ItemKind::Const {
        lemma_not_a_function(name, rest);
    }
    lemma_no_function_words(word, kind, tail);
}

proof fn lemma_introduced(word: Seq<char>, kind: ItemKind, tail: Seq<char>)
    requires
        introduces(word, kind),
    ensures
        item_keyword(word + tail) == Some((kind, tail)),
        word.len() > 0 && !is_white((word + tail)[0]),
        kind != ItemKind::Use,
{
    reveal_strlit("fn ");
    reveal_strlit("struct ");
    reveal_strlit("enum ");
    reveal_strlit("trait ");
    reveal_strlit("type ");
    reveal_strlit("const ");
    reveal_strlit("static ");
    reveal_strlit("mod ");
    reveal_strlit("use ");
    reveal_strlit("macro_rules! ");
    reveal_strlit("macro ");
    let s = word + tail;
    assert(s.subrange(0, word.len() as int) =~= word);
    assert(word.is_prefix_of(s));
    assert(s.skip(word.len() as int) =~= tail);
    assert(s[0] == word[0] && s[1] == word[1] && s[2] == word[2]);
    assert(word.len() > 5 ==> s[5] == word[5]);
    lemma_prefix_chars("fn "@, s);
    lemma_prefix_chars("struct "@, s);
    lemma_prefix_chars("enum "@, s);
    lemma_prefix_chars("trait "@, s);
    lemma_prefix_chars("type "@, s);
    lemma_prefix_chars("const "@, s);
    lemma_prefix_chars("static "@, s);
    lemma_prefix_chars("mod "@, s);
    lemma_prefix_chars("use "@, s);
    lemma_prefix_chars("macro_rules! "@, s);
    lemma_prefix_chars("macro "@, s);
}

proof fn lemma_no_function_words(word: Seq<char>, kind: ItemKind, tail: Seq<char>)
    requires
        introduces(word, kind),
        kind == ItemKind::Const ==> !"fn "@.is_prefix_of(trimmed_start(tail))
            && !"async "@.is_prefix_of(trimmed_start(tail)),
    ensures
        after_fn_prefixes(word + tail) == word + tail,
{
    reveal_strlit("fn ");
    reveal_strlit("struct ");
    reveal_strlit("enum ");
    reveal_strlit("trait ");
    reveal_strlit("type ");
    reveal_strlit("const ");
    reveal_strlit("static ");
    reveal_strlit("mod ");
    reveal_strlit("use ");
    reveal_strlit("macro_rules! ");
    reveal_strlit("macro ");
    reveal_strlit("async ");
    reveal_strlit("unsafe ");
    reveal_strlit("extern ");
    let s = word + tail;
    assert(s[0] == word[0] && s[1] == word[1] && s[2] == word[2]);
    assert(!is_white(s[0]));
    assert(trimmed_start(s) == s);
    lemma_prefix_chars("async "@, s);
    lemma_prefix_chars("unsafe "@, s);
    lemma_prefix_chars("extern "@, s);
    lemma_prefix_chars("const "@, s);
    if "const "@.is_prefix_of(s) {
        assert(s[3] == 's');
        assert(word == "const "@);
        assert(s.skip(6) =~= tail);
    }
}

proof fn lemma_not_a_function(name: Seq<char>, rest: Seq<char>)
    requires
        names(name, rest),
        name != "fn"@ && name != "async"@,
    ensures
        !"fn "@.is_prefix_of(name + rest),
        !"async "@.is_prefix_of(name + rest),
{
    reveal_strlit("fn");
    reveal_strlit("async");
    reveal_strlit("fn ");
    reveal_strlit("async ");
    let tail = name + rest;
    let n = name.len() as int;
    lemma_prefix_chars("fn "@, tail);
    lemma_prefix_chars("async "@, tail);
    if "fn "@.is_prefix_of(tail) {
        if n > 2 {
            assert(ident_char(name[2]));
            assert(tail[2] == name[2]);
        }
        if n == 1 {
            assert(tail[1] == rest[0]);
        }
        assert(tail[0] == name[0] && tail[1] == name[1]);
        assert(name =~= "fn"@);
    }
    if "async "@.is_prefix_of(tail) {
        if n > 5 {
            assert(ident_char(name[5]));
            assert(tail[5] == name[5]);
        }
        if n < 5 {
            assert(tail[n] == rest[0]);
            assert(tail[1] == 's' && tail[2] == 'y' && tail[3] == 'n' && tail[4] == 'c');
        }
        assert(tail[0] == name[0] && tail[1] == name[1] && tail[2] == name[2] && tail[3] == name[3]
            && tail[4] == name[4]);
        assert(name =~= "async"@);
    }
}

/// The words that may stand between a visibility and `fn` make no difference to what is declared.
pub proof fn law_function_words_are_passed_over(s: Seq<char>, abi: Seq<char>)
    requires
        s.len() > 0 && !is_white(s[0]),
        !abi.contains('"'),
    ensures
        pub_item("pub "@ + "async "@ + s) == pub_item("pub "@ + s),
        pub_item("pub "@ + "unsafe "@ + s) == pub_item("pub "@ + s),
        "fn "@.is_prefix_of(s) ==> pub_item("pub "@ + "const "@ + s) == pub_item("pub "@ + s),
        pub_item("pub "@ + "extern "@ + seq!['"'] + abi + seq!['"', ' '] + s) == pub_item(
            "pub "@ + s,
        ),
{
    reveal_strlit("pub ");
    reveal_strlit("pub(");
    reveal_strlit("async ");
    reveal_strlit("unsafe ");
    reveal_strlit("const ");
    reveal_strlit("extern ");
    lemma_pub_rest(s);
    lemma_pub_rest("async "@ + s);
    lemma_pub_rest("unsafe "@ + s);
    lemma_pub_rest("const "@ + s);
    assert("pub "@ + "async "@ + s =~= "pub "@ + ("async "@ + s));
    assert("pub "@ + "unsafe "@ + s =~= "pub "@ + ("unsafe "@ + s));
    assert("pub "@ + "const "@ + s =~= "pub "@ + ("const "@ + s));
    let a = "async "@ + s;
    assert(a.subrange(0, 6) =~= "async "@);
    assert(a.skip(6) =~= s);
    let u = "unsafe "@ + s;
    assert(u.subrange(0, 7) =~= "unsafe "@);
    assert(u.skip(7) =~= s);
    lemma_prefix_chars("async "@, u);
    lemma_prefix_chars("const "@, u);
    let c = "const "@ + s;
    assert(c.subrange(0, 6) =~= "const "@);
    assert(c.skip(6) =~= s);
    lemma_prefix_chars("async "@, c);
    let quoted = seq!['"'] + abi + seq!['"', ' '] + s;
    let e = "extern "@ + quoted;
    assert("pub "@ + "extern "@ + seq!['"'] + abi + seq!['"', ' '] + s =~= "pub "@ + e);
    lemma_pub_rest(e);
    assert(e.subrange(0, 7) =~= "extern "@);
    assert(e.skip(7) =~= quoted);
    lemma_prefix_chars("async "@, e);
    lemma_prefix_chars("const "@, e);
    lemma_prefix_chars("unsafe "@, e);
    assert(!is_white('"'));
    assert(trimmed_start(quoted) == quoted);
    let q = quoted.skip(1);
    assert(q =~= abi + seq!['"', ' '] + s);
    assert(q[abi.len() as int] == '"');
    assert(q.contains('"'));
    lemma_first_index(q, '"');
    let k = first_index(q, '"') as int;
    if k < abi.len() {
        assert(abi[k] == '"');
        assert(abi.contains('"'));
    }
    assert(k == abi.len());
    assert(q.skip(k + 1) =~= seq![' '] + s);
    lemma_leading_white(seq![' '], s);
    assert(trimmed_start(s) == s);
}

proof fn lemma_pub_rest(s: Seq<char>)
    requires
        s.len() > 0 && !is_white(s[0]),
    ensures
        vis_split("pub "@ + s) matches Some((vis, rest)) && vis == VisibilityView::Pub
            && trimmed_start(rest) == s,
{
    reveal_strlit("pub ");
    reveal_strlit("pub(");
    let line = "pub "@ + s;
    assert(!is_white(line[0]));
    lemma_prefix_chars("pub("@, line);
    assert(line[3] == ' ');
    assert(line.subrange(0, 4) =~= "pub "@);
    assert(line.skip(3) =~= seq![' '] + s);
    lemma_leading_white(seq![' '], s);
}

/// A restricted item is found like any other, with its restriction.
pub proof fn law_restriction_is_kept(scope: Seq<char>, s: Seq<char>)
    requires
        !scope.contains(')'),
        s.len() > 0 && !is_white(s[0]),
    ensures
        vis_split("pub("@ + scope + seq![')', ' '] + s) matches Some((vis, rest)) && vis
            == VisibilityView::Restricted("pub("@ + scope + seq![')']) && trimmed_start(rest) == s,
{
    reveal_strlit("pub(");
    reveal_strlit("pub");
    let line = "pub("@ + scope + seq![')', ' '] + s;
    let vis = "pub("@ + scope + seq![')'];
    assert(!is_white(line[0]));
    assert(line.subrange(0, 4) =~= "pub("@);
    let at = 4 + scope.len() as int;
    assert(line[at] == ')');
    assert(line.contains(')'));
    lemma_first_index(line, ')');
    let k = first_index(line, ')') as int;
    if k < at {
        if k >= 4 {
            assert(scope[k - 4] == line[k]);
            assert(scope.contains(')'));
        } else {
            assert("pub("@[k] == line[k]);
        }
    }
    assert(line.take(k + 1) =~= vis);
    assert(line.skip(k + 1) =~= seq![' '] + s);
    lemma_leading_white(seq![' '], s);
    assert(vis[0] == 'p' && vis.last() == ')');
    assert(trimmed_start(vis) == vis);
    assert(trimmed(vis) == vis);
    assert(vis.len() > 3);
}

proof fn lemma_angle_run(inner: Seq<char>, rest: Seq<char>, depth: int)
    requires
        !inner.contains('<') && !inner.contains('>'),
    ensures
        angle_end(inner + rest, depth) == match angle_end(rest, depth) {
            Some(i) => Some(i + inner.len()),
            None => None,
        },
    decreases inner.len(),
{
    if inner.len() == 0 {
        assert(inner + rest =~= rest);
    } else {
        let b = inner.skip(1);
        assert(inner.contains(inner[0]));
        assert forall|x: char| b.contains(x) implies inner.contains(x) by {
            let k = b.index_of(x);
            assert(inner[k + 1] == x);
        }
        assert((inner + rest).skip(1) =~= b + rest);
        assert((inner + rest)[0] == inner[0]);
        lemma_angle_run(b, rest, depth);
    }
}

/// Generics end where their first bracket is closed, and brackets inside of them are passed over.
pub proof fn law_generics_end_where_they_close(
    a: Seq<char>,
    inner: Seq<char>,
    b: Seq<char>,
    rest: Seq<char>,
)
    requires
        !a.contains('<') && !a.contains('>'),
        !inner.contains('<') && !inner.contains('>'),
        !b.contains('<') && !b.contains('>'),
    ensures
        angle_end(seq!['<'] + a + seq!['>'] + rest, 0) == Some(a.len() + 2int),
        angle_end(seq!['<'] + a + seq!['<'] + inner + seq!['>'] + b + seq!['>'] + rest, 0) == Some(
            a.len() + inner.len() + b.len() + 4int,
        ),
{
    let t1 = seq!['>'] + rest;
    let t0 = a + t1;
    assert(seq!['<'] + a + seq!['>'] + rest =~= seq!['<'] + t0);
    assert((seq!['<'] + t0).skip(1) =~= t0);
    lemma_angle_run(a, t1, 1);
    assert(t1[0] == '>');
    let u3 = b + t1;
    let u2 = seq!['>'] + u3;
    let u1 = inner + u2;
    let u0 = a + (seq!['<'] + u1);
    assert(seq!['<'] + a + seq!['<'] + inner + seq!['>'] + b + seq!['>'] + rest =~= seq!['<'] + u0);
    assert((seq!['<'] + u0).skip(1) =~= u0);
    lemma_angle_run(a, seq!['<'] + u1, 1);
    assert((seq!['<'] + u1).skip(1) =~= u1);
    lemma_angle_run(inner, u2, 2);
    assert(u2.skip(1) =~= u3);
    lemma_angle_run(b, t1, 1);
}

/// An `impl` is for the type behind `for`, or the one it names where there is no `for`; its generics
/// are passed over. A negative one and another word that begins alike open no methods.
pub proof fn law_impl_names_its_type(
    generics: Seq<char>,
    interface: Seq<char>,
    name: Seq<char>,
    rest: Seq<char>,
)
    requires
        names(name, rest),
        !occurs_in(" for "@, name + rest),
        !generics.contains('<') && !generics.contains('>'),
        interface.len() > 0 && ident_char(interface[0]),
        forall|k: int|
            0 <= k < interface.len() ==> #[trigger] (interface + " for "@ + name + rest).subrange(
                k,
                k + 5,
            ) != " for "@,
    ensures
        impl_type("impl "@ + name + rest) == Some(name),
        impl_type("impl "@ + interface + " for "@ + name + rest) == Some(name),
        impl_type("impl<"@ + generics + "> "@ + name + rest) == Some(name),
        impl_type("impl<"@ + generics + "> "@ + interface + " for "@ + name + rest) == Some(name),
        impl_type("impl !"@ + rest) is None,
        impl_type("impl"@ + name + rest) is None,
{
    let tail = name + rest;
    let full = interface + " for "@ + name + rest;
    lemma_impl_targets(interface, name, rest);
    assert(ident_char(name[0]));
    lemma_plain_impl(tail);
    lemma_plain_impl(full);
    lemma_generic_impl(generics, tail);
    lemma_generic_impl(generics, full);
    assert("impl "@ + name + rest =~= "impl "@ + tail);
    assert("impl "@ + interface + " for "@ + name + rest =~= "impl "@ + full);
    assert("impl<"@ + generics + "> "@ + name + rest =~= "impl<"@ + generics + "> "@ + tail);
    assert("impl<"@ + generics + "> "@ + interface + " for "@ + name + rest =~= "impl<"@ + generics
        + "> "@ + full);
    lemma_no_impl(name, rest);
}

proof fn lemma_impl_targets(interface: Seq<char>, name: Seq<char>, rest: Seq<char>)
    requires
        names(name, rest),
        !occurs_in(" for "@, name + rest),
        forall|k: int|
            0 <= k < interface.len() ==> #[trigger] (interface + " for "@ + name + rest).subrange(
                k,
                k + 5,
            ) != " for "@,
    ensures
        impl_target(name + rest) == Some(name),
        impl_target(interface + " for "@ + name + rest) == Some(name),
{
    reveal_strlit(" for ");
    let tail = name + rest;
    lemma_head_ident(name, rest);
    lemma_first_match(tail, " for "@);
    let full = interface + " for "@ + name + rest;
    let at = interface.len() as int;
    lemma_first_match(full, " for "@);
    assert(full.subrange(at, at + 5) =~= " for "@);
    assert(occurs_in(" for "@, full)) by {
        assert(full.subrange(at, at + " for "@.len()) == " for "@);
    }
    let m = first_match(full, " for "@)->0;
    assert(m == at) by {
        if m < at {
            assert(full.subrange(m, m + 5) == " for "@);
        }
    }
    assert(full.skip(at + 5) =~= tail);
}

proof fn lemma_no_impl(name: Seq<char>, rest: Seq<char>)
    requires
        names(name, rest),
    ensures
        impl_type("impl !"@ + rest) is None,
        impl_type("impl"@ + name + rest) is None,
{
    reveal_strlit("impl");
    reveal_strlit("impl !");
    let no = "impl !"@ + rest;
    let negated = seq!['!'] + rest;
    assert(!is_white(no[0]));
    assert(no.subrange(0, 4) =~= "impl"@);
    assert(no.skip(4) =~= seq![' '] + negated);
    lemma_leading_white(seq![' '], negated);
    assert(negated[0] == '!');
    assert(trimmed_start(negated) == negated);
    let other = "impl"@ + name + rest;
    assert(!is_white(other[0]));
    assert(other.subrange(0, 4) =~= "impl"@);
    assert(other.skip(4) =~= name + rest);
    assert(ident_char(name[0]));
}

proof fn lemma_plain_impl(s: Seq<char>)
    requires
        s.len() > 0 && ident_char(s[0]),
    ensures
        impl_type("impl "@ + s) == impl_target(s),
{
    reveal_strlit("impl ");
    reveal_strlit("impl");
    let line = "impl "@ + s;
    assert(!is_white(line[0]));
    assert(line.subrange(0, 4) =~= "impl"@);
    assert(line.skip(4) =~= seq![' '] + s);
    lemma_leading_white(seq![' '], s);
    assert(trimmed_start(s) == s);
}

proof fn lemma_generic_impl(generics: Seq<char>, s: Seq<char>)
    requires
        s.len() > 0 && ident_char(s[0]),
        !generics.contains('<') && !generics.contains('>'),
    ensures
        impl_type("impl<"@ + generics + "> "@ + s) == impl_target(s),
{
    reveal_strlit("impl<");
    reveal_strlit("impl");
    reveal_strlit("> ");
    let line = "impl<"@ + generics + "> "@ + s;
    let t = seq!['<'] + generics + seq!['>'] + (seq![' '] + s);
    assert(!is_white(line[0]));
    assert(line.subrange(0, 4) =~= "impl"@);
    assert(line.skip(4) =~= t);
    assert(!is_white('<'));
    assert(trimmed_start(t) == t);
    law_generics_end_where_they_close(generics, Seq::empty(), Seq::empty(), seq![' '] + s);
    assert(t.skip(generics.len() + 2int) =~= seq![' '] + s);
    lemma_leading_white(seq![' '], s);
    assert(trimmed_start(s) == s);
}

/// A public import exports what it names: a plain path itself, and a group each of its members under
/// the path before the braces.
pub proof fn law_exports_are_spelled_out(path: Seq<char>, a: Seq<char>, b: Seq<char>)
    requires
        plain(path) && path.len() > 0 && free_of(path, ';', '{', '}'),
        plain(a) && a.len() > 0 && free_of(a, ';', '{', '}') && !a.contains(','),
        plain(b) && b.len() > 0 && free_of(b, ';', '{', '}') && !b.contains(','),
    ensures
        pub_use_statement("pub use "@ + path + ";"@) == Some(
            (VisibilityView::Pub, seq![path]),
        ),
        pub_use_statement("pub use "@ + path + "::{"@ + a + ","@ + b + "};"@) == Some(
            (VisibilityView::Pub, seq![path + "::"@ + a, path + "::"@ + b]),
        ),
{
    reveal_strlit(";");
    reveal_strlit("::{");
    reveal_strlit("::");
    reveal_strlit(",");
    reveal_strlit("};");
    assert(";"@ =~= seq![';']);
    lemma_use_text(path);
    assert(use_imports(path + seq![';']) =~= seq![path]);
    lemma_export(path);
    let group = path + "::"@ + seq!['{'] + (a + seq![','] + b) + seq!['}'];
    assert("pub use "@ + path + "::{"@ + a + ","@ + b + "};"@ =~= "pub use "@ + group + ";"@);
    lemma_group(path, a, b);
    lemma_group_members(path, a, b);
    lemma_export(group);
}

proof fn lemma_group(path: Seq<char>, a: Seq<char>, b: Seq<char>)
    requires
        plain(path) && !path.contains(';'),
        plain(a) && !a.contains(';'),
        plain(b) && !b.contains(';'),
    ensures
        ({
            let group = path + "::"@ + seq!['{'] + (a + seq![','] + b) + seq!['}'];
            plain(group) && !group.contains(';') && group.len() > 0
        }),
{
    reveal_strlit("::");
    let head = path + "::"@;
    let inner = a + seq![','] + b;
    let group = head + seq!['{'] + inner + seq!['}'];
    assert(plain(head));
    assert(plain(inner));
    assert(plain(group));
    if group.contains(';') {
        let k = group.index_of(';');
        if k < path.len() {
            assert(path[k] == ';');
        }
        let j = k - head.len() - 1;
        if 0 <= j < a.len() {
            assert(a[j] == ';');
        }
        let i = j - a.len() - 1;
        if 0 <= i < b.len() {
            assert(b[i] == ';');
        }
    }
}

proof fn lemma_group_members(path: Seq<char>, a: Seq<char>, b: Seq<char>)
    requires
        plain(path) && free_of(path, ';', '{', '}'),
        plain(a) && a.len() > 0 && free_of(a, ';', '{', '}') && !a.contains(','),
        plain(b) && b.len() > 0 && free_of(b, ';', '{', '}') && !b.contains(','),
    ensures
        use_imports(
            path + "::"@ + seq!['{'] + (a + seq![','] + b) + seq!['}'] + seq![';'],
        ) == seq![path + "::"@ + a, path + "::"@ + b],
{
    let head = path + "::"@;
    let inner = a + seq![','] + b;
    let group = head + seq!['{'] + inner + seq!['}'];
    assert(use_text(group + seq![';']) == group) by {
        lemma_group(path, a, b);
        lemma_use_text(group);
    }
    lemma_group_head(path, inner);
    lemma_group_inner(inner);
    assert(trimmed(inner) == inner) by {
        lemma_plain_sum(a, seq![',']);
        lemma_plain_sum(a + seq![','], b);
        lemma_plain(inner);
    }
    lemma_two_members(head, a, b);
    lemma_imports_of_group(group + seq![';'], group, head, inner);
}

proof fn lemma_imports_of_group(
    body: Seq<char>,
    group: Seq<char>,
    head: Seq<char>,
    inner: Seq<char>,
)
    requires
        use_text(body) == group,
        group.len() > 0 && group.contains('{'),
        first_index(group, '{') == head.len(),
        group_prefix(trimmed(group.take(head.len() as int))) == head,
        group.skip(head.len() + 1int) == inner + seq!['}'],
        last_index(inner + seq!['}'], '}') == inner.len(),
        (inner + seq!['}']).take(inner.len() as int) == inner,
        trimmed(inner) == inner,
        group_imports(head, top_pieces(inner, '{', '}', 0, Seq::empty())).len() > 0,
    ensures
        use_imports(body) == group_imports(head, top_pieces(inner, '{', '}', 0, Seq::empty())),
{
}

proof fn lemma_group_head(path: Seq<char>, inner: Seq<char>)
    requires
        plain(path) && !path.contains('{'),
    ensures
        ({
            let head = path + "::"@;
            let group = head + seq!['{'] + inner + seq!['}'];
            &&& group.contains('{')
            &&& first_index(group, '{') == head.len()
            &&& group_prefix(trimmed(group.take(head.len() as int))) == head
            &&& group.skip(head.len() + 1int) == inner + seq!['}']
            &&& group.len() > 0
        }),
{
    reveal_strlit("::");
    let head = path + "::"@;
    let group = head + seq!['{'] + inner + seq!['}'];
    let at = head.len() as int;
    assert(group[at] == '{');
    assert(group.contains('{'));
    lemma_first_index(group, '{');
    let k = first_index(group, '{') as int;
    if k < path.len() {
        assert(path[k] == '{');
        assert(path.contains('{'));
    }
    assert(k == at);
    assert(group.take(k) =~= head);
    assert(plain("::"@));
    lemma_plain_sum(path, "::"@);
    lemma_plain(head);
    assert(head.subrange(head.len() - 2, head.len() as int) =~= "::"@);
    assert(group.skip(at + 1) =~= inner + seq!['}']);
}

proof fn lemma_group_inner(inner: Seq<char>)
    ensures
        last_index(inner + seq!['}'], '}') == inner.len(),
        (inner + seq!['}']).take(inner.len() as int) == inner,
{
    let after = inner + seq!['}'];
    law_last_index(after, '}');
    assert(after[inner.len() as int] == '}');
    assert(after.contains('}'));
    assert(after.take(inner.len() as int) =~= inner);
}

proof fn lemma_two_members(head: Seq<char>, a: Seq<char>, b: Seq<char>)
    requires
        plain(a) && a.len() > 0 && free_of(a, ',', '{', '}'),
        plain(b) && b.len() > 0 && free_of(b, ',', '{', '}'),
    ensures
        group_imports(head, top_pieces(a + seq![','] + b, '{', '}', 0, Seq::empty())) == seq![
            head + a,
            head + b,
        ],
{
    law_commas_split_outside_brackets(a, Seq::empty(), b, '{', '}');
    law_commas_split_outside_brackets(b, Seq::empty(), Seq::empty(), '{', '}');
    let pieces = top_pieces(a + seq![','] + b, '{', '}', 0, Seq::empty());
    assert(pieces =~= seq![a, b]);
    lemma_plain(a);
    lemma_plain(b);
    assert(pieces.drop_last() =~= seq![a]);
    let none = Seq::<Seq<char>>::empty();
    assert(seq![a].drop_last() =~= none);
    assert(group_imports(head, none) =~= none);
    assert(group_imports(head, seq![a]) =~= seq![head + a]);
    assert(group_imports(head, pieces) =~= seq![head + a, head + b]);
}

proof fn lemma_use_text(tree: Seq<char>)
    requires
        plain(tree) && tree.len() > 0 && !tree.contains(';'),
    ensures
        use_text(tree + seq![';']) == tree,
{
    let body = tree + seq![';'];
    lemma_first_index(body, ';');
    assert(body[tree.len() as int] == ';');
    assert(body.contains(';'));
    let k = first_index(body, ';') as int;
    if k < tree.len() {
        assert(tree[k] == ';');
        assert(tree.contains(';'));
    }
    assert(body.take(k) =~= tree);
    lemma_plain(tree);
}

proof fn lemma_export(tree: Seq<char>)
    requires
        plain(tree) && tree.len() > 0,
        use_imports(tree + seq![';']).len() > 0,
    ensures
        pub_use_statement("pub use "@ + tree + ";"@) == Some(
            (VisibilityView::Pub, use_imports(tree + seq![';'])),
        ),
{
    reveal_strlit("pub use ");
    reveal_strlit("pub ");
    reveal_strlit("pub");
    reveal_strlit("use ");
    reveal_strlit("use");
    reveal_strlit(";");
    let body = tree + seq![';'];
    let stmt = "pub use "@ + tree + ";"@;
    assert(stmt[0] == 'p' && stmt.last() == ';');
    assert(trimmed_start(stmt) == stmt);
    assert(trimmed(stmt) == stmt);
    assert(stmt.subrange(0, 3) =~= "pub"@);
    let inner = "use "@ + body;
    assert(stmt =~= "pub "@ + inner);
    assert(stmt.skip(3) =~= seq![' '] + inner);
    lemma_leading_white(seq![' '], inner);
    assert(trimmed_start(inner) == inner);
    assert(inner.subrange(0, 4) =~= "use "@);
    lemma_pub_rest(inner);
    assert(inner.subrange(0, 3) =~= "use"@);
    assert(inner.skip(3) =~= seq![' '] + body);
    lemma_leading_white(seq![' '], body);
    assert(!is_white(tree[0]));
    assert(body[0] == tree[0]);
    assert(trimmed_start(body) == body);
}

} // verus!
