//! Paths as texts, by the rules of the system they are for.
//!
//! Components are separated by `/`, and on Windows by `\` too. There a path may begin with a
//! prefix: a drive, or a server with its share.

use vstd::prelude::*;
use crate::platform::Platform;
use crate::text::{chars_of, push_chars, string_of};

verus! {

/// Whether a character separates components.
pub open spec fn separates(platform: Platform, c: char) -> bool {
    c == '/' || (platform == Platform::Windows && c == '\\')
}

/// Whether a character separates components.
pub fn is_separator(platform: Platform, c: char) -> (r: bool)
    ensures
        r == separates(platform, c),
{
    c == '/' || (platform == Platform::Windows && c == '\\')
}

/// The separator that is written between components.
pub open spec fn main_separator(platform: Platform) -> char {
    if platform == Platform::Windows {
        '\\'
    } else {
        '/'
    }
}

/// Whether a path begins with a drive, such as `C:`.
pub open spec fn has_drive(platform: Platform, s: Seq<char>) -> bool {
    platform == Platform::Windows && s.len() >= 2 && s[1] == ':' && ('a' <= s[0] <= 'z' || 'A'
        <= s[0] <= 'Z')
}

fn begins_with_drive(platform: Platform, s: &[char]) -> (r: bool)
    ensures
        r == has_drive(platform, s@),
{
    platform == Platform::Windows && s.len() >= 2 && s[1] == ':' && (('a' <= s[0] && s[0] <= 'z')
        || ('A' <= s[0] && s[0] <= 'Z'))
}

/// The first separator at `i` or after it; the length where there is none.
pub open spec fn next_separator(platform: Platform, s: Seq<char>, i: int) -> int
    decreases s.len() - i,
{
    if i >= s.len() {
        s.len() as int
    } else if separates(platform, s[i]) {
        i
    } else {
        next_separator(platform, s, i + 1)
    }
}

fn find_separator(platform: Platform, s: &[char], from: usize) -> (r: usize)
    requires
        from <= s@.len(),
    ensures
        r == next_separator(platform, s@, from as int),
        from <= r <= s@.len(),
{
    let mut i: usize = from;
    while i < s.len() && !is_separator(platform, s[i])
        invariant
            from <= i <= s@.len(),
            next_separator(platform, s@, from as int) == next_separator(platform, s@, i as int),
        decreases s@.len() - i,
    {
        i += 1;
    }
    i
}

/// Where a server with its share ends, such as `\\server\share`; nothing where there is none.
pub open spec fn share_end(platform: Platform, s: Seq<char>) -> int {
    let server = next_separator(platform, s, 2);
    let share = next_separator(platform, s, server + 1);
    if s.len() >= 2 && separates(platform, s[0]) && separates(platform, s[1]) && 2 < server < s.len()
        && server + 1 < share {
        share
    } else {
        0
    }
}

/// The length of a path's prefix; only Windows has one.
pub open spec fn prefix_len(platform: Platform, s: Seq<char>) -> int {
    if platform != Platform::Windows {
        0
    } else if has_drive(platform, s) {
        2
    } else {
        share_end(platform, s)
    }
}

fn find_prefix(platform: Platform, s: &[char]) -> (r: usize)
    ensures
        r == prefix_len(platform, s@),
        r <= s@.len(),
{
    if platform != Platform::Windows {
        return 0;
    }
    if begins_with_drive(platform, s) {
        return 2;
    }
    if s.len() < 2 || !is_separator(platform, s[0]) || !is_separator(platform, s[1]) {
        return 0;
    }
    let server: usize = find_separator(platform, s, 2);
    if server == 2 || server == s.len() {
        return 0;
    }
    let share: usize = find_separator(platform, s, server + 1);
    if server + 1 < share {
        share
    } else {
        0
    }
}

/// `base` with `name` appended as a further component. A `name` with a prefix of its own replaces
/// `base`; one that begins at a root replaces all but the prefix of `base`.
pub open spec fn path_join(platform: Platform, base: Seq<char>, name: Seq<char>) -> Seq<char> {
    if prefix_len(platform, name) > 0 || base.len() == 0 {
        name
    } else if name.len() > 0 && separates(platform, name[0]) {
        base.take(prefix_len(platform, base)) + name
    } else if separates(platform, base.last()) || (base.len() == 2 && has_drive(platform, base)) {
        base + name
    } else {
        base.push(main_separator(platform)) + name
    }
}

/// Appends `name` to `base` as a further component.
pub fn join_path(platform: Platform, base: &str, name: &str) -> (r: String)
    ensures
        r@ == path_join(platform, base@, name@),
{
    let b = chars_of(base);
    let n = chars_of(name);
    if find_prefix(platform, &n) > 0 || b.len() == 0 {
        return name.to_string();
    }
    let mut out = String::new();
    if n.len() > 0 && is_separator(platform, n[0]) {
        let k: usize = find_prefix(platform, &b);
        let prefix = &b.as_slice()[0..k];
        assert(prefix@ == base@.take(k as int));
        push_chars(&mut out, prefix);
    } else {
        push_chars(&mut out, &b);
        assert(out@ == base@);
        if !is_separator(platform, b[b.len() - 1]) && !(b.len() == 2 && begins_with_drive(
            platform,
            &b,
        )) {
            if platform == Platform::Windows {
                out.push('\\');
            } else {
                out.push('/');
            }
        }
    }
    push_chars(&mut out, &n);
    assert(out@ == path_join(platform, base@, name@));
    out
}

/// A path behind its prefix without trailing separators and `.` components. A root and a leading
/// `.` stay.
pub open spec fn path_trimmed(platform: Platform, s: Seq<char>) -> Seq<char>
    decreases s.len(),
{
    if s.len() > 1 && (separates(platform, s.last()) || (s.last() == '.' && separates(
        platform,
        s[s.len() - 2],
    ))) {
        path_trimmed(platform, s.drop_last())
    } else {
        s
    }
}

/// The last separator of a text; -1 where there is none.
pub open spec fn last_separator(platform: Platform, s: Seq<char>) -> int
    decreases s.len(),
{
    if s.len() == 0 {
        -1
    } else if separates(platform, s.last()) {
        s.len() - 1
    } else {
        last_separator(platform, s.drop_last())
    }
}

/// What lies behind the prefix of a path, without its last component; a root and the empty path
/// have none.
pub open spec fn body_parent(platform: Platform, s: Seq<char>) -> Option<Seq<char>> {
    let p = path_trimmed(platform, s);
    if p.len() == 0 || (p.len() == 1 && separates(platform, p[0])) {
        None
    } else {
        Some(path_trimmed(platform, p.take(last_separator(platform, p) + 1)))
    }
}

/// A path without its last component; a root, a prefix and the empty path have none.
pub open spec fn path_parent(platform: Platform, s: Seq<char>) -> Option<Seq<char>> {
    let k = prefix_len(platform, s);
    match body_parent(platform, s.skip(k)) {
        Some(body) => Some(s.take(k) + body),
        None => None,
    }
}

/// The last component of a path.
pub open spec fn file_name(platform: Platform, path: Seq<char>) -> Seq<char> {
    let p = path_trimmed(platform, path.skip(prefix_len(platform, path)));
    p.skip(last_separator(platform, p) + 1)
}

fn trim_path<'a>(platform: Platform, s: &'a [char]) -> (r: &'a [char])
    ensures
        r@ == path_trimmed(platform, s@),
{
    let mut n: usize = s.len();
    assert(s@.take(n as int) == s@);
    while n > 1 && (is_separator(platform, s[n - 1]) || (s[n - 1] == '.' && is_separator(
        platform,
        s[n - 2],
    )))
        invariant
            n <= s@.len(),
            path_trimmed(platform, s@) == path_trimmed(platform, s@.take(n as int)),
        decreases n,
    {
        assert(s@.take(n as int).drop_last() == s@.take(n - 1));
        n -= 1;
    }
    let r = &s[0..n];
    assert(r@ == s@.take(n as int));
    r
}

/// Where the last component begins.
fn name_start(platform: Platform, s: &[char]) -> (r: usize)
    ensures
        r == last_separator(platform, s@) + 1,
        r <= s@.len(),
{
    let mut n: usize = s.len();
    assert(s@.take(n as int) == s@);
    while n > 0 && !is_separator(platform, s[n - 1])
        invariant
            n <= s@.len(),
            last_separator(platform, s@) == last_separator(platform, s@.take(n as int)),
        decreases n,
    {
        assert(s@.take(n as int).drop_last() == s@.take(n - 1));
        n -= 1;
    }
    n
}

fn behind_prefix<'a>(platform: Platform, s: &'a [char]) -> (r: &'a [char])
    ensures
        r@ == s@.skip(prefix_len(platform, s@)),
{
    let k: usize = find_prefix(platform, s);
    let r = &s[k..s.len()];
    assert(r@ == s@.skip(k as int));
    r
}

/// A path without its last component.
pub fn parent_path(platform: Platform, path: &str) -> (r: Option<String>)
    ensures
        r.deep_view() == path_parent(platform, path@),
{
    let all = chars_of(path);
    let k: usize = find_prefix(platform, &all);
    let p = trim_path(platform, behind_prefix(platform, &all));
    if p.len() == 0 || (p.len() == 1 && is_separator(platform, p[0])) {
        return None;
    }
    let n: usize = name_start(platform, p);
    let head = &p[0..n];
    assert(head@ == p@.take(n as int));
    let prefix = &all.as_slice()[0..k];
    assert(prefix@ == path@.take(k as int));
    let mut out = string_of(prefix);
    push_chars(&mut out, trim_path(platform, head));
    Some(out)
}

/// The last component of a path.
pub fn last_component(platform: Platform, path: &str) -> (r: String)
    ensures
        r@ == file_name(platform, path@),
{
    let all = chars_of(path);
    let p = trim_path(platform, behind_prefix(platform, &all));
    let n: usize = name_start(platform, p);
    let name = &p[n..p.len()];
    assert(name@ == p@.skip(n as int));
    string_of(name)
}

proof fn lemma_last_separator(platform: Platform, s: Seq<char>)
    ensures
        -1 <= last_separator(platform, s) < s.len(),
        forall|i: int|
            last_separator(platform, s) < i < s.len() ==> !separates(platform, #[trigger] s[i]),
        last_separator(platform, s) >= 0 ==> separates(platform, s[last_separator(platform, s)]),
    decreases s.len(),
{
    if s.len() > 0 && !separates(platform, s.last()) {
        lemma_last_separator(platform, s.drop_last());
        assert forall|i: int| last_separator(platform, s) < i < s.len() implies !separates(
            platform,
            #[trigger] s[i],
        ) by {
            if i < s.len() - 1 {
                assert(s.drop_last()[i] == s[i]);
            }
        }
    }
}

/// A name that is one plain component: it holds no separator, is not `.`, and on Windows names no
/// drive.
pub open spec fn plain_name(platform: Platform, name: Seq<char>) -> bool {
    &&& name.len() > 0
    &&& name != seq!['.']
    &&& !has_drive(platform, name)
    &&& forall|i: int| 0 <= i < name.len() ==> !separates(platform, #[trigger] name[i])
}

proof fn lemma_joined(platform: Platform, base: Seq<char>, name: Seq<char>)
    requires
        plain_name(platform, name),
        prefix_len(platform, path_join(platform, base, name)) == prefix_len(platform, base),
    ensures
        ({
            let all = path_join(platform, base, name);
            let body = all.skip(prefix_len(platform, all));
            let cut = body.len() - name.len();
            &&& path_trimmed(platform, body) == body
            &&& cut >= 0
            &&& body.skip(cut) == name
            &&& last_separator(platform, body) == cut - 1
            &&& all == base + name || all == base.push(main_separator(platform)) + name
            &&& base.len() == 0 ==> all == name
        }),
{
    assert(!separates(platform, name[0]));
    assert(prefix_len(platform, name) == 0);
    let all = path_join(platform, base, name);
    let k = prefix_len(platform, all);
    lemma_prefix_fits(platform, base);
    lemma_prefix_fits(platform, all);
    let body = all.skip(k);
    let n = name.len() as int;
    if base.len() == 0 {
        assert(all =~= base + name);
    }
    assert(all.skip(all.len() - n) =~= name);
    assert(body.skip(body.len() - n) =~= name);
    assert(body.last() == name.last());
    if body.len() > 1 && body.last() == '.' && separates(platform, body[body.len() - 2]) {
        if n > 1 {
            assert(body[body.len() - 2] == name[n - 2]);
        } else {
            assert(name =~= seq!['.']);
        }
    }
    lemma_last_separator(platform, body);
    let at = last_separator(platform, body);
    if at >= body.len() - n {
        assert(body[at] == name[at - (body.len() - n)]);
    }
    if at + 1 < body.len() - n {
        assert(body[body.len() - n - 1] == all[all.len() - n - 1]);
    }
}

/// A plain name that was appended to a directory is its last component. On Windows a bare server
/// becomes a prefix with the name appended to it, and is left out.
pub proof fn law_joined_name_is_last(platform: Platform, base: Seq<char>, name: Seq<char>)
    requires
        plain_name(platform, name),
        prefix_len(platform, path_join(platform, base, name)) == prefix_len(platform, base),
    ensures
        file_name(platform, path_join(platform, base, name)) == name,
{
    lemma_joined(platform, base, name);
}

/// The directory to which a plain name was appended is its parent, where the directory is written
/// without trailing separators. A server with its share gains its root.
#[verifier::spinoff_prover]
#[verifier::rlimit(60)]
pub proof fn law_parent_of_joined(platform: Platform, base: Seq<char>, name: Seq<char>)
    requires
        plain_name(platform, name),
        prefix_len(platform, path_join(platform, base, name)) == prefix_len(platform, base),
        path_trimmed(platform, base.skip(prefix_len(platform, base))) == base.skip(
            prefix_len(platform, base),
        ),
    ensures
        path_parent(platform, path_join(platform, base, name)) == Some(
            if base.len() > 2 && base.len() == prefix_len(platform, base) {
                base.push(main_separator(platform))
            } else {
                base
            },
        ),
{
    lemma_joined(platform, base, name);
    lemma_prefix_fits(platform, base);
    let all = path_join(platform, base, name);
    let k = prefix_len(platform, all);
    let body = all.skip(k);
    let cut = body.len() - name.len();
    let head = body.take(cut);
    let own = base.skip(k);
    assert(all.take(k) =~= base.take(k));
    assert(base =~= base.take(k) + own);
    if body.len() == 1 {
        assert(body =~= name);
        assert(body[0] == name[0]);
    }
    assert(body_parent(platform, body) == Some(path_trimmed(platform, head)));
    if all == base + name {
        assert(head =~= own);
        assert(all.take(k) + own =~= base);
        if base.len() > 2 && base.len() == k {
            let server = next_separator(platform, base, 2);
            lemma_next_separator(platform, base, server + 1);
            assert(!separates(platform, base.last()));
            assert(all.len() == base.len() + 1 + name.len());
        }
    } else {
        assert(head =~= own.push(main_separator(platform)));
        assert(head.drop_last() =~= own);
        if own.len() == 0 {
            assert(path_trimmed(platform, head) == head);
            assert(all.take(k) + head =~= base.push(main_separator(platform)));
            assert(!has_drive(platform, base));
            assert(base.len() == k);
        } else {
            assert(path_trimmed(platform, head) == own);
            assert(all.take(k) + own =~= base);
        }
    }
}

proof fn lemma_prefix_fits(platform: Platform, s: Seq<char>)
    ensures
        0 <= prefix_len(platform, s) <= s.len(),
{
    lemma_next_separator(platform, s, 2);
    lemma_next_separator(platform, s, next_separator(platform, s, 2) + 1);
}

proof fn lemma_next_separator(platform: Platform, s: Seq<char>, i: int)
    ensures
        next_separator(platform, s, i) <= s.len(),
        forall|j: int|
            i <= j < next_separator(platform, s, i) ==> !separates(platform, #[trigger] s[j]),
    decreases s.len() - i,
{
    if i < s.len() && !separates(platform, s[i]) {
        lemma_next_separator(platform, s, i + 1);
    }
}

} // verus!
