//! Directory trees and the Rust files in them.

use vstd::prelude::*;
use crate::order::{
    key_le, keys_ascend, law_sorted, law_texts_are_ordered_by_first_difference, rank_texts, sort,
    sorted_by, Keyed, Rank,
};
use crate::paths::{join_path, path_join};
use crate::platform::Platform;
use crate::text::{chars_of, ends_with, replace_char, replaced, same, string_of};

verus! {

/// An entry of a directory: its name, and what it holds where it is a directory itself.
pub struct TreeEntry {
    pub name: String,
    pub node: TreeNode,
}

/// What an entry is.
pub enum TreeNode {
    /// A file.
    File,
    /// A directory with its entries.
    Dir(Vec<TreeEntry>),
}

/// Hidden entries and build output are left out of a walk.
pub open spec fn skipped_name(name: Seq<char>) -> bool {
    (name.len() > 0 && name[0] == '.') || name == "target"@
}

/// Whether a walk leaves out the entry of this name.
pub fn is_skipped_name(name: &str) -> (r: bool)
    ensures
        r == skipped_name(name@),
{
    let n = chars_of(name);
    (n.len() > 0 && n[0] == '.') || same(name, "target")
}

/// Whether a file name has the extension `rs`.
pub open spec fn rust_name(name: Seq<char>) -> bool {
    ".rs"@.is_suffix_of(name) && name.len() > 3
}

/// Whether a file name has the extension `rs`.
pub fn is_rust_name(name: &str) -> (r: bool)
    ensures
        r == rust_name(name@),
{
    let n = chars_of(name);
    n.len() > 3 && ends_with(&n, ".rs")
}

/// The Rust files below the entries of `dir`, in the order of the entries.
pub open spec fn files_below(platform: Platform, dir: Seq<char>, entries: Seq<TreeEntry>) -> Seq<
    Seq<char>,
>
    decreases entries,
{
    if entries.len() == 0 {
        Seq::empty()
    } else {
        files_below(platform, dir, entries.drop_last()) + files_of(platform, dir, entries.last())
    }
}

/// The Rust files that one entry of `dir` brings.
pub open spec fn files_of(platform: Platform, dir: Seq<char>, entry: TreeEntry) -> Seq<Seq<char>>
    decreases entry,
{
    let path = path_join(platform, dir, entry.name@);
    if skipped_name(entry.name@) {
        Seq::empty()
    } else {
        match entry.node {
            TreeNode::File => if rust_name(entry.name@) {
                seq![path]
            } else {
                Seq::empty()
            },
            TreeNode::Dir(entries) => files_below(platform, path, entries@),
        }
    }
}

fn collect_files<const WINDOWS: bool>(
    platform: Platform,
    dir: &str,
    entries: &Vec<TreeEntry>,
    out: &mut Vec<FilePath<WINDOWS>>,
)
    ensures
        final(out).deep_view() == old(out).deep_view() + files_below(platform, dir@, entries@),
    decreases entries@,
{
    let mut i: usize = 0;
    assert(entries@.take(0) == Seq::<TreeEntry>::empty());
    assert(old(out).deep_view() + Seq::<Seq<char>>::empty() == old(out).deep_view());
    while i < entries.len()
        invariant
            i <= entries@.len(),
            out.deep_view() == old(out).deep_view() + files_below(
                platform,
                dir@,
                entries@.take(i as int),
            ),
        decreases entries@.len() - i,
    {
        let ghost before = out.deep_view();
        assert(entries@.take(i + 1).drop_last() == entries@.take(i as int));
        let entry = &entries[i];
        if !is_skipped_name(&entry.name) {
            let path = join_path(platform, dir, &entry.name);
            match &entry.node {
                TreeNode::File => {
                    if is_rust_name(&entry.name) {
                        let ghost p = path@;
                        out.push(FilePath { path });
                        assert(out.deep_view() =~= before + seq![p]);
                    }
                },
                TreeNode::Dir(inner) => {
                    collect_files(platform, &path, inner, out);
                },
            }
        }
        assert(out.deep_view() =~= before + files_of(platform, dir@, entries@[i as int]));
        i += 1;
    }
    assert(entries@.take(entries@.len() as int) == entries@);
}

/// The sort key of a path. Files are ordered component by component, so a separator counts as less
/// than every character that a name can hold.
pub open spec fn path_key(windows: bool, path: Seq<char>) -> Seq<Seq<char>> {
    let key = replaced(path, '/', '\0');
    seq![
        if windows {
            replaced(key, '\\', '\0')
        } else {
            key
        },
    ]
}

/// A path that is sorted by its components.
struct FilePath<const WINDOWS: bool> {
    path: String,
}

impl<const WINDOWS: bool> FilePath<WINDOWS> {
    fn key(&self) -> (r: String)
        ensures
            path_key(WINDOWS, self.path@) == seq![r@],
    {
        let key = replace_char(&chars_of(&self.path), '/', '\0');
        if WINDOWS {
            string_of(&replace_char(&key, '\\', '\0'))
        } else {
            string_of(&key)
        }
    }
}

impl<const WINDOWS: bool> DeepView for FilePath<WINDOWS> {
    type V = Seq<char>;

    closed spec fn deep_view(&self) -> Seq<char> {
        self.path@
    }
}

impl<const WINDOWS: bool> Keyed for FilePath<WINDOWS> {
    open spec fn key_of(v: Seq<char>) -> Seq<Seq<char>> {
        path_key(WINDOWS, v)
    }

    fn may_precede(&self, other: &Self) -> (r: bool) {
        let a = self.key();
        let b = other.key();
        proof {
            reveal_with_fuel(key_le, 2);
        }
        rank_texts(&a, &b) != Rank::Greater
    }
}

/// The Rust files of a directory tree, in path order.
pub open spec fn rust_files(platform: Platform, root: Seq<char>, entries: Seq<TreeEntry>) -> Seq<
    Seq<char>,
> {
    sorted_by(
        files_below(platform, root, entries),
        |p: Seq<char>| path_key(platform == Platform::Windows, p),
    )
}

fn list_sorted<const WINDOWS: bool>(
    platform: Platform,
    root: &str,
    entries: &Vec<TreeEntry>,
) -> (r: Vec<String>)
    ensures
        r.deep_view() == sorted_by(
            files_below(platform, root@, entries@),
            |p: Seq<char>| path_key(WINDOWS, p),
        ),
{
    let mut found: Vec<FilePath<WINDOWS>> = Vec::new();
    let ghost none = found.deep_view();
    collect_files(platform, root, entries, &mut found);
    proof {
        assert(none =~= Seq::<Seq<char>>::empty());
        assert(found.deep_view() =~= files_below(platform, root@, entries@));
        let a = |x: Seq<char>| FilePath::<WINDOWS>::key_of(x);
        let b = |p: Seq<char>| path_key(WINDOWS, p);
        assert(a =~= b);
    }
    let sorted = sort(found);
    let ghost all = sorted.deep_view();
    let mut out: Vec<String> = Vec::new();
    let mut i: usize = 0;
    while i < sorted.len()
        invariant
            i <= sorted@.len(),
            all == sorted.deep_view(),
            out@.len() == i,
            forall|k: int| 0 <= k < i ==> (#[trigger] out@[k])@ == all[k],
        decreases sorted@.len() - i,
    {
        out.push(sorted[i].path.clone());
        i += 1;
    }
    assert(out.deep_view() =~= all);
    out
}

/// Walks a directory tree for `.rs` files (skips `target/` and hidden entries).
pub fn list_rust_files(platform: Platform, root: &str, entries: &Vec<TreeEntry>) -> (r: Vec<String>)
    ensures
        r.deep_view() == rust_files(platform, root@, entries@),
{
    if platform == Platform::Windows {
        list_sorted::<true>(platform, root, entries)
    } else {
        list_sorted::<false>(platform, root, entries)
    }
}

/// A walk brings what each entry brings, in the order of the entries.
pub proof fn law_walk_takes_entry_by_entry(
    platform: Platform,
    dir: Seq<char>,
    a: Seq<TreeEntry>,
    b: Seq<TreeEntry>,
)
    ensures
        files_below(platform, dir, Seq::empty()).len() == 0,
        files_below(platform, dir, a + b) == files_below(platform, dir, a) + files_below(
            platform,
            dir,
            b,
        ),
    decreases b.len(),
{
    if b.len() == 0 {
        assert(a + b =~= a);
        assert(files_below(platform, dir, a) + files_below(platform, dir, b) =~= files_below(
            platform,
            dir,
            a,
        ));
    } else {
        law_walk_takes_entry_by_entry(platform, dir, a, b.drop_last());
        assert((a + b).drop_last() =~= a + b.drop_last());
        assert(files_below(platform, dir, a + b) =~= files_below(platform, dir, a) + files_below(
            platform,
            dir,
            b,
        ));
    }
}

/// A hidden entry and build output bring nothing, whatever is in them. Any other directory brings
/// what lies in it, and any other file itself, if it is a Rust file.
pub proof fn law_entry_brings_its_rust_files(platform: Platform, dir: Seq<char>, entry: TreeEntry)
    ensures
        entry.name@.len() > 0 && entry.name@[0] == '.' ==> files_of(platform, dir, entry).len() == 0,
        entry.name@ == "target"@ ==> files_of(platform, dir, entry).len() == 0,
        entry.name@.len() > 0 && entry.name@[0] != '.' && entry.name@ != "target"@ ==> (
        match entry.node {
            TreeNode::File => files_of(platform, dir, entry) == (if ".rs"@.is_suffix_of(
                entry.name@,
            ) {
                seq![path_join(platform, dir, entry.name@)]
            } else {
                Seq::empty()
            }),
            TreeNode::Dir(inner) => files_of(platform, dir, entry) == files_below(
                platform,
                path_join(platform, dir, entry.name@),
                inner@,
            ),
        }),
{
    reveal_strlit(".rs");
    let name = entry.name@;
    if name.len() > 0 && name[0] != '.' && ".rs"@.is_suffix_of(name) && name.len() == 3 {
        assert(name.subrange(name.len() - 3, name.len() as int)[0] == name[0]);
    }
}

/// The list of Rust files holds each file of the tree once, in the order of the paths.
pub proof fn law_list_is_the_walk_in_order(
    platform: Platform,
    root: Seq<char>,
    entries: Seq<TreeEntry>,
)
    ensures
        rust_files(platform, root, entries).to_multiset() == files_below(
            platform,
            root,
            entries,
        ).to_multiset(),
        keys_ascend(
            rust_files(platform, root, entries),
            |p: Seq<char>| path_key(platform == Platform::Windows, p),
        ),
{
    law_sorted(
        files_below(platform, root, entries),
        |p: Seq<char>| path_key(platform == Platform::Windows, p),
    );
}

/// Where two paths part, the one that goes into a directory comes before the one whose name goes on.
/// A backslash parts names on Windows only.
pub proof fn law_directories_come_first(
    windows: bool,
    common: Seq<char>,
    c: char,
    a: Seq<char>,
    b: Seq<char>,
)
    requires
        c != '/' && c != '\0' && !(windows && c == '\\'),
    ensures
        key_le(
            path_key(windows, common + seq!['/'] + a),
            path_key(windows, common + seq![c] + b),
        ),
        !key_le(
            path_key(windows, common + seq![c] + b),
            path_key(windows, common + seq!['/'] + a),
        ),
        path_key(true, replaced(a, '/', '\\')) == path_key(true, a),
        !a.contains('/') ==> path_key(false, a) == seq![a],
{
    reveal_with_fuel(key_le, 2);
    let f = |s: Seq<char>| path_key(windows, s)[0];
    let x = common + seq!['/'] + a;
    let y = common + seq![c] + b;
    assert(f(x) =~= f(common) + seq!['\0'] + f(a));
    assert(f(y) =~= f(common) + seq![c] + f(b));
    law_texts_are_ordered_by_first_difference(f(common), '\0', c, f(a), f(b));
    law_texts_are_ordered_by_first_difference(f(common), c, '\0', f(b), f(a));
    assert(f(x)[f(common).len() as int] != f(y)[f(common).len() as int]);
    assert(path_key(true, replaced(a, '/', '\\'))[0] =~= path_key(true, a)[0]);
    if !a.contains('/') {
        assert(path_key(false, a)[0] =~= a);
    }
}

} // verus!
