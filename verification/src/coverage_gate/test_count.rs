//! Count unit/integration tests in a package (presence gate).

use vstd::prelude::*;
use crate::platform::Platform;
use crate::source_tree::{list_rust_files, rust_files, TreeEntry};
use crate::text::{chars_of, lines, lines_of, starts_with, trim, trimmed};

verus! {

/// Walk a directory tree for `.rs` files (skips `target/` and hidden entries).
pub fn walk_rust_files(platform: Platform, root: &str, entries: &Vec<TreeEntry>) -> (r: Vec<
    String,
>)
    ensures
        r.deep_view() == rust_files(platform, root@, entries@),
{
    list_rust_files(platform, root, entries)
}

/// Whether a line is a test attribute: `#[test]`, `#[tokio::test…]`, `#[async_std::test…]` or
/// `#[rstest…]`.
pub open spec fn test_attr_line(line: Seq<char>) -> bool {
    let t = trimmed(line);
    "#[test]"@.is_prefix_of(t) || "#[tokio::test"@.is_prefix_of(t)
        || "#[async_std::test"@.is_prefix_of(t) || "#[rstest"@.is_prefix_of(t)
}

/// Whether a line is a test attribute.
pub fn is_test_attr_line(line: &[char]) -> (r: bool)
    ensures
        r == test_attr_line(line@),
{
    let t = trim(line);
    starts_with(t, "#[test]") || starts_with(t, "#[tokio::test") || starts_with(
        t,
        "#[async_std::test",
    ) || starts_with(t, "#[rstest")
}

/// The number of test attributes among some lines.
pub open spec fn test_attrs(all: Seq<Seq<char>>) -> nat
    decreases all.len(),
{
    if all.len() == 0 {
        0
    } else {
        test_attrs(all.drop_last()) + (if test_attr_line(all.last()) {
            1nat
        } else {
            0
        })
    }
}

/// The number of tests in a source text.
pub open spec fn tests_in(source: Seq<char>) -> nat {
    test_attrs(lines_of(source))
}

/// A count that stays at the largest 32-bit number once it got there.
pub open spec fn capped(n: nat) -> u32 {
    if n <= u32::MAX {
        n as u32
    } else {
        u32::MAX
    }
}

/// Count test attributes in a single source string.
///
/// Matches line-oriented attributes: `#[test]`, `#[tokio::test…]`, `#[async_std::test…]`,
/// `#[rstest…]`.
pub fn count_tests_in_source(source: &str) -> (r: u32)
    ensures
        r == capped(tests_in(source@)),
{
    let text = chars_of(source);
    let all = lines(&text);
    let ghost texts = lines_of(source@);
    let mut n: u32 = 0;
    let mut i: usize = 0;
    assert(texts.take(0) == Seq::<Seq<char>>::empty());
    while i < all.len()
        invariant
            i <= all@.len(),
            all@.len() == texts.len(),
            forall|k: int| 0 <= k < all@.len() ==> (#[trigger] all@[k])@ == texts[k],
            n == capped(test_attrs(texts.take(i as int))),
        decreases all@.len() - i,
    {
        assert(texts.take(i + 1).drop_last() == texts.take(i as int));
        if is_test_attr_line(all[i]) {
            n = n.saturating_add(1);
        }
        i += 1;
    }
    assert(texts.take(texts.len() as int) == texts);
    n
}

/// The Rust sources of a package, as they were read.
#[derive(Debug, Clone)]
pub struct PackageSources {
    /// The sources under `src/`, where there is such a directory.
    pub src: Option<Vec<String>>,
    /// The sources under `tests/`, where there is such a directory.
    pub tests: Option<Vec<String>>,
    /// The sources that lie in the package root itself.
    pub root: Vec<String>,
}

/// The number of tests in some sources.
pub open spec fn tests_in_all(sources: Seq<Seq<char>>) -> nat
    decreases sources.len(),
{
    if sources.len() == 0 {
        0
    } else {
        tests_in_all(sources.drop_last()) + tests_in(sources.last())
    }
}

/// The number of tests beside those of `tests/`. Sources in the root count only where there is no
/// `src/`.
pub open spec fn unit_tests(sources: PackageSources) -> nat {
    match sources.src {
        Some(files) => tests_in_all(files.deep_view()),
        None => tests_in_all(sources.root.deep_view()),
    }
}

/// The number of tests in a package.
pub open spec fn package_tests(sources: PackageSources) -> nat {
    unit_tests(sources) + (match sources.tests {
        Some(files) => tests_in_all(files.deep_view()),
        None => 0,
    })
}

fn add_tests(total: u32, files: &Vec<String>, Ghost(before): Ghost<nat>) -> (r: u32)
    requires
        total == capped(before),
    ensures
        r == capped(before + tests_in_all(files.deep_view())),
{
    let ghost texts = files.deep_view();
    let mut n: u32 = total;
    let mut i: usize = 0;
    assert(texts.take(0) == Seq::<Seq<char>>::empty());
    while i < files.len()
        invariant
            i <= files@.len(),
            texts == files.deep_view(),
            n == capped(before + tests_in_all(texts.take(i as int))),
        decreases files@.len() - i,
    {
        assert(texts.take(i + 1).drop_last() == texts.take(i as int));
        n = n.saturating_add(count_tests_in_source(&files[i]));
        i += 1;
    }
    assert(texts.take(texts.len() as int) == texts);
    n
}

/// Count tests of a package (`src/` + `tests/`, or root-level `*.rs` + `tests/`).
pub fn count_package_tests(sources: &PackageSources) -> (r: u32)
    ensures
        r == capped(package_tests(*sources)),
{
    let first = match &sources.src {
        Some(files) => add_tests(0, files, Ghost(0)),
        None => add_tests(0, &sources.root, Ghost(0)),
    };
    match &sources.tests {
        Some(files) => add_tests(
            first,
            files,
            Ghost(unit_tests(*sources)),
        ),
        None => first,
    }
}

/// True if the package has a `tests/` tree with `.rs` files or any test attribute.
pub fn package_has_test_surface(sources: &PackageSources) -> (r: bool)
    ensures
        r == (package_tests(*sources) > 0 || (sources.tests matches Some(files) && files@.len()
            > 0)),
{
    if let Some(files) = &sources.tests {
        if files.len() > 0 {
            return true;
        }
    }
    count_package_tests(sources) > 0
}

/// The files of a directory, none where there is no such directory.
pub open spec fn files_in(dir: Option<Vec<String>>) -> Seq<Seq<char>> {
    match dir {
        Some(files) => files.deep_view(),
        None => Seq::empty(),
    }
}

/// The tests of a file are the lines of it that are test attributes, each counted once.
pub proof fn law_tests_are_attribute_lines(source: Seq<char>)
    ensures
        tests_in(source) == lines_of(source).filter(|l: Seq<char>| test_attr_line(l)).len(),
{
    lemma_attrs_filtered(lines_of(source));
}

proof fn lemma_attrs_filtered(all: Seq<Seq<char>>)
    ensures
        test_attrs(all) == all.filter(|l: Seq<char>| test_attr_line(l)).len(),
    decreases all.len(),
{
    let is_attr = |l: Seq<char>| test_attr_line(l);
    reveal_with_fuel(Seq::filter, 1);
    if all.len() > 0 {
        lemma_attrs_filtered(all.drop_last());
    }
}

proof fn lemma_counts_add_up(a: Seq<Seq<char>>, b: Seq<Seq<char>>)
    ensures
        tests_in_all(a + b) == tests_in_all(a) + tests_in_all(b),
    decreases b.len(),
{
    if b.len() == 0 {
        assert(a + b =~= a);
    } else {
        assert((a + b).drop_last() =~= a + b.drop_last());
        assert((a + b).last() == b.last());
        lemma_counts_add_up(a, b.drop_last());
    }
}

/// Every file below `tests/` counts, whether or not there is a `src/`: further files raise the count
/// of a package by exactly their tests.
pub proof fn law_integration_tests_count(
    before: PackageSources,
    after: PackageSources,
    more: Seq<Seq<char>>,
)
    requires
        after.src == before.src,
        after.root == before.root,
        files_in(after.tests) == files_in(before.tests) + more,
    ensures
        package_tests(after) == package_tests(before) + tests_in_all(more),
        more.len() == 1 ==> package_tests(after) == package_tests(before) + tests_in(more[0]),
{
    lemma_counts_add_up(files_in(before.tests), more);
    lemma_one_file(more);
    assert(tests_in_all(Seq::<Seq<char>>::empty()) == 0);
}

/// Every file below `src/` counts, whether or not there is a `tests/`.
pub proof fn law_unit_tests_count(
    before: PackageSources,
    after: PackageSources,
    more: Seq<Seq<char>>,
)
    requires
        before.src is Some,
        after.src is Some,
        after.tests == before.tests,
        files_in(after.src) == files_in(before.src) + more,
    ensures
        package_tests(after) == package_tests(before) + tests_in_all(more),
        more.len() == 1 ==> package_tests(after) == package_tests(before) + tests_in(more[0]),
{
    lemma_counts_add_up(files_in(before.src), more);
    lemma_one_file(more);
}

/// Files in the root of a package count where it has no `src/`, and not where it has one.
pub proof fn law_root_tests_count_without_src(
    before: PackageSources,
    after: PackageSources,
    more: Seq<Seq<char>>,
)
    requires
        after.src == before.src,
        after.tests == before.tests,
        after.root.deep_view() == before.root.deep_view() + more,
    ensures
        before.src is None ==> package_tests(after) == package_tests(before) + tests_in_all(more),
        before.src is Some ==> package_tests(after) == package_tests(before),
{
    lemma_counts_add_up(before.root.deep_view(), more);
}

proof fn lemma_one_file(files: Seq<Seq<char>>)
    ensures
        files.len() == 1 ==> tests_in_all(files) == tests_in(files[0]),
{
    if files.len() == 1 {
        assert(files.drop_last() =~= Seq::<Seq<char>>::empty());
        assert(tests_in_all(files.drop_last()) == 0);
    }
}

/// The count of a package is the sum over its parts: the files of `src/`, or of the root where there
/// is no `src/`, and the files of `tests/`. A package without any file has no tests.
pub proof fn law_package_count_is_the_sum_of_its_parts(sources: PackageSources)
    ensures
        package_tests(sources) == tests_in_all(
            (if sources.src is Some {
                files_in(sources.src)
            } else {
                sources.root.deep_view()
            }) + files_in(sources.tests),
        ),
        files_in(sources.src).len() == 0 && files_in(sources.tests).len() == 0
            && sources.root@.len() == 0 ==> package_tests(sources) == 0,
{
    let units = if sources.src is Some {
        files_in(sources.src)
    } else {
        sources.root.deep_view()
    };
    lemma_counts_add_up(units, files_in(sources.tests));
    assert(tests_in_all(Seq::<Seq<char>>::empty()) == 0);
}

/// Files without a test attribute add nothing to a count, and one that has some adds something.
pub proof fn law_count_shows_whether_there_are_tests(files: Seq<Seq<char>>)
    ensures
        tests_in_all(files) > 0 <==> exists|i: int, k: int|
            0 <= i < files.len() && 0 <= k < lines_of(files[i]).len() && test_attr_line(
                #[trigger] lines_of(files[i])[k],
            ),
    decreases files.len(),
{
    if files.len() > 0 {
        let first = files.drop_last();
        let last = files.len() - 1;
        law_count_shows_whether_there_are_tests(first);
        lemma_attr_among(lines_of(files.last()));
        if tests_in_all(first) > 0 {
            let (i, k) = choose|i: int, k: int|
                0 <= i < first.len() && 0 <= k < lines_of(first[i]).len() && test_attr_line(
                    #[trigger] lines_of(first[i])[k],
                );
            assert(test_attr_line(lines_of(files[i])[k]));
        }
        if tests_in(files.last()) > 0 {
            let k = choose|k: int|
                0 <= k < lines_of(files.last()).len() && test_attr_line(
                    #[trigger] lines_of(files.last())[k],
                );
            assert(test_attr_line(lines_of(files[last])[k]));
        }
        if exists|i: int, k: int|
            0 <= i < files.len() && 0 <= k < lines_of(files[i]).len() && test_attr_line(
                #[trigger] lines_of(files[i])[k],
            ) {
            let (i, k) = choose|i: int, k: int|
                0 <= i < files.len() && 0 <= k < lines_of(files[i]).len() && test_attr_line(
                    #[trigger] lines_of(files[i])[k],
                );
            if i < last {
                assert(test_attr_line(lines_of(first[i])[k]));
            }
        }
    }
}

proof fn lemma_attr_among(all: Seq<Seq<char>>)
    ensures
        test_attrs(all) > 0 <==> exists|k: int| 0 <= k < all.len() && test_attr_line(
            #[trigger] all[k],
        ),
    decreases all.len(),
{
    if all.len() > 0 {
        let first = all.drop_last();
        lemma_attr_among(first);
        if test_attrs(first) > 0 {
            let k = choose|k: int| 0 <= k < first.len() && test_attr_line(#[trigger] first[k]);
            assert(test_attr_line(all[k]));
        }
        if test_attr_line(all.last()) {
            assert(test_attr_line(all[all.len() - 1]));
        }
        if exists|k: int| 0 <= k < all.len() && test_attr_line(#[trigger] all[k]) {
            let k = choose|k: int| 0 <= k < all.len() && test_attr_line(#[trigger] all[k]);
            if k < first.len() {
                assert(test_attr_line(first[k]));
            }
        }
    }
}

/// A test attribute is told by how its line begins, behind any white space: with one of the four
/// attributes and whatever follows. No line that begins otherwise is one.
pub proof fn law_test_attributes(line: Seq<char>, rest: Seq<char>)
    ensures
        trimmed(line) == "#[test]"@ + rest ==> test_attr_line(line),
        trimmed(line) == "#[tokio::test"@ + rest ==> test_attr_line(line),
        trimmed(line) == "#[async_std::test"@ + rest ==> test_attr_line(line),
        trimmed(line) == "#[rstest"@ + rest ==> test_attr_line(line),
        test_attr_line(line) ==> trimmed(line).len() >= 7 && trimmed(line)[0] == '#' && trimmed(
            line,
        )[1] == '[' && (trimmed(line)[2] == 't' || trimmed(line)[2] == 'a' || trimmed(line)[2]
            == 'r'),
{
    reveal_strlit("#[test]");
    reveal_strlit("#[tokio::test");
    reveal_strlit("#[async_std::test");
    reveal_strlit("#[rstest");
    let t = trimmed(line);
    if t == "#[test]"@ + rest {
        assert("#[test]"@ =~= t.subrange(0, "#[test]"@.len() as int));
    }
    if t == "#[tokio::test"@ + rest {
        assert("#[tokio::test"@ =~= t.subrange(0, "#[tokio::test"@.len() as int));
    }
    if t == "#[async_std::test"@ + rest {
        assert("#[async_std::test"@ =~= t.subrange(0, "#[async_std::test"@.len() as int));
    }
    if t == "#[rstest"@ + rest {
        assert("#[rstest"@ =~= t.subrange(0, "#[rstest"@.len() as int));
    }
    if "#[test]"@.is_prefix_of(t) {
        assert(t[0] == "#[test]"@[0] && t[1] == "#[test]"@[1] && t[2] == "#[test]"@[2]);
    }
    if "#[tokio::test"@.is_prefix_of(t) {
        let p = "#[tokio::test"@;
        assert(t[0] == p[0] && t[1] == p[1] && t[2] == p[2]);
    }
    if "#[async_std::test"@.is_prefix_of(t) {
        let p = "#[async_std::test"@;
        assert(t[0] == p[0] && t[1] == p[1] && t[2] == p[2]);
    }
    if "#[rstest"@.is_prefix_of(t) {
        let p = "#[rstest"@;
        assert(t[0] == p[0] && t[1] == p[1] && t[2] == p[2]);
    }
}

/// A count is exact as long as it fits, and stays at the largest number beyond that: more tests never
/// give a smaller count.
pub proof fn law_count_is_exact_or_full(n: nat, m: nat)
    requires
        n <= m,
    ensures
        n <= u32::MAX ==> capped(n) == n,
        n > u32::MAX ==> capped(n) == u32::MAX,
        capped(n) <= capped(m),
{
}

} // verus!
