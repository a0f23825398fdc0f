//! Reading `cargo llvm-cov` summaries.

use vstd::prelude::*;
use crate::json::{
    json_parsed, lemma_list_contents, lemma_object_contents, list_contents, member_of,
    object_contents, opt_contents, opt_member, parse_json, Json, JsonView,
};
use crate::coverage_gate::gate::{GateError, GateErrorView};
use crate::text::{
    chars_of, find_char, find_text, first_index, first_match, lemma_first_index, lemma_first_match,
    occurs_in, push_chars, replace_char, replaced, string_of,
};
use crate::text_map::TextMap;

verus! {

/// A line coverage percentage: the lines of which it is the ratio, or the bits of the
/// double-precision number that a tool reported.
#[derive(Debug, Clone, Copy, PartialEq, Eq, Structural)]
pub enum LinePercent {
    /// `covered` of `count` lines.
    Ratio { covered: u64, count: u64 },
    /// A percentage as reported.
    Reported { bits: u64 },
}

/// The first component of what follows `marker` in a path.
pub open spec fn dir_after(path: Seq<char>, marker: Seq<char>) -> Seq<char> {
    match first_match(path, marker) {
        Some(i) => {
            let rest = path.skip(i + marker.len());
            rest.take(first_index(rest, '/') as int)
        },
        None => Seq::empty(),
    }
}

/// The package that a source path belongs to: `packages/<dir>/…` is `remotelink-<dir>`,
/// `agents/<dir>/…` is `<dir>` with hyphens.
pub open spec fn source_package(path: Seq<char>) -> Option<Seq<char>> {
    let norm = replaced(path, '\\', '/');
    let product = dir_after(norm, "packages/"@);
    let agent = dir_after(norm, "agents/"@);
    if product.len() > 0 {
        Some("remotelink-"@ + product)
    } else if agent.len() > 0 {
        Some(replaced(agent, '_', '-'))
    } else {
        None
    }
}

fn find_dir_after<'a>(path: &'a [char], marker: &str) -> (r: &'a [char])
    ensures
        r@ == dir_after(path@, marker@),
{
    let n: usize = path.len();
    match find_text(path, marker) {
        Some(i) => {
            let m = chars_of(marker);
            let rest = &path[i + m.len()..n];
            assert(rest@ == path@.skip(i + marker@.len()));
            let n: usize = find_char(rest, '/');
            let dir = &rest[0..n];
            assert(dir@ == rest@.take(n as int));
            dir
        },
        None => {
            let none = &path[0..0];
            assert(none@ =~= Seq::<char>::empty());
            none
        },
    }
}

/// Map a source path to the Cargo package that it belongs to.
pub fn package_name_from_source_path(path: &str) -> (r: Option<String>)
    ensures
        r.deep_view() == source_package(path@),
{
    let all = chars_of(path);
    let norm = replace_char(&all, '\\', '/');
    let product = find_dir_after(&norm, "packages/");
    if product.len() > 0 {
        let mut name = "remotelink-".to_string();
        push_chars(&mut name, product);
        return Some(name);
    }
    let agent = find_dir_after(&norm, "agents/");
    if agent.len() > 0 {
        return Some(string_of(&replace_char(agent, '_', '-')));
    }
    None
}

/// A sum that stays at the largest 64-bit number once it got there.
pub open spec fn sum_capped(a: u64, b: u64) -> u64 {
    if a + b <= u64::MAX {
        (a + b) as u64
    } else {
        u64::MAX
    }
}

/// The value of `key`, or zeros.
pub open spec fn lines_or_zero(m: Map<Seq<char>, (u64, u64)>, key: Seq<char>) -> (u64, u64) {
    if m.dom().contains(key) {
        m[key]
    } else {
        (0, 0)
    }
}

/// `m` with a file's covered and counted lines added to those of its package.
pub open spec fn add_lines(
    m: Map<Seq<char>, (u64, u64)>,
    key: Seq<char>,
    covered: u64,
    count: u64,
) -> Map<Seq<char>, (u64, u64)> {
    let old = lines_or_zero(m, key);
    m.insert(key, (sum_capped(old.0, covered), sum_capped(old.1, count)))
}

fn add_file_lines(m: &mut TextMap<(u64, u64)>, key: String, covered: u64, count: u64)
    requires
        old(m).wf(),
    ensures
        final(m).wf(),
        final(m)@ == add_lines(old(m)@, key@, covered, count),
{
    let e = match m.get(&key) {
        Some(e) => e,
        None => (0u64, 0u64),
    };
    m.insert(key, (e.0.saturating_add(covered), e.1.saturating_add(count)));
}

/// The text of a value, or nothing.
pub open spec fn text_or_empty(v: Option<JsonView>) -> Seq<char> {
    match v {
        Some(j) => match j.text() {
            Some(s) => s,
            None => Seq::empty(),
        },
        None => Seq::empty(),
    }
}

fn read_text(v: Option<&Json>) -> (r: String)
    ensures
        r@ == text_or_empty(opt_contents(v)),
{
    match v {
        Some(j) => match j.text() {
            Some(s) => s.clone(),
            None => String::new(),
        },
        None => String::new(),
    }
}

pub open spec fn opt_unsigned(v: Option<JsonView>) -> Option<u64> {
    match v {
        Some(j) => j.unsigned(),
        None => None,
    }
}

fn read_unsigned(v: Option<&Json>) -> (r: Option<u64>)
    ensures
        r == opt_unsigned(opt_contents(v)),
{
    match v {
        Some(j) => j.unsigned(),
        None => None,
    }
}

pub open spec fn opt_bits(v: Option<JsonView>) -> Option<u64> {
    match v {
        Some(j) => j.double_bits(),
        None => None,
    }
}

fn read_bits(v: Option<&Json>) -> (r: Option<u64>)
    ensures
        r == opt_bits(opt_contents(v)),
{
    match v {
        Some(j) => j.double_bits(),
        None => None,
    }
}

pub open spec fn opt_list(v: Option<JsonView>) -> Option<Seq<JsonView>> {
    match v {
        Some(j) => j.list(),
        None => None,
    }
}

fn read_list<'a>(v: Option<&'a Json>) -> (r: Option<&'a Vec<Json>>)
    ensures
        r is Some <==> opt_list(opt_contents(v)) is Some,
        r matches Some(items) ==> opt_list(opt_contents(v)) == Some(list_contents(items@)),
{
    match v {
        Some(j) => j.list(),
        None => None,
    }
}

pub open spec fn or_zero(v: Option<u64>) -> u64 {
    match v {
        Some(n) => n,
        None => 0,
    }
}

fn value_or_zero(v: Option<u64>) -> (r: u64)
    ensures
        r == or_zero(v),
{
    match v {
        Some(n) => n,
        None => 0,
    }
}

/// The line summary of a file.
pub open spec fn file_lines(file: JsonView) -> Option<JsonView> {
    opt_member(file.member("summary"@), "lines"@)
}

/// The covered and counted lines of some files, package by package. Files of no known package
/// are left out, and a number that is missing counts as zero.
pub open spec fn package_lines(files: Seq<JsonView>) -> Map<Seq<char>, (u64, u64)>
    decreases files.len(),
{
    if files.len() == 0 {
        Map::empty()
    } else {
        let m = package_lines(files.drop_last());
        let file = files.last();
        match source_package(text_or_empty(file.member("filename"@))) {
            Some(pkg) => add_lines(
                m,
                pkg,
                or_zero(opt_unsigned(opt_member(file_lines(file), "covered"@))),
                or_zero(opt_unsigned(opt_member(file_lines(file), "count"@))),
            ),
            None => m,
        }
    }
}

fn sum_package_lines(files: &Vec<Json>) -> (r: TextMap<(u64, u64)>)
    ensures
        r.wf(),
        r@ == package_lines(list_contents(files@)),
{
    let ghost all = list_contents(files@);
    proof {
        lemma_list_contents(files@);
    }
    let mut m: TextMap<(u64, u64)> = TextMap::new();
    let mut i: usize = 0;
    assert(all.take(0) == Seq::<JsonView>::empty());
    while i < files.len()
        invariant
            i <= files@.len(),
            all == list_contents(files@),
            all.len() == files@.len(),
            forall|k: int|
                0 <= k < files@.len() ==> (#[trigger] all[k]) == files@[k].contents(),
            m.wf(),
            m@ == package_lines(all.take(i as int)),
        decreases files@.len() - i,
    {
        assert(all.take(i + 1).drop_last() == all.take(i as int));
        assert(all.take(i + 1).last() == files@[i as int].contents());
        let file = &files[i];
        let filename = read_text(file.member("filename"));
        let lines = member_of(file.member("summary"), "lines");
        let count: u64 = value_or_zero(read_unsigned(member_of(lines, "count")));
        let covered: u64 = value_or_zero(read_unsigned(member_of(lines, "covered")));
        if let Some(pkg) = package_name_from_source_path(&filename) {
            add_file_lines(&mut m, pkg, covered, count);
        }
        i += 1;
    }
    assert(all.take(all.len() as int) == all);
    m
}

/// The ratios of the packages that have any lines.
pub open spec fn ratios(m: Map<Seq<char>, (u64, u64)>) -> Map<Seq<char>, LinePercent> {
    Map::new(
        |k: Seq<char>| m.dom().contains(k) && m[k].1 > 0,
        |k: Seq<char>| LinePercent::Ratio { covered: m[k].0, count: m[k].1 },
    )
}

/// Whether the first `n` of `keys` hold `k`.
pub open spec fn among_first(keys: Seq<Seq<char>>, n: int, k: Seq<char>) -> bool {
    exists|i: int| 0 <= i < n && #[trigger] keys[i] == k
}

/// `base` with the ratios of `sums` on top.
pub open spec fn with_ratios(
    base: Map<Seq<char>, LinePercent>,
    sums: Map<Seq<char>, (u64, u64)>,
) -> Map<Seq<char>, LinePercent> {
    base.union_prefer_right(ratios(sums))
}

fn insert_ratios(out: &mut TextMap<LinePercent>, sums: &TextMap<(u64, u64)>)
    requires
        old(out).wf(),
        sums.wf(),
    ensures
        final(out).wf(),
        final(out)@ == with_ratios(old(out)@, sums@),
{
    let ghost keys = sums.keys_seq();
    let ghost base = out@;
    proof {
        sums.lemma_keys();
    }
    let mut i: usize = 0;
    assert(out@ =~= base.union_prefer_right(
        ratios(sums@).restrict(Set::new(|k: Seq<char>| among_first(keys, 0, k))),
    ));
    while i < sums.len()
        invariant
            i <= keys.len(),
            keys == sums.keys_seq(),
            sums.wf(),
            out.wf(),
            out@ == base.union_prefer_right(
                ratios(sums@).restrict(Set::new(|k: Seq<char>| among_first(keys, i as int, k))),
            ),
        decreases keys.len() - i,
    {
        let (key, lines) = sums.entry(i);
        if lines.1 > 0 {
            out.insert(
                key.to_string(),
                LinePercent::Ratio { covered: lines.0, count: lines.1 },
            );
        }
        proof {
            let next = base.union_prefer_right(
                ratios(sums@).restrict(Set::new(|k: Seq<char>| among_first(keys, i + 1, k))),
            );
            assert forall|k: Seq<char>|
                among_first(keys, i + 1, k) <==> among_first(keys, i as int, k) || k == key@ by {
                if among_first(keys, i + 1, k) {
                    let a = choose|a: int| 0 <= a < i + 1 && #[trigger] keys[a] == k;
                    if a < i {
                        assert(among_first(keys, i as int, k));
                    }
                }
                if k == key@ {
                    assert(keys[i as int] == k);
                }
                if among_first(keys, i as int, k) {
                    let a = choose|a: int| 0 <= a < i && #[trigger] keys[a] == k;
                    assert(keys[a] == k);
                }
            }
            assert(out@ =~= next);
        }
        i += 1;
    }
    proof {
        sums.lemma_keys();
        assert forall|k: Seq<char>| ratios(sums@).dom().contains(k) implies among_first(
            keys,
            keys.len() as int,
            k,
        ) by {
            assert(keys.contains(k));
            let a = keys.index_of(k);
            assert(keys[a] == k);
        }
        assert(ratios(sums@).restrict(
            Set::new(|k: Seq<char>| among_first(keys, keys.len() as int, k)),
        ) =~= ratios(sums@));
    }
}

/// `m` with the value of `key`, unless it has one.
pub open spec fn with_absent(
    m: Map<Seq<char>, LinePercent>,
    key: Seq<char>,
    value: LinePercent,
) -> Map<Seq<char>, LinePercent> {
    if m.dom().contains(key) {
        m
    } else {
        m.insert(key, value)
    }
}

/// The percentages after one export entry: those of its files, and its total under `*` unless an
/// earlier entry gave one.
pub open spec fn after_entry(m: Map<Seq<char>, LinePercent>, entry: JsonView) -> Map<
    Seq<char>,
    LinePercent,
> {
    let m1 = match opt_list(entry.member("files"@)) {
        Some(files) => with_ratios(m, package_lines(files)),
        None => m,
    };
    match opt_bits(opt_member(opt_member(entry.member("totals"@), "lines"@), "percent"@)) {
        Some(bits) => with_absent(m1, "*"@, LinePercent::Reported { bits }),
        None => m1,
    }
}

/// The percentages of an export's entries.
pub open spec fn of_entries(entries: Seq<JsonView>) -> Map<Seq<char>, LinePercent>
    decreases entries.len(),
{
    if entries.len() == 0 {
        Map::empty()
    } else {
        after_entry(of_entries(entries.drop_last()), entries.last())
    }
}

/// The percentages after the crates of a summary that lists them by name.
pub open spec fn after_crates(
    m: Map<Seq<char>, LinePercent>,
    crates: Seq<(Seq<char>, JsonView)>,
) -> Map<Seq<char>, LinePercent>
    decreases crates.len(),
{
    if crates.len() == 0 {
        m
    } else {
        let rest = after_crates(m, crates.drop_last());
        match opt_bits(opt_member(crates.last().1.member("lines"@), "percent"@)) {
            Some(bits) => rest.insert(crates.last().0, LinePercent::Reported { bits }),
            None => rest,
        }
    }
}

/// A file's name in a top-level list of files.
pub open spec fn listed_name(file: JsonView) -> Seq<char> {
    match file.member("filename"@) {
        Some(j) => text_or_empty(Some(j)),
        None => text_or_empty(file.member("name"@)),
    }
}

/// What a top-level list of files gives: percentages of files without line numbers, and the
/// lines of those with both numbers.
pub struct ListedFiles {
    pub percents: Map<Seq<char>, LinePercent>,
    pub lines: Map<Seq<char>, (u64, u64)>,
}

pub open spec fn listed_files(m: Map<Seq<char>, LinePercent>, files: Seq<JsonView>) -> ListedFiles
    decreases files.len(),
{
    if files.len() == 0 {
        ListedFiles { percents: m, lines: Map::empty() }
    } else {
        let rest = listed_files(m, files.drop_last());
        let file = files.last();
        let lines = file_lines(file);
        match source_package(listed_name(file)) {
            None => rest,
            Some(pkg) => match (
                opt_unsigned(opt_member(lines, "covered"@)),
                opt_unsigned(opt_member(lines, "count"@)),
            ) {
                (Some(covered), Some(count)) => ListedFiles {
                    lines: add_lines(rest.lines, pkg, covered, count),
                    ..rest
                },
                _ => match opt_bits(opt_member(lines, "percent"@)) {
                    Some(bits) => ListedFiles {
                        percents: with_absent(
                            rest.percents,
                            pkg,
                            LinePercent::Reported { bits },
                        ),
                        ..rest
                    },
                    None => rest,
                },
            },
        }
    }
}

/// The members of an object.
pub open spec fn opt_object(v: Option<JsonView>) -> Option<Seq<(Seq<char>, JsonView)>> {
    match v {
        Some(JsonView::Object(fields)) => Some(fields),
        _ => None,
    }
}

/// The line percentages of a summary, package by package; `*` is the total of the workspace.
pub open spec fn line_percents(v: JsonView) -> Map<Seq<char>, LinePercent> {
    let m1 = match opt_list(v.member("data"@)) {
        Some(entries) => of_entries(entries),
        None => Map::empty(),
    };
    let m2 = match opt_object(opt_member(v.member("cargo_llvm_cov"@), "crates"@)) {
        Some(crates) => after_crates(m1, crates),
        None => m1,
    };
    match opt_list(v.member("files"@)) {
        Some(files) => {
            let l = listed_files(m2, files);
            with_ratios(l.percents, l.lines)
        },
        None => m2,
    }
}

fn read_entry(m: &mut TextMap<LinePercent>, entry: &Json)
    requires
        old(m).wf(),
    ensures
        final(m).wf(),
        final(m)@ == after_entry(old(m)@, entry.contents()),
{
    if let Some(files) = read_list(entry.member("files")) {
        let sums = sum_package_lines(files);
        insert_ratios(m, &sums);
    }
    if let Some(bits) = read_bits(
        member_of(member_of(entry.member("totals"), "lines"), "percent"),
    ) {
        m.insert_if_absent("*".to_string(), LinePercent::Reported { bits });
    }
}

fn read_crates(m: &mut TextMap<LinePercent>, crates: &Json)
    requires
        old(m).wf(),
    ensures
        final(m).wf(),
        final(m)@ == match opt_object(Some(crates.contents())) {
            Some(fields) => after_crates(old(m)@, fields),
            None => old(m)@,
        },
{
    if let Json::Object(fields) = crates {
        let ghost all = object_contents(fields@);
        let ghost base = m@;
        proof {
            lemma_object_contents(fields@);
            assert(all.take(0) == Seq::<(Seq<char>, JsonView)>::empty());
        }
        let mut i: usize = 0;
        while i < fields.len()
            invariant
                i <= fields@.len(),
                all == object_contents(fields@),
                all.len() == fields@.len(),
                forall|k: int|
                    0 <= k < fields@.len() ==> (#[trigger] all[k]) == (
                        fields@[k].name@,
                        fields@[k].value.contents(),
                    ),
                m.wf(),
                m@ == after_crates(base, all.take(i as int)),
            decreases fields@.len() - i,
        {
            assert(all.take(i + 1).drop_last() == all.take(i as int));
            assert(all.take(i + 1).last() == all[i as int]);
            if let Some(bits) = read_bits(member_of(fields[i].value.member("lines"), "percent")) {
                m.insert(fields[i].name.clone(), LinePercent::Reported { bits });
            }
            i += 1;
        }
        assert(all.take(all.len() as int) == all);
    }
}

fn read_listed(m: &mut TextMap<LinePercent>, files: &Vec<Json>)
    requires
        old(m).wf(),
    ensures
        final(m).wf(),
        ({
            let l = listed_files(old(m)@, list_contents(files@));
            final(m)@ == with_ratios(l.percents, l.lines)
        }),
{
    let ghost all = list_contents(files@);
    let ghost base = m@;
    proof {
        lemma_list_contents(files@);
        assert(all.take(0) == Seq::<JsonView>::empty());
    }
    let mut sums: TextMap<(u64, u64)> = TextMap::new();
    let mut i: usize = 0;
    while i < files.len()
        invariant
            i <= files@.len(),
            all == list_contents(files@),
            all.len() == files@.len(),
            forall|k: int|
                0 <= k < files@.len() ==> (#[trigger] all[k]) == files@[k].contents(),
            m.wf(),
            sums.wf(),
            m@ == listed_files(base, all.take(i as int)).percents,
            sums@ == listed_files(base, all.take(i as int)).lines,
        decreases files@.len() - i,
    {
        assert(all.take(i + 1).drop_last() == all.take(i as int));
        assert(all.take(i + 1).last() == all[i as int]);
        let file = &files[i];
        let named = file.member("filename");
        let filename = match named {
            Some(_) => read_text(named),
            None => read_text(file.member("name")),
        };
        let lines = member_of(file.member("summary"), "lines");
        let percent = read_bits(member_of(lines, "percent"));
        let count = read_unsigned(member_of(lines, "count"));
        let covered = read_unsigned(member_of(lines, "covered"));
        if let Some(pkg) = package_name_from_source_path(&filename) {
            match (covered, count) {
                (Some(c), Some(n)) => {
                    add_file_lines(&mut sums, pkg, c, n);
                },
                _ => {
                    if let Some(bits) = percent {
                        m.insert_if_absent(pkg, LinePercent::Reported { bits });
                    }
                },
            }
        }
        i += 1;
    }
    assert(all.take(all.len() as int) == all);
    insert_ratios(m, &sums);
}

/// The line percentages of a parsed summary. Three shapes are understood, and a document may
/// hold several of them: an export with `data` entries, a list of crates by name, and a list of
/// files at the top level.
pub fn parse_llvm_cov_value(v: &Json) -> (r: TextMap<LinePercent>)
    ensures
        r.wf(),
        r@ == line_percents(v.contents()),
{
    let mut m: TextMap<LinePercent> = TextMap::new();
    if let Some(data) = read_list(v.member("data")) {
        let ghost all = list_contents(data@);
        proof {
            lemma_list_contents(data@);
            assert(all.take(0) == Seq::<JsonView>::empty());
        }
        let mut i: usize = 0;
        while i < data.len()
            invariant
                i <= data@.len(),
                all == list_contents(data@),
                all.len() == data@.len(),
                forall|k: int|
                    0 <= k < data@.len() ==> (#[trigger] all[k]) == data@[k].contents(),
                m.wf(),
                m@ == of_entries(all.take(i as int)),
            decreases data@.len() - i,
        {
            assert(all.take(i + 1).drop_last() == all.take(i as int));
            assert(all.take(i + 1).last() == all[i as int]);
            read_entry(&mut m, &data[i]);
            i += 1;
        }
        assert(all.take(all.len() as int) == all);
    }
    if let Some(crates) = member_of(v.member("cargo_llvm_cov"), "crates") {
        read_crates(&mut m, crates);
    }
    if let Some(files) = read_list(v.member("files")) {
        read_listed(&mut m, files);
    }
    m
}

/// Parse a `cargo llvm-cov` JSON summary into a package → line percentage map.
pub fn parse_llvm_cov_json(bytes: &[u8]) -> (r: Result<TextMap<LinePercent>, GateError>)
    ensures
        match json_parsed(bytes@) {
            Ok(v) => r matches Ok(m) && m.wf() && m@ == line_percents(v),
            Err(e) => r matches Err(x) && x.deep_view() == GateErrorView::Json(e),
        },
{
    match parse_json(bytes) {
        Ok(v) => Ok(parse_llvm_cov_value(&v)),
        Err(e) => Err(GateError::Json(e)),
    }
}

/// The percentage of one package: its own, or the total where nothing but the total is known.
pub open spec fn percent_of(m: Map<Seq<char>, LinePercent>, package: Seq<char>) -> Option<
    LinePercent,
> {
    if m.dom().contains(package) {
        Some(m[package])
    } else if (exists|k: Seq<char>| #[trigger] m.dom().contains(k) && k != "*"@)
        || !m.dom().contains("*"@) {
        None
    } else {
        Some(m["*"@])
    }
}

/// Prefer the package's own key; accept the workspace total (`*`) only when the map has no other
/// package keys (report already isolated).
pub fn package_line_percent(map: &TextMap<LinePercent>, package_name: &str) -> (r: Option<
    LinePercent,
>)
    requires
        map.wf(),
    ensures
        r == percent_of(map@, package_name@),
{
    let own = map.get(package_name);
    if own.is_some() {
        return own;
    }
    if !map.has_other_key("*") {
        return map.get("*");
    }
    None
}

/// In a report on several packages the total is nobody's percentage: without its own key a
/// package has none.
pub proof fn law_total_never_stands_in(
    m: Map<Seq<char>, LinePercent>,
    package: Seq<char>,
    other: Seq<char>,
)
    requires
        m.dom().contains(other),
        other != "*"@,
        !m.dom().contains(package),
    ensures
        percent_of(m, package) is None,
{
}

/// Packages without a counted line never get a ratio, so no percentage divides by zero.
pub proof fn law_ratios_have_lines(m: Map<Seq<char>, (u64, u64)>, package: Seq<char>)
    requires
        ratios(m).dom().contains(package),
    ensures
        ratios(m)[package] matches LinePercent::Ratio { covered, count } && count > 0 && (
        covered, count) == m[package],
{
}

/// The error for a report without a percentage of the package.
pub open spec fn no_data_message(package: Seq<char>) -> Seq<char> {
    "no line coverage data for package "@ + package
        + " after isolated llvm-cov run (required for min_line_coverage; refuse to greenwash on missing parse)"@
}

/// The percentage of a package in the report of an isolated run. A report without it is an error.
pub fn isolated_percent(stdout: &[u8], package_name: &str) -> (r: Result<LinePercent, GateError>)
    ensures
        match json_parsed(stdout@) {
            Ok(v) => match percent_of(line_percents(v), package_name@) {
                Some(p) => r == Ok::<LinePercent, GateError>(p),
                None => r matches Err(x) && x.deep_view() == GateErrorView::Tool(
                    no_data_message(package_name@),
                ),
            },
            Err(e) => r matches Err(x) && x.deep_view() == GateErrorView::Json(e),
        },
{
    match parse_llvm_cov_json(stdout) {
        Err(e) => Err(e),
        Ok(map) => match package_line_percent(&map, package_name) {
            Some(p) => Ok(p),
            None => {
                let mut s = "no line coverage data for package ".to_string();
                s.append(package_name);
                s.append(
                    " after isolated llvm-cov run (required for min_line_coverage; refuse to greenwash on missing parse)",
                );
                Err(GateError::Tool(s))
            },
        },
    }
}

/// A file counts for its own package and for no other: its covered and counted lines are added to
/// those of the files before it, as long as the sums fit. A file of no known package changes nothing.
pub proof fn law_file_counts_for_its_package(
    files: Seq<JsonView>,
    file: JsonView,
    package: Seq<char>,
)
    ensures
        ({
            let before = lines_or_zero(package_lines(files), package);
            let after = lines_or_zero(package_lines(files.push(file)), package);
            let own = source_package(text_or_empty(file.member("filename"@)));
            let covered = match opt_unsigned(opt_member(file_lines(file), "covered"@)) {
                Some(n) => n,
                None => 0,
            };
            let count = match opt_unsigned(opt_member(file_lines(file), "count"@)) {
                Some(n) => n,
                None => 0,
            };
            &&& own != Some(package) ==> after == before
            &&& own == Some(package) && before.0 + covered <= u64::MAX ==> after.0 == before.0
                + covered
            &&& own == Some(package) && before.1 + count <= u64::MAX ==> after.1 == before.1 + count
            &&& own == Some(package) ==> package_lines(files.push(file)).dom().contains(package)
        }),
{
    assert(files.push(file).drop_last() =~= files);
}

proof fn lemma_dir_after(before: Seq<char>, marker: Seq<char>, dir: Seq<char>, rest: Seq<char>)
    requires
        ({
            let path = before + marker + dir + seq!['/'] + rest;
            forall|k: int|
                0 <= k < before.len() ==> #[trigger] path.subrange(k, k + marker.len()) != marker
        }),
        !dir.contains('/'),
    ensures
        dir_after(before + marker + dir + seq!['/'] + rest, marker) == dir,
{
    let path = before + marker + dir + seq!['/'] + rest;
    let at = before.len() as int;
    lemma_first_match(path, marker);
    assert(path.subrange(at, at + marker.len()) =~= marker);
    assert(occurs_in(marker, path));
    let i = first_match(path, marker)->0;
    assert(i == at) by {
        if i < at {
            assert(path.subrange(i, i + marker.len()) == marker);
        }
    }
    let tail = path.skip(i + marker.len());
    assert(tail =~= dir + seq!['/'] + rest);
    lemma_first_index(tail, '/');
    let k = first_index(tail, '/') as int;
    assert(tail[dir.len() as int] == '/');
    assert(tail.contains('/'));
    if k < dir.len() {
        assert(tail[k] == dir[k]);
        assert(dir.contains('/'));
    }
    assert(tail.take(k) =~= dir);
}

/// A source below `packages/<dir>/` belongs to `remotelink-<dir>`, and one below `agents/<dir>/`
/// outside of any `packages/` to `<dir>` with hyphens.
pub proof fn law_source_belongs_to_its_directory(
    before: Seq<char>,
    dir: Seq<char>,
    rest: Seq<char>,
)
    requires
        dir.len() > 0,
        !dir.contains('/'),
        ({
            let product = before + "packages/"@ + dir + seq!['/'] + rest;
            &&& !product.contains('\\')
            &&& forall|k: int|
                0 <= k < before.len() ==> #[trigger] product.subrange(k, k + "packages/"@.len())
                    != "packages/"@
        }),
    ensures
        source_package(before + "packages/"@ + dir + seq!['/'] + rest) == Some(
            "remotelink-"@ + dir,
        ),
{
    let product = before + "packages/"@ + dir + seq!['/'] + rest;
    assert(replaced(product, '\\', '/') =~= product) by {
        assert forall|i: int| 0 <= i < product.len() implies replaced(product, '\\', '/')[i]
            == product[i] by {
            if product[i] == '\\' {
                assert(product.contains('\\'));
            }
        }
    }
    lemma_dir_after(before, "packages/"@, dir, rest);
}

/// An agent's source belongs to the package of its directory, with hyphens.
pub proof fn law_agent_source_belongs_to_its_directory(
    before: Seq<char>,
    dir: Seq<char>,
    rest: Seq<char>,
)
    requires
        dir.len() > 0,
        !dir.contains('/'),
        ({
            let agent = before + "agents/"@ + dir + seq!['/'] + rest;
            &&& !agent.contains('\\')
            &&& !occurs_in("packages/"@, agent)
            &&& forall|k: int|
                0 <= k < before.len() ==> #[trigger] agent.subrange(k, k + "agents/"@.len())
                    != "agents/"@
        }),
    ensures
        source_package(before + "agents/"@ + dir + seq!['/'] + rest) == Some(
            replaced(dir, '_', '-'),
        ),
{
    let agent = before + "agents/"@ + dir + seq!['/'] + rest;
    assert(replaced(agent, '\\', '/') =~= agent) by {
        assert forall|i: int| 0 <= i < agent.len() implies replaced(agent, '\\', '/')[i]
            == agent[i] by {
            if agent[i] == '\\' {
                assert(agent.contains('\\'));
            }
        }
    }
    lemma_first_match(agent, "packages/"@);
    lemma_dir_after(before, "agents/"@, dir, rest);
}

/// Which separator a path is written with makes no difference.
pub proof fn law_separators_do_not_matter(path: Seq<char>)
    ensures
        source_package(replaced(path, '\\', '/')) == source_package(path),
{
    assert(replaced(replaced(path, '\\', '/'), '\\', '/') =~= replaced(path, '\\', '/'));
}

/// The ratios of an export's files go before what earlier entries said of the same packages, leave
/// the others alone, and are there exactly for the packages that have lines; a total is only taken
/// where there is none yet.
pub proof fn law_entry_adds_its_packages(
    m: Map<Seq<char>, LinePercent>,
    sums: Map<Seq<char>, (u64, u64)>,
    package: Seq<char>,
    value: LinePercent,
)
    ensures
        ({
            let after = with_ratios(m, sums);
            let has_lines = sums.dom().contains(package) && sums[package].1 > 0;
            &&& has_lines ==> after.dom().contains(package) && after[package]
                == (LinePercent::Ratio { covered: sums[package].0, count: sums[package].1 })
            &&& !has_lines ==> (after.dom().contains(package) <==> m.dom().contains(package)) && (
            m.dom().contains(package) ==> after[package] == m[package])
            &&& m.dom().contains(package) ==> with_absent(m, package, value) == m
            &&& !m.dom().contains(package) ==> with_absent(m, package, value)[package] == value
        }),
{
}

} // verus!
