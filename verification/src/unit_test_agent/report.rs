//! Draft coverage report markdown (for people to read; never merged on its own).

use vstd::prelude::*;
use crate::order::{sort, sorted_by, Keyed};
use crate::text::{
    chars_of, decimal, law_leading_repetitions_go, lemma_occurs_between, lemma_occurs_in_itself,
    lemma_occurs_in_longer, occurs_in, push_chars, push_number, same, trim_prefixes,
    without_prefixes,
};
use crate::unit_test_agent::types::{
    Inventory, InventoryItem, InventoryView, ItemKind, ItemView, PackageView,
};
use crate::unit_test_agent::workspace::public_count;

verus! {

/// The names of the library packages without tests, in the order of the inventory.
pub open spec fn lacking_names(packages: Seq<PackageView>) -> Seq<Seq<char>>
    decreases packages.len(),
{
    if packages.len() == 0 {
        Seq::empty()
    } else {
        let rest = lacking_names(packages.drop_last());
        let p = packages.last();
        if p.is_lib && !p.has_tests {
            rest.push(p.name)
        } else {
            rest
        }
    }
}

/// The names of the library packages without tests, sorted.
pub open spec fn lacking(packages: Seq<PackageView>) -> Seq<Seq<char>> {
    sorted_by(lacking_names(packages), |n: Seq<char>| seq![n])
}

/// Packages that look like they lack tests (lib crates without `#[test]` / `tests/`).
///
/// Note: `has_tests` is **presence-only** (any `#[test]` / `tests/`), not coverage.
pub fn packages_lacking_tests(inv: &Inventory) -> (r: Vec<String>)
    ensures
        r.deep_view() == lacking(inv.deep_view().packages),
{
    let ghost all = inv.packages.deep_view();
    let mut names: Vec<String> = Vec::new();
    let mut i: usize = 0;
    assert(all.take(0) == Seq::<PackageView>::empty());
    assert(names.deep_view() =~= Seq::<Seq<char>>::empty());
    while i < inv.packages.len()
        invariant
            i <= inv.packages@.len(),
            all == inv.packages.deep_view(),
            names.deep_view() == lacking_names(all.take(i as int)),
        decreases inv.packages@.len() - i,
    {
        assert(all.take(i + 1).drop_last() == all.take(i as int));
        let p = &inv.packages[i];
        assert(all[i as int] == p.deep_view());
        if p.is_lib && !p.has_tests {
            let ghost before = names.deep_view();
            names.push(p.name.clone());
            assert(names.deep_view() =~= before.push(p.name@));
        }
        i += 1;
    }
    proof {
        assert(all.take(all.len() as int) == all);
        let a = |x: Seq<char>| String::key_of(x);
        let b = |n: Seq<char>| seq![n];
        assert(a =~= b);
    }
    sort(names)
}

/// Whether an item is part of the declared surface: `pub`, and no re-export.
pub open spec fn declared(i: ItemView) -> bool {
    i.visibility is Pub && i.kind != ItemKind::Use
}

/// The declared surface, in the order of the inventory.
pub open spec fn declared_items(items: Seq<ItemView>) -> Seq<ItemView> {
    items.filter(|i: ItemView| declared(i))
}

/// The first `limit` items of the declared surface.
pub open spec fn sample(items: Seq<ItemView>, limit: int) -> Seq<ItemView> {
    let all = declared_items(items);
    if limit < all.len() {
        all.take(limit)
    } else {
        all
    }
}

/// What a vector of references holds.
pub open spec fn refs_view(v: Seq<&InventoryItem>) -> Seq<ItemView> {
    Seq::new(v.len(), |k: int| v[k].deep_view())
}

/// Unrestricted `pub` items that are not pure `use` re-exports (sample surface for stubs).
pub fn sample_declared_surface<'a>(inv: &'a Inventory, limit: usize) -> (r: Vec<
    &'a InventoryItem,
>)
    ensures
        refs_view(r@) == sample(inv.deep_view().items, limit as int),
{
    let ghost all = inv.items.deep_view();
    let ghost keep = |i: ItemView| declared(i);
    let mut out: Vec<&'a InventoryItem> = Vec::new();
    let mut i: usize = 0;
    proof {
        reveal(Seq::filter);
        assert(all.take(0).filter(keep) =~= Seq::<ItemView>::empty());
        assert(refs_view(out@) =~= Seq::<ItemView>::empty());
    }
    while i < inv.items.len()
        invariant
            i <= inv.items@.len(),
            all == inv.items.deep_view(),
            keep == (|i: ItemView| declared(i)),
            out@.len() <= limit,
            refs_view(out@) == all.take(i as int).filter(keep),
        decreases inv.items@.len() - i,
    {
        let item = &inv.items[i];
        proof {
            reveal(Seq::filter);
            assert(all.take(i + 1).drop_last() == all.take(i as int));
            assert(all[i as int] == item.deep_view());
        }
        if item.visibility.is_public_api() && item.kind != ItemKind::Use {
            if out.len() == limit {
                proof {
                    let head = all.take(i as int).filter(keep);
                    lemma_filter_prefix(all, i + 1, keep);
                    assert(declared_items(all).take(limit as int) =~= head);
                }
                return out;
            }
            let ghost before = refs_view(out@);
            out.push(item);
            assert(refs_view(out@) =~= before.push(item.deep_view()));
        }
        i += 1;
    }
    proof {
        assert(all.take(all.len() as int) == all);
        assert(declared_items(all).take(declared_items(all).len() as int) =~= declared_items(all));
    }
    out
}

/// What a filter keeps of a beginning is the beginning of what it keeps.
proof fn lemma_filter_prefix(s: Seq<ItemView>, n: int, keep: spec_fn(ItemView) -> bool)
    requires
        0 <= n <= s.len(),
    ensures
        s.take(n).filter(keep).is_prefix_of(s.filter(keep)),
{
    assert(s == s.take(n) + s.skip(n));
    Seq::filter_distributes_over_add(s.take(n), s.skip(n), keep);
    let a = s.take(n).filter(keep);
    let b = s.skip(n).filter(keep);
    assert((a + b).subrange(0, a.len() as int) =~= a);
}

/// The name of a kind in small letters.
pub open spec fn kind_name(kind: ItemKind) -> Seq<char> {
    match kind {
        ItemKind::Fn => "fn"@,
        ItemKind::Struct => "struct"@,
        ItemKind::Enum => "enum"@,
        ItemKind::Trait => "trait"@,
        ItemKind::Type => "type"@,
        ItemKind::Const => "const"@,
        ItemKind::Static => "static"@,
        ItemKind::Mod => "mod"@,
        ItemKind::Use => "use"@,
        ItemKind::Macro => "macro"@,
    }
}

fn kind_text(kind: ItemKind) -> (r: &'static str)
    ensures
        r@ == kind_name(kind),
{
    match kind {
        ItemKind::Fn => "fn",
        ItemKind::Struct => "struct",
        ItemKind::Enum => "enum",
        ItemKind::Trait => "trait",
        ItemKind::Type => "type",
        ItemKind::Const => "const",
        ItemKind::Static => "static",
        ItemKind::Mod => "mod",
        ItemKind::Use => "use",
        ItemKind::Macro => "macro",
    }
}

/// The heading and the policy.
pub open spec fn policy_section() -> Seq<char> {
    "# Unit-Test Agent — Draft Coverage Report\n\n"@ + "## Policy (read me)\n\n"@
        + "- **NEVER auto-merge.** This report and any follow-up PRs are **draft only**.\n"@
        + "- **CI runs only checked-in tests.** Do not execute model-generated tests until they are reviewed and committed.\n"@
        + "- Label draft PRs with `needs-human-review`. Generated code is untrusted until review.\n\n"@
}

fn write_policy() -> (r: String)
    ensures
        r@ == policy_section(),
{
    let mut out = "# Unit-Test Agent — Draft Coverage Report\n\n".to_string();
    out.append("## Policy (read me)\n\n");
    out.append("- **NEVER auto-merge.** This report and any follow-up PRs are **draft only**.\n");
    out.append(
        "- **CI runs only checked-in tests.** Do not execute model-generated tests until they are reviewed and committed.\n",
    );
    out.append(
        "- Label draft PRs with `needs-human-review`. Generated code is untrusted until review.\n\n",
    );
    out
}

/// What was scanned.
pub open spec fn scan_section(inv: InventoryView) -> Seq<char> {
    "- Workspace: `"@ + inv.workspace_root + "`\n- Generated: `"@ + inv.generated_at
        + "`\n- Schema version: "@ + decimal(inv.schema_version as nat)
        + "\n- Public items scanned: "@ + decimal(public_count(inv.items)) + " ("@ + decimal(
        declared_items(inv.items).len(),
    ) + " excluding pure `use` re-exports)\n\n"@
}

fn write_scan(inv: &Inventory, public: usize, declared_count: usize) -> (r: String)
    requires
        public == public_count(inv.deep_view().items),
        declared_count == declared_items(inv.deep_view().items).len(),
    ensures
        r@ == scan_section(inv.deep_view()),
{
    let mut out = "- Workspace: `".to_string();
    out.append(&inv.workspace_root);
    out.append("`\n- Generated: `");
    out.append(&inv.generated_at);
    out.append("`\n- Schema version: ");
    push_number(&mut out, inv.schema_version as u64);
    out.append("\n- Public items scanned: ");
    push_number(&mut out, public as u64);
    out.append(" (");
    push_number(&mut out, declared_count as u64);
    out.append(" excluding pure `use` re-exports)\n\n");
    out
}

/// One bullet for each name.
pub open spec fn name_bullets(names: Seq<Seq<char>>) -> Seq<char>
    decreases names.len(),
{
    if names.len() == 0 {
        Seq::empty()
    } else {
        name_bullets(names.drop_last()) + ("- `"@ + names.last() + "`\n"@)
    }
}

/// The packages that lack tests.
pub open spec fn lacking_section(names: Seq<Seq<char>>) -> Seq<char> {
    "## Packages lacking tests\n\n"@
        + "_`has_tests` is presence-only (any `#[test]` / `tests/` tree), **not** line or item coverage._\n\n"@
        + (if names.len() == 0 {
        "_All library packages appear to have at least one unit or integration test._\n\n"@
    } else {
        "Library packages with **no** detected `#[test]` / `tests/` tree:\n\n"@ + name_bullets(names)
            + "\n"@
    })
}

fn write_lacking(names: &Vec<String>) -> (r: String)
    ensures
        r@ == lacking_section(names.deep_view()),
{
    let ghost all = names.deep_view();
    let mut out = "## Packages lacking tests\n\n".to_string();
    out.append(
        "_`has_tests` is presence-only (any `#[test]` / `tests/` tree), **not** line or item coverage._\n\n",
    );
    if names.len() == 0 {
        out.append(
            "_All library packages appear to have at least one unit or integration test._\n\n",
        );
        return out;
    }
    let mut bullets = String::new();
    let mut i: usize = 0;
    assert(all.take(0) == Seq::<Seq<char>>::empty());
    while i < names.len()
        invariant
            i <= names@.len(),
            all == names.deep_view(),
            bullets@ == name_bullets(all.take(i as int)),
        decreases names@.len() - i,
    {
        assert(all.take(i + 1).drop_last() == all.take(i as int));
        let mut line = "- `".to_string();
        line.append(&names[i]);
        line.append("`\n");
        bullets.append(&line);
        i += 1;
    }
    assert(all.take(all.len() as int) == all);
    let mut part = "Library packages with **no** detected `#[test]` / `tests/` tree:\n\n".to_string();
    part.append(&bullets);
    part.append("\n");
    out.append(&part);
    out
}

/// A row of the package table.
pub open spec fn package_row(p: PackageView) -> Seq<char> {
    "| `"@ + p.name + "` | "@ + (if p.is_lib {
        "yes"@
    } else {
        "no"@
    }) + " | "@ + (if p.has_tests {
        "yes"@
    } else {
        "**no**"@
    }) + " | "@ + decimal(p.public_item_count as nat) + " |\n"@
}

/// The rows of the package table.
pub open spec fn package_rows(packages: Seq<PackageView>) -> Seq<char>
    decreases packages.len(),
{
    if packages.len() == 0 {
        Seq::empty()
    } else {
        package_rows(packages.drop_last()) + package_row(packages.last())
    }
}

/// The package table.
pub open spec fn summary_section(packages: Seq<PackageView>) -> Seq<char> {
    "## Package summary\n\n"@ + "| Package | Lib | Has tests | Public items |\n"@
        + "|---------|-----|-----------|--------------|\n"@ + package_rows(packages) + "\n"@
}

fn write_summary(inv: &Inventory) -> (r: String)
    ensures
        r@ == summary_section(inv.deep_view().packages),
{
    let ghost all = inv.packages.deep_view();
    let mut rows = String::new();
    let mut i: usize = 0;
    assert(all.take(0) == Seq::<PackageView>::empty());
    while i < inv.packages.len()
        invariant
            i <= inv.packages@.len(),
            all == inv.packages.deep_view(),
            rows@ == package_rows(all.take(i as int)),
        decreases inv.packages@.len() - i,
    {
        assert(all.take(i + 1).drop_last() == all.take(i as int));
        let p = &inv.packages[i];
        assert(all[i as int] == p.deep_view());
        let mut row = "| `".to_string();
        row.append(&p.name);
        row.append("` | ");
        row.append(if p.is_lib { "yes" } else { "no" });
        row.append(" | ");
        row.append(if p.has_tests { "yes" } else { "**no**" });
        row.append(" | ");
        push_number(&mut row, p.public_item_count as u64);
        row.append(" |\n");
        rows.append(&row);
        i += 1;
    }
    assert(all.take(all.len() as int) == all);
    let mut out = "## Package summary\n\n".to_string();
    out.append("| Package | Lib | Has tests | Public items |\n");
    out.append("|---------|-----|-----------|--------------|\n");
    out.append(&rows);
    out.append("\n");
    out
}

/// The suggested title for a package, which loses its product prefix.
pub open spec fn title_line(name: Seq<char>) -> Seq<char> {
    "- `test(agent): cover "@ + without_prefixes(name, "remotelink-"@)
        + "` — draft only, label `needs-human-review`\n"@
}

/// One title for each name.
pub open spec fn title_lines(names: Seq<Seq<char>>) -> Seq<char>
    decreases names.len(),
{
    if names.len() == 0 {
        Seq::empty()
    } else {
        title_lines(names.drop_last()) + title_line(names.last())
    }
}

/// The names of the libraries that have public items, in the order of the inventory.
pub open spec fn surface_names(packages: Seq<PackageView>) -> Seq<Seq<char>>
    decreases packages.len(),
{
    if packages.len() == 0 {
        Seq::empty()
    } else {
        let rest = surface_names(packages.drop_last());
        let p = packages.last();
        if p.is_lib && p.public_item_count > 0 {
            rest.push(p.name)
        } else {
            rest
        }
    }
}

/// The suggested titles: for the packages without tests, or else for every library with items.
pub open spec fn titles_section(packages: Seq<PackageView>, names: Seq<Seq<char>>) -> Seq<char> {
    "## Suggested draft PR titles\n\n"@ + (if names.len() > 0 {
        title_lines(names) + "\n"@
    } else if surface_names(packages).len() == 0 {
        "_No library packages with public items._\n\n"@
    } else {
        "Package-level presence checks passed; open **item-level** draft PRs as needed:\n\n"@
            + title_lines(surface_names(packages)) + "\n"@
    })
}

fn write_title_lines(names: &Vec<String>) -> (r: String)
    ensures
        r@ == title_lines(names.deep_view()),
{
    let ghost all = names.deep_view();
    let mut out = String::new();
    let mut i: usize = 0;
    assert(all.take(0) == Seq::<Seq<char>>::empty());
    while i < names.len()
        invariant
            i <= names@.len(),
            all == names.deep_view(),
            out@ == title_lines(all.take(i as int)),
        decreases names@.len() - i,
    {
        assert(all.take(i + 1).drop_last() == all.take(i as int));
        let c = chars_of(&names[i]);
        let mut line = "- `test(agent): cover ".to_string();
        push_chars(&mut line, trim_prefixes(&c, "remotelink-"));
        line.append("` — draft only, label `needs-human-review`\n");
        out.append(&line);
        i += 1;
    }
    assert(all.take(all.len() as int) == all);
    out
}

fn surface_packages(inv: &Inventory) -> (r: Vec<String>)
    ensures
        r.deep_view() == surface_names(inv.deep_view().packages),
{
    let ghost all = inv.packages.deep_view();
    let mut names: Vec<String> = Vec::new();
    let mut i: usize = 0;
    assert(all.take(0) == Seq::<PackageView>::empty());
    assert(names.deep_view() =~= Seq::<Seq<char>>::empty());
    while i < inv.packages.len()
        invariant
            i <= inv.packages@.len(),
            all == inv.packages.deep_view(),
            names.deep_view() == surface_names(all.take(i as int)),
        decreases inv.packages@.len() - i,
    {
        assert(all.take(i + 1).drop_last() == all.take(i as int));
        let p = &inv.packages[i];
        assert(all[i as int] == p.deep_view());
        if p.is_lib && p.public_item_count > 0 {
            let ghost before = names.deep_view();
            names.push(p.name.clone());
            assert(names.deep_view() =~= before.push(p.name@));
        }
        i += 1;
    }
    assert(all.take(all.len() as int) == all);
    names
}

fn write_titles(inv: &Inventory, names: &Vec<String>) -> (r: String)
    ensures
        r@ == titles_section(inv.deep_view().packages, names.deep_view()),
{
    let mut out = "## Suggested draft PR titles\n\n".to_string();
    if names.len() > 0 {
        let mut part = write_title_lines(names);
        part.append("\n");
        out.append(&part);
        return out;
    }
    let libs = surface_packages(inv);
    if libs.len() == 0 {
        out.append("_No library packages with public items._\n\n");
    } else {
        let mut part = "Package-level presence checks passed; open **item-level** draft PRs as needed:\n\n".to_string();
        part.append(&write_title_lines(&libs));
        part.append("\n");
        out.append(&part);
    }
    out
}

/// Whether an item is public and its package lacks tests.
pub open spec fn untested(i: ItemView, names: Seq<Seq<char>>) -> bool {
    i.visibility is Pub && names.contains(i.crate_name)
}

/// The line of an item without tests.
pub open spec fn untested_line(i: ItemView) -> Seq<char> {
    "- `"@ + i.crate_name + "` :: `"@ + i.item + "` (`"@ + i.path + "`, "@ + kind_name(i.kind)
        + ")\n"@
}

/// The lines of the untested items, of which at most `room` are listed. When the last one is
/// listed a note says that the list ends there.
pub open spec fn untested_lines(items: Seq<ItemView>, names: Seq<Seq<char>>, room: nat) -> Seq<char>
    decreases items.len(),
{
    if items.len() == 0 {
        Seq::empty()
    } else if !untested(items[0], names) {
        untested_lines(items.skip(1), names, room)
    } else if room <= 1 {
        untested_line(items[0]) + "\n_…truncated (first 100)._\n"@
    } else {
        untested_line(items[0]) + untested_lines(items.skip(1), names, (room - 1) as nat)
    }
}

/// The untested items.
pub open spec fn untested_section(items: Seq<ItemView>, names: Seq<Seq<char>>) -> Seq<char> {
    "## Public items in packages without tests\n\n"@ + (if exists|i: int|
        0 <= i < items.len() && untested(#[trigger] items[i], names) {
        untested_lines(items, names, 100)
    } else {
        "_None (no untested lib packages, or no public items)._\n"@
    }) + "\n"@
}

fn holds(names: &Vec<String>, name: &str) -> (r: bool)
    ensures
        r == names.deep_view().contains(name@),
{
    let mut i: usize = 0;
    while i < names.len()
        invariant
            i <= names@.len(),
            forall|k: int| 0 <= k < i ==> names.deep_view()[k] != name@,
        decreases names@.len() - i,
    {
        assert(names.deep_view()[i as int] == names@[i as int]@);
        if same(&names[i], name) {
            assert(names.deep_view()[i as int] == name@);
            return true;
        }
        i += 1;
    }
    false
}

fn write_untested_line(item: &InventoryItem) -> (r: String)
    ensures
        r@ == untested_line(item.deep_view()),
{
    let mut line = "- `".to_string();
    line.append(&item.crate_name);
    line.append("` :: `");
    line.append(&item.item);
    line.append("` (`");
    line.append(&item.path);
    line.append("`, ");
    line.append(kind_text(item.kind));
    line.append(")\n");
    line
}

fn write_untested(inv: &Inventory, names: &Vec<String>) -> (r: String)
    ensures
        r@ == untested_section(inv.deep_view().items, names.deep_view()),
{
    let ghost all = inv.items.deep_view();
    let ghost ns = names.deep_view();
    let mut out = "## Public items in packages without tests\n\n".to_string();
    let mut body = String::new();
    let mut listed: usize = 0;
    let mut i: usize = 0;
    let ghost whole = untested_lines(all, ns, 100);
    assert(all.skip(0) == all);
    assert(body@ + whole =~= whole);
    while i < inv.items.len()
        invariant_except_break
            listed < 100,
            whole == body@ + untested_lines(all.skip(i as int), ns, (100 - listed) as nat),
            listed == 0 ==> forall|k: int| 0 <= k < i ==> !untested(#[trigger] all[k], ns),
        invariant
            i <= inv.items@.len(),
            all == inv.items.deep_view(),
            ns == names.deep_view(),
            listed > 0 ==> exists|k: int| 0 <= k < all.len() && untested(#[trigger] all[k], ns),
        ensures
            listed == 0 ==> forall|k: int| 0 <= k < all.len() ==> !untested(#[trigger] all[k], ns),
            whole == body@,
        decreases inv.items@.len() - i,
    {
        let item = &inv.items[i];
        assert(all[i as int] == item.deep_view());
        assert(all.skip(i as int)[0] == all[i as int]);
        assert(all.skip(i as int).skip(1) == all.skip(i + 1));
        if item.visibility.is_public_api() && holds(names, &item.crate_name) {
            assert(untested(all[i as int], ns));
            let ghost before = body@;
            body.append(&write_untested_line(item));
            listed += 1;
            if listed >= 100 {
                body.append("\n_…truncated (first 100)._\n");
                assert(body@ =~= before + (untested_line(all[i as int])
                    + "\n_…truncated (first 100)._\n"@));
                break;
            }
            assert(body@ + untested_lines(all.skip(i + 1), ns, (100 - listed) as nat) =~= before
                + (untested_line(all[i as int]) + untested_lines(
                all.skip(i + 1),
                ns,
                (100 - listed) as nat,
            )));
        }
        i += 1;
        assert(i == all.len() ==> body@ + untested_lines(
            all.skip(i as int),
            ns,
            (100 - listed) as nat,
        ) =~= body@);
    }
    if listed == 0 {
        out.append("_None (no untested lib packages, or no public items)._\n");
    } else {
        out.append(&body);
    }
    out.append("\n");
    out
}

/// A line number, or a question mark.
pub open spec fn line_text(line: Option<u32>) -> Seq<char> {
    match line {
        Some(n) => decimal(n as nat),
        None => "?"@,
    }
}

/// The stub of an item.
pub open spec fn stub_line(i: ItemView) -> Seq<char> {
    "- [ ] TODO test `"@ + i.crate_name + "::"@ + i.item + "` (`"@ + i.path + "`:"@ + line_text(
        i.line,
    ) + ")\n"@
}

/// The stubs of some items.
pub open spec fn stub_lines(items: Seq<ItemView>) -> Seq<char>
    decreases items.len(),
{
    if items.len() == 0 {
        Seq::empty()
    } else {
        stub_lines(items.drop_last()) + stub_line(items.last())
    }
}

/// How many stubs a report lists.
pub const SAMPLE_LIMIT: usize = 40;

/// The stubs.
pub open spec fn stubs_section(items: Seq<ItemView>) -> Seq<char> {
    let shown = sample(items, SAMPLE_LIMIT as int);
    let left = declared_items(items).len() - shown.len();
    "## Sample public surface — offline TODO stubs\n\n"@
        + "Every unrestricted `pub` item should eventually be **tested** or **allowlisted** (`agents/shared/allowlist.toml`). Gates remain report-only until PR 25.\n\n"@
        + "Below is a bounded sample of **declared** surface (excludes pure `use` re-exports). Treat as review checklist stubs — **not** executable tests.\n\n"@
        + (if shown.len() == 0 {
        "_No declared public items found._\n\n"@
    } else {
        stub_lines(shown) + (if left > 0 {
            "\n_…and "@ + decimal(left as nat)
                + " more declared pub items not listed (run inventory JSON for full list)._\n"@
        } else {
            Seq::empty()
        }) + "\n"@
    })
}

fn write_stub_line(item: &InventoryItem) -> (r: String)
    ensures
        r@ == stub_line(item.deep_view()),
{
    let mut line = "- [ ] TODO test `".to_string();
    line.append(&item.crate_name);
    line.append("::");
    line.append(&item.item);
    line.append("` (`");
    line.append(&item.path);
    line.append("`:");
    match item.line {
        Some(n) => push_number(&mut line, n as u64),
        None => line.append("?"),
    }
    line.append(")\n");
    line
}

fn write_stubs(inv: &Inventory, declared_count: usize) -> (r: String)
    requires
        declared_count == declared_items(inv.deep_view().items).len(),
    ensures
        r@ == stubs_section(inv.deep_view().items),
{
    let shown = sample_declared_surface(inv, SAMPLE_LIMIT);
    let ghost all = refs_view(shown@);
    let mut out = "## Sample public surface — offline TODO stubs\n\n".to_string();
    out.append(
        "Every unrestricted `pub` item should eventually be **tested** or **allowlisted** (`agents/shared/allowlist.toml`). Gates remain report-only until PR 25.\n\n",
    );
    out.append(
        "Below is a bounded sample of **declared** surface (excludes pure `use` re-exports). Treat as review checklist stubs — **not** executable tests.\n\n",
    );
    if shown.len() == 0 {
        out.append("_No declared public items found._\n\n");
        return out;
    }
    let mut part = String::new();
    let mut i: usize = 0;
    assert(all.take(0) == Seq::<ItemView>::empty());
    while i < shown.len()
        invariant
            i <= shown@.len(),
            all == refs_view(shown@),
            part@ == stub_lines(all.take(i as int)),
        decreases shown@.len() - i,
    {
        assert(all.take(i + 1).drop_last() == all.take(i as int));
        assert(all[i as int] == shown@[i as int].deep_view());
        part.append(&write_stub_line(shown[i]));
        i += 1;
    }
    assert(all.take(all.len() as int) == all);
    if declared_count > shown.len() {
        let mut note = "\n_…and ".to_string();
        push_number(&mut note, (declared_count - shown.len()) as u64);
        note.append(" more declared pub items not listed (run inventory JSON for full list)._\n");
        part.append(&note);
    } else {
        assert(part@ + Seq::<char>::empty() =~= part@);
    }
    part.append("\n");
    out.append(&part);
    out
}

/// The end of the report.
pub open spec fn closing_section() -> Seq<char> {
    "## Allowlist\n\n"@
        + "Intentional gaps go in `agents/shared/allowlist.toml` with a reason. File currently bootstraps **empty** (no registered gaps).\n\n"@
        + "---\n\n"@
        + "*Generated by `unit-test-agent draft-report`. See `agents/shared/draft_pr_template.md`.*\n"@
}

fn write_closing() -> (r: String)
    ensures
        r@ == closing_section(),
{
    let mut out = "## Allowlist\n\n".to_string();
    out.append(
        "Intentional gaps go in `agents/shared/allowlist.toml` with a reason. File currently bootstraps **empty** (no registered gaps).\n\n",
    );
    out.append("---\n\n");
    out.append(
        "*Generated by `unit-test-agent draft-report`. See `agents/shared/draft_pr_template.md`.*\n",
    );
    out
}

/// The draft report of an inventory.
pub open spec fn draft_report(inv: InventoryView) -> Seq<char> {
    let names = lacking(inv.packages);
    policy_section() + scan_section(inv) + lacking_section(names) + summary_section(inv.packages)
        + titles_section(inv.packages, names) + untested_section(inv.items, names)
        + stubs_section(inv.items) + closing_section()
}

fn count_items(inv: &Inventory) -> (r: (usize, usize))
    ensures
        r.0 == public_count(inv.deep_view().items),
        r.1 == declared_items(inv.deep_view().items).len(),
{
    let ghost all = inv.items.deep_view();
    let ghost keep = |i: ItemView| declared(i);
    let mut public: usize = 0;
    let mut declared_count: usize = 0;
    let mut i: usize = 0;
    proof {
        reveal(Seq::filter);
        assert(all.take(0) == Seq::<ItemView>::empty());
        assert(all.take(0).filter(keep) =~= Seq::<ItemView>::empty());
    }
    while i < inv.items.len()
        invariant
            i <= inv.items@.len(),
            all == inv.items.deep_view(),
            keep == (|i: ItemView| declared(i)),
            declared_count <= i,
            public <= i,
            public == public_count(all.take(i as int)),
            declared_count == all.take(i as int).filter(keep).len(),
        decreases inv.items@.len() - i,
    {
        let item = &inv.items[i];
        proof {
            reveal(Seq::filter);
            assert(all.take(i + 1).drop_last() == all.take(i as int));
            assert(all[i as int] == item.deep_view());
        }
        if item.visibility.is_public_api() {
            public += 1;
            if item.kind != ItemKind::Use {
                declared_count += 1;
            }
        }
        i += 1;
    }
    assert(all.take(all.len() as int) == all);
    (public, declared_count)
}

/// Render a markdown draft report.
pub fn draft_report_markdown(inv: &Inventory) -> (r: String)
    ensures
        r@ == draft_report(inv.deep_view()),
{
    let (public, declared_count) = count_items(inv);
    let names = packages_lacking_tests(inv);
    let mut out = write_policy();
    out.append(&write_scan(inv, public, declared_count));
    out.append(&write_lacking(&names));
    out.append(&write_summary(inv));
    out.append(&write_titles(inv, &names));
    out.append(&write_untested(inv, &names));
    out.append(&write_stubs(inv, declared_count));
    out.append(&write_closing());
    out
}

/// A sample never lists a re-export, nor an item that is not fully public, and never more than
/// its limit.
pub proof fn law_sample_is_declared_surface(items: Seq<ItemView>, limit: int, i: int)
    requires
        0 <= limit,
        0 <= i < sample(items, limit).len(),
    ensures
        declared(sample(items, limit)[i]),
        items.contains(sample(items, limit)[i]),
        sample(items, limit).len() <= limit,
{
    broadcast use vstd::seq_lib::group_filter_ensures;

    let keep = |x: ItemView| declared(x);
    let all = items.filter(keep);
    assert(keep(all[i]));
    lemma_filter_member(items, keep, i);
}

proof fn lemma_filter_member(s: Seq<ItemView>, keep: spec_fn(ItemView) -> bool, i: int)
    requires
        0 <= i < s.filter(keep).len(),
    ensures
        s.contains(s.filter(keep)[i]),
    decreases s.len(),
{
    reveal(Seq::filter);
    if s.len() > 0 {
        let t = s.drop_last();
        if i < t.filter(keep).len() {
            lemma_filter_member(t, keep, i);
            let k = t.index_of(t.filter(keep)[i]);
            assert(s[k] == t[k]);
        } else {
            assert(s.filter(keep)[i] == s.last());
            assert(s[s.len() - 1] == s.last());
        }
    }
}

/// A package is listed as lacking tests exactly where it is a library without any.
pub proof fn law_lacking_lists_untested_libraries(packages: Seq<PackageView>, name: Seq<char>)
    ensures
        lacking(packages).contains(name) <==> exists|i: int|
            0 <= i < packages.len() && (#[trigger] packages[i]).name == name && packages[i].is_lib
                && !packages[i].has_tests,
{
    let key = |n: Seq<char>| seq![n];
    crate::order::law_sorted(lacking_names(packages), key);
    lemma_lacking_names(packages, name);
    let (a, b) = (lacking(packages), lacking_names(packages));
    broadcast use vstd::seq_lib::group_to_multiset_ensures;

    assert(a.contains(name) <==> a.to_multiset().count(name) > 0);
    assert(b.contains(name) <==> b.to_multiset().count(name) > 0);
}

proof fn lemma_lacking_names(packages: Seq<PackageView>, name: Seq<char>)
    ensures
        lacking_names(packages).contains(name) <==> exists|i: int|
            0 <= i < packages.len() && (#[trigger] packages[i]).name == name && packages[i].is_lib
                && !packages[i].has_tests,
    decreases packages.len(),
{
    if packages.len() > 0 {
        let t = packages.drop_last();
        let p = packages.last();
        lemma_lacking_names(t, name);
        let (all, rest) = (lacking_names(packages), lacking_names(t));
        if all.contains(name) {
            let k = all.index_of(name);
            if k < rest.len() {
                assert(rest[k] == name);
                let i = choose|i: int|
                    0 <= i < t.len() && (#[trigger] t[i]).name == name && t[i].is_lib
                        && !t[i].has_tests;
                assert(packages[i].name == name);
            } else {
                assert(packages[packages.len() - 1].name == name);
            }
        }
        if exists|i: int|
            0 <= i < packages.len() && (#[trigger] packages[i]).name == name && packages[i].is_lib
                && !packages[i].has_tests {
            let i = choose|i: int|
                0 <= i < packages.len() && (#[trigger] packages[i]).name == name
                    && packages[i].is_lib && !packages[i].has_tests;
            if i < t.len() {
                assert(t[i].name == name);
                let k = rest.index_of(name);
                assert(all[k] == name);
            } else {
                assert(all[all.len() - 1] == name);
            }
        }
    }
}

/// Libraries with public items are the ones that titles are suggested for, in the order of the
/// inventory.
pub proof fn law_surface_is_what_libraries_offer(packages: Seq<PackageView>)
    ensures
        surface_names(packages) == packages.filter(
            |p: PackageView| p.is_lib && p.public_item_count > 0,
        ).map_values(|p: PackageView| p.name),
        lacking_names(packages) == packages.filter(
            |p: PackageView| p.is_lib && !p.has_tests,
        ).map_values(|p: PackageView| p.name),
    decreases packages.len(),
{
    reveal(Seq::filter);
    let offers = |p: PackageView| p.is_lib && p.public_item_count > 0;
    let lacks = |p: PackageView| p.is_lib && !p.has_tests;
    let name = |p: PackageView| p.name;
    if packages.len() == 0 {
        assert(surface_names(packages) =~= packages.filter(offers).map_values(name));
        assert(lacking_names(packages) =~= packages.filter(lacks).map_values(name));
    } else {
        let t = packages.drop_last();
        let p = packages.last();
        law_surface_is_what_libraries_offer(t);
        let x = t.filter(offers);
        let y = t.filter(lacks);
        assert(x.push(p).map_values(name) =~= x.map_values(name).push(p.name));
        assert(y.push(p).map_values(name) =~= y.map_values(name).push(p.name));
    }
}

/// The packages that lack tests come by name, each as often as it is one.
pub proof fn law_lacking_come_by_name(packages: Seq<PackageView>)
    ensures
        crate::order::keys_ascend(lacking(packages), |n: Seq<char>| seq![n]),
        lacking(packages).to_multiset() == lacking_names(packages).to_multiset(),
{
    crate::order::law_sorted(lacking_names(packages), |n: Seq<char>| seq![n]);
}

/// Each name has a bullet, in order.
pub proof fn law_each_name_has_a_bullet(a: Seq<Seq<char>>, b: Seq<Seq<char>>, x: Seq<char>)
    ensures
        name_bullets(a + b) == name_bullets(a) + name_bullets(b),
        name_bullets(seq![x]) == "- `"@ + x + "`\n"@,
    decreases b.len(),
{
    reveal_with_fuel(name_bullets, 2);
    assert(seq![x].drop_last() =~= Seq::<Seq<char>>::empty());
    assert(name_bullets(seq![x]) =~= "- `"@ + x + "`\n"@);
    if b.len() == 0 {
        assert(a + b =~= a);
        assert(name_bullets(a) + name_bullets(b) =~= name_bullets(a));
    } else {
        law_each_name_has_a_bullet(a, b.drop_last(), x);
        assert((a + b).drop_last() =~= a + b.drop_last());
        assert(name_bullets(a + b) =~= name_bullets(a) + name_bullets(b));
    }
}

proof fn lemma_concat(x: Seq<char>, y: Seq<char>, z: Seq<char>)
    ensures
        x + y + z == x + (y + z),
        Seq::<char>::empty() + x == x,
        x + Seq::<char>::empty() == x,
{
    assert(x + y + z =~= x + (y + z));
    assert(Seq::<char>::empty() + x =~= x);
    assert(x + Seq::<char>::empty() =~= x);
}

/// Each package has a row, in order.
#[verifier::rlimit(60)]
pub proof fn law_each_package_has_a_row(a: Seq<PackageView>, b: Seq<PackageView>, x: PackageView)
    ensures
        package_rows(a + b) == package_rows(a) + package_rows(b),
        package_rows(seq![x]) == package_row(x),
    decreases b.len(),
{
    reveal_with_fuel(package_rows, 2);
    assert(seq![x].drop_last() =~= Seq::<PackageView>::empty());
    lemma_concat(package_row(x), Seq::empty(), Seq::empty());
    if b.len() == 0 {
        assert(a + b =~= a);
        lemma_concat(package_rows(a), Seq::empty(), Seq::empty());
    } else {
        law_each_package_has_a_row(a, b.drop_last(), x);
        assert((a + b).drop_last() =~= a + b.drop_last());
        lemma_concat(package_rows(a), package_rows(b.drop_last()), package_row(b.last()));
    }
}

/// Each name has a title, in order.
pub proof fn law_each_name_has_a_title(a: Seq<Seq<char>>, b: Seq<Seq<char>>, x: Seq<char>)
    ensures
        title_lines(a + b) == title_lines(a) + title_lines(b),
        title_lines(seq![x]) == title_line(x),
    decreases b.len(),
{
    reveal_with_fuel(title_lines, 2);
    assert(seq![x].drop_last() =~= Seq::<Seq<char>>::empty());
    assert(title_lines(seq![x]) =~= title_line(x));
    if b.len() == 0 {
        assert(a + b =~= a);
        assert(title_lines(a) + title_lines(b) =~= title_lines(a));
    } else {
        law_each_name_has_a_title(a, b.drop_last(), x);
        assert((a + b).drop_last() =~= a + b.drop_last());
        assert(title_lines(a + b) =~= title_lines(a) + title_lines(b));
    }
}

/// Each sampled item has a stub, in order.
pub proof fn law_each_sampled_item_has_a_stub(a: Seq<ItemView>, b: Seq<ItemView>, x: ItemView)
    ensures
        stub_lines(a + b) == stub_lines(a) + stub_lines(b),
        stub_lines(seq![x]) == stub_line(x),
    decreases b.len(),
{
    reveal_with_fuel(stub_lines, 2);
    assert(seq![x].drop_last() =~= Seq::<ItemView>::empty());
    assert(stub_lines(seq![x]) =~= stub_line(x));
    if b.len() == 0 {
        assert(a + b =~= a);
        assert(stub_lines(a) + stub_lines(b) =~= stub_lines(a));
    } else {
        law_each_sampled_item_has_a_stub(a, b.drop_last(), x);
        assert((a + b).drop_last() =~= a + b.drop_last());
        assert(stub_lines(a + b) =~= stub_lines(a) + stub_lines(b));
    }
}

/// A row tells the package: its name, whether it is a library, whether it has tests, and how many
/// public items there are.
pub proof fn law_row_tells_the_package(p: PackageView)
    ensures
        occurs_in(p.name, package_row(p)),
        occurs_in(decimal(p.public_item_count as nat), package_row(p)),
        !p.has_tests ==> occurs_in("**no**"@, package_row(p)),
        p.has_tests ==> occurs_in("yes"@, package_row(p)),
        p.is_lib ==> occurs_in("yes"@, package_row(p)),
{
    let lib = if p.is_lib {
        "yes"@
    } else {
        "no"@
    };
    let tests = if p.has_tests {
        "yes"@
    } else {
        "**no**"@
    };
    let count = decimal(p.public_item_count as nat);
    lemma_occurs_in_itself(p.name);
    lemma_occurs_in_itself(lib);
    lemma_occurs_in_itself(tests);
    lemma_occurs_in_itself(count);
    lemma_occurs_in_longer("| `"@, p.name);
    let p0 = "| `"@ + p.name;
    lemma_occurs_in_longer(p0, "` | "@);
    let p1 = p0 + "` | "@;
    lemma_occurs_in_longer(p1, lib);
    let p2 = p1 + lib;
    lemma_occurs_in_longer(p2, " | "@);
    let p3 = p2 + " | "@;
    lemma_occurs_in_longer(p3, tests);
    let p4 = p3 + tests;
    lemma_occurs_in_longer(p4, " | "@);
    let p5 = p4 + " | "@;
    lemma_occurs_in_longer(p5, count);
    let p6 = p5 + count;
    lemma_occurs_in_longer(p6, " |\n"@);
}

/// A title leaves out the product's name.
pub proof fn law_title_leaves_out_the_product(name: Seq<char>)
    ensures
        title_line("remotelink-"@ + name) == title_line(name),
        !"remotelink-"@.is_prefix_of(name) ==> occurs_in(name, title_line(name)),
{
    reveal_strlit("remotelink-");
    law_leading_repetitions_go(name, "remotelink-"@);
    if !"remotelink-"@.is_prefix_of(name) {
        lemma_occurs_between(
            "- `test(agent): cover "@,
            name,
            "` — draft only, label `needs-human-review`\n"@,
        );
    }
}

/// The untested items are listed one by one, as long as there is room; what is tested or not public
/// takes none.
pub proof fn law_untested_items_are_listed(
    items: Seq<ItemView>,
    names: Seq<Seq<char>>,
    room: nat,
    k: int,
)
    requires
        0 <= k < items.len(),
        untested(items[k], names),
        items.take(k).filter(|i: ItemView| untested(i, names)).len() < room,
    ensures
        occurs_in(untested_line(items[k]), untested_lines(items, names, room)),
    decreases items.len(),
{
    let open = |i: ItemView| untested(i, names);
    let first = items[0];
    let rest = items.skip(1);
    let line = untested_line(items[k]);
    lemma_occurs_in_itself(line);
    if k == 0 {
        lemma_occurs_in_longer(line, "\n_…truncated (first 100)._\n"@);
        if room > 1 {
            lemma_occurs_in_longer(line, untested_lines(rest, names, (room - 1) as nat));
        }
    } else {
        assert(rest[k - 1] == items[k]);
        assert(items.take(k) =~= seq![first] + rest.take(k - 1));
        Seq::filter_distributes_over_add(seq![first], rest.take(k - 1), open);
        reveal_with_fuel(Seq::filter, 2);
        assert(seq![first].drop_last() =~= Seq::<ItemView>::empty());
        if open(first) {
            assert(seq![first].filter(open) =~= seq![first]);
            assert(room > 1);
            law_untested_items_are_listed(rest, names, (room - 1) as nat, k - 1);
            lemma_occurs_in_longer(
                untested_line(first),
                untested_lines(rest, names, (room - 1) as nat),
            );
        } else {
            assert(seq![first].filter(open) =~= Seq::<ItemView>::empty());
            law_untested_items_are_listed(rest, names, room, k - 1);
        }
    }
}

/// A list that ran out of room says so at its end.
pub proof fn law_full_list_says_so(items: Seq<ItemView>, names: Seq<Seq<char>>, room: nat)
    requires
        room >= 1,
        items.filter(|i: ItemView| untested(i, names)).len() >= room,
    ensures
        "\n_…truncated (first 100)._\n"@.is_suffix_of(untested_lines(items, names, room)),
    decreases items.len(),
{
    let note = "\n_…truncated (first 100)._\n"@;
    let open = |i: ItemView| untested(i, names);
    reveal_with_fuel(Seq::filter, 2);
    if items.len() > 0 {
        let first = items[0];
        let rest = items.skip(1);
        assert(items =~= seq![first] + rest);
        Seq::filter_distributes_over_add(seq![first], rest, open);
        assert(seq![first].drop_last() =~= Seq::<ItemView>::empty());
        if open(first) {
            assert(seq![first].filter(open) =~= seq![first]);
            let line = untested_line(first);
            if room <= 1 {
                let all = line + note;
                assert(all.subrange(all.len() - note.len(), all.len() as int) =~= note);
            } else {
                let tail = untested_lines(rest, names, (room - 1) as nat);
                law_full_list_says_so(rest, names, (room - 1) as nat);
                let all = line + tail;
                assert(all.subrange(all.len() - note.len(), all.len() as int) =~= tail.subrange(
                    tail.len() - note.len(),
                    tail.len() as int,
                ));
            }
        } else {
            assert(seq![first].filter(open) =~= Seq::<ItemView>::empty());
            assert(Seq::<ItemView>::empty() + rest.filter(open) =~= rest.filter(open));
            law_full_list_says_so(rest, names, room);
        }
    }
}

/// The report has all its parts, and begins with the policy.
pub proof fn law_report_has_its_parts(inv: InventoryView)
    ensures
        ({
            let report = draft_report(inv);
            let names = lacking(inv.packages);
            &&& policy_section().is_prefix_of(report)
            &&& occurs_in(scan_section(inv), report)
            &&& occurs_in(lacking_section(names), report)
            &&& occurs_in(summary_section(inv.packages), report)
            &&& occurs_in(titles_section(inv.packages, names), report)
            &&& occurs_in(untested_section(inv.items, names), report)
            &&& occurs_in(stubs_section(inv.items), report)
            &&& closing_section().is_suffix_of(report)
        }),
{
    let names = lacking(inv.packages);
    lemma_parts(
        policy_section(),
        scan_section(inv),
        lacking_section(names),
        summary_section(inv.packages),
        titles_section(inv.packages, names),
        untested_section(inv.items, names),
        stubs_section(inv.items),
        closing_section(),
    );
}

proof fn lemma_parts(
    a: Seq<char>,
    b: Seq<char>,
    c: Seq<char>,
    d: Seq<char>,
    e: Seq<char>,
    f: Seq<char>,
    g: Seq<char>,
    h: Seq<char>,
)
    ensures
        ({
            let all = a + b + c + d + e + f + g + h;
            &&& a.is_prefix_of(all)
            &&& occurs_in(b, all) && occurs_in(c, all) && occurs_in(d, all) && occurs_in(e, all)
            &&& occurs_in(f, all) && occurs_in(g, all)
            &&& h.is_suffix_of(all)
        }),
{
    let all = a + b + c + d + e + f + g + h;
    assert(all.subrange(0, a.len() as int) =~= a);
    assert(all.subrange(all.len() - h.len(), all.len() as int) =~= h);
    lemma_occurs_in_itself(b);
    lemma_occurs_in_itself(c);
    lemma_occurs_in_itself(d);
    lemma_occurs_in_itself(e);
    lemma_occurs_in_itself(f);
    lemma_occurs_in_itself(g);
    lemma_occurs_in_longer(a, b);
    lemma_occurs_in_longer(a + b, c);
    lemma_occurs_in_longer(a + b + c, d);
    lemma_occurs_in_longer(a + b + c + d, e);
    lemma_occurs_in_longer(a + b + c + d + e, f);
    lemma_occurs_in_longer(a + b + c + d + e + f, g);
    lemma_occurs_in_longer(a + b + c + d + e + f + g, h);
}

/// An item is part of the declared surface unless it is restricted or only passed on.
pub proof fn law_declared_surface(i: ItemView)
    ensures
        declared(i) <==> i.visibility is Pub && !(i.kind is Use),
        forall|names: Seq<Seq<char>>| #[trigger]
            untested(i, names) ==> i.visibility is Pub && names.contains(i.crate_name),
{
}

} // verus!
