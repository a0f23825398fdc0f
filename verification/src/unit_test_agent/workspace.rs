//! Inventory of a workspace: which packages it has, and what their sources declare.

use vstd::prelude::*;
use crate::coverage_gate::gate::{member_text, read_member_text};
use crate::coverage_gate::test_count::{is_test_attr_line, test_attr_line};
use crate::json::{
    json_parsed, lemma_list_contents, list_contents, parse_json, Json, JsonView,
};
use crate::order::{key_le, keys_ascend, law_sorted, rank_texts, sort, sorted_by, Keyed, Rank};
use crate::paths::{join_path, parent_path, path_join, path_parent};
use crate::platform::Platform;
use crate::source_tree::{list_rust_files, rust_files, TreeEntry};
use crate::text::{
    after_prefix, chars_of, contains_text, decimal, law_lines_end_at_line_feeds, lines, lines_of, lowercase, lowered, number,
    occurs_in, replace_char, replaced, same, slices_same, string_of, strip_prefix, trim_leading,
    without_leading,
};
use crate::unit_test_agent::inventory::{parse_public_items, public_items};
use crate::unit_test_agent::types::{
    Inventory, InventoryItem, InventoryView, ItemView, PackageSummary, PackageView,
};

verus! {

/// Errors from inventory collection.
#[derive(Debug)]
pub enum InventoryError {
    /// I/O failure.
    Io(String),
    /// `cargo metadata` failed or lacks what is needed.
    Metadata(String),
    /// JSON parse error.
    Json(String),
}

/// What an `InventoryError` says.
pub enum InventoryErrorView {
    Io(Seq<char>),
    Metadata(Seq<char>),
    Json(Seq<char>),
}

impl DeepView for InventoryError {
    type V = InventoryErrorView;

    open spec fn deep_view(&self) -> InventoryErrorView {
        match self {
            InventoryError::Io(e) => InventoryErrorView::Io(e@),
            InventoryError::Metadata(e) => InventoryErrorView::Metadata(e@),
            InventoryError::Json(e) => InventoryErrorView::Json(e@),
        }
    }
}

impl InventoryError {
    /// The error as a message.
    pub fn to_string(&self) -> (r: String)
        ensures
            r@ == match self.deep_view() {
                InventoryErrorView::Io(e) => "io error: "@ + e,
                InventoryErrorView::Metadata(e) => "cargo metadata: "@ + e,
                InventoryErrorView::Json(e) => "json error: "@ + e,
            },
    {
        match self {
            InventoryError::Io(e) => "io error: ".to_string().concat(e),
            InventoryError::Metadata(e) => "cargo metadata: ".to_string().concat(e),
            InventoryError::Json(e) => "json error: ".to_string().concat(e),
        }
    }
}

/// Walk a directory tree for `.rs` files (skips `target/` and hidden entries).
pub fn walk_rust_files(platform: Platform, root: &str, entries: &Vec<TreeEntry>) -> (r: Vec<
    String,
>)
    ensures
        r.deep_view() == rust_files(platform, root@, entries@),
{
    list_rust_files(platform, root, entries)
}

/// Whether any line of a source is a test attribute.
pub open spec fn has_test_attr(source: Seq<char>) -> bool {
    exists|i: int| 0 <= i < lines_of(source).len() && test_attr_line(#[trigger] lines_of(source)[i])
}

/// Detect `#[test]` / `#[tokio::test]` style attributes (line-oriented).
pub fn source_has_test_attr(source: &str) -> (r: bool)
    ensures
        r == has_test_attr(source@),
{
    let text = chars_of(source);
    let all = lines(&text);
    let mut i: usize = 0;
    while i < all.len()
        invariant
            i <= all@.len(),
            all@.len() == lines_of(source@).len(),
            forall|k: int| 0 <= k < all@.len() ==> (#[trigger] all@[k])@ == lines_of(source@)[k],
            forall|k: int| 0 <= k < i ==> !test_attr_line(#[trigger] lines_of(source@)[k]),
        decreases all@.len() - i,
    {
        if is_test_attr_line(all[i]) {
            assert(test_attr_line(lines_of(source@)[i as int]));
            return true;
        }
        i += 1;
    }
    false
}

/// True if a package looks like it has unit or integration tests: a Rust file under `tests/`, or
/// a test attribute in its sources.
pub fn package_has_tests(test_files: &Vec<String>, sources: &Vec<String>) -> (r: bool)
    ensures
        r == (test_files@.len() > 0 || exists|i: int|
            0 <= i < sources@.len() && has_test_attr(#[trigger] sources.deep_view()[i])),
{
    if test_files.len() > 0 {
        return true;
    }
    let mut i: usize = 0;
    while i < sources.len()
        invariant
            i <= sources@.len(),
            forall|k: int| 0 <= k < i ==> !has_test_attr(#[trigger] sources.deep_view()[k]),
        decreases sources@.len() - i,
    {
        assert(sources.deep_view()[i as int] == sources@[i as int]@);
        if source_has_test_attr(&sources[i]) {
            return true;
        }
        i += 1;
    }
    false
}

/// A path with forward slashes, without the extended prefix `//?/`.
pub open spec fn display_path(path: Seq<char>) -> Seq<char> {
    let s = replaced(path, '\\', '/');
    match after_prefix(s, "//?/"@) {
        Some(rest) => rest,
        None => s,
    }
}

/// Display path with forward slashes; strip the extended prefix.
pub fn normalize_path_display(path: &str) -> (r: String)
    ensures
        r@ == display_path(path@),
{
    let s = replace_char(&chars_of(path), '\\', '/');
    match strip_prefix(&s, "//?/") {
        Some(rest) => {
            assert(rest.deep_view() =~= rest@);
            string_of(rest)
        },
        None => string_of(&s),
    }
}

/// A path below `root`, relative to it; otherwise the path as displayed. Where the texts differ,
/// they are compared once more without regard to the case of ASCII letters.
pub open spec fn relative_path(root: Seq<char>, path: Seq<char>) -> Seq<char> {
    let r = display_path(root);
    let p = display_path(path);
    let rel = match after_prefix(p, r) {
        Some(rest) => if without_leading(rest, '/').len() > 0 {
            without_leading(rest, '/')
        } else {
            p
        },
        None => p,
    };
    if rel == p && lowered(r).is_prefix_of(lowered(p)) {
        without_leading(p.skip(r.len() as int), '/')
    } else {
        rel
    }
}

/// A path relative to `root`.
pub fn path_relative(root: &str, path: &str) -> (r: String)
    ensures
        r@ == relative_path(root@, path@),
{
    let root_n = normalize_path_display(root);
    let path_n = normalize_path_display(path);
    let rc = chars_of(&root_n);
    let p = chars_of(&path_n);
    let rel: &[char] = match strip_prefix(&p, &root_n) {
        Some(rest) => {
            assert(rest.deep_view() =~= rest@);
            let t = trim_leading(rest, '/');
            if t.len() > 0 {
                t
            } else {
                &p
            }
        },
        None => &p,
    };
    if slices_same(rel, &p) {
        let root_l = string_of(&lowercase(&rc));
        let path_l = lowercase(&p);
        if strip_prefix(&path_l, &root_l).is_some() {
            let behind = &p[rc.len()..p.len()];
            assert(behind@ == p@.skip(rc@.len() as int));
            return string_of(trim_leading(behind, '/'));
        }
    }
    string_of(rel)
}

/// The root as an inventory shows it: `.` for the current directory.
pub fn display_root(abs_root: &str, current_dir: Option<&str>) -> (r: String)
    ensures
        r@ == match current_dir {
            Some(c) => if display_path(c@) == display_path(abs_root@) {
                "."@
            } else {
                display_path(abs_root@)
            },
            None => display_path(abs_root@),
        },
{
    let n = normalize_path_display(abs_root);
    match current_dir {
        Some(c) => {
            if same(&normalize_path_display(c), &n) {
                ".".to_string()
            } else {
                n
            }
        },
        None => n,
    }
}

/// A stamp of seconds since the Unix epoch.
pub fn now_stamp(unix_seconds: Option<u64>) -> (r: String)
    ensures
        r@ == match unix_seconds {
            Some(n) => decimal(n as nat) + "s-unix"@,
            None => "unknown"@,
        },
{
    match unix_seconds {
        Some(n) => number(n).concat("s-unix"),
        None => "unknown".to_string(),
    }
}

/// A workspace package as `cargo metadata` describes it.
#[derive(Debug, Clone)]
pub struct ProductPackage {
    pub name: String,
    pub root_dir: String,
    pub manifest_path: String,
    pub is_lib: bool,
    pub lib_src: Option<String>,
}

/// What a `ProductPackage` holds.
pub struct ProductView {
    pub name: Seq<char>,
    pub root_dir: Seq<char>,
    pub manifest_path: Seq<char>,
    pub is_lib: bool,
    pub lib_src: Option<Seq<char>>,
}

impl DeepView for ProductPackage {
    type V = ProductView;

    open spec fn deep_view(&self) -> ProductView {
        ProductView {
            name: self.name@,
            root_dir: self.root_dir@,
            manifest_path: self.manifest_path@,
            is_lib: self.is_lib,
            lib_src: self.lib_src.deep_view(),
        }
    }
}

impl Keyed for ProductPackage {
    open spec fn key_of(v: ProductView) -> Seq<Seq<char>> {
        seq![v.name]
    }

    fn may_precede(&self, other: &Self) -> (r: bool) {
        proof {
            reveal_with_fuel(key_le, 2);
        }
        rank_texts(&self.name, &other.name) != Rank::Greater
    }
}

/// Whether a list holds the text `w`.
pub open spec fn list_has(list: Seq<JsonView>, w: Seq<char>) -> bool {
    exists|i: int| 0 <= i < list.len() && (#[trigger] list[i]).text() == Some(w)
}

/// Whether a text of the list holds `w`.
pub open spec fn list_mentions(list: Seq<JsonView>, w: Seq<char>) -> bool {
    exists|i: int|
        0 <= i < list.len() && ((#[trigger] list[i]).text() matches Some(m) && occurs_in(w, m))
}

fn has_text(list: &Vec<Json>, w: &str) -> (r: bool)
    ensures
        r == list_has(list_contents(list@), w@),
{
    let ghost all = list_contents(list@);
    proof {
        lemma_list_contents(list@);
    }
    let mut i: usize = 0;
    while i < list.len()
        invariant
            i <= list@.len(),
            all.len() == list@.len(),
            all == list_contents(list@),
            forall|k: int| 0 <= k < list@.len() ==> (#[trigger] all[k]) == list@[k].contents(),
            forall|k: int| 0 <= k < i ==> (#[trigger] all[k]).text() != Some(w@),
        decreases list@.len() - i,
    {
        assert(all[i as int] == list@[i as int].contents());
        if let Some(s) = list[i].text() {
            if same(s, w) {
                return true;
            }
        }
        i += 1;
    }
    false
}

fn mentions_text(list: &Vec<Json>, w: &str) -> (r: bool)
    ensures
        r == list_mentions(list_contents(list@), w@),
{
    let ghost all = list_contents(list@);
    proof {
        lemma_list_contents(list@);
    }
    let mut i: usize = 0;
    while i < list.len()
        invariant
            i <= list@.len(),
            all.len() == list@.len(),
            all == list_contents(list@),
            forall|k: int| 0 <= k < list@.len() ==> (#[trigger] all[k]) == list@[k].contents(),
            forall|k: int|
                0 <= k < i ==> !((#[trigger] all[k]).text() matches Some(m) && occurs_in(w@, m)),
        decreases list@.len() - i,
    {
        assert(all[i as int] == list@[i as int].contents());
        if let Some(s) = list[i].text() {
            if contains_text(&chars_of(s), w) {
                return true;
            }
        }
        i += 1;
    }
    false
}

/// The text of a member, or nothing.
pub open spec fn member_text_or_empty(v: JsonView, key: Seq<char>) -> Seq<char> {
    match member_text(v, key) {
        Some(s) => s,
        None => Seq::empty(),
    }
}

fn read_text_or_empty(v: &Json, key: &str) -> (r: String)
    ensures
        r@ == member_text_or_empty(v.contents(), key@),
{
    match read_member_text(v, key) {
        Some(s) => s.clone(),
        None => String::new(),
    }
}

/// Whether a package belongs to the workspace: its id is a member's, or a member mentions its
/// name.
pub open spec fn is_member(members: Seq<JsonView>, pkg: JsonView) -> bool {
    list_has(members, member_text_or_empty(pkg, "id"@)) || list_mentions(
        members,
        member_text_or_empty(pkg, "name"@),
    )
}

/// Whether a target is a library.
pub open spec fn lib_target(target: JsonView) -> bool {
    match target.member("kind"@) {
        Some(JsonView::List(kinds)) => list_has(kinds, "lib"@),
        _ => false,
    }
}

/// Whether any target is a library, and the source path of the last one that has a path.
pub open spec fn lib_of(targets: Seq<JsonView>) -> (bool, Option<Seq<char>>)
    decreases targets.len(),
{
    if targets.len() == 0 {
        (false, None)
    } else {
        let rest = lib_of(targets.drop_last());
        if lib_target(targets.last()) {
            (
                true,
                match member_text(targets.last(), "src_path"@) {
                    Some(s) => Some(s),
                    None => rest.1,
                },
            )
        } else {
            rest
        }
    }
}

/// The targets of a package.
pub open spec fn targets_of(pkg: JsonView) -> Seq<JsonView> {
    match pkg.member("targets"@) {
        Some(JsonView::List(targets)) => targets,
        _ => Seq::empty(),
    }
}

fn read_lib(pkg: &Json) -> (r: (bool, Option<String>))
    ensures
        (r.0, r.1.deep_view()) == lib_of(targets_of(pkg.contents())),
{
    let mut is_lib = false;
    let mut lib_src: Option<String> = None;
    if let Some(Json::List(targets)) = pkg.member("targets") {
        let ghost all = list_contents(targets@);
        proof {
            lemma_list_contents(targets@);
            assert(all.take(0) == Seq::<JsonView>::empty());
        }
        let mut i: usize = 0;
        while i < targets.len()
            invariant
                i <= targets@.len(),
                all.len() == targets@.len(),
                forall|k: int|
                    0 <= k < targets@.len() ==> (#[trigger] all[k]) == targets@[k].contents(),
                (is_lib, lib_src.deep_view()) == lib_of(all.take(i as int)),
            decreases targets@.len() - i,
        {
            assert(all.take(i + 1).drop_last() == all.take(i as int));
            assert(all.take(i + 1).last() == targets@[i as int].contents());
            let lib = match targets[i].member("kind") {
                Some(Json::List(kinds)) => has_text(kinds, "lib"),
                _ => false,
            };
            if lib {
                is_lib = true;
                if let Some(src) = read_member_text(&targets[i], "src_path") {
                    lib_src = Some(src.clone());
                }
            }
            i += 1;
        }
        assert(all.take(all.len() as int) == all);
    }
    (is_lib, lib_src)
}

/// A package of the metadata, or what it lacks.
pub open spec fn product_of(platform: Platform, pkg: JsonView, root: Seq<char>) -> Result<
    ProductView,
    InventoryErrorView,
> {
    match member_text(pkg, "name"@) {
        None => Err(InventoryErrorView::Metadata("package without name"@)),
        Some(name) => match member_text(pkg, "manifest_path"@) {
            None => Err(InventoryErrorView::Metadata("package without manifest_path"@)),
            Some(manifest_path) => Ok(
                ProductView {
                    name,
                    root_dir: match path_parent(platform, manifest_path) {
                        Some(dir) => dir,
                        None => root,
                    },
                    manifest_path,
                    is_lib: lib_of(targets_of(pkg)).0,
                    lib_src: lib_of(targets_of(pkg)).1,
                },
            ),
        },
    }
}

fn read_product(platform: Platform, pkg: &Json, root: &str) -> (r: Result<
    ProductPackage,
    InventoryError,
>)
    ensures
        match r {
            Ok(p) => product_of(platform, pkg.contents(), root@) == Ok::<
                ProductView,
                InventoryErrorView,
            >(p.deep_view()),
            Err(e) => product_of(platform, pkg.contents(), root@) == Err::<
                ProductView,
                InventoryErrorView,
            >(e.deep_view()),
        },
{
    match read_member_text(pkg, "name") {
        None => Err(InventoryError::Metadata("package without name".to_string())),
        Some(name) => match read_member_text(pkg, "manifest_path") {
            None => Err(InventoryError::Metadata("package without manifest_path".to_string())),
            Some(manifest) => {
                let (is_lib, lib_src) = read_lib(pkg);
                Ok(
                    ProductPackage {
                        name: name.clone(),
                        root_dir: match parent_path(platform, manifest) {
                            Some(dir) => dir,
                            None => root.to_string(),
                        },
                        manifest_path: manifest.clone(),
                        is_lib,
                        lib_src,
                    },
                )
            },
        },
    }
}

/// The member packages of a list in its order, or the first error among them.
pub open spec fn products_of(
    platform: Platform,
    members: Seq<JsonView>,
    list: Seq<JsonView>,
    root: Seq<char>,
) -> Result<Seq<ProductView>, InventoryErrorView>
    decreases list.len(),
{
    if list.len() == 0 {
        Ok(Seq::empty())
    } else {
        match products_of(platform, members, list.drop_last(), root) {
            Err(e) => Err(e),
            Ok(all) => if is_member(members, list.last()) {
                match product_of(platform, list.last(), root) {
                    Err(e) => Err(e),
                    Ok(p) => Ok(all.push(p)),
                }
            } else {
                Ok(all)
            },
        }
    }
}

proof fn lemma_first_product_error(
    platform: Platform,
    members: Seq<JsonView>,
    list: Seq<JsonView>,
    root: Seq<char>,
    n: int,
)
    requires
        0 <= n <= list.len(),
        products_of(platform, members, list.take(n), root) is Err,
    ensures
        products_of(platform, members, list, root) == products_of(platform, members, list.take(n), root),
    decreases list.len(),
{
    if n == list.len() {
        assert(list.take(n) == list);
    } else {
        assert(list.drop_last().take(n) == list.take(n));
        lemma_first_product_error(platform, members, list.drop_last(), root, n);
    }
}

/// The workspace packages of a `cargo metadata` document, by name.
pub open spec fn metadata_products(platform: Platform, meta: JsonView, root: Seq<char>) -> Result<
    Seq<ProductView>,
    InventoryErrorView,
> {
    match meta.member("workspace_members"@) {
        Some(JsonView::List(members)) => match meta.member("packages"@) {
            Some(JsonView::List(list)) => match products_of(platform, members, list, root) {
                Ok(all) => Ok(sorted_by(all, |p: ProductView| seq![p.name])),
                Err(e) => Err(e),
            },
            _ => Err(InventoryErrorView::Metadata("missing packages"@)),
        },
        _ => Err(InventoryErrorView::Metadata("missing workspace_members"@)),
    }
}

/// What an outcome holds.
pub open spec fn products_view(r: Result<Vec<ProductPackage>, InventoryError>) -> Result<
    Seq<ProductView>,
    InventoryErrorView,
> {
    match r {
        Ok(v) => Ok(v.deep_view()),
        Err(e) => Err(e.deep_view()),
    }
}

/// The workspace packages of a parsed `cargo metadata` document, by name.
pub fn products_from_metadata(platform: Platform, meta: &Json, root: &str) -> (r: Result<
    Vec<ProductPackage>,
    InventoryError,
>)
    ensures
        products_view(r) == metadata_products(platform, meta.contents(), root@),
{
    let members = match meta.member("workspace_members") {
        Some(Json::List(members)) => members,
        _ => {
            return Err(InventoryError::Metadata("missing workspace_members".to_string()));
        },
    };
    let list = match meta.member("packages") {
        Some(Json::List(list)) => list,
        _ => {
            return Err(InventoryError::Metadata("missing packages".to_string()));
        },
    };
    let ghost all = list_contents(list@);
    let ghost ms = list_contents(members@);
    proof {
        lemma_list_contents(list@);
        assert(all.take(0) == Seq::<JsonView>::empty());
    }
    let mut out: Vec<ProductPackage> = Vec::new();
    let mut i: usize = 0;
    assert(out.deep_view() =~= Seq::<ProductView>::empty());
    while i < list.len()
        invariant
            i <= list@.len(),
            all == list_contents(list@),
            ms == list_contents(members@),
            metadata_products(platform, meta.contents(), root@) == match products_of(platform, ms, all, root@) {
                Ok(s) => Ok(sorted_by(s, |p: ProductView| seq![p.name])),
                Err(e) => Err(e),
            },
            all.len() == list@.len(),
            forall|k: int|
                0 <= k < list@.len() ==> (#[trigger] all[k]) == list@[k].contents(),
            products_of(platform, ms, all.take(i as int), root@) == Ok::<
                Seq<ProductView>,
                InventoryErrorView,
            >(out.deep_view()),
        decreases list@.len() - i,
    {
        assert(all.take(i + 1).drop_last() == all.take(i as int));
        assert(all.take(i + 1).last() == all[i as int]);
        let pkg = &list[i];
        let id = read_text_or_empty(pkg, "id");
        let name = read_text_or_empty(pkg, "name");
        if has_text(members, &id) || mentions_text(members, &name) {
            match read_product(platform, pkg, root) {
                Ok(p) => {
                    let ghost before = out.deep_view();
                    let ghost view = p.deep_view();
                    out.push(p);
                    assert(out.deep_view() =~= before.push(view));
                },
                Err(e) => {
                    proof {
                        lemma_first_product_error(platform, ms, all, root@, i + 1);
                    }
                    return Err(e);
                },
            }
        }
        i += 1;
    }
    proof {
        assert(all.take(all.len() as int) == all);
        let a = |x: ProductView| ProductPackage::key_of(x);
        let b = |p: ProductView| seq![p.name];
        assert(a =~= b);
    }
    Ok(sort(out))
}

/// The workspace packages of what `cargo metadata` printed, by name.
pub fn workspace_packages(platform: Platform, stdout: &[u8], root: &str) -> (r: Result<
    Vec<ProductPackage>,
    InventoryError,
>)
    ensures
        products_view(r) == match json_parsed(stdout@) {
            Ok(meta) => metadata_products(platform, meta, root@),
            Err(e) => Err(InventoryErrorView::Json(e)),
        },
{
    match parse_json(stdout) {
        Ok(meta) => products_from_metadata(platform, &meta, root),
        Err(e) => Err(InventoryError::Json(e)),
    }
}

/// The directory in which the sources of a library lie.
pub fn source_root(platform: Platform, pkg: &ProductPackage) -> (r: String)
    ensures
        r@ == match pkg.lib_src {
            Some(s) => match path_parent(platform, s@) {
                Some(dir) => dir,
                None => path_join(platform, pkg.root_dir@, "src"@),
            },
            None => path_join(platform, pkg.root_dir@, "src"@),
        },
{
    if let Some(s) = &pkg.lib_src {
        if let Some(dir) = parent_path(platform, s) {
            return dir;
        }
    }
    join_path(platform, &pkg.root_dir, "src")
}

/// A source file that was read.
#[derive(Debug, Clone)]
pub struct SourceFile {
    pub path: String,
    pub text: String,
}

/// What a `SourceFile` holds.
pub struct SourceView {
    pub path: Seq<char>,
    pub text: Seq<char>,
}

impl DeepView for SourceFile {
    type V = SourceView;

    open spec fn deep_view(&self) -> SourceView {
        SourceView { path: self.path@, text: self.text@ }
    }
}

/// A package with what was found on disk.
#[derive(Debug, Clone)]
pub struct ScannedPackage {
    pub package: ProductPackage,
    pub has_tests: bool,
    /// The sources of the library, in path order.
    pub sources: Vec<SourceFile>,
}

/// What a `ScannedPackage` holds.
pub struct ScannedView {
    pub package: ProductView,
    pub has_tests: bool,
    pub sources: Seq<SourceView>,
}

impl DeepView for ScannedPackage {
    type V = ScannedView;

    open spec fn deep_view(&self) -> ScannedView {
        ScannedView {
            package: self.package.deep_view(),
            has_tests: self.has_tests,
            sources: self.sources.deep_view(),
        }
    }
}

/// The items of some sources, in their order.
pub open spec fn items_of_sources(
    root: Seq<char>,
    crate_name: Seq<char>,
    sources: Seq<SourceView>,
) -> Seq<ItemView>
    decreases sources.len(),
{
    if sources.len() == 0 {
        Seq::empty()
    } else {
        items_of_sources(root, crate_name, sources.drop_last()) + public_items(
            sources.last().text,
            crate_name,
            relative_path(root, sources.last().path),
        )
    }
}

/// The items of a package: those of its sources where it is a library.
pub open spec fn items_of_package(root: Seq<char>, p: ScannedView) -> Seq<ItemView> {
    if p.package.is_lib {
        items_of_sources(root, p.package.name, p.sources)
    } else {
        Seq::empty()
    }
}

/// The number of unrestricted `pub` items.
pub open spec fn public_count(items: Seq<ItemView>) -> nat
    decreases items.len(),
{
    if items.len() == 0 {
        0
    } else {
        public_count(items.drop_last()) + (if items.last().visibility is Pub {
            1nat
        } else {
            0
        })
    }
}

/// The items of some packages, in their order.
pub open spec fn items_of_packages(root: Seq<char>, packages: Seq<ScannedView>) -> Seq<ItemView>
    decreases packages.len(),
{
    if packages.len() == 0 {
        Seq::empty()
    } else {
        items_of_packages(root, packages.drop_last()) + items_of_package(root, packages.last())
    }
}

/// The rollup of a package.
pub open spec fn summary_of(root: Seq<char>, p: ScannedView) -> PackageView {
    PackageView {
        name: p.package.name,
        manifest_path: relative_path(root, p.package.manifest_path),
        is_lib: p.package.is_lib,
        has_tests: p.has_tests,
        public_item_count: public_count(items_of_package(root, p)) as usize,
    }
}

impl Keyed for InventoryItem {
    open spec fn key_of(v: ItemView) -> Seq<Seq<char>> {
        seq![v.crate_name, v.path, v.item]
    }

    fn may_precede(&self, other: &Self) -> (r: bool) {
        proof {
            let (a, b) = (Self::key_of(self.deep_view()), Self::key_of(other.deep_view()));
            reveal_with_fuel(key_le, 4);
            assert(a.skip(1) == seq![self.path@, self.item@]);
            assert(a.skip(1).skip(1) == seq![self.item@]);
            assert(b.skip(1) == seq![other.path@, other.item@]);
            assert(b.skip(1).skip(1) == seq![other.item@]);
            assert(a.skip(1).skip(1).skip(1).len() == 0);
        }
        match rank_texts(&self.crate_name, &other.crate_name) {
            Rank::Less => true,
            Rank::Greater => false,
            Rank::Same => match rank_texts(&self.path, &other.path) {
                Rank::Less => true,
                Rank::Greater => false,
                Rank::Same => rank_texts(&self.item, &other.item) != Rank::Greater,
            },
        }
    }
}

impl Keyed for PackageSummary {
    open spec fn key_of(v: PackageView) -> Seq<Seq<char>> {
        seq![v.name]
    }

    fn may_precede(&self, other: &Self) -> (r: bool) {
        proof {
            reveal_with_fuel(key_le, 2);
        }
        rank_texts(&self.name, &other.name) != Rank::Greater
    }
}

fn append_items(out: &mut Vec<InventoryItem>, more: Vec<InventoryItem>)
    ensures
        final(out).deep_view() == old(out).deep_view() + more.deep_view(),
{
    let mut more = more;
    let ghost a = out.deep_view();
    let ghost b = more.deep_view();
    out.append(&mut more);
    assert(out.deep_view() =~= a + b);
}

fn count_public(items: &Vec<InventoryItem>) -> (r: usize)
    ensures
        r == public_count(items.deep_view()),
{
    let ghost all = items.deep_view();
    let mut n: usize = 0;
    let mut i: usize = 0;
    assert(all.take(0) == Seq::<ItemView>::empty());
    while i < items.len()
        invariant
            i <= items@.len(),
            all == items.deep_view(),
            n <= i,
            n == public_count(all.take(i as int)),
        decreases items@.len() - i,
    {
        assert(all.take(i + 1).drop_last() == all.take(i as int));
        assert(all[i as int] == items@[i as int].deep_view());
        if items[i].visibility.is_public_api() {
            n += 1;
        }
        i += 1;
    }
    assert(all.take(all.len() as int) == all);
    n
}

fn scan_package(root: &str, p: &ScannedPackage) -> (r: Vec<InventoryItem>)
    requires
        forall|k: int|
            0 <= k < p.sources@.len() ==> lines_of((#[trigger] p.sources@[k]).text@).len()
                <= u32::MAX,
    ensures
        r.deep_view() == items_of_package(root@, p.deep_view()),
{
    let mut out: Vec<InventoryItem> = Vec::new();
    assert(out.deep_view() =~= Seq::<ItemView>::empty());
    if p.package.is_lib {
        let ghost all = p.sources.deep_view();
        let mut i: usize = 0;
        assert(all.take(0) == Seq::<SourceView>::empty());
        while i < p.sources.len()
            invariant
                i <= p.sources@.len(),
                all == p.sources.deep_view(),
                forall|k: int|
                    0 <= k < p.sources@.len() ==> lines_of(
                        (#[trigger] p.sources@[k]).text@,
                    ).len() <= u32::MAX,
                out.deep_view() == items_of_sources(
                    root@,
                    p.package.name@,
                    all.take(i as int),
                ),
            decreases p.sources@.len() - i,
        {
            assert(all.take(i + 1).drop_last() == all.take(i as int));
            assert(all[i as int] == p.sources@[i as int].deep_view());
            let rel = path_relative(root, &p.sources[i].path);
            let found = parse_public_items(&p.sources[i].text, &p.package.name, &rel);
            append_items(&mut out, found);
            i += 1;
        }
        assert(all.take(all.len() as int) == all);
    }
    out
}

/// The inventory of a workspace that was scanned: the items of its libraries, ordered by crate,
/// path and name, and the rollups of its packages, ordered by name.
///
/// Line numbers are 32-bit, so no source may have more lines than they can count.
pub fn inventory_workspace(
    abs_root: &str,
    shown_root: String,
    generated_at: String,
    packages: &Vec<ScannedPackage>,
) -> (r: Inventory)
    requires
        forall|i: int, k: int|
            0 <= i < packages@.len() && 0 <= k < packages@[i].sources@.len() ==> lines_of(
                (#[trigger] packages@[i].sources@[k]).text@,
            ).len() <= u32::MAX,
    ensures
        r.deep_view() == (InventoryView {
            schema_version: 1,
            workspace_root: shown_root@,
            generated_at: generated_at@,
            items: sorted_by(
                items_of_packages(abs_root@, packages.deep_view()),
                |i: ItemView| seq![i.crate_name, i.path, i.item],
            ),
            packages: sorted_by(
                packages.deep_view().map_values(|p: ScannedView| summary_of(abs_root@, p)),
                |p: PackageView| seq![p.name],
            ),
        }),
{
    let ghost all = packages.deep_view();
    let ghost summarize = |p: ScannedView| summary_of(abs_root@, p);
    let mut items: Vec<InventoryItem> = Vec::new();
    let mut summaries: Vec<PackageSummary> = Vec::new();
    let mut i: usize = 0;
    assert(all.take(0) == Seq::<ScannedView>::empty());
    assert(items.deep_view() =~= Seq::<ItemView>::empty());
    while i < packages.len()
        invariant
            i <= packages@.len(),
            all == packages.deep_view(),
            forall|i: int, k: int|
                0 <= i < packages@.len() && 0 <= k < packages@[i].sources@.len() ==> lines_of(
                    (#[trigger] packages@[i].sources@[k]).text@,
                ).len() <= u32::MAX,
            items.deep_view() == items_of_packages(abs_root@, all.take(i as int)),
            summaries@.len() == i,
            forall|k: int|
                0 <= k < i ==> (#[trigger] summaries@[k]).deep_view() == summary_of(
                    abs_root@,
                    all[k],
                ),
        decreases packages@.len() - i,
    {
        assert(all.take(i + 1).drop_last() == all.take(i as int));
        let p = &packages[i];
        assert(all[i as int] == p.deep_view());
        let found = scan_package(abs_root, p);
        let count = count_public(&found);
        append_items(&mut items, found);
        summaries.push(
            PackageSummary {
                name: p.package.name.clone(),
                manifest_path: path_relative(abs_root, &p.package.manifest_path),
                is_lib: p.package.is_lib,
                has_tests: p.has_tests,
                public_item_count: count,
            },
        );
        i += 1;
    }
    proof {
        assert(all.take(all.len() as int) == all);
        assert(summaries.deep_view() =~= all.map_values(summarize));
        let a = |x: ItemView| InventoryItem::key_of(x);
        let b = |i: ItemView| seq![i.crate_name, i.path, i.item];
        assert(a =~= b);
        let c = |x: PackageView| PackageSummary::key_of(x);
        let d = |p: PackageView| seq![p.name];
        assert(c =~= d);
    }
    Inventory {
        schema_version: 1,
        workspace_root: shown_root,
        generated_at,
        items: sort(items),
        packages: sort(summaries),
    }
}

/// A displayed path has forward slashes only, whichever it was written with, and has lost its
/// extended prefix.
pub proof fn law_paths_are_shown_with_slashes(path: Seq<char>)
    ensures
        !display_path(path).contains('\\'),
        display_path(replaced(path, '\\', '/')) == display_path(path),
        display_path("//?/"@ + path) == replaced(path, '\\', '/'),
        !"//?/"@.is_prefix_of(replaced(path, '\\', '/')) ==> display_path(path) == replaced(
            path,
            '\\',
            '/',
        ),
{
    reveal_strlit("//?/");
    let s = replaced(path, '\\', '/');
    assert(replaced(s, '\\', '/') =~= s);
    let long = replaced("//?/"@ + path, '\\', '/');
    assert(long =~= "//?/"@ + s);
    assert(long.subrange(0, 4) =~= "//?/"@);
    assert(long.skip(4) =~= s);
}

/// A path below the root is shown by what follows the root, whatever the case of its letters; a path
/// elsewhere is shown whole.
pub proof fn law_path_is_relative_to_its_root(
    root: Seq<char>,
    path: Seq<char>,
    start: Seq<char>,
    rel: Seq<char>,
)
    requires
        rel.len() > 0 && rel[0] != '/',
        lowered(start) == lowered(display_path(root)),
    ensures
        display_path(path) == start + seq!['/'] + rel ==> relative_path(root, path) == rel,
        !lowered(display_path(root)).is_prefix_of(lowered(display_path(path))) ==> relative_path(
            root,
            path,
        ) == display_path(path),
{
    let r = display_path(root);
    let p = display_path(path);
    assert(lowered(start).len() == start.len());
    assert(lowered(r).len() == r.len());
    assert(without_leading(rel, '/') == rel);
    let tail = seq!['/'] + rel;
    assert(tail.skip(1) =~= rel);
    assert(without_leading(tail, '/') == rel);
    if r.is_prefix_of(p) {
        assert(lowered(p).subrange(0, r.len() as int) =~= lowered(r)) by {
            assert forall|i: int| 0 <= i < r.len() implies lowered(p)[i] == lowered(r)[i] by {
                assert(p.subrange(0, r.len() as int)[i] == p[i]);
            }
        }
        assert(lowered(r).is_prefix_of(lowered(p)));
    }
    if p == start + seq!['/'] + rel {
        assert(p.skip(r.len() as int) =~= tail);
        assert(lowered(p).subrange(0, r.len() as int) =~= lowered(start));
        assert(lowered(r).is_prefix_of(lowered(p)));
    }
}

/// A source has a test exactly where one of its lines does.
pub proof fn law_source_has_the_tests_of_its_lines(line: Seq<char>, rest: Seq<char>)
    requires
        !line.contains('\n'),
        line.len() == 0 || line.last() != '\r',
    ensures
        has_test_attr(line + seq!['\n'] + rest) <==> test_attr_line(line) || has_test_attr(rest),
        !has_test_attr(Seq::empty()),
{
    law_lines_end_at_line_feeds(line, rest);
    let s = line + seq!['\n'] + rest;
    let all = lines_of(s);
    let behind = lines_of(rest);
    assert(all =~= seq![line] + behind);
    if has_test_attr(s) {
        let i = choose|i: int| 0 <= i < all.len() && test_attr_line(#[trigger] all[i]);
        if i > 0 {
            assert(behind[i - 1] == all[i]);
        }
    }
    if test_attr_line(line) {
        assert(all[0] == line);
    }
    if has_test_attr(rest) {
        let i = choose|i: int| 0 <= i < behind.len() && test_attr_line(#[trigger] behind[i]);
        assert(all[i + 1] == behind[i]);
    }
}

/// A package is a library exactly where one of its targets is, and its source is that of the last
/// such target that names one.
pub proof fn law_library_is_found_among_targets(targets: Seq<JsonView>)
    ensures
        lib_of(targets).0 <==> exists|i: int|
            0 <= i < targets.len() && lib_target(#[trigger] targets[i]),
        match lib_of(targets).1 {
            Some(src) => exists|i: int|
                {
                    &&& 0 <= i < targets.len()
                    &&& lib_target(#[trigger] targets[i])
                    &&& member_text(targets[i], "src_path"@) == Some(src)
                    &&& forall|j: int|
                        i < j < targets.len() && lib_target(#[trigger] targets[j]) ==> member_text(
                            targets[j],
                            "src_path"@,
                        ) is None
                },
            None => forall|j: int|
                0 <= j < targets.len() && lib_target(#[trigger] targets[j]) ==> member_text(
                    targets[j],
                    "src_path"@,
                ) is None,
        },
    decreases targets.len(),
{
    if targets.len() > 0 {
        let head = targets.drop_last();
        let n = targets.len() - 1;
        law_library_is_found_among_targets(head);
        assert(targets[n] == targets.last());
        assert(forall|j: int| 0 <= j < n ==> #[trigger] targets[j] == head[j]);
        if lib_of(head).0 {
            let i = choose|i: int| 0 <= i < head.len() && lib_target(#[trigger] head[i]);
            assert(lib_target(targets[i]));
        }
        let named = lib_target(targets.last()) && member_text(targets.last(), "src_path"@) is Some;
        if !named {
            if let Some(src) = lib_of(head).1 {
                let i = choose|i: int|
                    {
                        &&& 0 <= i < head.len()
                        &&& lib_target(#[trigger] head[i])
                        &&& member_text(head[i], "src_path"@) == Some(src)
                        &&& forall|j: int|
                            i < j < head.len() && lib_target(#[trigger] head[j]) ==> member_text(
                                head[j],
                                "src_path"@,
                            ) is None
                    };
                assert(lib_target(targets[i]));
                assert forall|j: int|
                    i < j < targets.len() && lib_target(#[trigger] targets[j]) implies member_text(
                    targets[j],
                    "src_path"@,
                ) is None by {
                    if j < n {
                        assert(targets[j] == head[j]);
                    }
                }
            }
        }
    }
}

/// The packages of a workspace are its members, each once and in the order of the metadata, as soon
/// as every member has a name and a manifest; else the first that lacks one is an error.
pub proof fn law_members_are_the_packages(
    platform: Platform,
    members: Seq<JsonView>,
    list: Seq<JsonView>,
    root: Seq<char>,
)
    ensures
        match products_of(platform, members, list, root) {
            Ok(all) => {
                &&& all.map_values(|p: ProductView| p.name) == list.filter(
                    |pkg: JsonView| is_member(members, pkg),
                ).map_values(|pkg: JsonView| member_text_or_empty(pkg, "name"@))
                &&& all.map_values(|p: ProductView| p.manifest_path) == list.filter(
                    |pkg: JsonView| is_member(members, pkg),
                ).map_values(|pkg: JsonView| member_text_or_empty(pkg, "manifest_path"@))
                &&& forall|i: int|
                    0 <= i < list.len() && is_member(members, #[trigger] list[i]) ==> member_text(
                        list[i],
                        "name"@,
                    ) is Some && member_text(list[i], "manifest_path"@) is Some
            },
            Err(_) => exists|i: int|
                0 <= i < list.len() && is_member(members, #[trigger] list[i]) && (member_text(
                    list[i],
                    "name"@,
                ) is None || member_text(list[i], "manifest_path"@) is None),
        },
    decreases list.len(),
{
    reveal(Seq::filter);
    let belongs = |pkg: JsonView| is_member(members, pkg);
    let name = |pkg: JsonView| member_text_or_empty(pkg, "name"@);
    let manifest = |pkg: JsonView| member_text_or_empty(pkg, "manifest_path"@);
    let own_name = |p: ProductView| p.name;
    let own_manifest = |p: ProductView| p.manifest_path;
    if list.len() == 0 {
        let none = Seq::<ProductView>::empty();
        assert(none.map_values(own_name) =~= list.filter(belongs).map_values(name));
        assert(none.map_values(own_manifest) =~= list.filter(belongs).map_values(manifest));
    } else {
        let head = list.drop_last();
        let n = list.len() - 1;
        law_members_are_the_packages(platform, members, head, root);
        assert(forall|j: int| 0 <= j < n ==> #[trigger] list[j] == head[j]);
        assert(list[n] == list.last());
        match products_of(platform, members, head, root) {
            Err(_) => {
                let i = choose|i: int|
                    0 <= i < head.len() && is_member(members, #[trigger] head[i]) && (member_text(
                        head[i],
                        "name"@,
                    ) is None || member_text(head[i], "manifest_path"@) is None);
                assert(list[i] == head[i]);
            },
            Ok(all) => {
                if is_member(members, list.last()) {
                    if let Ok(p) = product_of(platform, list.last(), root) {
                        let kept = head.filter(belongs);
                        assert(list.filter(belongs) =~= kept.push(list.last()));
                        assert(all.push(p).map_values(own_name) =~= all.map_values(own_name).push(
                            p.name,
                        ));
                        assert(kept.push(list.last()).map_values(name) =~= kept.map_values(
                            name,
                        ).push(name(list.last())));
                        assert(all.push(p).map_values(own_manifest) =~= all.map_values(
                            own_manifest,
                        ).push(p.manifest_path));
                        assert(kept.push(list.last()).map_values(manifest) =~= kept.map_values(
                            manifest,
                        ).push(manifest(list.last())));
                    }
                } else {
                    assert(list.filter(belongs) =~= head.filter(belongs));
                }
            },
        }
    }
}

/// A package lies where its manifest lies.
pub proof fn law_package_lies_by_its_manifest(platform: Platform, pkg: JsonView, root: Seq<char>)
    ensures
        product_of(platform, pkg, root) matches Ok(p) ==> (path_parent(
            platform,
            p.manifest_path,
        ) matches Some(dir) ==> p.root_dir == dir),
        product_of(platform, pkg, root) matches Ok(p) ==> (path_parent(
            platform,
            p.manifest_path,
        ) is None ==> p.root_dir == root),
        product_of(platform, pkg, root) matches Ok(p) ==> (p.is_lib <==> exists|i: int|
            0 <= i < targets_of(pkg).len() && lib_target(#[trigger] targets_of(pkg)[i])),
{
    law_library_is_found_among_targets(targets_of(pkg));
}

/// A package belongs to a workspace where a member has its id or mentions its name, and a workspace
/// without members has no packages.
pub proof fn law_membership(members: Seq<JsonView>, pkg: JsonView, i: int)
    requires
        0 <= i < members.len(),
    ensures
        members[i].text() is Some && members[i].text() == member_text(pkg, "id"@) ==> is_member(
            members,
            pkg,
        ),
        (members[i].text() matches Some(m) && member_text(pkg, "name"@) matches Some(name)
            && occurs_in(name, m)) ==> is_member(members, pkg),
        !is_member(Seq::empty(), pkg),
{
}

/// The packages of a workspace come by name, each of them once.
pub proof fn law_packages_come_by_name(platform: Platform, meta: JsonView, root: Seq<char>)
    ensures
        metadata_products(platform, meta, root) matches Ok(all) ==> keys_ascend(
            all,
            |p: ProductView| seq![p.name],
        ),
        match (meta.member("workspace_members"@), meta.member("packages"@)) {
            (Some(JsonView::List(members)), Some(JsonView::List(list))) => match (
                products_of(platform, members, list, root),
                metadata_products(platform, meta, root),
            ) {
                (Ok(found), Ok(all)) => all.to_multiset() == found.to_multiset(),
                (Err(e), Err(f)) => e == f,
                _ => false,
            },
            _ => metadata_products(platform, meta, root) is Err,
        },
{
    if let (Some(JsonView::List(members)), Some(JsonView::List(list))) = (
        meta.member("workspace_members"@),
        meta.member("packages"@),
    ) {
        if let Ok(found) = products_of(platform, members, list, root) {
            law_sorted(found, |p: ProductView| seq![p.name]);
        }
    }
}

/// Sources are read one after another.
pub proof fn law_items_of_sources_add_up(
    root: Seq<char>,
    crate_name: Seq<char>,
    a: Seq<SourceView>,
    b: Seq<SourceView>,
)
    ensures
        items_of_sources(root, crate_name, a + b) == items_of_sources(root, crate_name, a)
            + items_of_sources(root, crate_name, b),
    decreases b.len(),
{
    let of_a = items_of_sources(root, crate_name, a);
    if b.len() == 0 {
        assert(a + b =~= a);
        assert(items_of_sources(root, crate_name, b) == Seq::<ItemView>::empty());
        assert(of_a + Seq::<ItemView>::empty() =~= of_a);
    } else {
        law_items_of_sources_add_up(root, crate_name, a, b.drop_last());
        assert((a + b).drop_last() =~= a + b.drop_last());
        let last = b.last();
        let own = public_items(last.text, crate_name, relative_path(root, last.path));
        let before = items_of_sources(root, crate_name, b.drop_last());
        assert(items_of_sources(root, crate_name, b) == before + own);
        assert(items_of_sources(root, crate_name, a + b) == (of_a + before) + own);
        assert((of_a + before) + own =~= of_a + (before + own));
    }
}

/// The items of a source are found in its text, under the path relative to the root.
pub proof fn law_source_brings_its_items(root: Seq<char>, crate_name: Seq<char>, s: SourceView)
    ensures
        items_of_sources(root, crate_name, seq![s]) == public_items(
            s.text,
            crate_name,
            relative_path(root, s.path),
        ),
{
    let one = seq![s];
    let own = public_items(s.text, crate_name, relative_path(root, s.path));
    assert(one.drop_last() =~= Seq::<SourceView>::empty());
    assert(items_of_sources(root, crate_name, Seq::empty()) == Seq::<ItemView>::empty());
    assert(items_of_sources(root, crate_name, one) == Seq::<ItemView>::empty() + own);
    assert(Seq::<ItemView>::empty() + own =~= own);
}

/// Packages are read one after another, and only libraries have items.
pub proof fn law_items_of_packages_add_up(
    root: Seq<char>,
    a: Seq<ScannedView>,
    b: Seq<ScannedView>,
    p: ScannedView,
)
    ensures
        items_of_packages(root, a + b) == items_of_packages(root, a) + items_of_packages(root, b),
        !p.package.is_lib ==> items_of_packages(root, seq![p]).len() == 0,
        p.package.is_lib ==> items_of_packages(root, seq![p]) == items_of_sources(
            root,
            p.package.name,
            p.sources,
        ),
    decreases b.len(),
{
    reveal_with_fuel(items_of_packages, 2);
    assert(seq![p].drop_last() =~= Seq::<ScannedView>::empty());
    assert(items_of_packages(root, seq![p]) =~= items_of_package(root, p));
    let f = |x: Seq<ScannedView>| items_of_packages(root, x);
    if b.len() == 0 {
        assert(a + b =~= a);
        assert(f(a) + f(b) =~= f(a));
    } else {
        law_items_of_packages_add_up(root, a, b.drop_last(), p);
        assert((a + b).drop_last() =~= a + b.drop_last());
        assert(f(a + b) =~= f(a) + f(b));
    }
}

/// What counts of a package is its items without restriction.
pub proof fn law_unrestricted_items_count(items: Seq<ItemView>)
    ensures
        public_count(items) == items.filter(|i: ItemView| i.visibility is Pub).len(),
        public_count(items) <= items.len(),
    decreases items.len(),
{
    reveal(Seq::filter);
    if items.len() > 0 {
        law_unrestricted_items_count(items.drop_last());
    }
}

/// The rollup of a package tells what was found of it; one that is no library has no public items.
pub proof fn law_rollup_tells_the_package(root: Seq<char>, p: ScannedView)
    ensures
        summary_of(root, p).name == p.package.name,
        summary_of(root, p).is_lib == p.package.is_lib,
        summary_of(root, p).has_tests == p.has_tests,
        summary_of(root, p).manifest_path == relative_path(root, p.package.manifest_path),
        !p.package.is_lib ==> summary_of(root, p).public_item_count == 0,
        p.package.is_lib && items_of_sources(root, p.package.name, p.sources).len() <= usize::MAX
            ==> summary_of(root, p).public_item_count == items_of_sources(
            root,
            p.package.name,
            p.sources,
        ).filter(|i: ItemView| i.visibility is Pub).len(),
{
    law_unrestricted_items_count(items_of_package(root, p));
}

} // verus!
