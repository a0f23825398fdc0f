//! Inventory document types.

use vstd::prelude::*;
use crate::text::{
    chars_of, law_trimming_takes_white_space_only, slice_is, string_of, trim, trimmed,
};

verus! {

/// Root document of an inventory.
#[derive(Debug, Clone, PartialEq, Eq)]
pub struct Inventory {
    /// Format version for consumers.
    pub schema_version: u32,
    /// Root that was scanned, or `.` for the current directory.
    pub workspace_root: String,
    /// When the inventory was produced.
    pub generated_at: String,
    /// One entry per public item across library crates.
    pub items: Vec<InventoryItem>,
    /// Per-package rollup (test presence, item counts).
    pub packages: Vec<PackageSummary>,
}

/// What an `Inventory` holds.
pub struct InventoryView {
    pub schema_version: u32,
    pub workspace_root: Seq<char>,
    pub generated_at: Seq<char>,
    pub items: Seq<ItemView>,
    pub packages: Seq<PackageView>,
}

impl DeepView for Inventory {
    type V = InventoryView;

    open spec fn deep_view(&self) -> InventoryView {
        InventoryView {
            schema_version: self.schema_version,
            workspace_root: self.workspace_root@,
            generated_at: self.generated_at@,
            items: self.items.deep_view(),
            packages: self.packages.deep_view(),
        }
    }
}

/// A single public item discovered by the source walk.
#[derive(Debug, Clone, PartialEq, Eq)]
pub struct InventoryItem {
    /// Cargo package name (e.g. `remotelink-auth`).
    pub crate_name: String,
    /// Source path relative to the workspace root (forward slashes).
    pub path: String,
    /// Item name within the file, qualified by its type (e.g. `DevicePublicId::parse`).
    pub item: String,
    /// Kind of item (`fn`, `struct`, `enum`, …).
    pub kind: ItemKind,
    /// Visibility (`pub`, `pub(crate)`, …).
    pub visibility: Visibility,
    /// 1-based line number in `path`, if known.
    pub line: Option<u32>,
}

/// What an `InventoryItem` holds.
pub struct ItemView {
    pub crate_name: Seq<char>,
    pub path: Seq<char>,
    pub item: Seq<char>,
    pub kind: ItemKind,
    pub visibility: VisibilityView,
    pub line: Option<u32>,
}

impl DeepView for InventoryItem {
    type V = ItemView;

    open spec fn deep_view(&self) -> ItemView {
        ItemView {
            crate_name: self.crate_name@,
            path: self.path@,
            item: self.item@,
            kind: self.kind,
            visibility: self.visibility.deep_view(),
            line: self.line,
        }
    }
}

/// Classification of a public item.
#[derive(Debug, Clone, Copy, PartialEq, Eq, Structural)]
pub enum ItemKind {
    /// `fn`
    Fn,
    /// `struct`
    Struct,
    /// `enum`
    Enum,
    /// `trait`
    Trait,
    /// `type` alias
    Type,
    /// `const`
    Const,
    /// `static`
    Static,
    /// `mod`
    Mod,
    /// `use` re-export
    Use,
    /// `macro_rules!` or `macro`
    Macro,
}

impl DeepView for ItemKind {
    type V = ItemKind;

    open spec fn deep_view(&self) -> ItemKind {
        *self
    }
}

/// Visibility of a discovered item.
#[derive(Debug, Clone, PartialEq, Eq)]
pub enum Visibility {
    /// Fully public (`pub`).
    Pub,
    /// Restricted (`pub(crate)`, `pub(super)`, `pub(in path)`).
    Restricted(String),
}

/// What a `Visibility` says.
pub enum VisibilityView {
    Pub,
    Restricted(Seq<char>),
}

impl DeepView for Visibility {
    type V = VisibilityView;

    open spec fn deep_view(&self) -> VisibilityView {
        match self {
            Visibility::Pub => VisibilityView::Pub,
            Visibility::Restricted(s) => VisibilityView::Restricted(s@),
        }
    }
}

impl VisibilityView {
    /// The visibility that a keyword prefix stands for.
    pub open spec fn of(vis: Seq<char>) -> VisibilityView {
        if trimmed(vis) == "pub"@ {
            VisibilityView::Pub
        } else {
            VisibilityView::Restricted(trimmed(vis))
        }
    }
}

impl Visibility {
    /// Parse a visibility keyword prefix from source text.
    pub fn parse(vis: &str) -> (r: Self)
        ensures
            r.deep_view() == VisibilityView::of(vis@),
    {
        let v = chars_of(vis);
        Visibility::parse_chars(&v)
    }

    /// Parse a visibility keyword prefix from characters.
    pub fn parse_chars(vis: &[char]) -> (r: Self)
        ensures
            r.deep_view() == VisibilityView::of(vis@),
    {
        let v = trim(vis);
        if slice_is(v, "pub") {
            Visibility::Pub
        } else {
            Visibility::Restricted(string_of(v))
        }
    }

    /// True only for unrestricted `pub`.
    pub fn is_public_api(&self) -> (r: bool)
        ensures
            r == (self.deep_view() is Pub),
    {
        match self {
            Visibility::Pub => true,
            Visibility::Restricted(_) => false,
        }
    }

    /// The same visibility again.
    pub fn copied(&self) -> (r: Self)
        ensures
            r.deep_view() == self.deep_view(),
    {
        match self {
            Visibility::Pub => Visibility::Pub,
            Visibility::Restricted(s) => Visibility::Restricted(s.clone()),
        }
    }
}

/// Rollup for one workspace package.
#[derive(Debug, Clone, PartialEq, Eq)]
pub struct PackageSummary {
    /// Cargo package name.
    pub name: String,
    /// Manifest path relative to the workspace root.
    pub manifest_path: String,
    /// Package is a library crate (has a `lib` target).
    pub is_lib: bool,
    /// Package appears to ship unit or integration tests.
    pub has_tests: bool,
    /// Count of unrestricted `pub` items in library sources.
    pub public_item_count: usize,
}

/// What a `PackageSummary` holds.
pub struct PackageView {
    pub name: Seq<char>,
    pub manifest_path: Seq<char>,
    pub is_lib: bool,
    pub has_tests: bool,
    pub public_item_count: usize,
}

impl DeepView for PackageSummary {
    type V = PackageView;

    open spec fn deep_view(&self) -> PackageView {
        PackageView {
            name: self.name@,
            manifest_path: self.manifest_path@,
            is_lib: self.is_lib,
            has_tests: self.has_tests,
            public_item_count: self.public_item_count,
        }
    }
}

/// Only a bare `pub` is unrestricted, however much white space is around it; anything else is kept
/// as the restriction it is.
pub proof fn law_bare_pub_is_unrestricted(vis: Seq<char>)
    ensures
        VisibilityView::of(vis) is Pub <==> trimmed(vis) == "pub"@,
        VisibilityView::of(vis) matches VisibilityView::Restricted(s) ==> s == trimmed(vis),
        VisibilityView::of(trimmed(vis)) == VisibilityView::of(vis),
{
    law_trimming_takes_white_space_only(vis);
}

} // verus!
