use remotelink::unit_test_agent::inventory::parse_public_items;
use remotelink::unit_test_agent::report::{
    draft_report_markdown, packages_lacking_tests, sample_declared_surface,
};
use remotelink::unit_test_agent::syntax::{
    expand_use_imports, is_cfg_test_attr, parse_pub_item_line, parse_pub_use_statement,
};
use remotelink::unit_test_agent::types::{
    Inventory, InventoryItem, ItemKind, PackageSummary, Visibility,
};
use remotelink::unit_test_agent::workspace::{
    display_root, inventory_workspace, normalize_path_display, now_stamp, package_has_tests,
    path_relative, source_has_test_attr, source_root, workspace_packages, InventoryError,
    ScannedPackage, SourceFile,
};
use remotelink::platform::Platform;

#[test]
fn parse_basic_pub_items() {
    let src = r#"
/// docs
pub const VERSION: &str = "0.1.0";
pub type Result<T> = std::result::Result<T, ()>;
pub struct Foo {
    x: u32,
}
pub enum Bar { A, B }
pub trait Baz { fn f(&self); }
pub fn free_fn() {}
pub mod nested {}
pub use crate::other::Thing;
"#;
    let items = parse_public_items(src, "demo", "src/lib.rs");
    let names: Vec<_> = items.iter().map(|i| i.item.as_str()).collect();
    assert!(names.contains(&"VERSION"));
    assert!(names.contains(&"Result"));
    assert!(names.contains(&"Foo"));
    assert!(names.contains(&"Bar"));
    assert!(names.contains(&"Baz"));
    assert!(names.contains(&"free_fn"));
    assert!(names.contains(&"nested"));
    assert!(names.iter().any(|n| n.contains("Thing") || n.contains("other")));
    assert!(items.iter().all(|i| i.visibility.is_public_api()));
    assert_eq!(items.iter().find(|i| i.item == "Foo").unwrap().kind, ItemKind::Struct);
}

#[test]
fn parse_pub_crate_is_restricted() {
    let src = "pub(crate) fn internal() {}\npub(super) struct S;\n";
    let items = parse_public_items(src, "demo", "src/lib.rs");
    assert_eq!(items.len(), 2);
    assert!(!items[0].visibility.is_public_api());
    assert!(!items[1].visibility.is_public_api());
    match &items[0].visibility {
        Visibility::Restricted(s) => assert!(s.contains("crate")),
        Visibility::Pub => panic!("expected restricted"),
    }
}

#[test]
fn skips_cfg_test_module() {
    let src = r#"
pub fn real() {}

#[cfg(test)]
mod tests {
    pub fn not_public_api() {}
    #[test]
    fn t() {}
}

pub fn also_real() {}
"#;
    let items = parse_public_items(src, "demo", "src/lib.rs");
    let names: Vec<_> = items.iter().map(|i| i.item.as_str()).collect();
    assert!(names.contains(&"real"));
    assert!(names.contains(&"also_real"));
    assert!(!names.contains(&"not_public_api"));
    assert!(!names.contains(&"tests")); // cfg(test) mod skipped
}

#[test]
fn parse_async_unsafe_fn() {
    let src = "pub async fn go() {}\npub unsafe fn raw() {}\npub const fn c() -> u8 { 1 }\n";
    let items = parse_public_items(src, "demo", "src/lib.rs");
    let names: Vec<_> = items.iter().map(|i| i.item.as_str()).collect();
    assert_eq!(names, vec!["go", "raw", "c"]);
    assert!(items.iter().all(|i| i.kind == ItemKind::Fn));
}

#[test]
fn parse_impl_methods() {
    let src = r#"
pub struct DevicePublicId;

impl DevicePublicId {
    pub fn generate() -> Self { Self }
    pub fn parse(input: &str) -> Self { Self }
    fn private() {}
}
"#;
    let items = parse_public_items(src, "demo", "src/device_id.rs");
    let names: Vec<_> = items.iter().map(|i| i.item.as_str()).collect();
    assert!(names.contains(&"DevicePublicId"));
    assert!(names.contains(&"DevicePublicId::generate"));
    assert!(names.contains(&"DevicePublicId::parse"));
    assert!(!names.iter().any(|n| n.ends_with("private")));
}

#[test]
fn parse_pub_item_line_rejects_non_pub() {
    assert!(parse_pub_item_line("fn private() {}").is_none());
    assert!(parse_pub_item_line("public fn nope() {}").is_none());
    assert!(parse_pub_item_line("pub fn ok() {}").is_some());
}

#[test]
fn source_has_test_attr_detects() {
    assert!(source_has_test_attr("#[test]\nfn t() {}"));
    assert!(source_has_test_attr("    #[tokio::test]\nasync fn t() {}"));
    assert!(!source_has_test_attr("pub fn not_a_test() {}"));
}

#[test]
fn package_has_tests_on_temp_tree() {
    assert!(!package_has_tests(&vec![], &vec!["pub fn x() {}\n".to_string()]));
    assert!(package_has_tests(
        &vec![],
        &vec!["pub fn x() {}\n#[cfg(test)]\nmod tests {\n#[test]\nfn t() {}\n}\n".to_string()]
    ));
}

#[test]
fn multi_line_pub_use_expands_imports() {
    let src = r#"
pub use challenge::{
    compute_challenge_mac, respond_to_challenge, AuthChallenge,
    ChallengeNonce, HOST_SECRET_MIN_LEN,
};
pub use error::{AuthError, Result};
pub use input::{
    modifiers, InputEvent, MouseWheel,
};
"#;
    let items = parse_public_items(src, "demo", "src/lib.rs");
    let uses: Vec<_> = items
        .iter()
        .filter(|i| i.kind == ItemKind::Use)
        .map(|i| i.item.as_str())
        .collect();
    assert!(uses.contains(&"challenge::compute_challenge_mac"), "got {uses:?}");
    assert!(uses.contains(&"challenge::AuthChallenge"));
    assert!(uses.contains(&"challenge::HOST_SECRET_MIN_LEN"));
    assert!(uses.contains(&"error::AuthError"));
    assert!(uses.contains(&"error::Result"));
    assert!(uses.contains(&"input::modifiers"));
    assert!(uses.contains(&"input::InputEvent"));
    assert!(uses.contains(&"input::MouseWheel"));
    // No truncated brace-open fragments.
    assert!(
        !uses.iter().any(|u| u.ends_with("::{") || *u == "challenge::{"),
        "truncated use still present: {uses:?}"
    );
}

#[test]
fn raw_string_fixture_pub_not_inventoried() {
    let src = r##"
pub fn real_api() {}

fn helper() {
    let _fixture = r#"
pub fn not_a_real_export() {}
pub struct FakeStruct;
"#;
}

pub fn also_real() {}
"##;
    let items = parse_public_items(src, "demo", "src/lib.rs");
    let names: Vec<_> = items.iter().map(|i| i.item.as_str()).collect();
    assert!(names.contains(&"real_api"));
    assert!(names.contains(&"also_real"));
    assert!(!names.contains(&"not_a_real_export"), "raw-string fixture leaked: {names:?}");
    assert!(!names.contains(&"FakeStruct"));
}

#[test]
fn skips_cfg_all_test_module() {
    let src = r#"
pub fn real() {}

#[cfg(all(test, feature = "extra"))]
mod tests {
    pub fn leak() {}
}

pub fn still_real() {}
"#;
    let items = parse_public_items(src, "demo", "src/lib.rs");
    let names: Vec<_> = items.iter().map(|i| i.item.as_str()).collect();
    assert!(names.contains(&"real"));
    assert!(names.contains(&"still_real"));
    assert!(!names.contains(&"leak"), "cfg(all(test,...)) leaked: {names:?}");
    assert!(is_cfg_test_attr("#[cfg(all(test, feature = \"extra\"))]"));
    assert!(is_cfg_test_attr("#[cfg( all( test , feature = \"x\" ) )]"));
    assert!(!is_cfg_test_attr("#[cfg(not(test))]"));
}

const METADATA: &str = r#"{
    "workspace_members": ["demo-lib 0.1.0 (path+file:///w/demo)"],
    "packages": [{
        "name": "demo-lib",
        "id": "demo-lib 0.1.0 (path+file:///w/demo)",
        "manifest_path": "/w/demo/Cargo.toml",
        "targets": [{"kind": ["lib"], "src_path": "/w/demo/src/lib.rs"}]
    }]
}"#;

#[test]
fn inventory_workspace_temp_crate() {
    let found = workspace_packages(Platform::Linux, METADATA.as_bytes(), "/w").expect("metadata");
    assert_eq!(found.len(), 1);
    assert_eq!(source_root(Platform::Linux, &found[0]), "/w/demo/src");
    let there = br#"{"workspace_members": ["p"], "packages": [{"id": "p", "name": "p",
        "manifest_path": "D:\\p\\Cargo.toml",
        "targets": [{"kind": ["lib"], "src_path": "D:\\p\\code\\lib.rs"}]}]}"#;
    let found_there = workspace_packages(Platform::Windows, there, "D:\\").expect("metadata");
    assert_eq!(found_there[0].root_dir, "D:\\p");
    assert_eq!(source_root(Platform::Windows, &found_there[0]), "D:\\p\\code");
    let text = "pub fn covered() {}\npub const FLAG: u8 = 1;\n".to_string();
    let scanned: Vec<ScannedPackage> = found
        .into_iter()
        .map(|package| ScannedPackage {
            package,
            has_tests: package_has_tests(&vec![], &vec![text.clone()]),
            sources: vec![SourceFile { path: "/w/demo/src/lib.rs".into(), text: text.clone() }],
        })
        .collect();
    let inv = inventory_workspace("/w", "/w".into(), "t0".into(), &scanned);
    assert_eq!(inv.packages.len(), 1);
    assert_eq!(inv.packages[0].name, "demo-lib");
    assert!(inv.packages[0].is_lib);
    assert!(!inv.packages[0].has_tests);
    assert!(inv.packages[0].public_item_count >= 2);
    let names: Vec<_> = inv.items.iter().map(|i| i.item.as_str()).collect();
    assert!(names.contains(&"covered"));
    assert!(names.contains(&"FLAG"));
    assert!(inv.items.iter().all(|i| i.path == "demo/src/lib.rs"));
    assert_eq!(inv.items.iter().find(|i| i.item == "FLAG").unwrap().line, Some(2));
}

#[test]
fn metadata_that_is_not_json_is_an_error() {
    assert!(matches!(workspace_packages(Platform::Linux, b"[", "/w"), Err(InventoryError::Json(_))));
}

#[test]
fn expand_use_single_and_glob() {
    assert_eq!(
        expand_use_imports("error::ProtocolError;"),
        vec!["error::ProtocolError".to_string()]
    );
    assert_eq!(expand_use_imports("foo::*;"), vec!["foo::*".to_string()]);
}

#[test]
fn pub_use_statements_keep_their_visibility() {
    let (vis, names) = parse_pub_use_statement("pub(crate) use a::{b, c};").unwrap();
    assert!(!vis.is_public_api());
    assert_eq!(names, vec!["a::b", "a::c"]);
    assert!(parse_pub_use_statement("use a::b;").is_none());
}

fn sample_inv(has_tests: bool) -> Inventory {
    Inventory {
        schema_version: 1,
        workspace_root: "/tmp/ws".into(),
        generated_at: "t0".into(),
        items: vec![
            InventoryItem {
                crate_name: "remotelink-demo".into(),
                path: "packages/demo/src/lib.rs".into(),
                item: "VERSION".into(),
                kind: ItemKind::Const,
                visibility: Visibility::Pub,
                line: Some(1),
            },
            InventoryItem {
                crate_name: "remotelink-demo".into(),
                path: "packages/demo/src/lib.rs".into(),
                item: "error::AuthError".into(),
                kind: ItemKind::Use,
                visibility: Visibility::Pub,
                line: Some(2),
            },
        ],
        packages: vec![PackageSummary {
            name: "remotelink-demo".into(),
            manifest_path: "packages/demo/Cargo.toml".into(),
            is_lib: true,
            has_tests,
            public_item_count: 2,
        }],
    }
}

#[test]
fn lacking_tests_lists_lib_without_tests() {
    let inv = sample_inv(false);
    assert_eq!(packages_lacking_tests(&inv), vec!["remotelink-demo"]);
    let md = draft_report_markdown(&inv);
    assert!(md.contains("NEVER auto-merge"));
    assert!(md.contains("remotelink-demo"));
    assert!(md.contains("test(agent): cover demo"));
    assert!(md.contains("TODO test"));
    assert!(md.contains("presence-only"));
}

#[test]
fn no_lacking_when_has_tests_still_suggests_item_level() {
    let inv = sample_inv(true);
    assert!(packages_lacking_tests(&inv).is_empty());
    let md = draft_report_markdown(&inv);
    assert!(md.contains("appear to have at least one"));
    assert!(md.contains("item-level"));
    assert!(md.contains("test(agent): cover demo"));
    assert!(md.contains("TODO test `remotelink-demo::VERSION`"));
    // Pure use re-exports excluded from TODO sample.
    assert!(!md.contains("TODO test `remotelink-demo::error::AuthError`"));
    assert!(md.contains("allowlist.toml"));
}

#[test]
fn sample_skips_use_reexports() {
    let inv = sample_inv(true);
    let sample = sample_declared_surface(&inv, 10);
    assert_eq!(sample.len(), 1);
    assert_eq!(sample[0].item, "VERSION");
}

#[test]
fn paths_and_stamps_are_shown_portably() {
    assert_eq!(normalize_path_display(r"a\b\c.rs"), "a/b/c.rs");
    assert_eq!(path_relative("/w", "/w/demo/src/lib.rs"), "demo/src/lib.rs");
    assert_eq!(path_relative("/w", "/elsewhere/x.rs"), "/elsewhere/x.rs");
    assert_eq!(display_root("/w", Some("/w")), ".");
    assert_eq!(now_stamp(Some(7)), "7s-unix");
}
