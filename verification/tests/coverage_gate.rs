use remotelink::coverage_gate::allowlist::{
    default_schema_version, Allowlist, AllowlistError, GapEntry, PackageGate, Percent,
};
use remotelink::coverage_gate::gate::{
    evaluate_package, ignore_filename_regex_for_package, llvm_cov_args, resolve_mode,
    workspace_packages, CoverageOutcome, GateAction, GateError, GateMode, GateReport, GateRun,
    Measured, PackageResult, WorkspacePackage,
};
use remotelink::coverage_gate::llvm_cov::{
    isolated_percent, package_line_percent, package_name_from_source_path, parse_llvm_cov_json,
    LinePercent,
};
use remotelink::coverage_gate::test_count::{
    count_package_tests, count_tests_in_source, package_has_test_surface, walk_rust_files,
    PackageSources,
};
use remotelink::source_tree::{TreeEntry, TreeNode};
use remotelink::text_map::TextMap;
use remotelink::platform::Platform;

const BOOTSTRAP: &str = r#"
schema_version = 1

[[package]]
name = "remotelink-common"
min_tests = 2
min_line_coverage = 90.0

[[package]]
name = "remotelink-protocol"
min_tests = 30
min_line_coverage = 90.0

[[package]]
name = "remotelink-auth"
min_tests = 50
min_line_coverage = 90.0
"#;

fn percent(x: f64) -> Percent {
    Percent {
        bits: x.to_bits(),
        in_range: (0.0..=100.0).contains(&x),
        plain: format!("{x}"),
        fixed: format!("{x:.2}"),
    }
}

fn measured(x: f64, floor: f64) -> Option<Measured> {
    Some(Measured { percent: percent(x), below_floor: x < floor })
}

fn text_field(t: &toml::Table, key: &str) -> Result<String, String> {
    match t.get(key).and_then(|v| v.as_str()) {
        Some(s) => Ok(s.to_string()),
        None => Err(format!("missing field `{key}`")),
    }
}

fn tables(doc: &toml::Table, key: &str) -> Vec<toml::Table> {
    match doc.get(key).and_then(|v| v.as_array()) {
        Some(list) => list.iter().filter_map(|v| v.as_table().cloned()).collect(),
        None => Vec::new(),
    }
}

fn read(text: &str) -> Result<Allowlist, String> {
    let doc: toml::Table = text.parse().map_err(|e: toml::de::Error| e.to_string())?;
    let mut package = Vec::new();
    for t in tables(&doc, "package") {
        package.push(PackageGate {
            name: text_field(&t, "name")?,
            min_tests: t.get("min_tests").and_then(|v| v.as_integer()).unwrap() as u32,
            min_line_coverage: t.get("min_line_coverage").and_then(|v| v.as_float()).map(percent),
        });
    }
    let mut gap = Vec::new();
    for t in tables(&doc, "gap") {
        gap.push(GapEntry {
            crate_name: text_field(&t, "crate")?,
            item: text_field(&t, "item")?,
            reason: text_field(&t, "reason")?,
        });
    }
    let schema_version = match doc.get("schema_version").and_then(|v| v.as_integer()) {
        Some(n) => n as u32,
        None => default_schema_version(),
    };
    Ok(Allowlist { schema_version, package, gap })
}

fn parse_str(text: &str) -> Result<Allowlist, AllowlistError> {
    Allowlist::accept(read(text))
}

#[test]
fn parse_bootstrap_packages() {
    let al = parse_str(BOOTSTRAP).unwrap();
    assert_eq!(al.schema_version, 1);
    assert_eq!(al.package.len(), 3);
    assert!(al.gap.is_empty());

    let common = al.package_gate("remotelink-common").unwrap();
    assert_eq!(common.min_tests, 2);
    assert_eq!(common.min_line_coverage, Some(percent(90.0)));

    let protocol = al.package_gate("remotelink-protocol").unwrap();
    assert_eq!(protocol.min_tests, 30);

    let auth = al.package_gate("remotelink-auth").unwrap();
    assert_eq!(auth.min_tests, 50);
    assert!(al.package_gate("remotelink-host").is_none());
}

#[test]
fn parse_empty_is_valid_fail_open() {
    let al = parse_str("schema_version = 1\n").unwrap();
    assert!(al.package.is_empty());
    assert!(al.gap.is_empty());
}

#[test]
fn parse_defaults_schema_version() {
    let al = parse_str("").unwrap();
    assert_eq!(al.schema_version, 1);
    assert!(al.package.is_empty());
}

#[test]
fn parse_package_without_coverage() {
    let text = r#"
[[package]]
name = "remotelink-common"
min_tests = 2
"#;
    let al = parse_str(text).unwrap();
    let p = &al.package[0];
    assert_eq!(p.min_tests, 2);
    assert_eq!(p.min_line_coverage, None);
}

#[test]
fn parse_gaps() {
    let text = r#"
[[gap]]
crate = "remotelink-common"
item = "foo::*"
reason = "FFI shim"
"#;
    let al = parse_str(text).unwrap();
    assert_eq!(al.gap.len(), 1);
    assert_eq!(al.gap[0].crate_name, "remotelink-common");
    assert_eq!(al.gap[0].item, "foo::*");
    assert_eq!(al.gap[0].reason, "FFI shim");
}

#[test]
fn reject_duplicate_package() {
    let text = r#"
[[package]]
name = "remotelink-common"
min_tests = 1

[[package]]
name = "remotelink-common"
min_tests = 2
"#;
    let err = parse_str(text).unwrap_err().to_string();
    assert!(err.contains("duplicate"), "{err}");
    assert_eq!(err, "validation error: duplicate package gate: remotelink-common");
}

#[test]
fn reject_empty_package_name() {
    let text = r#"
[[package]]
name = ""
min_tests = 1
"#;
    let err = parse_str(text).unwrap_err().to_string();
    assert!(err.contains("empty"), "{err}");
}

#[test]
fn reject_coverage_out_of_range() {
    let text = r#"
[[package]]
name = "remotelink-common"
min_tests = 1
min_line_coverage = 101.0
"#;
    let err = parse_str(text).unwrap_err().to_string();
    assert!(err.contains("min_line_coverage"), "{err}");
    assert_eq!(
        err,
        "validation error: package remotelink-common: min_line_coverage must be in 0..=100, got 101"
    );
}

#[test]
fn reject_gap_missing_reason() {
    let text = r#"
[[gap]]
crate = "c"
item = "i"
reason = ""
"#;
    let err = parse_str(text).unwrap_err().to_string();
    assert!(err.contains("reason"), "{err}");
    assert_eq!(err, "validation error: gap[0].reason must not be empty");
}

#[test]
fn reject_invalid_toml() {
    let err = parse_str("[[package]\n").unwrap_err();
    assert!(matches!(err, AllowlistError::Parse(_)));
    assert!(err.to_string().starts_with("parse error: "));
}

#[test]
fn allowlist_rejects_version_zero_and_blank_gap_fields() {
    let zero = Allowlist { schema_version: 0, package: vec![], gap: vec![] };
    assert_eq!(
        zero.validate().unwrap_err().to_string(),
        "validation error: schema_version must be >= 1"
    );
    let ok = GapEntry { crate_name: "c".into(), item: "i".into(), reason: "r".into() };
    let no_crate = GapEntry { crate_name: " \t".into(), ..ok.clone() };
    let no_item = GapEntry { item: "".into(), ..ok.clone() };
    let al = |gap: Vec<GapEntry>| Allowlist { schema_version: 1, package: vec![], gap };
    assert!(al(vec![ok.clone()]).validate().is_ok());
    assert_eq!(
        al(vec![ok.clone(), no_crate]).validate().unwrap_err().to_string(),
        "validation error: gap[1].crate must not be empty"
    );
    assert_eq!(
        al(vec![no_item]).validate().unwrap_err().to_string(),
        "validation error: gap[0].item must not be empty"
    );
    assert_eq!(AllowlistError::Io("gone".into()).to_string(), "io error: gone");
}

#[test]
fn mode_parse() {
    assert_eq!(GateMode::parse("tests"), Some(GateMode::Tests));
    assert_eq!(GateMode::parse("llvm-cov"), Some(GateMode::LlvmCov));
    assert_eq!(GateMode::parse("auto"), Some(GateMode::Auto));
    assert_eq!(GateMode::parse("nope"), None);
}

#[test]
fn mode_names_read_back() {
    for m in [GateMode::Tests, GateMode::LlvmCov, GateMode::Auto] {
        assert_eq!(GateMode::parse(&m.to_string()), Some(m));
    }
}

#[test]
fn resolve_auto() {
    assert_eq!(resolve_mode(GateMode::Auto, true), GateMode::LlvmCov);
    assert_eq!(resolve_mode(GateMode::Auto, false), GateMode::Tests);
    assert_eq!(resolve_mode(GateMode::Tests, true), GateMode::Tests);
}

#[test]
fn evaluate_pass_tests_only() {
    let gate = PackageGate {
        name: "remotelink-common".into(),
        min_tests: 2,
        min_line_coverage: Some(percent(90.0)),
    };
    let r = evaluate_package(&gate, 2, None, false);
    assert!(r.passed(), "{:?}", r.failures);
}

#[test]
fn evaluate_fail_low_tests() {
    let gate = PackageGate {
        name: "remotelink-common".into(),
        min_tests: 5,
        min_line_coverage: None,
    };
    let r = evaluate_package(&gate, 2, None, false);
    assert!(!r.passed());
    assert!(r.failures[0].contains("test presence"));
    assert_eq!(r.failures[0], "test presence: found 2 test(s), require ≥ 5");
}

#[test]
fn evaluate_fail_low_coverage() {
    let gate = PackageGate {
        name: "remotelink-common".into(),
        min_tests: 1,
        min_line_coverage: Some(percent(90.0)),
    };
    let r = evaluate_package(&gate, 10, measured(80.0, 90.0), true);
    assert!(!r.passed());
    assert!(r.failures.iter().any(|f| f.contains("line coverage")));
}

#[test]
fn evaluate_pass_coverage() {
    let gate = PackageGate {
        name: "remotelink-common".into(),
        min_tests: 1,
        min_line_coverage: Some(percent(90.0)),
    };
    let r = evaluate_package(&gate, 10, measured(95.0, 90.0), true);
    assert!(r.passed(), "{:?}", r.failures);
}

#[test]
fn unmeasured_coverage_fails_when_enforced() {
    let gate = PackageGate {
        name: "remotelink-common".into(),
        min_tests: 1,
        min_line_coverage: Some(percent(90.0)),
    };
    assert!(!evaluate_package(&gate, 10, None, true).passed());
    assert!(evaluate_package(&gate, 10, None, false).passed());
}

#[test]
fn package_name_from_path() {
    assert_eq!(
        package_name_from_source_path("/work/packages/auth/src/lib.rs").as_deref(),
        Some("remotelink-auth")
    );
    assert_eq!(
        package_name_from_source_path(r"C:\x\packages\protocol\src\m.rs").as_deref(),
        Some("remotelink-protocol")
    );
    assert_eq!(
        package_name_from_source_path("/work/agents/coverage-gate/src/lib.rs").as_deref(),
        Some("coverage-gate")
    );
    assert_eq!(package_name_from_source_path("/work/apps/host/src/main.rs"), None);
}

fn as_percent(p: Option<LinePercent>) -> f64 {
    match p.unwrap() {
        LinePercent::Ratio { covered, count } => 100.0 * covered as f64 / count as f64,
        LinePercent::Reported { bits } => f64::from_bits(bits),
    }
}

fn reported(x: f64) -> LinePercent {
    LinePercent::Reported { bits: x.to_bits() }
}

#[test]
fn parse_llvm_json_files_shape() {
    let json = r#"{
          "data": [{
            "files": [
              {
                "filename": "/repo/packages/common/src/lib.rs",
                "summary": { "lines": { "count": 100, "covered": 95, "percent": 95.0 } }
              },
              {
                "filename": "/repo/packages/auth/src/lib.rs",
                "summary": { "lines": { "count": 200, "covered": 180, "percent": 90.0 } }
              }
            ],
            "totals": { "lines": { "percent": 92.0 } }
          }]
        }"#;
    let map = parse_llvm_cov_json(json.as_bytes()).unwrap();
    assert!((as_percent(map.get("remotelink-common")) - 95.0).abs() < 0.01);
    assert!((as_percent(map.get("remotelink-auth")) - 90.0).abs() < 0.01);
    assert!((as_percent(map.get("*")) - 92.0).abs() < 0.01);
}

#[test]
fn files_of_a_package_add_up() {
    let json = r#"{"data":[{"files":[
        {"filename":"packages/a/src/x.rs","summary":{"lines":{"count":10,"covered":5}}},
        {"filename":"packages/a/src/y.rs","summary":{"lines":{"count":30,"covered":25}}}
    ]}]}"#;
    let map = parse_llvm_cov_json(json.as_bytes()).unwrap();
    assert_eq!(
        map.get("remotelink-a"),
        Some(LinePercent::Ratio { covered: 30, count: 40 })
    );
}

#[test]
fn bad_json_is_an_error() {
    let err = match parse_llvm_cov_json(b"{") {
        Err(e) => e,
        Ok(_) => panic!("not JSON"),
    };
    assert!(matches!(err, GateError::Json(_)));
}

#[test]
fn package_line_percent_prefers_named_key() {
    let mut map = TextMap::new();
    map.insert("remotelink-auth".into(), reported(91.0));
    map.insert("*".into(), reported(50.0));
    map.insert("remotelink-common".into(), reported(99.0));
    assert_eq!(package_line_percent(&map, "remotelink-auth"), Some(reported(91.0)));
    // Mixed report without named key → refuse (would greenwash on "*")
    let mut map = TextMap::new();
    map.insert("*".into(), reported(50.0));
    map.insert("remotelink-common".into(), reported(99.0));
    assert_eq!(package_line_percent(&map, "remotelink-auth"), None);
}

#[test]
fn package_line_percent_accepts_star_when_isolated() {
    let mut map = TextMap::new();
    map.insert("*".into(), reported(93.5));
    assert_eq!(package_line_percent(&map, "remotelink-auth"), Some(reported(93.5)));
}

#[test]
fn isolated_run_without_the_package_is_an_error() {
    let json = r#"{"data":[{"files":[
        {"filename":"packages/a/src/x.rs","summary":{"lines":{"count":10,"covered":5}}}
    ]}]}"#;
    assert!(isolated_percent(json.as_bytes(), "remotelink-a").is_ok());
    assert!(isolated_percent(json.as_bytes(), "remotelink-b").is_err());
}

#[test]
fn ignore_regex_for_remotelink_packages() {
    let re = ignore_filename_regex_for_package("remotelink-auth").unwrap();
    assert!(re.contains("packages/(?!auth/)"), "{re}");
    assert!(re.contains("apps/"), "{re}");
    assert!(ignore_filename_regex_for_package("coverage-gate").is_none());
}

#[test]
fn json_report_records_absolute_policy() {
    let r = GateReport {
        effective_mode: GateMode::LlvmCov,
        llvm_cov_available: true,
        packages: vec![PackageResult {
            name: "remotelink-common".into(),
            test_count: 2,
            min_tests: 2,
            line_coverage: Some(percent(100.0)),
            min_line_coverage: Some(percent(90.0)),
            failures: vec![],
        }],
    };
    let j = r.to_json_report();
    assert!(j.passed);
    assert!(j.policy.contains("absolute floors"));
    assert!(j.policy.contains("deferred"));
    assert_eq!(j.packages[0].line_coverage, Some(percent(100.0)));
}

#[test]
fn report_render_empty() {
    let r = GateReport {
        effective_mode: GateMode::Tests,
        llvm_cov_available: false,
        packages: vec![],
    };
    let s = r.render();
    assert!(s.contains("fail-open"));
    assert!(r.passed());
}

#[test]
fn report_render_fail() {
    let r = GateReport {
        effective_mode: GateMode::Tests,
        llvm_cov_available: false,
        packages: vec![PackageResult {
            name: "remotelink-common".into(),
            test_count: 0,
            min_tests: 1,
            line_coverage: None,
            min_line_coverage: Some(percent(90.0)),
            failures: vec!["test presence: found 0 test(s), require ≥ 1".into()],
        }],
    };
    assert!(!r.passed());
    let s = r.render();
    assert!(s.contains("FAIL"));
    assert!(s.contains("remotelink-common"));
}

const METADATA: &str = r#"{
    "packages": [
        {"name": "remotelink-common", "manifest_path": "/w/packages/common/Cargo.toml"},
        {"name": "remotelink-auth", "manifest_path": "/w/packages/auth/Cargo.toml"}
    ]
}"#;

#[test]
fn gate_run_counts_then_measures_each_package() {
    let al = parse_str(
        "[[package]]\nname = \"remotelink-common\"\nmin_tests = 2\nmin_line_coverage = 90.0\n",
    )
    .unwrap();
    let ws = workspace_packages(Platform::Linux, METADATA.as_bytes()).unwrap();
    assert_eq!(ws.len(), 2);
    let mut run = GateRun::start(GateMode::Auto, true).unwrap();
    match run.next(&al, &ws) {
        GateAction::CountTests { root_dir } => assert_eq!(root_dir, "/w/packages/common"),
        _ => panic!("tests are counted first"),
    }
    run.tests_counted(&al, 3);
    match run.next(&al, &ws) {
        GateAction::MeasureLines { package, args } => {
            assert_eq!(package, "remotelink-common");
            assert_eq!(args, llvm_cov_args("remotelink-common", &ws));
            assert!(args.contains(&"remotelink-common".to_string()));
        },
        _ => panic!("then lines are measured"),
    }
    run.lines_measured(&al, CoverageOutcome::Failed("no profile data".into()));
    assert!(matches!(run.next(&al, &ws), GateAction::Finished));
    let report = run.report();
    assert_eq!(report.packages.len(), 1);
    assert!(!report.passed());
    assert!(report.packages[0].failures.iter().any(|f| f.contains("no profile data")));
}

#[test]
fn gate_run_reports_missing_package_and_missing_tool() {
    let al = parse_str("[[package]]\nname = \"absent\"\nmin_tests = 1\n").unwrap();
    let ws: Vec<WorkspacePackage> = vec![];
    let run = GateRun::start(GateMode::Tests, false).unwrap();
    match run.next(&al, &ws) {
        GateAction::Failed(e) => assert!(e.to_string().contains("absent")),
        _ => panic!("the package is missing"),
    }
    match GateRun::start(GateMode::LlvmCov, false) {
        Err(GateError::Tool(_)) => {},
        _ => panic!("the tool is missing"),
    }
}

#[test]
fn counts_plain_and_tokio() {
    let src = r#"
#[test]
fn a() {}

#[tokio::test]
async fn b() {}

#[tokio::test(flavor = "multi_thread")]
async fn c() {}

// not a test: #[test] in comment is still counted if alone — use real lines
fn not_test() {}
"#;
    // Comment line with `// not a test: #[test]` does NOT start with #[test]
    assert_eq!(count_tests_in_source(src), 3);
}

#[test]
fn ignores_indented_non_attrs() {
    assert_eq!(count_tests_in_source("    let s = \"#[test]\";\n"), 0);
}

#[test]
fn count_package_on_temp_tree() {
    let text = "pub fn x() {}\n#[cfg(test)]\nmod t {\n#[test]\nfn one() {}\n#[test]\nfn two() {}\n}\n";
    let sources =
        PackageSources { src: Some(vec![text.to_string()]), tests: None, root: vec![] };
    assert_eq!(count_package_tests(&sources), 2);
    assert!(package_has_test_surface(&sources));
}

#[test]
fn empty_package_zero() {
    let sources =
        PackageSources { src: Some(vec!["pub fn x() {}\n".into()]), tests: None, root: vec![] };
    assert_eq!(count_package_tests(&sources), 0);
    assert!(!package_has_test_surface(&sources));
}

#[test]
fn a_tests_tree_is_test_surface() {
    let with = |tests: Option<Vec<String>>| PackageSources {
        src: Some(vec!["pub fn x() {}\n".into()]),
        tests,
        root: vec![],
    };
    let helper = with(Some(vec!["pub fn helper() {}\n".into()]));
    assert_eq!(count_package_tests(&helper), 0);
    assert!(package_has_test_surface(&helper));
    assert!(!package_has_test_surface(&with(Some(vec![]))));
}

#[test]
fn counts_integration_tests_dir() {
    let sources = PackageSources {
        src: None,
        tests: Some(vec!["#[test]\nfn integ() {}\n".into()]),
        root: vec![],
    };
    assert_eq!(count_package_tests(&sources), 1);
}

fn file(name: &str) -> TreeEntry {
    TreeEntry { name: name.into(), node: TreeNode::File }
}

#[test]
fn rust_files_are_listed_in_order() {
    let tree = vec![
        file("zeta.rs"),
        TreeEntry {
            name: "inner".into(),
            node: TreeNode::Dir(vec![file("b.rs"), file("notes.md"), file("a.rs")]),
        },
        TreeEntry { name: "target".into(), node: TreeNode::Dir(vec![file("skipped.rs")]) },
    ];
    assert_eq!(
        walk_rust_files(Platform::Linux, "src", &tree),
        vec!["src/inner/a.rs", "src/inner/b.rs", "src/zeta.rs"]
    );
    let beside = vec![
        file("a-b.rs"),
        TreeEntry { name: "a".into(), node: TreeNode::Dir(vec![file("z.rs")]) },
    ];
    assert_eq!(
        walk_rust_files(Platform::Windows, "C:\\w", &beside),
        vec!["C:\\w\\a\\z.rs", "C:\\w\\a-b.rs"]
    );
    assert_eq!(walk_rust_files(Platform::Other, "w", &beside), vec!["w/a/z.rs", "w/a-b.rs"]);
}

#[test]
fn windows_manifests_name_their_directory() {
    let meta = br#"{"packages": [{"name": "p", "manifest_path": "C:\\w\\p\\Cargo.toml"}]}"#;
    let on = |platform| workspace_packages(platform, meta).unwrap()[0].root_dir.clone();
    assert_eq!(on(Platform::Windows), "C:\\w\\p");
    assert_eq!(on(Platform::Linux), "");
    let root = br#"{"packages": [{"name": "p", "manifest_path": "C:\\"}]}"#;
    assert!(matches!(workspace_packages(Platform::Windows, root), Err(GateError::Tool(_))));
}
