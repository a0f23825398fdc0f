//! Run per-package coverage / test-presence gates.

use vstd::prelude::*;
use crate::coverage_gate::allowlist::{
    copy_percent, Allowlist, GateView, PackageGate, Percent, PercentView,
};
use crate::json::{
    json_parsed, lemma_list_contents, list_contents, parse_json, Json, JsonView,
};
use crate::paths::{parent_path, path_parent};
use crate::platform::Platform;
use crate::text::{
    after_prefix, chars_of, decimal, lemma_occurs_between, occurs_in, push_chars, push_number, same,
    strip_prefix,
};

verus! {

/// How compliance should be measured.
#[derive(Debug, Clone, Copy, PartialEq, Eq, Structural)]
pub enum GateMode {
    /// Only enforce `min_tests` (works everywhere).
    Tests,
    /// Require the coverage tool and enforce `min_line_coverage`.
    LlvmCov,
    /// Prefer coverage when the tool is available; else tests.
    Auto,
}

impl GateMode {
    /// The mode that a command-line word stands for.
    pub open spec fn of(s: Seq<char>) -> Option<GateMode> {
        if s == "tests"@ {
            Some(GateMode::Tests)
        } else if s == "llvm-cov"@ || s == "llvm_cov"@ || s == "cov"@ {
            Some(GateMode::LlvmCov)
        } else if s == "auto"@ {
            Some(GateMode::Auto)
        } else {
            None
        }
    }

    /// The name of a mode.
    pub open spec fn name(self) -> Seq<char> {
        match self {
            GateMode::Tests => "tests"@,
            GateMode::LlvmCov => "llvm-cov"@,
            GateMode::Auto => "auto"@,
        }
    }

    /// Parse CLI mode string.
    pub fn parse(s: &str) -> (r: Option<Self>)
        ensures
            r == GateMode::of(s@),
    {
        if same(s, "tests") {
            Some(GateMode::Tests)
        } else if same(s, "llvm-cov") || same(s, "llvm_cov") || same(s, "cov") {
            Some(GateMode::LlvmCov)
        } else if same(s, "auto") {
            Some(GateMode::Auto)
        } else {
            None
        }
    }

    /// The mode as text.
    pub fn to_string(&self) -> (r: String)
        ensures
            r@ == self.name(),
    {
        match self {
            GateMode::Tests => "tests".to_string(),
            GateMode::LlvmCov => "llvm-cov".to_string(),
            GateMode::Auto => "auto".to_string(),
        }
    }
}

/// What a mode is called is what is read as that mode.
pub proof fn law_mode_roundtrip(mode: GateMode)
    ensures
        GateMode::of(mode.name()) == Some(mode),
{
    reveal_strlit("tests");
    reveal_strlit("llvm-cov");
    reveal_strlit("llvm_cov");
    reveal_strlit("cov");
    reveal_strlit("auto");
    assert("tests"@.len() == 5);
    assert("llvm-cov"@.len() == 8);
    assert("llvm_cov"@.len() == 8);
    assert("cov"@.len() == 3);
    assert("auto"@.len() == 4);
}

/// Errors while measuring coverage.
#[derive(Debug)]
pub enum GateError {
    /// I/O.
    Io(String),
    /// `cargo metadata` or external tool failure.
    Tool(String),
    /// JSON parse.
    Json(String),
    /// Allowlist package not found in workspace.
    MissingPackage(String),
}

/// What a `GateError` says.
pub enum GateErrorView {
    Io(Seq<char>),
    Tool(Seq<char>),
    Json(Seq<char>),
    MissingPackage(Seq<char>),
}

impl DeepView for GateError {
    type V = GateErrorView;

    open spec fn deep_view(&self) -> GateErrorView {
        match self {
            GateError::Io(e) => GateErrorView::Io(e@),
            GateError::Tool(e) => GateErrorView::Tool(e@),
            GateError::Json(e) => GateErrorView::Json(e@),
            GateError::MissingPackage(e) => GateErrorView::MissingPackage(e@),
        }
    }
}

impl GateError {
    /// The error as a message.
    pub fn to_string(&self) -> (r: String)
        ensures
            r@ == match self.deep_view() {
                GateErrorView::Io(e) => "io error: "@ + e,
                GateErrorView::Tool(e) => e,
                GateErrorView::Json(e) => "json error: "@ + e,
                GateErrorView::MissingPackage(e) => "gated package not found in workspace: "@ + e,
            },
    {
        match self {
            GateError::Io(e) => "io error: ".to_string().concat(e),
            GateError::Tool(e) => e.clone(),
            GateError::Json(e) => "json error: ".to_string().concat(e),
            GateError::MissingPackage(e) => "gated package not found in workspace: ".to_string()
                .concat(e),
        }
    }
}

/// Workspace package location from `cargo metadata`.
#[derive(Debug, Clone)]
pub struct WorkspacePackage {
    /// Cargo package name.
    pub name: String,
    /// Package root directory (parent of Cargo.toml).
    pub root_dir: String,
}

/// What a `WorkspacePackage` holds.
pub struct WorkspaceView {
    pub name: Seq<char>,
    pub root_dir: Seq<char>,
}

impl DeepView for WorkspacePackage {
    type V = WorkspaceView;

    open spec fn deep_view(&self) -> WorkspaceView {
        WorkspaceView { name: self.name@, root_dir: self.root_dir@ }
    }
}

/// The text of a member.
pub open spec fn member_text(v: JsonView, key: Seq<char>) -> Option<Seq<char>> {
    match v.member(key) {
        Some(j) => j.text(),
        None => None,
    }
}

/// Reads the text of a member.
pub fn read_member_text<'a>(v: &'a Json, key: &str) -> (r: Option<&'a String>)
    ensures
        r.deep_view() == member_text(v.contents(), key@),
{
    match v.member(key) {
        Some(j) => j.text(),
        None => None,
    }
}

/// A package of the metadata, or what it lacks.
pub open spec fn package_of(platform: Platform, pkg: JsonView) -> Result<WorkspaceView, GateErrorView> {
    match member_text(pkg, "name"@) {
        None => Err(GateErrorView::Json("package missing name"@)),
        Some(name) => match member_text(pkg, "manifest_path"@) {
            None => Err(GateErrorView::Json("package missing manifest_path"@)),
            Some(manifest) => match path_parent(platform, manifest) {
                None => Err(GateErrorView::Tool("bad manifest_path for "@ + name)),
                Some(root_dir) => Ok(WorkspaceView { name, root_dir }),
            },
        },
    }
}

/// The packages of a list, or the first error among them.
pub open spec fn packages_of(platform: Platform, list: Seq<JsonView>) -> Result<
    Seq<WorkspaceView>,
    GateErrorView,
>
    decreases list.len(),
{
    if list.len() == 0 {
        Ok(Seq::empty())
    } else {
        match packages_of(platform, list.drop_last()) {
            Err(e) => Err(e),
            Ok(all) => match package_of(platform, list.last()) {
                Err(e) => Err(e),
                Ok(p) => Ok(all.push(p)),
            },
        }
    }
}

/// The packages of a `cargo metadata` document.
pub open spec fn metadata_packages(platform: Platform, meta: JsonView) -> Result<
    Seq<WorkspaceView>,
    GateErrorView,
> {
    match meta.member("packages"@) {
        Some(JsonView::List(list)) => packages_of(platform, list),
        _ => Err(GateErrorView::Json("missing packages array"@)),
    }
}

/// What an outcome holds.
pub open spec fn packages_view(r: Result<Vec<WorkspacePackage>, GateError>) -> Result<
    Seq<WorkspaceView>,
    GateErrorView,
> {
    match r {
        Ok(v) => Ok(v.deep_view()),
        Err(e) => Err(e.deep_view()),
    }
}

fn read_package(platform: Platform, pkg: &Json) -> (r: Result<WorkspacePackage, GateError>)
    ensures
        match r {
            Ok(p) => package_of(platform, pkg.contents()) == Ok::<WorkspaceView, GateErrorView>(
                p.deep_view(),
            ),
            Err(e) => package_of(platform, pkg.contents()) == Err::<WorkspaceView, GateErrorView>(
                e.deep_view(),
            ),
        },
{
    match read_member_text(pkg, "name") {
        None => Err(GateError::Json("package missing name".to_string())),
        Some(name) => match read_member_text(pkg, "manifest_path") {
            None => Err(GateError::Json("package missing manifest_path".to_string())),
            Some(manifest) => match parent_path(platform, manifest) {
                None => Err(
                    GateError::Tool("bad manifest_path for ".to_string().concat(name)),
                ),
                Some(root_dir) => Ok(WorkspacePackage { name: name.clone(), root_dir }),
            },
        },
    }
}

/// The packages of a parsed `cargo metadata` document.
pub fn packages_from_metadata(platform: Platform, meta: &Json) -> (r: Result<
    Vec<WorkspacePackage>,
    GateError,
>)
    ensures
        packages_view(r) == metadata_packages(platform, meta.contents()),
{
    let list = match meta.member("packages") {
        Some(Json::List(list)) => list,
        _ => {
            return Err(GateError::Json("missing packages array".to_string()));
        },
    };
    let ghost all = list_contents(list@);
    proof {
        lemma_list_contents(list@);
        assert(all.take(0) == Seq::<JsonView>::empty());
    }
    let mut out: Vec<WorkspacePackage> = Vec::new();
    let mut i: usize = 0;
    assert(out.deep_view() =~= Seq::<WorkspaceView>::empty());
    while i < list.len()
        invariant
            i <= list@.len(),
            all == list_contents(list@),
            metadata_packages(platform, meta.contents()) == packages_of(platform, all),
            all.len() == list@.len(),
            forall|k: int|
                0 <= k < list@.len() ==> (#[trigger] all[k]) == list@[k].contents(),
            packages_of(platform, all.take(i as int)) == Ok::<Seq<WorkspaceView>, GateErrorView>(
                out.deep_view(),
            ),
        decreases list@.len() - i,
    {
        assert(all.take(i + 1).drop_last() == all.take(i as int));
        assert(all.take(i + 1).last() == all[i as int]);
        match read_package(platform, &list[i]) {
            Ok(p) => {
                let ghost before = out.deep_view();
                let ghost view = p.deep_view();
                out.push(p);
                assert(out.deep_view() =~= before.push(view));
            },
            Err(e) => {
                proof {
                    lemma_first_error(platform, all, i + 1);
                }
                return Err(e);
            },
        }
        i += 1;
    }
    assert(all.take(all.len() as int) == all);
    Ok(out)
}

proof fn lemma_first_error(platform: Platform, list: Seq<JsonView>, n: int)
    requires
        0 <= n <= list.len(),
        packages_of(platform, list.take(n)) is Err,
    ensures
        packages_of(platform, list) == packages_of(platform, list.take(n)),
    decreases list.len(),
{
    if n == list.len() {
        assert(list.take(n) == list);
    } else {
        assert(list.drop_last().take(n) == list.take(n));
        lemma_first_error(platform, list.drop_last(), n);
    }
}

/// The packages of what `cargo metadata` printed.
pub fn workspace_packages(platform: Platform, stdout: &[u8]) -> (r: Result<
    Vec<WorkspacePackage>,
    GateError,
>)
    ensures
        packages_view(r) == match json_parsed(stdout@) {
            Ok(meta) => metadata_packages(platform, meta),
            Err(e) => Err(GateErrorView::Json(e)),
        },
{
    match parse_json(stdout) {
        Ok(meta) => packages_from_metadata(platform, &meta),
        Err(e) => Err(GateError::Json(e)),
    }
}

/// The mode that a request comes to.
pub open spec fn effective_mode(requested: GateMode, llvm_available: bool) -> GateMode {
    match requested {
        GateMode::Auto => if llvm_available {
            GateMode::LlvmCov
        } else {
            GateMode::Tests
        },
        other => other,
    }
}

/// Resolve Auto → Tests or LlvmCov.
pub fn resolve_mode(requested: GateMode, llvm_available: bool) -> (r: GateMode)
    ensures
        r == effective_mode(requested, llvm_available),
        r != GateMode::Auto,
{
    match requested {
        GateMode::Auto => {
            if llvm_available {
                GateMode::LlvmCov
            } else {
                GateMode::Tests
            }
        },
        other => other,
    }
}

/// Resolving a resolved mode changes nothing.
pub proof fn law_mode_resolves_once(requested: GateMode, first: bool, second: bool)
    ensures
        effective_mode(effective_mode(requested, first), second) == effective_mode(
            requested,
            first,
        ),
{
}

/// One package's gate evaluation result.
#[derive(Debug, Clone)]
pub struct PackageResult {
    /// Package name.
    pub name: String,
    /// Tests found under the package tree.
    pub test_count: u32,
    /// Configured minimum tests.
    pub min_tests: u32,
    /// Line coverage percent when measured.
    pub line_coverage: Option<Percent>,
    /// Configured minimum line coverage.
    pub min_line_coverage: Option<Percent>,
    /// Human-readable failure reasons (empty = pass).
    pub failures: Vec<String>,
}

/// What a `PackageResult` holds.
pub struct ResultView {
    pub name: Seq<char>,
    pub test_count: u32,
    pub min_tests: u32,
    pub line_coverage: Option<PercentView>,
    pub min_line_coverage: Option<PercentView>,
    pub failures: Seq<Seq<char>>,
}

impl DeepView for PackageResult {
    type V = ResultView;

    open spec fn deep_view(&self) -> ResultView {
        ResultView {
            name: self.name@,
            test_count: self.test_count,
            min_tests: self.min_tests,
            line_coverage: self.line_coverage.deep_view(),
            min_line_coverage: self.min_line_coverage.deep_view(),
            failures: self.failures.deep_view(),
        }
    }
}

impl PackageResult {
    /// True when all configured checks passed.
    pub fn passed(&self) -> (r: bool)
        ensures
            r == (self.deep_view().failures.len() == 0),
    {
        self.failures.len() == 0
    }
}

/// A measured percentage, and whether it lies below the floor of its package.
#[derive(Debug, Clone)]
pub struct Measured {
    pub percent: Percent,
    pub below_floor: bool,
}

/// What came of measuring a package.
#[derive(Debug, Clone)]
pub enum CoverageOutcome {
    /// Nothing was to be measured.
    NotMeasured,
    /// A percentage.
    Measured(Measured),
    /// No percentage, for this reason.
    Failed(String),
}

/// The complaint about too few tests.
pub open spec fn tests_complaint(found: u32, required: u32) -> Seq<char> {
    "test presence: found "@ + decimal(found as nat) + " test(s), require ≥ "@ + decimal(
        required as nat,
    )
}

/// The complaint about a percentage below the floor.
pub open spec fn below_complaint(got: Seq<char>, min: Seq<char>) -> Seq<char> {
    "line coverage: "@ + got + "% < required "@ + min + "%"@
}

/// The complaint about a percentage that is missing.
pub open spec fn missing_complaint(min: Seq<char>) -> Seq<char> {
    "line coverage: no data for package (required ≥ "@ + min + "%)"@
}

/// The complaints about the number of tests.
pub open spec fn test_failures(gate: GateView, test_count: u32) -> Seq<Seq<char>> {
    if test_count < gate.min_tests {
        seq![tests_complaint(test_count, gate.min_tests)]
    } else {
        Seq::empty()
    }
}

fn check_tests(gate: &PackageGate, test_count: u32) -> (r: Vec<String>)
    ensures
        r.deep_view() == test_failures(gate.deep_view(), test_count),
{
    let mut failures: Vec<String> = Vec::new();
    if test_count < gate.min_tests {
        let mut s = "test presence: found ".to_string();
        push_number(&mut s, test_count as u64);
        s.append(" test(s), require ≥ ");
        push_number(&mut s, gate.min_tests as u64);
        assert(s@ == tests_complaint(test_count, gate.min_tests));
        failures.push(s);
    }
    assert(failures.deep_view() =~= test_failures(gate.deep_view(), test_count));
    failures
}

fn below_message(got: &Percent, min: &Percent) -> (r: String)
    ensures
        r@ == below_complaint(got.fixed@, min.fixed@),
{
    let mut s = "line coverage: ".to_string();
    s.append(&got.fixed);
    s.append("% < required ");
    s.append(&min.fixed);
    s.append("%");
    s
}

/// The complaints about known coverage: below the floor, or missing where it is enforced.
pub open spec fn coverage_failures(
    gate: GateView,
    coverage: Option<Measured>,
    enforce: bool,
) -> Seq<Seq<char>> {
    match gate.min_line_coverage {
        Some(min) if enforce => match coverage {
            Some(m) => if m.below_floor {
                seq![below_complaint(m.percent.fixed@, min.fixed)]
            } else {
                Seq::empty()
            },
            None => seq![missing_complaint(min.fixed)],
        },
        _ => Seq::empty(),
    }
}

/// The measured percentage.
pub open spec fn measured_percent(coverage: Option<Measured>) -> Option<PercentView> {
    match coverage {
        Some(m) => Some(m.percent.deep_view()),
        None => None,
    }
}

/// Evaluate a single package gate against known counts.
pub fn evaluate_package(
    gate: &PackageGate,
    test_count: u32,
    line_coverage: Option<Measured>,
    enforce_coverage: bool,
) -> (r: PackageResult)
    ensures
        r.deep_view() == (ResultView {
            name: gate.name@,
            test_count,
            min_tests: gate.min_tests,
            line_coverage: measured_percent(line_coverage),
            min_line_coverage: gate.min_line_coverage.deep_view(),
            failures: test_failures(gate.deep_view(), test_count) + coverage_failures(
                gate.deep_view(),
                line_coverage,
                enforce_coverage,
            ),
        }),
{
    let mut failures = check_tests(gate, test_count);
    let ghost before = failures.deep_view();
    if enforce_coverage {
        if let Some(min) = &gate.min_line_coverage {
            match &line_coverage {
                Some(m) => {
                    if m.below_floor {
                        failures.push(below_message(&m.percent, min));
                    }
                },
                None => {
                    let mut s = "line coverage: no data for package (required ≥ ".to_string();
                    s.append(&min.fixed);
                    s.append("%)");
                    failures.push(s);
                },
            }
        }
    }
    assert(failures.deep_view() =~= before + coverage_failures(
        gate.deep_view(),
        line_coverage,
        enforce_coverage,
    ));
    PackageResult {
        name: gate.name.clone(),
        test_count,
        min_tests: gate.min_tests,
        line_coverage: match line_coverage {
            Some(m) => Some(m.percent),
            None => None,
        },
        min_line_coverage: copy_percent(&gate.min_line_coverage),
        failures,
    }
}

/// A package passes exactly where it has the tests it needs and, if coverage is enforced on it,
/// a percentage that is not below its floor.
pub proof fn law_pass_condition(
    gate: GateView,
    test_count: u32,
    coverage: Option<Measured>,
    enforce: bool,
)
    ensures
        (test_failures(gate, test_count) + coverage_failures(gate, coverage, enforce)).len() == 0
            <==> {
            &&& test_count >= gate.min_tests
            &&& enforce && gate.min_line_coverage is Some ==> coverage is Some
                && !coverage->0.below_floor
        },
{
}

/// More tests never turn a pass into a failure.
pub proof fn law_more_tests_never_hurt(
    gate: GateView,
    fewer: u32,
    more: u32,
    coverage: Option<Measured>,
    enforce: bool,
)
    requires
        fewer <= more,
        (test_failures(gate, fewer) + coverage_failures(gate, coverage, enforce)).len() == 0,
    ensures
        (test_failures(gate, more) + coverage_failures(gate, coverage, enforce)).len() == 0,
{
}

/// Full gate run summary.
#[derive(Debug, Clone)]
pub struct GateReport {
    /// Mode actually used (after auto resolution).
    pub effective_mode: GateMode,
    /// Whether the coverage tool was available.
    pub llvm_cov_available: bool,
    /// Per-package results (gated packages only).
    pub packages: Vec<PackageResult>,
}

/// Whether every result is a pass.
pub open spec fn all_passed(results: Seq<ResultView>) -> bool {
    forall|i: int| 0 <= i < results.len() ==> (#[trigger] results[i]).failures.len() == 0
}

/// Machine-readable package result for CI artifacts.
#[derive(Debug, Clone)]
pub struct PackageResultJson {
    /// Package name.
    pub name: String,
    /// Tests found.
    pub test_count: u32,
    /// Configured minimum tests.
    pub min_tests: u32,
    /// Line coverage percent when measured.
    pub line_coverage: Option<Percent>,
    /// Configured minimum line coverage.
    pub min_line_coverage: Option<Percent>,
    /// Whether this package passed.
    pub passed: bool,
    /// Failure reasons.
    pub failures: Vec<String>,
}

/// What a `PackageResultJson` holds.
pub struct ResultJsonView {
    pub result: ResultView,
    pub passed: bool,
}

impl DeepView for PackageResultJson {
    type V = ResultJsonView;

    open spec fn deep_view(&self) -> ResultJsonView {
        ResultJsonView {
            result: ResultView {
                name: self.name@,
                test_count: self.test_count,
                min_tests: self.min_tests,
                line_coverage: self.line_coverage.deep_view(),
                min_line_coverage: self.min_line_coverage.deep_view(),
                failures: self.failures.deep_view(),
            },
            passed: self.passed,
        }
    }
}

/// Machine-readable gate report (absolute floors).
#[derive(Debug, Clone)]
pub struct GateReportJson {
    /// Effective mode string (`tests` / `llvm-cov`).
    pub effective_mode: String,
    /// Whether the coverage tool was available.
    pub llvm_cov_available: bool,
    /// Overall pass.
    pub passed: bool,
    /// Policy note for consumers.
    pub policy: String,
    /// Per-package results.
    pub packages: Vec<PackageResultJson>,
}

fn copy_texts(v: &Vec<String>) -> (r: Vec<String>)
    ensures
        r.deep_view() == v.deep_view(),
{
    let mut out: Vec<String> = Vec::new();
    let mut i: usize = 0;
    while i < v.len()
        invariant
            i <= v@.len(),
            out@.len() == i,
            forall|k: int| 0 <= k < i ==> (#[trigger] out@[k])@ == v@[k]@,
        decreases v@.len() - i,
    {
        out.push(v[i].clone());
        i += 1;
    }
    assert(out.deep_view() =~= v.deep_view());
    out
}

/// A percentage next to its floor, as a report line shows it.
pub open spec fn lines_note(p: ResultView, mode: GateMode) -> Seq<char> {
    match p.min_line_coverage {
        None => Seq::empty(),
        Some(min) => match p.line_coverage {
            Some(got) => "  lines="@ + got.fixed + "% (min "@ + min.fixed + "%)"@,
            None => if mode == GateMode::LlvmCov {
                "  lines=n/a (min "@ + min.fixed + "%)"@
            } else {
                Seq::empty()
            },
        },
    }
}

/// The first line of a package in a report.
pub open spec fn result_line(p: ResultView, mode: GateMode) -> Seq<char> {
    "  ["@ + (if p.failures.len() == 0 {
        "PASS"@
    } else {
        "FAIL"@
    }) + "] "@ + p.name + "  tests="@ + decimal(p.test_count as nat) + "/"@ + decimal(
        p.min_tests as nat,
    ) + lines_note(p, mode) + "\n"@
}

/// The lines of the failures.
pub open spec fn failure_lines(failures: Seq<Seq<char>>) -> Seq<char>
    decreases failures.len(),
{
    if failures.len() == 0 {
        Seq::empty()
    } else {
        failure_lines(failures.drop_last()) + ("         - "@ + failures.last() + "\n"@)
    }
}

/// The lines of the packages.
pub open spec fn result_lines(results: Seq<ResultView>, mode: GateMode) -> Seq<char>
    decreases results.len(),
{
    if results.len() == 0 {
        Seq::empty()
    } else {
        result_lines(results.drop_last(), mode) + (result_line(results.last(), mode)
            + failure_lines(results.last().failures))
    }
}

/// The summary line of a mode.
pub open spec fn mode_line(mode: GateMode, available: bool) -> Seq<char> {
    "coverage-gate: mode="@ + mode.name() + " (llvm-cov available: "@ + (if available {
        "true"@
    } else {
        "false"@
    }) + ")\n"@
}

/// A report as text.
pub open spec fn rendered(
    mode: GateMode,
    available: bool,
    results: Seq<ResultView>,
) -> Seq<char> {
    if results.len() == 0 {
        mode_line(mode, available)
            + "No packages listed in allowlist — nothing to enforce (fail-open).\n"@
    } else {
        mode_line(mode, available) + result_lines(results, mode) + (if all_passed(results) {
            "coverage-gate: all gated packages passed\n"@
        } else {
            "coverage-gate: one or more packages failed\n"@
        })
    }
}

fn lines_note_of(p: &PackageResult, mode: GateMode) -> (r: String)
    ensures
        r@ == lines_note(p.deep_view(), mode),
{
    match &p.min_line_coverage {
        None => String::new(),
        Some(min) => match &p.line_coverage {
            Some(got) => {
                let mut s = "  lines=".to_string();
                s.append(&got.fixed);
                s.append("% (min ");
                s.append(&min.fixed);
                s.append("%)");
                s
            },
            None => {
                if mode == GateMode::LlvmCov {
                    let mut s = "  lines=n/a (min ".to_string();
                    s.append(&min.fixed);
                    s.append("%)");
                    s
                } else {
                    String::new()
                }
            },
        },
    }
}

fn result_line_of(p: &PackageResult, mode: GateMode) -> (r: String)
    ensures
        r@ == result_line(p.deep_view(), mode),
{
    let note = lines_note_of(p, mode);
    let mut s = "  [".to_string();
    s.append(if p.passed() { "PASS" } else { "FAIL" });
    s.append("] ");
    s.append(&p.name);
    s.append("  tests=");
    push_number(&mut s, p.test_count as u64);
    s.append("/");
    push_number(&mut s, p.min_tests as u64);
    s.append(&note);
    s.append("\n");
    s
}

fn failure_lines_of(failures: &Vec<String>) -> (r: String)
    ensures
        r@ == failure_lines(failures.deep_view()),
{
    let ghost all = failures.deep_view();
    let mut out = String::new();
    let mut i: usize = 0;
    assert(all.take(0) == Seq::<Seq<char>>::empty());
    while i < failures.len()
        invariant
            i <= failures@.len(),
            all == failures.deep_view(),
            out@ == failure_lines(all.take(i as int)),
        decreases failures@.len() - i,
    {
        assert(all.take(i + 1).drop_last() == all.take(i as int));
        let mut line = "         - ".to_string();
        line.append(&failures[i]);
        line.append("\n");
        out.append(&line);
        i += 1;
    }
    assert(all.take(all.len() as int) == all);
    out
}

impl GateReport {
    /// True when every gated package passed.
    pub fn passed(&self) -> (r: bool)
        ensures
            r == all_passed(self.packages.deep_view()),
    {
        let ghost all = self.packages.deep_view();
        let mut i: usize = 0;
        while i < self.packages.len()
            invariant
                i <= self.packages@.len(),
                all == self.packages.deep_view(),
                forall|k: int| 0 <= k < i ==> (#[trigger] all[k]).failures.len() == 0,
            decreases self.packages@.len() - i,
        {
            assert(all[i as int] == self.packages@[i as int].deep_view());
            if !self.packages[i].passed() {
                return false;
            }
            i += 1;
        }
        true
    }

    /// Absolute-floor results for CI artifacts.
    pub fn to_json_report(&self) -> (r: GateReportJson)
        ensures
            r.effective_mode@ == self.effective_mode.name(),
            r.llvm_cov_available == self.llvm_cov_available,
            r.passed == all_passed(self.packages.deep_view()),
            r.policy@
                == "absolute floors from allowlist.toml only; PR coverage delta / −1% regression compare deferred"@,
            r.packages.deep_view() == self.packages.deep_view().map_values(
                |p: ResultView| ResultJsonView { result: p, passed: p.failures.len() == 0 },
            ),
    {
        let ghost all = self.packages.deep_view();
        let mut packages: Vec<PackageResultJson> = Vec::new();
        let mut i: usize = 0;
        while i < self.packages.len()
            invariant
                i <= self.packages@.len(),
                all == self.packages.deep_view(),
                packages@.len() == i,
                forall|k: int|
                    0 <= k < i ==> (#[trigger] packages@[k]).deep_view() == (ResultJsonView {
                        result: all[k],
                        passed: all[k].failures.len() == 0,
                    }),
            decreases self.packages@.len() - i,
        {
            let p = &self.packages[i];
            assert(all[i as int] == p.deep_view());
            packages.push(
                PackageResultJson {
                    name: p.name.clone(),
                    test_count: p.test_count,
                    min_tests: p.min_tests,
                    line_coverage: copy_percent(&p.line_coverage),
                    min_line_coverage: copy_percent(&p.min_line_coverage),
                    passed: p.passed(),
                    failures: copy_texts(&p.failures),
                },
            );
            i += 1;
        }
        assert(packages.deep_view() =~= all.map_values(
            |p: ResultView| ResultJsonView { result: p, passed: p.failures.len() == 0 },
        ));
        GateReportJson {
            effective_mode: self.effective_mode.to_string(),
            llvm_cov_available: self.llvm_cov_available,
            passed: self.passed(),
            policy: "absolute floors from allowlist.toml only; PR coverage delta / −1% regression compare deferred".to_string(),
            packages,
        }
    }

    /// Render a human-readable summary for CI logs.
    pub fn render(&self) -> (r: String)
        ensures
            r@ == rendered(
                self.effective_mode,
                self.llvm_cov_available,
                self.packages.deep_view(),
            ),
    {
        let ghost all = self.packages.deep_view();
        let mut out = "coverage-gate: mode=".to_string();
        out.append(&self.effective_mode.to_string());
        out.append(" (llvm-cov available: ");
        out.append(if self.llvm_cov_available { "true" } else { "false" });
        out.append(")\n");
        assert(out@ == mode_line(self.effective_mode, self.llvm_cov_available));
        if self.packages.len() == 0 {
            out.append("No packages listed in allowlist — nothing to enforce (fail-open).\n");
            return out;
        }
        let mut body = String::new();
        let mut i: usize = 0;
        assert(all.take(0) == Seq::<ResultView>::empty());
        while i < self.packages.len()
            invariant
                i <= self.packages@.len(),
                all == self.packages.deep_view(),
                body@ == result_lines(all.take(i as int), self.effective_mode),
            decreases self.packages@.len() - i,
        {
            assert(all.take(i + 1).drop_last() == all.take(i as int));
            let p = &self.packages[i];
            assert(all[i as int] == p.deep_view());
            let mut line = result_line_of(p, self.effective_mode);
            line.append(&failure_lines_of(&p.failures));
            body.append(&line);
            i += 1;
        }
        assert(all.take(all.len() as int) == all);
        out.append(&body);
        if self.passed() {
            out.append("coverage-gate: all gated packages passed\n");
        } else {
            out.append("coverage-gate: one or more packages failed\n");
        }
        out
    }
}

/// A report on no package passes: nothing is enforced on what is not listed.
pub proof fn law_empty_report_passes()
    ensures
        all_passed(Seq::<ResultView>::empty()),
{
}

/// Characters of a package directory name.
pub open spec fn dir_char(c: char) -> bool {
    ('a' <= c && c <= 'z') || ('A' <= c && c <= 'Z') || ('0' <= c && c <= '9') || c == '-' || c
        == '_'
}

/// The file names that a report on one package leaves out: those of other packages, of apps and
/// of agents.
pub open spec fn ignore_regex(package: Seq<char>) -> Option<Seq<char>> {
    match after_prefix(package, "remotelink-"@) {
        Some(dir) => if dir.len() > 0 && forall|i: int|
            0 <= i < dir.len() ==> dir_char(#[trigger] dir[i]) {
            Some("(^|/)(packages/(?!"@ + dir + "/)|apps/|agents/)"@)
        } else {
            None
        },
        None => None,
    }
}

/// Ignore monorepo paths that are not this package's `packages/<dir>/` tree.
///
/// `remotelink-auth` → ignore `packages/(?!auth/)`, `apps/`, `agents/`.
pub fn ignore_filename_regex_for_package(package_name: &str) -> (r: Option<String>)
    ensures
        r.deep_view() == ignore_regex(package_name@),
{
    let name = chars_of(package_name);
    match strip_prefix(&name, "remotelink-") {
        None => None,
        Some(dir) => {
            assert(dir.deep_view() =~= dir@);
            if dir.len() == 0 {
                return None;
            }
            let mut i: usize = 0;
            while i < dir.len()
                invariant
                    i <= dir@.len(),
                    dir@.len() > 0,
                    after_prefix(package_name@, "remotelink-"@) == Some(dir@),
                    forall|k: int| 0 <= k < i ==> dir_char(#[trigger] dir@[k]),
                decreases dir@.len() - i,
            {
                let c = dir[i];
                if !(('a' <= c && c <= 'z') || ('A' <= c && c <= 'Z') || ('0' <= c && c <= '9')
                    || c == '-' || c == '_') {
                    assert(!dir_char(dir@[i as int]));
                    return None;
                }
                i += 1;
            }
            let mut s = "(^|/)(packages/(?!".to_string();
            push_chars(&mut s, dir);
            s.append("/)|apps/|agents/)");
            Some(s)
        },
    }
}

/// The arguments that exclude every other package of the workspace from a report.
pub open spec fn exclude_args(workspace: Seq<WorkspaceView>, package: Seq<char>) -> Seq<Seq<char>>
    decreases workspace.len(),
{
    if workspace.len() == 0 {
        Seq::empty()
    } else {
        let rest = exclude_args(workspace.drop_last(), package);
        if workspace.last().name == package {
            rest
        } else {
            rest.push("--exclude-from-report"@).push(workspace.last().name)
        }
    }
}

/// The arguments of `cargo` for a coverage report isolated to one package.
pub open spec fn cov_args(workspace: Seq<WorkspaceView>, package: Seq<char>) -> Seq<Seq<char>> {
    seq!["llvm-cov"@, "--package"@, package, "--json"@, "--summary-only"@] + exclude_args(
        workspace,
        package,
    ) + (match ignore_regex(package) {
        Some(re) => seq!["--ignore-filename-regex"@, re],
        None => Seq::empty(),
    })
}

/// The arguments of `cargo` for a coverage report isolated to one package: every other workspace
/// member is excluded, and non-package source paths are ignored where the layout is known.
pub fn llvm_cov_args(package_name: &str, workspace: &Vec<WorkspacePackage>) -> (r: Vec<String>)
    ensures
        r.deep_view() == cov_args(workspace.deep_view(), package_name@),
{
    let ghost all = workspace.deep_view();
    let mut out: Vec<String> = Vec::new();
    out.push("llvm-cov".to_string());
    out.push("--package".to_string());
    out.push(package_name.to_string());
    out.push("--json".to_string());
    out.push("--summary-only".to_string());
    let ghost head = seq!["llvm-cov"@, "--package"@, package_name@, "--json"@, "--summary-only"@];
    assert(out.deep_view() =~= head);
    let mut i: usize = 0;
    assert(all.take(0) == Seq::<WorkspaceView>::empty());
    assert(head + exclude_args(all.take(0), package_name@) =~= head);
    while i < workspace.len()
        invariant
            i <= workspace@.len(),
            all == workspace.deep_view(),
            out.deep_view() == head + exclude_args(all.take(i as int), package_name@),
        decreases workspace@.len() - i,
    {
        assert(all.take(i + 1).drop_last() == all.take(i as int));
        assert(all[i as int] == workspace@[i as int].deep_view());
        if !same(&workspace[i].name, package_name) {
            let ghost before = out.deep_view();
            out.push("--exclude-from-report".to_string());
            out.push(workspace[i].name.clone());
            assert(out.deep_view() =~= before.push("--exclude-from-report"@).push(
                all[i as int].name,
            ));
            assert(out.deep_view() =~= head + exclude_args(all.take(i + 1), package_name@));
        }
        i += 1;
    }
    assert(all.take(all.len() as int) == all);
    let ghost before = out.deep_view();
    if let Some(re) = ignore_filename_regex_for_package(package_name) {
        let ghost text = re@;
        out.push("--ignore-filename-regex".to_string());
        out.push(re);
        assert(out.deep_view() =~= before + seq!["--ignore-filename-regex"@, text]);
    }
    assert(out.deep_view() =~= cov_args(all, package_name@));
    out
}

/// The directory of the last package of this name.
pub open spec fn dir_of(workspace: Seq<WorkspaceView>, name: Seq<char>) -> Option<Seq<char>>
    decreases workspace.len(),
{
    if workspace.len() == 0 {
        None
    } else if workspace.last().name == name {
        Some(workspace.last().root_dir)
    } else {
        dir_of(workspace.drop_last(), name)
    }
}

fn find_dir(workspace: &Vec<WorkspacePackage>, name: &str) -> (r: Option<String>)
    ensures
        r.deep_view() == dir_of(workspace.deep_view(), name@),
{
    let ghost all = workspace.deep_view();
    let mut n: usize = workspace.len();
    assert(all.take(n as int) == all);
    while n > 0
        invariant
            n <= workspace@.len(),
            all == workspace.deep_view(),
            dir_of(all, name@) == dir_of(all.take(n as int), name@),
        decreases n,
    {
        assert(all.take(n as int).drop_last() == all.take(n - 1));
        assert(all[n - 1] == workspace@[n - 1].deep_view());
        if same(&workspace[n - 1].name, name) {
            return Some(workspace[n - 1].root_dir.clone());
        }
        n -= 1;
    }
    None
}

/// What a gate run needs next.
#[derive(Debug)]
pub enum GateAction {
    /// Count the tests of the package in this directory.
    CountTests { root_dir: String },
    /// Measure line coverage of a package: run `cargo` with these arguments.
    MeasureLines { package: String, args: Vec<String> },
    /// All gates are evaluated.
    Finished,
    /// The run ends with an error.
    Failed(GateError),
}

/// What a `GateAction` says.
pub enum ActionView {
    CountTests { root_dir: Seq<char> },
    MeasureLines { package: Seq<char>, args: Seq<Seq<char>> },
    Finished,
    Failed(GateErrorView),
}

impl DeepView for GateAction {
    type V = ActionView;

    open spec fn deep_view(&self) -> ActionView {
        match self {
            GateAction::CountTests { root_dir } => ActionView::CountTests { root_dir: root_dir@ },
            GateAction::MeasureLines { package, args } => ActionView::MeasureLines {
                package: package@,
                args: args.deep_view(),
            },
            GateAction::Finished => ActionView::Finished,
            GateAction::Failed(e) => ActionView::Failed(e.deep_view()),
        }
    }
}

/// A gate run: the packages of the allowlist are taken in order, each is counted, measured where
/// its floor is enforced, and evaluated.
#[derive(Debug)]
pub struct GateRun {
    effective_mode: GateMode,
    llvm_cov_available: bool,
    counted: Option<u32>,
    results: Vec<PackageResult>,
}

/// What a `GateRun` holds.
pub struct RunView {
    pub effective_mode: GateMode,
    pub llvm_cov_available: bool,
    /// The test count of the package in hand.
    pub counted: Option<u32>,
    pub results: Seq<ResultView>,
}

/// Whether line coverage of a package is to be measured.
pub open spec fn measures(mode: GateMode, gate: GateView) -> bool {
    mode == GateMode::LlvmCov && gate.min_line_coverage is Some
}

/// The message for a run that asks for coverage without the tool.
pub open spec fn no_tool_message() -> Seq<char> {
    "cargo-llvm-cov is not available (install: cargo install cargo-llvm-cov; rustup component add llvm-tools-preview). On Windows, use --mode tests for the test-presence gate; full line coverage is enforced on Linux CI."@
}

/// The failures of a package in a run. A measurement that failed is a failure of the package:
/// missing data never passes.
pub open spec fn outcome_failures(gate: GateView, outcome: CoverageOutcome) -> Seq<Seq<char>> {
    match outcome {
        CoverageOutcome::NotMeasured => Seq::empty(),
        CoverageOutcome::Failed(e) => seq!["line coverage: "@ + e@],
        CoverageOutcome::Measured(m) => match gate.min_line_coverage {
            Some(min) => if m.below_floor {
                seq![below_complaint(m.percent.fixed@, min.fixed)]
            } else {
                Seq::empty()
            },
            None => Seq::empty(),
        },
    }
}

/// The result of a package in a run.
pub open spec fn run_result(gate: GateView, test_count: u32, outcome: CoverageOutcome) -> ResultView {
    ResultView {
        name: gate.name,
        test_count,
        min_tests: gate.min_tests,
        line_coverage: match outcome {
            CoverageOutcome::Measured(m) => Some(m.percent.deep_view()),
            _ => None,
        },
        min_line_coverage: gate.min_line_coverage,
        failures: test_failures(gate, test_count) + outcome_failures(gate, outcome),
    }
}

fn run_result_of(gate: &PackageGate, test_count: u32, outcome: CoverageOutcome) -> (r:
    PackageResult)
    ensures
        r.deep_view() == run_result(gate.deep_view(), test_count, outcome),
{
    let mut failures = check_tests(gate, test_count);
    let ghost before = failures.deep_view();
    match &outcome {
        CoverageOutcome::NotMeasured => {},
        CoverageOutcome::Failed(e) => {
            failures.push("line coverage: ".to_string().concat(e));
        },
        CoverageOutcome::Measured(m) => {
            if let Some(min) = &gate.min_line_coverage {
                if m.below_floor {
                    failures.push(below_message(&m.percent, min));
                }
            }
        },
    }
    assert(failures.deep_view() =~= before + outcome_failures(gate.deep_view(), outcome));
    PackageResult {
        name: gate.name.clone(),
        test_count,
        min_tests: gate.min_tests,
        line_coverage: match outcome {
            CoverageOutcome::Measured(m) => Some(m.percent),
            _ => None,
        },
        min_line_coverage: copy_percent(&gate.min_line_coverage),
        failures,
    }
}

impl DeepView for GateRun {
    type V = RunView;

    closed spec fn deep_view(&self) -> RunView {
        RunView {
            effective_mode: self.effective_mode,
            llvm_cov_available: self.llvm_cov_available,
            counted: self.counted,
            results: self.results.deep_view(),
        }
    }
}

impl RunView {
    /// What the run needs next.
    pub open spec fn next(self, gates: Seq<GateView>, workspace: Seq<WorkspaceView>) -> ActionView {
        let i = self.results.len() as int;
        if i >= gates.len() {
            ActionView::Finished
        } else if self.counted is Some {
            ActionView::MeasureLines {
                package: gates[i].name,
                args: cov_args(workspace, gates[i].name),
            }
        } else {
            match dir_of(workspace, gates[i].name) {
                Some(root_dir) => ActionView::CountTests { root_dir },
                None => ActionView::Failed(GateErrorView::MissingPackage(gates[i].name)),
            }
        }
    }

    /// The run after the tests of the package in hand were counted.
    pub open spec fn after_tests(self, gates: Seq<GateView>, test_count: u32) -> RunView {
        let gate = gates[self.results.len() as int];
        if measures(self.effective_mode, gate) {
            RunView { counted: Some(test_count), ..self }
        } else {
            RunView {
                counted: None,
                results: self.results.push(
                    run_result(gate, test_count, CoverageOutcome::NotMeasured),
                ),
                ..self
            }
        }
    }

    /// The run after the package in hand was measured.
    pub open spec fn after_lines(self, gates: Seq<GateView>, outcome: CoverageOutcome) -> RunView {
        let gate = gates[self.results.len() as int];
        RunView {
            counted: None,
            results: self.results.push(run_result(gate, self.counted->0, outcome)),
            ..self
        }
    }

    /// The results are those of the first gates, in their order.
    pub open spec fn follows(self, gates: Seq<GateView>) -> bool {
        &&& self.results.len() <= gates.len()
        &&& self.counted is Some ==> self.results.len() < gates.len()
        &&& forall|i: int|
            0 <= i < self.results.len() ==> (#[trigger] self.results[i]).name == gates[i].name
                && self.results[i].min_tests == gates[i].min_tests
    }
}

/// A run reports the packages of the allowlist in their order: each event keeps the results in
/// step with the gates.
pub proof fn law_results_follow_allowlist(
    run: RunView,
    gates: Seq<GateView>,
    test_count: u32,
    outcome: CoverageOutcome,
)
    requires
        run.follows(gates),
        run.results.len() < gates.len(),
    ensures
        run.after_tests(gates, test_count).follows(gates),
        run.counted is Some ==> run.after_lines(gates, outcome).follows(gates),
{
}

impl GateRun {
    /// Begins a run. A request for coverage needs the tool.
    pub fn start(mode: GateMode, llvm_available: bool) -> (r: Result<GateRun, GateError>)
        ensures
            if mode == GateMode::LlvmCov && !llvm_available {
                r matches Err(e) && e.deep_view() == GateErrorView::Tool(no_tool_message())
            } else {
                r matches Ok(run) && run.deep_view() == (RunView {
                    effective_mode: effective_mode(mode, llvm_available),
                    llvm_cov_available: llvm_available,
                    counted: None,
                    results: Seq::empty(),
                })
            },
    {
        if mode == GateMode::LlvmCov && !llvm_available {
            return Err(
                GateError::Tool(
                    "cargo-llvm-cov is not available (install: cargo install cargo-llvm-cov; rustup component add llvm-tools-preview). On Windows, use --mode tests for the test-presence gate; full line coverage is enforced on Linux CI.".to_string(),
                ),
            );
        }
        let results: Vec<PackageResult> = Vec::new();
        assert(results.deep_view() =~= Seq::empty());
        Ok(
            GateRun {
                effective_mode: resolve_mode(mode, llvm_available),
                llvm_cov_available: llvm_available,
                counted: None,
                results,
            },
        )
    }

    /// What the run needs next.
    pub fn next(&self, allowlist: &Allowlist, workspace: &Vec<WorkspacePackage>) -> (r: GateAction)
        ensures
            r.deep_view() == self.deep_view().next(
                allowlist.package.deep_view(),
                workspace.deep_view(),
            ),
    {
        let i: usize = self.results.len();
        assert(self.results.deep_view().len() == i);
        assert(allowlist.package.deep_view().len() == allowlist.package@.len());
        if i >= allowlist.package.len() {
            return GateAction::Finished;
        }
        let gate = &allowlist.package[i];
        assert(allowlist.package.deep_view()[i as int] == gate.deep_view());
        if self.counted.is_some() {
            return GateAction::MeasureLines {
                package: gate.name.clone(),
                args: llvm_cov_args(&gate.name, workspace),
            };
        }
        match find_dir(workspace, &gate.name) {
            Some(root_dir) => GateAction::CountTests { root_dir },
            None => GateAction::Failed(GateError::MissingPackage(gate.name.clone())),
        }
    }

    /// The tests of the package in hand were counted. Where its coverage is not measured it is
    /// evaluated at once.
    pub fn tests_counted(&mut self, allowlist: &Allowlist, test_count: u32)
        requires
            old(self).deep_view().results.len() < allowlist.package@.len(),
        ensures
            final(self).deep_view() == old(self).deep_view().after_tests(
                allowlist.package.deep_view(),
                test_count,
            ),
    {
        assert(self.results.deep_view().len() == self.results@.len());
        let i: usize = self.results.len();
        let gate = &allowlist.package[i];
        assert(allowlist.package.deep_view()[i as int] == gate.deep_view());
        if self.effective_mode == GateMode::LlvmCov && gate.min_line_coverage.is_some() {
            self.counted = Some(test_count);
        } else {
            let ghost before = self.results.deep_view();
            self.counted = None;
            let result = run_result_of(gate, test_count, CoverageOutcome::NotMeasured);
            let ghost view = result.deep_view();
            self.results.push(result);
            assert(self.results.deep_view() =~= before.push(view));
        }
    }

    /// Coverage of the package in hand was measured, or could not be.
    pub fn lines_measured(&mut self, allowlist: &Allowlist, outcome: CoverageOutcome)
        requires
            old(self).deep_view().results.len() < allowlist.package@.len(),
            old(self).deep_view().counted is Some,
        ensures
            final(self).deep_view() == old(self).deep_view().after_lines(
                allowlist.package.deep_view(),
                outcome,
            ),
    {
        assert(self.results.deep_view().len() == self.results@.len());
        let i: usize = self.results.len();
        let gate = &allowlist.package[i];
        assert(allowlist.package.deep_view()[i as int] == gate.deep_view());
        if let Some(test_count) = self.counted {
            let ghost before = self.results.deep_view();
            self.counted = None;
            let result = run_result_of(gate, test_count, outcome);
            let ghost view = result.deep_view();
            self.results.push(result);
            assert(self.results.deep_view() =~= before.push(view));
        }
    }

    /// The report of a run.
    pub fn report(self) -> (r: GateReport)
        ensures
            r.effective_mode == self.deep_view().effective_mode,
            r.llvm_cov_available == self.deep_view().llvm_cov_available,
            r.packages.deep_view() == self.deep_view().results,
    {
        GateReport {
            effective_mode: self.effective_mode,
            llvm_cov_available: self.llvm_cov_available,
            packages: self.results,
        }
    }
}

/// Where a floor is enforced, a package passes only on a percentage that is not below it: a
/// measurement that failed never counts as a pass.
pub proof fn law_missing_coverage_fails(gate: GateView, test_count: u32, outcome: CoverageOutcome)
    requires
        gate.min_line_coverage is Some,
        outcome !is NotMeasured,
        run_result(gate, test_count, outcome).failures.len() == 0,
    ensures
        outcome matches CoverageOutcome::Measured(m) && !m.below_floor,
{
}

/// Left to itself a run measures coverage exactly where the tool is there; what was asked for by
/// name stays.
pub proof fn law_auto_measures_where_it_can(available: bool)
    ensures
        effective_mode(GateMode::Auto, available) == GateMode::LlvmCov <==> available,
        effective_mode(GateMode::Auto, available) == GateMode::Tests <==> !available,
        effective_mode(GateMode::Tests, available) == GateMode::Tests,
        effective_mode(GateMode::LlvmCov, available) == GateMode::LlvmCov,
{
}

/// A package of a run passes exactly where it has the tests that it needs and, if it was measured, a
/// percentage that is there and not below its floor. Its result carries what was counted and
/// measured next to what was required.
pub proof fn law_run_judges_by_floors(gate: GateView, test_count: u32, outcome: CoverageOutcome)
    ensures
        ({
            let r = run_result(gate, test_count, outcome);
            &&& r.failures.len() == 0 <==> test_count >= gate.min_tests && !(outcome is Failed)
                && (outcome matches CoverageOutcome::Measured(m) ==> gate.min_line_coverage is None
                || !m.below_floor)
            &&& r.name == gate.name && r.test_count == test_count && r.min_tests == gate.min_tests
                && r.min_line_coverage == gate.min_line_coverage
            &&& outcome matches CoverageOutcome::Measured(m) ==> r.line_coverage == Some(
                m.percent.deep_view(),
            )
            &&& !(outcome is Measured) ==> r.line_coverage is None
        }),
{
}

/// Coverage of a package is measured exactly where the run measures and the package has a floor.
/// Then its count is kept until the measurement; otherwise the package is judged at once, by what
/// was counted. Results that are there already stay.
pub proof fn law_count_leads_to_one_result(
    run: RunView,
    gates: Seq<GateView>,
    test_count: u32,
    outcome: CoverageOutcome,
)
    requires
        run.results.len() < gates.len(),
    ensures
        ({
            let n = run.results.len();
            let gate = gates[n as int];
            let measured = run.effective_mode == GateMode::LlvmCov && gate.min_line_coverage is Some;
            let counted = run.after_tests(gates, test_count);
            let judged = run.after_lines(gates, outcome);
            &&& measured ==> counted.counted == Some(test_count) && counted.results == run.results
            &&& !measured ==> counted.counted is None && counted.results.len() == n + 1
                && counted.results.take(n as int) == run.results && counted.results.last().name
                == gate.name && counted.results.last().test_count == test_count
                && counted.results.last().line_coverage is None
            &&& run.counted is Some ==> judged.counted is None && judged.results.len() == n + 1
                && judged.results.take(n as int) == run.results && judged.results.last().name
                == gate.name && Some(judged.results.last().test_count) == run.counted
            &&& counted.effective_mode == run.effective_mode && judged.effective_mode
                == run.effective_mode
        }),
{
    let n = run.results.len() as int;
    assert(run.after_tests(gates, test_count).results.take(n) =~= run.results);
    assert(run.after_lines(gates, outcome).results.take(n) =~= run.results);
}

/// A run asks for one thing after the other: it is finished exactly when every gate has its result;
/// a package is measured exactly when its tests were counted; a package that the workspace does not
/// hold ends the run, and any other is counted in a directory that the workspace has for it.
pub proof fn law_run_asks_for_what_is_missing(
    run: RunView,
    gates: Seq<GateView>,
    workspace: Seq<WorkspaceView>,
)
    ensures
        ({
            let n = run.results.len() as int;
            let next = run.next(gates, workspace);
            let held = exists|i: int|
                0 <= i < workspace.len() && (#[trigger] workspace[i]).name == gates[n].name;
            &&& next is Finished <==> n >= gates.len()
            &&& n < gates.len() ==> {
                &&& next is MeasureLines <==> run.counted is Some
                &&& run.counted is None && !held ==> next == ActionView::Failed(
                    GateErrorView::MissingPackage(gates[n].name),
                )
                &&& run.counted is None && held ==> (next matches ActionView::CountTests { root_dir }
                    && exists|i: int|
                    0 <= i < workspace.len() && (#[trigger] workspace[i]).name == gates[n].name
                        && workspace[i].root_dir == root_dir)
                &&& next matches ActionView::MeasureLines { package, args } ==> package
                    == gates[n].name && args.len() >= 5 && args[0] == "llvm-cov"@ && args[1]
                    == "--package"@ && args[2] == gates[n].name
            }
        }),
{
    let n = run.results.len() as int;
    if n < gates.len() {
        lemma_dir_of(workspace, gates[n].name);
    }
}

proof fn lemma_dir_of(workspace: Seq<WorkspaceView>, name: Seq<char>)
    ensures
        dir_of(workspace, name) is Some <==> exists|i: int|
            0 <= i < workspace.len() && (#[trigger] workspace[i]).name == name,
        dir_of(workspace, name) matches Some(d) ==> exists|i: int|
            0 <= i < workspace.len() && (#[trigger] workspace[i]).name == name
                && workspace[i].root_dir == d,
    decreases workspace.len(),
{
    if workspace.len() > 0 {
        let rest = workspace.drop_last();
        lemma_dir_of(rest, name);
        if workspace.last().name == name {
            assert(workspace[workspace.len() - 1].name == name);
        } else {
            if exists|i: int| 0 <= i < workspace.len() && (#[trigger] workspace[i]).name == name {
                let i = choose|i: int|
                    0 <= i < workspace.len() && (#[trigger] workspace[i]).name == name;
                assert(rest[i].name == name);
            }
            if let Some(d) = dir_of(rest, name) {
                let i = choose|i: int|
                    0 <= i < rest.len() && (#[trigger] rest[i]).name == name && rest[i].root_dir
                        == d;
                assert(workspace[i].name == name && workspace[i].root_dir == d);
            }
        }
    }
}

/// A coverage report is isolated to its package: every other package of the workspace is excluded by
/// name, and the package itself never is.
pub proof fn law_report_excludes_all_others(workspace: Seq<WorkspaceView>, package: Seq<char>)
    ensures
        ({
            let args = exclude_args(workspace, package);
            &&& args.len() % 2 == 0
            &&& forall|j: int|
                0 <= j < args.len() / 2 ==> #[trigger] args[2 * j] == "--exclude-from-report"@
                    && args[2 * j + 1] != package
            &&& forall|i: int|
                0 <= i < workspace.len() && (#[trigger] workspace[i]).name != package ==> exists|
                    j: int,
                |
                    0 <= j < args.len() / 2 && args[2 * j + 1] == workspace[i].name && (
                    #[trigger] args[2 * j]) == "--exclude-from-report"@
        }),
    decreases workspace.len(),
{
    if workspace.len() > 0 {
        let first = workspace.drop_last();
        law_report_excludes_all_others(first, package);
        let before = exclude_args(first, package);
        let args = exclude_args(workspace, package);
        let half = before.len() / 2;
        assert forall|j: int| 0 <= j < args.len() / 2 implies #[trigger] args[2 * j]
            == "--exclude-from-report"@ && args[2 * j + 1] != package by {
            if j < half {
                assert(args[2 * j] == before[2 * j]);
                assert(args[2 * j + 1] == before[2 * j + 1]);
            }
        }
        assert forall|i: int|
            0 <= i < workspace.len() && (#[trigger] workspace[i]).name != package implies exists|
                j: int,
            |
            0 <= j < args.len() / 2 && args[2 * j + 1] == workspace[i].name && (
            #[trigger] args[2 * j]) == "--exclude-from-report"@ by {
            if i < first.len() {
                assert(first[i] == workspace[i]);
                let j = choose|j: int|
                    0 <= j < before.len() / 2 && before[2 * j + 1] == workspace[i].name && (
                    #[trigger] before[2 * j]) == "--exclude-from-report"@;
                assert(args[2 * j] == before[2 * j]);
                assert(args[2 * j + 1] == before[2 * j + 1]);
            } else {
                assert(args[2 * (half as int)] == "--exclude-from-report"@);
                assert(args[2 * (half as int) + 1] == workspace[i].name);
            }
        }
    }
}

/// A report tells the truth about each package and about all of them: a package's line says `PASS`
/// exactly where it has no failures, and the report ends by saying whether all passed.
pub proof fn law_report_tells_the_verdict(
    mode: GateMode,
    available: bool,
    results: Seq<ResultView>,
    i: int,
)
    requires
        0 <= i < results.len(),
    ensures
        results[i].failures.len() == 0 ==> ("  [PASS] "@ + results[i].name).is_prefix_of(
            result_line(results[i], mode),
        ),
        results[i].failures.len() > 0 ==> ("  [FAIL] "@ + results[i].name).is_prefix_of(
            result_line(results[i], mode),
        ),
        all_passed(results) ==> "coverage-gate: all gated packages passed\n"@.is_suffix_of(
            rendered(mode, available, results),
        ),
        results[i].failures.len() > 0
            ==> "coverage-gate: one or more packages failed\n"@.is_suffix_of(
            rendered(mode, available, results),
        ),
        occurs_in(result_line(results[i], mode), rendered(mode, available, results)),
{
    reveal_strlit("  [PASS] ");
    reveal_strlit("  [FAIL] ");
    reveal_strlit("  [");
    reveal_strlit("] ");
    reveal_strlit("PASS");
    reveal_strlit("FAIL");
    let p = results[i];
    let line = result_line(p, mode);
    let pass = "  [PASS] "@ + p.name;
    let fail = "  [FAIL] "@ + p.name;
    assert("  ["@ + "PASS"@ + "] "@ =~= "  [PASS] "@);
    assert("  ["@ + "FAIL"@ + "] "@ =~= "  [FAIL] "@);
    if p.failures.len() == 0 {
        assert(line.subrange(0, pass.len() as int) =~= pass);
    } else {
        assert(line.subrange(0, fail.len() as int) =~= fail);
    }
    let good = "coverage-gate: all gated packages passed\n"@;
    let bad = "coverage-gate: one or more packages failed\n"@;
    let text = rendered(mode, available, results);
    if all_passed(results) {
        assert(text.subrange(text.len() - good.len(), text.len() as int) =~= good);
    }
    if p.failures.len() > 0 {
        assert(!all_passed(results));
        assert(text.subrange(text.len() - bad.len(), text.len() as int) =~= bad);
    }
    lemma_line_occurs(results, mode, i);
    let body = result_lines(results, mode);
    let k = choose|k: int|
        0 <= k <= body.len() - line.len() && #[trigger] body.subrange(k, k + line.len()) == line;
    let head = mode_line(mode, available).len() as int;
    assert(text.subrange(head + k, head + k + line.len()) =~= body.subrange(k, k + line.len()));
}

proof fn lemma_line_occurs(results: Seq<ResultView>, mode: GateMode, i: int)
    requires
        0 <= i < results.len(),
    ensures
        occurs_in(result_line(results[i], mode), result_lines(results, mode)),
    decreases results.len(),
{
    let line = result_line(results[i], mode);
    let body = result_lines(results, mode);
    let before = result_lines(results.drop_last(), mode);
    if i == results.len() - 1 {
        let k = before.len() as int;
        assert(body.subrange(k, k + line.len()) =~= line);
    } else {
        assert(results.drop_last()[i] == results[i]);
        lemma_line_occurs(results.drop_last(), mode, i);
        let k = choose|k: int|
            0 <= k <= before.len() - line.len() && #[trigger] before.subrange(k, k + line.len())
                == line;
        assert(body.subrange(k, k + line.len()) =~= before.subrange(k, k + line.len()));
    }
}

/// Every package of the metadata is taken over, under its name and with the directory of its
/// manifest; one that lacks its name or its manifest fails the whole.
pub proof fn law_metadata_packages_are_taken_over(
    platform: Platform,
    list: Seq<JsonView>,
    i: int,
)
    requires
        0 <= i < list.len(),
    ensures
        match packages_of(platform, list) {
            Ok(all) => {
                &&& all.len() == list.len()
                &&& member_text(list[i], "name"@) == Some(all[i].name)
                &&& member_text(list[i], "manifest_path"@) matches Some(m) && path_parent(
                    platform,
                    m,
                ) == Some(all[i].root_dir)
            },
            Err(_) => exists|k: int|
                0 <= k < list.len() && (member_text(#[trigger] list[k], "name"@) is None
                    || member_text(list[k], "manifest_path"@) is None || path_parent(
                    platform,
                    member_text(list[k], "manifest_path"@)->0,
                ) is None),
        },
    decreases list.len(),
{
    let rest = list.drop_last();
    if i < rest.len() {
        law_metadata_packages_are_taken_over(platform, rest, i);
    } else if rest.len() > 0 {
        law_metadata_packages_are_taken_over(platform, rest, 0);
    }
    if packages_of(platform, list) is Err {
        if packages_of(platform, rest) is Err {
            if rest.len() > 0 {
                let k = choose|k: int|
                    0 <= k < rest.len() && (member_text(#[trigger] rest[k], "name"@) is None
                        || member_text(rest[k], "manifest_path"@) is None || path_parent(
                        platform,
                        member_text(rest[k], "manifest_path"@)->0,
                    ) is None);
                assert(rest[k] == list[k]);
            }
        } else {
            let k = list.len() - 1;
            assert(list[k] == list.last());
        }
    } else {
        assert(rest.len() > 0 ==> packages_of(platform, rest) is Ok);
        assert(packages_of(platform, Seq::<JsonView>::empty()) is Ok);
    }
}

/// A product package is measured by its own directory alone; a name that is none, or that could mean
/// something else in a pattern, is not measured that way at all.
pub proof fn law_pattern_names_the_package(dir: Seq<char>, k: int)
    ensures
        dir.len() > 0 && (forall|i: int| 0 <= i < dir.len() ==> dir_char(#[trigger] dir[i])) ==> (
        ignore_regex("remotelink-"@ + dir) matches Some(p) && occurs_in("(?!"@ + dir + "/)"@, p)),
        0 <= k < dir.len() && !dir_char(dir[k]) ==> ignore_regex("remotelink-"@ + dir) is None,
        ignore_regex("remotelink-"@) is None,
        !"remotelink-"@.is_prefix_of(dir) ==> ignore_regex(dir) is None,
{
    let name = "remotelink-"@ + dir;
    assert("remotelink-"@.is_prefix_of(name));
    assert(name.skip("remotelink-"@.len() as int) =~= dir);
    let bare = "remotelink-"@;
    assert(bare.skip(bare.len() as int) =~= Seq::<char>::empty());
    reveal_strlit("(^|/)(packages/(?!");
    reveal_strlit("(^|/)(packages/");
    reveal_strlit("(?!");
    reveal_strlit("/)|apps/|agents/)");
    reveal_strlit("/)");
    reveal_strlit("|apps/|agents/)");
    let inner = "(?!"@ + dir + "/)"@;
    lemma_occurs_between("(^|/)(packages/"@, inner, "|apps/|agents/)"@);
    assert("(^|/)(packages/(?!"@ =~= "(^|/)(packages/"@ + "(?!"@);
    assert("/)|apps/|agents/)"@ =~= "/)"@ + "|apps/|agents/)"@);
    assert("(^|/)(packages/(?!"@ + dir + "/)|apps/|agents/)"@ =~= "(^|/)(packages/"@ + inner
        + "|apps/|agents/)"@);
}

/// The report tells in which mode it was made and whether lines could be measured.
pub proof fn law_report_tells_its_mode(mode: GateMode, available: bool)
    ensures
        occurs_in(mode.name(), mode_line(mode, available)),
        available ==> occurs_in("true"@, mode_line(mode, available)),
        !available ==> occurs_in("false"@, mode_line(mode, available)),
{
    let word = if available {
        "true"@
    } else {
        "false"@
    };
    let head = "coverage-gate: mode="@;
    let mid = " (llvm-cov available: "@;
    lemma_occurs_between(head, mode.name(), mid + word + ")\n"@);
    assert(mode_line(mode, available) =~= head + mode.name() + (mid + word + ")\n"@));
    lemma_occurs_between(head + mode.name() + mid, word, ")\n"@);
}

} // verus!
