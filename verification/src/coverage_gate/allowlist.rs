//! Coverage-gate configuration.

use vstd::prelude::*;
use crate::text::{chars_of, decimal, push_number, same, trim, trimmed};

verus! {

/// Root allowlist / gate configuration document.
#[derive(Debug, Clone, PartialEq)]
pub struct Allowlist {
    /// Format version for forward compatibility.
    pub schema_version: u32,
    /// Packages subject to fail-closed gates. Empty = no packages gated.
    pub package: Vec<PackageGate>,
    /// Documented intentional public-API gaps (informational).
    pub gap: Vec<GapEntry>,
}

/// The format version of a document that names none.
pub fn default_schema_version() -> (r: u32)
    ensures
        r == 1,
{
    1
}

/// A percentage as an allowlist states it: the bits of its double-precision form, whether it lies in
/// 0..=100, and its texts.
#[derive(Debug, Clone, PartialEq)]
pub struct Percent {
    /// Double-precision bits.
    pub bits: u64,
    /// Lies in 0..=100.
    pub in_range: bool,
    /// As short as it can be written.
    pub plain: String,
    /// With two decimal places.
    pub fixed: String,
}

/// What a `Percent` holds.
pub struct PercentView {
    pub bits: u64,
    pub in_range: bool,
    pub plain: Seq<char>,
    pub fixed: Seq<char>,
}

impl DeepView for Percent {
    type V = PercentView;

    open spec fn deep_view(&self) -> PercentView {
        PercentView {
            bits: self.bits,
            in_range: self.in_range,
            plain: self.plain@,
            fixed: self.fixed@,
        }
    }
}

impl Percent {
    /// The same percentage again.
    pub fn copied(&self) -> (r: Percent)
        ensures
            r.deep_view() == self.deep_view(),
    {
        Percent {
            bits: self.bits,
            in_range: self.in_range,
            plain: self.plain.clone(),
            fixed: self.fixed.clone(),
        }
    }
}

/// An optional percentage again.
pub fn copy_percent(p: &Option<Percent>) -> (r: Option<Percent>)
    ensures
        r.deep_view() == p.deep_view(),
{
    match p {
        Some(x) => Some(x.copied()),
        None => None,
    }
}

/// Fail-closed gate for one Cargo package.
#[derive(Debug, Clone, PartialEq)]
pub struct PackageGate {
    /// Cargo package name (e.g. `remotelink-auth`).
    pub name: String,
    /// Minimum number of test functions (`#[test]`, `#[tokio::test]`, …).
    pub min_tests: u32,
    /// Minimum line coverage percent when coverage is measured.
    ///
    /// `None` skips the numeric check for this package (the test-presence gate still applies).
    pub min_line_coverage: Option<Percent>,
}

/// What a `PackageGate` holds.
pub struct GateView {
    pub name: Seq<char>,
    pub min_tests: u32,
    pub min_line_coverage: Option<PercentView>,
}

impl DeepView for PackageGate {
    type V = GateView;

    open spec fn deep_view(&self) -> GateView {
        GateView {
            name: self.name@,
            min_tests: self.min_tests,
            min_line_coverage: self.min_line_coverage.deep_view(),
        }
    }
}

/// Intentional coverage gap.
#[derive(Debug, Clone, PartialEq, Eq)]
pub struct GapEntry {
    /// Cargo package / crate name.
    pub crate_name: String,
    /// Item path or glob (e.g. `dxgi_capture::*`).
    pub item: String,
    /// Why this gap is accepted.
    pub reason: String,
}

/// What a `GapEntry` holds.
pub struct GapView {
    pub crate_name: Seq<char>,
    pub item: Seq<char>,
    pub reason: Seq<char>,
}

impl DeepView for GapEntry {
    type V = GapView;

    open spec fn deep_view(&self) -> GapView {
        GapView { crate_name: self.crate_name@, item: self.item@, reason: self.reason@ }
    }
}

/// Errors loading or validating the allowlist.
#[derive(Debug)]
pub enum AllowlistError {
    /// Filesystem I/O.
    Io(String),
    /// Parse failure.
    Parse(String),
    /// Logical validation failure.
    Validate(String),
}

/// What an `AllowlistError` says.
pub enum AllowlistErrorView {
    Io(Seq<char>),
    Parse(Seq<char>),
    Validate(Seq<char>),
}

impl DeepView for AllowlistError {
    type V = AllowlistErrorView;

    open spec fn deep_view(&self) -> AllowlistErrorView {
        match self {
            AllowlistError::Io(e) => AllowlistErrorView::Io(e@),
            AllowlistError::Parse(e) => AllowlistErrorView::Parse(e@),
            AllowlistError::Validate(e) => AllowlistErrorView::Validate(e@),
        }
    }
}

impl AllowlistError {
    /// The error as a message.
    pub fn to_string(&self) -> (r: String)
        ensures
            r@ == match self.deep_view() {
                AllowlistErrorView::Io(e) => "io error: "@ + e,
                AllowlistErrorView::Parse(e) => "parse error: "@ + e,
                AllowlistErrorView::Validate(e) => "validation error: "@ + e,
            },
    {
        match self {
            AllowlistError::Io(e) => "io error: ".to_string().concat(e),
            AllowlistError::Parse(e) => "parse error: ".to_string().concat(e),
            AllowlistError::Validate(e) => "validation error: ".to_string().concat(e),
        }
    }
}

/// A text that is empty or white space.
pub open spec fn blank(s: Seq<char>) -> bool {
    trimmed(s).len() == 0
}

fn is_blank(s: &str) -> (r: bool)
    ensures
        r == blank(s@),
{
    let c = chars_of(s);
    trim(&c).len() == 0
}

/// What is wrong with gate `i`, if anything: a blank name, a name that an earlier gate has, or a
/// coverage floor that is no percentage.
pub open spec fn gate_fault(gates: Seq<GateView>, i: int) -> Option<Seq<char>> {
    let g = gates[i];
    if blank(g.name) {
        Some("package.name must not be empty"@)
    } else if exists|j: int| 0 <= j < i && #[trigger] gates[j].name == g.name {
        Some("duplicate package gate: "@ + g.name)
    } else {
        match g.min_line_coverage {
            Some(p) => if p.in_range {
                None
            } else {
                Some(
                    "package "@ + g.name + ": min_line_coverage must be in 0..=100, got "@
                        + p.plain,
                )
            },
            None => None,
        }
    }
}

/// The first fault among the gates from `i` on.
pub open spec fn gates_fault(gates: Seq<GateView>, i: int) -> Option<Seq<char>>
    decreases gates.len() - i,
{
    if i >= gates.len() {
        None
    } else {
        match gate_fault(gates, i) {
            Some(e) => Some(e),
            None => gates_fault(gates, i + 1),
        }
    }
}

/// The complaint that a field of gap `i` is blank.
pub open spec fn gap_complaint(i: int, field: Seq<char>) -> Seq<char> {
    "gap["@ + decimal(i as nat) + "]."@ + field + " must not be empty"@
}

/// What is wrong with gap `i`, if anything: a field that is blank.
pub open spec fn gap_fault(gaps: Seq<GapView>, i: int) -> Option<Seq<char>> {
    if blank(gaps[i].crate_name) {
        Some(gap_complaint(i, "crate"@))
    } else if blank(gaps[i].item) {
        Some(gap_complaint(i, "item"@))
    } else if blank(gaps[i].reason) {
        Some(gap_complaint(i, "reason"@))
    } else {
        None
    }
}

/// The first fault among the gaps from `i` on.
pub open spec fn gaps_fault(gaps: Seq<GapView>, i: int) -> Option<Seq<char>>
    decreases gaps.len() - i,
{
    if i >= gaps.len() {
        None
    } else {
        match gap_fault(gaps, i) {
            Some(e) => Some(e),
            None => gaps_fault(gaps, i + 1),
        }
    }
}

fn gap_message(i: usize, field: &str) -> (r: String)
    ensures
        r@ == gap_complaint(i as int, field@),
{
    let mut out = "gap[".to_string();
    push_number(&mut out, i as u64);
    out.append("].");
    out.append(field);
    out.append(" must not be empty");
    out
}

impl Allowlist {
    /// What is wrong with the document, if anything. The first fault is the one reported: the
    /// version, then the gates in order, then the gaps in order.
    pub open spec fn fault(&self) -> Option<Seq<char>> {
        if self.schema_version == 0 {
            Some("schema_version must be >= 1"@)
        } else {
            match gates_fault(self.package.deep_view(), 0) {
                Some(e) => Some(e),
                None => gaps_fault(self.gap.deep_view(), 0),
            }
        }
    }

    /// Takes over a document that was read, or the error that reading it gave, and validates it.
    pub fn accept(parsed: Result<Allowlist, String>) -> (r: Result<Allowlist, AllowlistError>)
        ensures
            match parsed {
                Err(e) => r matches Err(x) && x.deep_view() == AllowlistErrorView::Parse(e@),
                Ok(al) => match al.fault() {
                    Some(e) => r matches Err(x) && x.deep_view() == AllowlistErrorView::Validate(e),
                    None => r matches Ok(out) && out == al,
                },
            },
    {
        match parsed {
            Err(e) => Err(AllowlistError::Parse(e)),
            Ok(al) => match al.validate() {
                Ok(()) => Ok(al),
                Err(e) => Err(e),
            },
        }
    }

    fn check_gate(&self, i: usize) -> (r: Option<String>)
        requires
            i < self.package@.len(),
        ensures
            r.deep_view() == gate_fault(self.package.deep_view(), i as int),
    {
        let ghost gates = self.package.deep_view();
        let pkg = &self.package[i];
        if is_blank(&pkg.name) {
            return Some("package.name must not be empty".to_string());
        }
        let mut j: usize = 0;
        while j < i
            invariant
                j <= i < self.package@.len(),
                gates == self.package.deep_view(),
                pkg.name@ == gates[i as int].name,
                !blank(pkg.name@),
                forall|k: int| 0 <= k < j ==> (#[trigger] gates[k]).name != pkg.name@,
            decreases i - j,
        {
            assert(gates[j as int].name == self.package@[j as int].name@);
            if same(&self.package[j].name, &pkg.name) {
                return Some("duplicate package gate: ".to_string().concat(&pkg.name));
            }
            j += 1;
        }
        match &pkg.min_line_coverage {
            Some(p) => {
                if p.in_range {
                    None
                } else {
                    let mut out = "package ".to_string();
                    out.append(&pkg.name);
                    out.append(": min_line_coverage must be in 0..=100, got ");
                    out.append(&p.plain);
                    Some(out)
                }
            },
            None => None,
        }
    }

    fn check_gap(&self, i: usize) -> (r: Option<String>)
        requires
            i < self.gap@.len(),
        ensures
            r.deep_view() == gap_fault(self.gap.deep_view(), i as int),
    {
        let gap = &self.gap[i];
        if is_blank(&gap.crate_name) {
            Some(gap_message(i, "crate"))
        } else if is_blank(&gap.item) {
            Some(gap_message(i, "item"))
        } else if is_blank(&gap.reason) {
            Some(gap_message(i, "reason"))
        } else {
            None
        }
    }

    /// Validate package gates and gaps.
    pub fn validate(&self) -> (r: Result<(), AllowlistError>)
        ensures
            match self.fault() {
                Some(e) => r matches Err(x) && x.deep_view() == AllowlistErrorView::Validate(e),
                None => r is Ok,
            },
    {
        if self.schema_version == 0 {
            return Err(AllowlistError::Validate("schema_version must be >= 1".to_string()));
        }
        let mut i: usize = 0;
        while i < self.package.len()
            invariant
                i <= self.package@.len(),
                self.schema_version != 0,
                gates_fault(self.package.deep_view(), 0) == gates_fault(
                    self.package.deep_view(),
                    i as int,
                ),
            decreases self.package@.len() - i,
        {
            if let Some(e) = self.check_gate(i) {
                return Err(AllowlistError::Validate(e));
            }
            i += 1;
        }
        let mut k: usize = 0;
        while k < self.gap.len()
            invariant
                k <= self.gap@.len(),
                self.schema_version != 0,
                gates_fault(self.package.deep_view(), 0) is None,
                gaps_fault(self.gap.deep_view(), 0) == gaps_fault(self.gap.deep_view(), k as int),
            decreases self.gap@.len() - k,
        {
            if let Some(e) = self.check_gap(k) {
                return Err(AllowlistError::Validate(e));
            }
            k += 1;
        }
        Ok(())
    }

    /// Look up a package gate by Cargo package name.
    pub fn package_gate(&self, name: &str) -> (r: Option<&PackageGate>)
        ensures
            match r {
                Some(g) => exists|i: int|
                    0 <= i < self.package@.len() && #[trigger] self.package@[i] == g && g.name@
                        == name@ && forall|j: int|
                        0 <= j < i ==> (#[trigger] self.package@[j]).name@ != name@,
                None => forall|j: int|
                    0 <= j < self.package@.len() ==> (#[trigger] self.package@[j]).name@ != name@,
            },
    {
        let mut i: usize = 0;
        while i < self.package.len()
            invariant
                i <= self.package@.len(),
                forall|j: int| 0 <= j < i ==> (#[trigger] self.package@[j]).name@ != name@,
            decreases self.package@.len() - i,
        {
            if same(&self.package[i].name, name) {
                return Some(&self.package[i]);
            }
            i += 1;
        }
        None
    }
}

/// In a valid document no two gates are for the same package.
pub proof fn law_valid_gates_are_distinct(al: Allowlist, i: int, j: int)
    requires
        al.fault() is None,
        0 <= i < j < al.package@.len(),
    ensures
        al.package@[i].name@ != al.package@[j].name@,
{
    let gates = al.package.deep_view();
    lemma_no_fault(gates, 0, j);
    assert(gates[i].name == al.package@[i].name@);
    assert(gates[j].name == al.package@[j].name@);
}

proof fn lemma_no_fault(gates: Seq<GateView>, i: int, j: int)
    requires
        gates_fault(gates, i) is None,
        0 <= i <= j < gates.len(),
    ensures
        gate_fault(gates, j) is None,
    decreases j - i,
{
    if i < j {
        lemma_no_fault(gates, i + 1, j);
    }
}

/// Whether a text holds anything but white space.
pub open spec fn says_something(s: Seq<char>) -> bool {
    trimmed(s).len() > 0
}

/// A document is valid exactly where it has a version, every gate has a name of its own and a floor
/// that is a percentage, and every gap says where it is and why.
pub proof fn law_valid_document(al: Allowlist)
    ensures
        al.fault() is None <==> {
            &&& al.schema_version >= 1
            &&& forall|i: int|
                0 <= i < al.package@.len() ==> says_something((#[trigger] al.package@[i]).name@)
                    && (al.package@[i].min_line_coverage matches Some(p) ==> p.in_range)
            &&& forall|i: int, j: int|
                0 <= i < j < al.package@.len() ==> (#[trigger] al.package@[i]).name@ != (
                #[trigger] al.package@[j]).name@
            &&& forall|i: int|
                0 <= i < al.gap@.len() ==> says_something((#[trigger] al.gap@[i]).crate_name@)
                    && says_something(al.gap@[i].item@) && says_something(al.gap@[i].reason@)
        },
{
    let gates = al.package.deep_view();
    let gaps = al.gap.deep_view();
    assert forall|i: int| 0 <= i < al.package@.len() implies gates[i]
        == (#[trigger] al.package@[i]).deep_view() by {}
    assert forall|i: int| 0 <= i < al.gap@.len() implies gaps[i] == (
    #[trigger] al.gap@[i]).deep_view() by {}
    if al.fault() is None {
        assert forall|i: int| 0 <= i < al.package@.len() implies says_something(
            (#[trigger] al.package@[i]).name@,
        ) && (al.package@[i].min_line_coverage matches Some(p) ==> p.in_range) by {
            lemma_no_fault(gates, 0, i);
        }
        assert forall|i: int, j: int| 0 <= i < j < al.package@.len() implies (
        #[trigger] al.package@[i]).name@ != (#[trigger] al.package@[j]).name@ by {
            law_valid_gates_are_distinct(al, i, j);
        }
        assert forall|i: int| 0 <= i < al.gap@.len() implies says_something(
            (#[trigger] al.gap@[i]).crate_name@,
        ) && says_something(al.gap@[i].item@) && says_something(al.gap@[i].reason@) by {
            lemma_no_gap_fault(gaps, 0, i);
        }
    } else if al.schema_version >= 1 {
        if gates_fault(gates, 0) is Some {
            lemma_gate_with_fault(gates, 0);
            let i = choose|i: int| 0 <= i < gates.len() && #[trigger] gate_fault(gates, i) is Some;
            let g = al.package@[i];
            if says_something(g.name@) && (g.min_line_coverage matches Some(p) ==> p.in_range) {
                let j = choose|j: int| 0 <= j < i && #[trigger] gates[j].name == gates[i].name;
                assert(al.package@[j].name@ == al.package@[i].name@);
            }
        } else {
            lemma_gap_with_fault(gaps, 0);
            let i = choose|i: int| 0 <= i < gaps.len() && #[trigger] gap_fault(gaps, i) is Some;
            let g = al.gap@[i];
            assert(!(says_something(g.crate_name@) && says_something(g.item@) && says_something(
                g.reason@,
            )));
        }
    }
}

proof fn lemma_no_gap_fault(gaps: Seq<GapView>, i: int, j: int)
    requires
        gaps_fault(gaps, i) is None,
        0 <= i <= j < gaps.len(),
    ensures
        gap_fault(gaps, j) is None,
    decreases j - i,
{
    if i < j {
        lemma_no_gap_fault(gaps, i + 1, j);
    }
}

proof fn lemma_gate_with_fault(gates: Seq<GateView>, i: int)
    requires
        gates_fault(gates, i) is Some,
        0 <= i,
    ensures
        exists|k: int| i <= k < gates.len() && #[trigger] gate_fault(gates, k) is Some,
    decreases gates.len() - i,
{
    if i < gates.len() && gate_fault(gates, i) is None {
        lemma_gate_with_fault(gates, i + 1);
        let k = choose|k: int|
            i + 1 <= k < gates.len() && #[trigger] gate_fault(gates, k) is Some;
        assert(gate_fault(gates, k) is Some);
    }
}

proof fn lemma_gap_with_fault(gaps: Seq<GapView>, i: int)
    requires
        gaps_fault(gaps, i) is Some,
        0 <= i,
    ensures
        exists|k: int| i <= k < gaps.len() && #[trigger] gap_fault(gaps, k) is Some,
    decreases gaps.len() - i,
{
    if i < gaps.len() && gap_fault(gaps, i) is None {
        lemma_gap_with_fault(gaps, i + 1);
        let k = choose|k: int| i + 1 <= k < gaps.len() && #[trigger] gap_fault(gaps, k) is Some;
        assert(gap_fault(gaps, k) is Some);
    }
}

} // verus!
