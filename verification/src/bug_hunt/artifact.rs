//! Artifacts of chaos / fuzz profile runs: where they go and what they say.

use vstd::prelude::*;
use crate::bug_hunt::config::{law_profile_name_roundtrip, ProfileName, Severity};
use crate::bug_hunt::profiles::{
    Metric, MetricValue, OutcomeView, ProfileOutcome, ProfileStatus,
};
use crate::bug_hunt::runner::{NightlyReport, ReportView};
use crate::host::control::copy_text;
use crate::paths::{join_path, path_join};
use crate::platform::Platform;
use crate::text::{
    chars_of, decimal, lemma_occurs_in_itself, lemma_occurs_in_longer, occurs_in, push_number,
};

verus! {

/// Paths used for a single run's outputs.
#[derive(Debug, Clone)]
pub struct ArtifactPaths {
    /// Root directory.
    pub root: String,
    /// The system that the directory is on.
    pub platform: Platform,
}

impl ArtifactPaths {
    /// Path for a profile JSON artifact.
    pub fn profile_json(&self, name: ProfileName) -> (r: String)
        ensures
            r@ == path_join(self.platform, self.root@, name.name() + ".json"@),
    {
        let file = name.as_str().to_string().concat(".json");
        join_path(self.platform, &self.root, &file)
    }

    /// Nightly summary JSON.
    pub fn summary_json(&self) -> (r: String)
        ensures
            r@ == path_join(self.platform, self.root@, "summary.json"@),
    {
        join_path(self.platform, &self.root, "summary.json")
    }

    /// Nightly markdown report.
    pub fn report_md(&self) -> (r: String)
        ensures
            r@ == path_join(self.platform, self.root@, "nightly-report.md"@),
    {
        join_path(self.platform, &self.root, "nightly-report.md")
    }
}

/// Serialized per-profile artifact.
#[derive(Debug, Clone)]
pub struct ProfileArtifact {
    /// Profile id.
    pub profile: String,
    /// Wall clock unix seconds when written.
    pub written_at_unix: u64,
    /// Root seed (before derivation).
    pub root_seed: Option<u64>,
    /// **Effective** seed used for this profile's generator.
    pub seed: u64,
    /// The same as `seed`.
    pub effective_seed: u64,
    /// Pass / fail / skip.
    pub status: String,
    /// Severity if a defect was found (or `info` on a clean pass).
    pub severity: String,
    /// Human summary.
    pub summary: String,
    /// Structured metrics (profile-specific).
    pub metrics: Vec<Metric>,
    /// Optional repro notes / fingerprint.
    pub repro: Option<String>,
}

/// What a `ProfileArtifact` holds.
pub struct ArtifactView {
    pub profile: Seq<char>,
    pub written_at_unix: u64,
    pub root_seed: Option<u64>,
    pub seed: u64,
    pub effective_seed: u64,
    pub status: Seq<char>,
    pub severity: Seq<char>,
    pub summary: Seq<char>,
    pub metrics: Seq<(Seq<char>, MetricValue)>,
    pub repro: Option<Seq<char>>,
}

impl DeepView for ProfileArtifact {
    type V = ArtifactView;

    open spec fn deep_view(&self) -> ArtifactView {
        ArtifactView {
            profile: self.profile@,
            written_at_unix: self.written_at_unix,
            root_seed: self.root_seed,
            seed: self.seed,
            effective_seed: self.effective_seed,
            status: self.status@,
            severity: self.severity@,
            summary: self.summary@,
            metrics: self.metrics.deep_view(),
            repro: self.repro.deep_view(),
        }
    }
}

/// The severity that an artifact records: that of the defect where the run failed.
pub open spec fn recorded_severity(o: OutcomeView) -> Severity {
    match o.status {
        ProfileStatus::Pass => Severity::Info,
        ProfileStatus::Fail => match o.severity {
            Some(s) => s,
            None => Severity::High,
        },
        ProfileStatus::Skip => Severity::Low,
    }
}

impl ArtifactView {
    /// The artifact of an outcome.
    pub open spec fn of(o: OutcomeView, now: u64) -> ArtifactView {
        ArtifactView {
            profile: o.profile.name(),
            written_at_unix: now,
            root_seed: o.root_seed,
            seed: o.seed,
            effective_seed: o.seed,
            status: o.status.name(),
            severity: recorded_severity(o).name(),
            summary: o.summary,
            metrics: o.metrics,
            repro: o.repro,
        }
    }
}

fn copy_metrics(metrics: &Vec<Metric>) -> (r: Vec<Metric>)
    ensures
        r.deep_view() == metrics.deep_view(),
{
    let mut out: Vec<Metric> = Vec::new();
    let mut i: usize = 0;
    while i < metrics.len()
        invariant
            i <= metrics@.len(),
            out@.len() == i,
            forall|k: int|
                0 <= k < i ==> (#[trigger] out@[k]).deep_view() == metrics@[k].deep_view(),
        decreases metrics@.len() - i,
    {
        out.push(Metric { name: metrics[i].name.clone(), value: metrics[i].value });
        i += 1;
    }
    assert(out.deep_view() =~= metrics.deep_view());
    out
}

impl ProfileArtifact {
    /// Build from a profile outcome, written at `now`.
    pub fn from_outcome(outcome: &ProfileOutcome, now: u64) -> (r: Self)
        ensures
            r.deep_view() == ArtifactView::of(outcome.deep_view(), now),
    {
        let severity = match outcome.status {
            ProfileStatus::Pass => Severity::Info,
            ProfileStatus::Fail => match outcome.severity {
                Some(s) => s,
                None => Severity::High,
            },
            ProfileStatus::Skip => Severity::Low,
        };
        ProfileArtifact {
            profile: outcome.profile.as_str().to_string(),
            written_at_unix: now,
            root_seed: outcome.root_seed,
            seed: outcome.seed,
            effective_seed: outcome.seed,
            status: outcome.status.as_str().to_string(),
            severity: severity.as_str().to_string(),
            summary: outcome.summary.clone(),
            metrics: copy_metrics(&outcome.metrics),
            repro: copy_text(&outcome.repro),
        }
    }
}

/// A text for a table cell: bars are escaped.
pub open spec fn cell(s: Seq<char>) -> Seq<char>
    decreases s.len(),
{
    if s.len() == 0 {
        Seq::empty()
    } else if s.last() == '|' {
        cell(s.drop_last()) + seq!['\\', '|']
    } else {
        cell(s.drop_last()).push(s.last())
    }
}

fn push_cell(out: &mut String, s: &str)
    ensures
        final(out)@ == old(out)@ + cell(s@),
{
    let chars = chars_of(s);
    let ghost all = chars@;
    let ghost before = out@;
    let mut i: usize = 0;
    assert(before + cell(all.take(0)) =~= before);
    while i < chars.len()
        invariant
            i <= chars@.len(),
            all == chars@,
            out@ == before + cell(all.take(i as int)),
        decreases chars@.len() - i,
    {
        assert(all.take(i + 1).drop_last() == all.take(i as int));
        if chars[i] == '|' {
            out.push('\\');
            out.push('|');
            assert(out@ =~= before + cell(all.take(i + 1)));
        } else {
            out.push(chars[i]);
            assert(out@ =~= before + cell(all.take(i + 1)));
        }
        i += 1;
    }
    assert(all.take(all.len() as int) == all);
}

/// The severity column of an outcome.
pub open spec fn severity_cell(o: OutcomeView) -> Seq<char> {
    match o.severity {
        Some(s) => s.name(),
        None => if o.status == ProfileStatus::Pass {
            "info"@
        } else {
            "-"@
        },
    }
}

/// The root-seed column of an outcome.
pub open spec fn root_cell(o: OutcomeView) -> Seq<char> {
    match o.root_seed {
        Some(s) => decimal(s as nat),
        None => "-"@,
    }
}

/// The table row of an outcome.
pub open spec fn outcome_row(o: OutcomeView) -> Seq<char> {
    "| `"@ + o.profile.name() + "` | "@ + o.status.name() + " | "@ + severity_cell(o) + " | "@
        + root_cell(o) + " | "@ + decimal(o.seed as nat) + " | "@ + cell(o.summary) + " |\n"@
}

/// The table rows of outcomes.
pub open spec fn outcome_rows(outcomes: Seq<OutcomeView>) -> Seq<char>
    decreases outcomes.len(),
{
    if outcomes.len() == 0 {
        Seq::empty()
    } else {
        outcome_rows(outcomes.drop_last()) + outcome_row(outcomes.last())
    }
}

fn push_row(out: &mut String, o: &ProfileOutcome)
    ensures
        final(out)@ == old(out)@ + outcome_row(o.deep_view()),
{
    let mut row = "| `".to_string();
    row.append(o.profile.as_str());
    row.append("` | ");
    row.append(o.status.as_str());
    row.append(" | ");
    match o.severity {
        Some(s) => row.append(s.as_str()),
        None => {
            if o.status == ProfileStatus::Pass {
                row.append("info");
            } else {
                row.append("-");
            }
        },
    }
    row.append(" | ");
    match o.root_seed {
        Some(s) => push_number(&mut row, s),
        None => row.append("-"),
    }
    row.append(" | ");
    push_number(&mut row, o.seed);
    row.append(" | ");
    push_cell(&mut row, &o.summary);
    row.append(" |\n");
    out.append(&row);
}

/// The table head of a report.
pub const TABLE_HEAD: &'static str = "| Profile | Status | Severity | Root seed | Effective seed | Summary |\n|---------|--------|----------|-----------|----------------|---------|\n";

/// What a report says after its table: how to repeat a run, and what the levels mean.
pub const REPORT_TAIL: &'static str = "\n## Repro\n\nUse the **effective seed** with a **single** profile (no re-derivation):\n\n```bash\nbug-hunt-agent run --profile <name> --seed <effective_seed> --out target/chaos-repro\n```\n\n## Severity rubric\n\n| Level | Meaning |\n|-------|--------|\n| Critical | Auth bypass |\n| High | Crash / remote inject without auth |\n| Medium | A/V desync |\n| Low | Cosmetic |\n| Info | Clean pass |\n\n";

/// The markdown of a report.
pub open spec fn markdown_of(r: ReportView) -> Seq<char> {
    "# Bug-hunt nightly report\n\n- **generated_at_unix**: "@ + decimal(
        r.generated_at_unix as nat,
    ) + "\n- **root_seed**: "@ + decimal(r.seed as nat) + "\n- **out**: `"@ + r.out_dir
        + "`\n- **passed**: "@ + decimal(r.passed as nat) + " / "@ + decimal(r.total as nat)
        + "\n- **failed**: "@ + decimal(r.failed as nat) + "\n\n"@ + TABLE_HEAD@ + outcome_rows(
        r.outcomes,
    ) + REPORT_TAIL@
}

/// Render a report as markdown.
pub fn render_markdown(report: &NightlyReport) -> (r: String)
    ensures
        r@ == markdown_of(report.deep_view()),
{
    let mut out = "# Bug-hunt nightly report\n\n- **generated_at_unix**: ".to_string();
    push_number(&mut out, report.generated_at_unix);
    out.append("\n- **root_seed**: ");
    push_number(&mut out, report.seed);
    out.append("\n- **out**: `");
    out.append(&report.out_dir);
    out.append("`\n- **passed**: ");
    push_number(&mut out, report.passed as u64);
    out.append(" / ");
    push_number(&mut out, report.total as u64);
    out.append("\n- **failed**: ");
    push_number(&mut out, report.failed as u64);
    out.append("\n\n");
    out.append(TABLE_HEAD);
    let ghost head = out@;
    let ghost all = report.outcomes.deep_view();
    let mut i: usize = 0;
    assert(head + outcome_rows(all.take(0)) =~= head);
    while i < report.outcomes.len()
        invariant
            i <= report.outcomes@.len(),
            all == report.outcomes.deep_view(),
            out@ == head + outcome_rows(all.take(i as int)),
        decreases report.outcomes@.len() - i,
    {
        assert(all[i as int] == report.outcomes@[i as int].deep_view());
        assert(all.take(i + 1).drop_last() == all.take(i as int));
        push_row(&mut out, &report.outcomes[i]);
        assert(out@ =~= head + outcome_rows(all.take(i + 1)));
        i += 1;
    }
    assert(all.take(all.len() as int) == all);
    out.append(REPORT_TAIL);
    out
}

/// An artifact names the seed that replays its run, under both names, and a clean pass is never
/// recorded as a defect.
pub proof fn law_artifact_records_effective_seed(o: OutcomeView, now: u64)
    ensures
        ArtifactView::of(o, now).seed == o.seed,
        ArtifactView::of(o, now).effective_seed == o.seed,
        o.status == ProfileStatus::Pass ==> ArtifactView::of(o, now).severity == "info"@,
{
}

/// In a table cell a bar is escaped, wherever it stands, and nothing else is touched.
pub proof fn law_bars_are_escaped(a: Seq<char>, b: Seq<char>)
    ensures
        cell(a + b) == cell(a) + cell(b),
        !a.contains('|') ==> cell(a) == a,
        cell(seq!['|']) == seq!['\\', '|'],
    decreases b.len(), a.len(),
{
    reveal_with_fuel(cell, 2);
    assert(seq!['|'].drop_last() =~= Seq::<char>::empty());
    assert(cell(seq!['|']) =~= seq!['\\', '|']);
    lemma_cell_without_bars(a);
    if b.len() == 0 {
        assert(a + b =~= a);
        assert(cell(a) + cell(b) =~= cell(a));
    } else {
        law_bars_are_escaped(a, b.drop_last());
        assert((a + b).drop_last() =~= a + b.drop_last());
        assert(cell(a + b) =~= cell(a) + cell(b));
    }
}

proof fn lemma_cell_without_bars(a: Seq<char>)
    ensures
        !a.contains('|') ==> cell(a) == a,
    decreases a.len(),
{
    if a.len() > 0 && !a.contains('|') {
        let t = a.drop_last();
        if t.contains('|') {
            let k = t.index_of('|');
            assert(a[k] == '|');
        }
        assert(a[a.len() - 1] == a.last());
        lemma_cell_without_bars(t);
        assert(cell(a) =~= a);
    } else if a.len() == 0 {
        assert(cell(a) =~= a);
    }
}

/// What an artifact records of a run: a defect as grave as it was found to be, at least where it was
/// not judged otherwise a grave one, and no defect where the run passed or did not take place.
pub proof fn law_severity_is_recorded(o: OutcomeView, severity: Severity, now: u64)
    ensures
        recorded_severity(
            OutcomeView { status: ProfileStatus::Fail, severity: Some(severity), ..o },
        ) == severity,
        recorded_severity(OutcomeView { status: ProfileStatus::Fail, severity: None, ..o })
            == Severity::High,
        recorded_severity(OutcomeView { status: ProfileStatus::Pass, ..o }) == Severity::Info,
        recorded_severity(OutcomeView { status: ProfileStatus::Skip, ..o }) == Severity::Low,
        ArtifactView::of(o, now).metrics == o.metrics,
        ArtifactView::of(o, now).summary == o.summary,
        ArtifactView::of(o, now).root_seed == o.root_seed,
        ArtifactView::of(o, now).repro == o.repro,
        ArtifactView::of(o, now).written_at_unix == now,
        ProfileName::of(ArtifactView::of(o, now).profile) == Some(o.profile),
{
    law_profile_name_roundtrip(o.profile);
}

/// The table has a row for each outcome, in order.
pub proof fn law_rows_follow_the_outcomes(a: Seq<OutcomeView>, b: Seq<OutcomeView>, o: OutcomeView)
    ensures
        outcome_rows(a + b) == outcome_rows(a) + outcome_rows(b),
        outcome_rows(seq![o]) == outcome_row(o),
    decreases b.len(),
{
    reveal_with_fuel(outcome_rows, 2);
    assert(seq![o].drop_last() =~= Seq::<OutcomeView>::empty());
    assert(outcome_rows(seq![o]) =~= outcome_row(o));
    if b.len() == 0 {
        assert(a + b =~= a);
        assert(outcome_rows(a) + outcome_rows(b) =~= outcome_rows(a));
    } else {
        law_rows_follow_the_outcomes(a, b.drop_last(), o);
        assert((a + b).drop_last() =~= a + b.drop_last());
        assert(outcome_rows(a + b) =~= outcome_rows(a) + outcome_rows(b));
    }
}

/// A row tells the profile, how it went, its seed and its summary.
pub proof fn law_row_tells_the_outcome(o: OutcomeView)
    ensures
        occurs_in(o.profile.name(), outcome_row(o)),
        occurs_in(o.status.name(), outcome_row(o)),
        occurs_in(decimal(o.seed as nat), outcome_row(o)),
        occurs_in(cell(o.summary), outcome_row(o)),
        o.severity matches Some(s) ==> occurs_in(s.name(), outcome_row(o)),
        o.root_seed matches Some(s) ==> occurs_in(decimal(s as nat), outcome_row(o)),
{
    lemma_occurs_in_itself(o.profile.name());
    lemma_occurs_in_itself(o.status.name());
    lemma_occurs_in_itself(decimal(o.seed as nat));
    lemma_occurs_in_itself(cell(o.summary));
    lemma_occurs_in_itself(severity_cell(o));
    lemma_occurs_in_itself(root_cell(o));
    lemma_occurs_in_longer("| `"@, o.profile.name());
    let p0 = "| `"@ + o.profile.name();
    lemma_occurs_in_longer(p0, "` | "@);
    let p1 = p0 + "` | "@;
    lemma_occurs_in_longer(p1, o.status.name());
    let p2 = p1 + o.status.name();
    lemma_occurs_in_longer(p2, " | "@);
    let p3 = p2 + " | "@;
    lemma_occurs_in_longer(p3, severity_cell(o));
    let p4 = p3 + severity_cell(o);
    lemma_occurs_in_longer(p4, " | "@);
    let p5 = p4 + " | "@;
    lemma_occurs_in_longer(p5, root_cell(o));
    let p6 = p5 + root_cell(o);
    lemma_occurs_in_longer(p6, " | "@);
    let p7 = p6 + " | "@;
    lemma_occurs_in_longer(p7, decimal(o.seed as nat));
    let p8 = p7 + decimal(o.seed as nat);
    lemma_occurs_in_longer(p8, " | "@);
    let p9 = p8 + " | "@;
    lemma_occurs_in_longer(p9, cell(o.summary));
    let p10 = p9 + cell(o.summary);
    lemma_occurs_in_longer(p10, " |\n"@);
}

} // verus!
