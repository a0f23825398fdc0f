//! Outcomes of chaos and fuzz profiles.

use vstd::prelude::*;
use crate::bug_hunt::config::{ProfileName, Severity};
use crate::text::{
    decimal, lemma_occurs_between, lemma_occurs_in_itself, lemma_occurs_in_longer, occurs_in,
    push_number,
};

verus! {

/// A measured value. Fractions are carried as the bits of their 64-bit floating-point numbers.
#[derive(Debug, Clone, Copy, PartialEq, Eq, Structural)]
pub enum MetricValue {
    Count(u64),
    Flag(bool),
    Real { bits: u64 },
}

/// A metric of a profile run.
#[derive(Debug, Clone, PartialEq, Eq)]
pub struct Metric {
    pub name: String,
    pub value: MetricValue,
}

impl DeepView for Metric {
    type V = (Seq<char>, MetricValue);

    open spec fn deep_view(&self) -> (Seq<char>, MetricValue) {
        (self.name@, self.value)
    }
}

/// Profile terminal status.
#[derive(Debug, Clone, Copy, PartialEq, Eq, Structural)]
pub enum ProfileStatus {
    /// Completed with expected chaos behavior, no defect.
    Pass,
    /// Unexpected failure (panic caught as error, invariant broken).
    Fail,
    /// Not run (disabled / missing dependency).
    Skip,
}

impl ProfileStatus {
    /// Wire name.
    pub open spec fn name(self) -> Seq<char> {
        match self {
            ProfileStatus::Pass => "pass"@,
            ProfileStatus::Fail => "fail"@,
            ProfileStatus::Skip => "skip"@,
        }
    }

    /// Wire name.
    pub fn as_str(self) -> (r: &'static str)
        ensures
            r@ == self.name(),
    {
        match self {
            ProfileStatus::Pass => "pass",
            ProfileStatus::Fail => "fail",
            ProfileStatus::Skip => "skip",
        }
    }
}

/// Outcome of a single profile run.
#[derive(Debug, Clone)]
pub struct ProfileOutcome {
    /// Profile executed.
    pub profile: ProfileName,
    /// **Root** seed (before per-profile derivation).
    pub root_seed: Option<u64>,
    /// **Effective** seed used for this profile's generator.
    pub seed: u64,
    /// Pass / fail / skip.
    pub status: ProfileStatus,
    /// Defect severity when failed.
    pub severity: Option<Severity>,
    /// One-line summary.
    pub summary: String,
    /// Profile-specific metrics.
    pub metrics: Vec<Metric>,
    /// Optional repro fingerprint / steps.
    pub repro: Option<String>,
}

/// What a `ProfileOutcome` holds.
pub struct OutcomeView {
    pub profile: ProfileName,
    pub root_seed: Option<u64>,
    pub seed: u64,
    pub status: ProfileStatus,
    pub severity: Option<Severity>,
    pub summary: Seq<char>,
    pub metrics: Seq<(Seq<char>, MetricValue)>,
    pub repro: Option<Seq<char>>,
}

impl DeepView for ProfileOutcome {
    type V = OutcomeView;

    open spec fn deep_view(&self) -> OutcomeView {
        OutcomeView {
            profile: self.profile,
            root_seed: self.root_seed,
            seed: self.seed,
            status: self.status,
            severity: self.severity,
            summary: self.summary@,
            metrics: self.metrics.deep_view(),
            repro: self.repro.deep_view(),
        }
    }
}

/// How to repeat a run: its seeds and its profile.
pub open spec fn seed_note(root_seed: u64, effective_seed: u64, profile: ProfileName) -> Seq<char> {
    "root_seed="@ + decimal(root_seed as nat) + " effective_seed="@ + decimal(
        effective_seed as nat,
    ) + " profile="@ + profile.name()
}

impl OutcomeView {
    /// The outcome with both seeds.
    pub open spec fn with_seeds(self, root_seed: u64, effective_seed: u64) -> OutcomeView {
        let base = seed_note(root_seed, effective_seed, self.profile);
        OutcomeView {
            root_seed: Some(root_seed),
            seed: effective_seed,
            repro: Some(
                match self.repro {
                    Some(extra) => if extra.len() > 0 {
                        base + "; "@ + extra
                    } else {
                        base
                    },
                    None => base,
                },
            ),
            ..self
        }
    }

    /// A failed run of a profile with a seed.
    pub open spec fn failed(
        profile: ProfileName,
        seed: u64,
        severity: Severity,
        summary: Seq<char>,
        metrics: Seq<(Seq<char>, MetricValue)>,
    ) -> OutcomeView {
        OutcomeView {
            profile,
            root_seed: None,
            seed,
            status: ProfileStatus::Fail,
            severity: Some(severity),
            summary,
            metrics,
            repro: Some("seed="@ + decimal(seed as nat)),
        }
    }
}

/// Adds a metric.
pub fn push_metric(metrics: &mut Vec<Metric>, name: &str, value: MetricValue)
    ensures
        final(metrics).deep_view() == old(metrics).deep_view().push((name@, value)),
{
    let ghost before = metrics.deep_view();
    metrics.push(Metric { name: name.to_string(), value });
    assert(metrics.deep_view() =~= before.push((name@, value)));
}

/// No metrics.
pub fn no_metrics() -> (r: Vec<Metric>)
    ensures
        r.deep_view() == Seq::<(Seq<char>, MetricValue)>::empty(),
{
    let r: Vec<Metric> = Vec::new();
    assert(r.deep_view() =~= Seq::<(Seq<char>, MetricValue)>::empty());
    r
}

/// `label` and a number.
pub fn labelled(label: &str, n: u64) -> (r: String)
    ensures
        r@ == label@ + decimal(n as nat),
{
    let mut s = label.to_string();
    push_number(&mut s, n);
    s
}

/// A failed run of a profile with a seed.
pub fn failed_outcome(
    profile: ProfileName,
    seed: u64,
    severity: Severity,
    summary: String,
    metrics: Vec<Metric>,
) -> (r: ProfileOutcome)
    ensures
        r.deep_view() == OutcomeView::failed(
            profile,
            seed,
            severity,
            summary@,
            metrics.deep_view(),
        ),
{
    ProfileOutcome {
        profile,
        root_seed: None,
        seed,
        status: ProfileStatus::Fail,
        severity: Some(severity),
        summary,
        metrics,
        repro: Some(labelled("seed=", seed)),
    }
}

impl ProfileOutcome {
    /// Attach the root seed and rewrite the repro note to hold both seeds.
    pub fn with_seeds(self, root_seed: u64, effective_seed: u64) -> (r: Self)
        ensures
            r.deep_view() == self.deep_view().with_seeds(root_seed, effective_seed),
    {
        let mut base = labelled("root_seed=", root_seed);
        base.append(" effective_seed=");
        push_number(&mut base, effective_seed);
        base.append(" profile=");
        base.append(self.profile.as_str());
        if let Some(extra) = &self.repro {
            if extra.as_str().unicode_len() > 0 {
                base.append("; ");
                base.append(extra);
            }
        }
        ProfileOutcome {
            profile: self.profile,
            root_seed: Some(root_seed),
            seed: effective_seed,
            status: self.status,
            severity: self.severity,
            summary: self.summary,
            metrics: self.metrics,
            repro: Some(base),
        }
    }
}

/// The outcome of a profile that panicked: a failure of high severity.
pub fn panicked_outcome(profile: ProfileName, seed: u64, message: &str) -> (r: ProfileOutcome)
    ensures
        r.deep_view() == (OutcomeView {
            profile,
            root_seed: None,
            seed,
            status: ProfileStatus::Fail,
            severity: Some(Severity::High),
            summary: "profile panicked: "@ + message@,
            metrics: seq![("panic"@, MetricValue::Flag(true))],
            repro: Some("effective_seed="@ + decimal(seed as nat) + " profile="@ + profile.name()),
        }),
{
    let mut metrics = no_metrics();
    push_metric(&mut metrics, "panic", MetricValue::Flag(true));
    assert(metrics.deep_view() =~= seq![("panic"@, MetricValue::Flag(true))]);
    let mut repro = labelled("effective_seed=", seed);
    repro.append(" profile=");
    repro.append(profile.as_str());
    ProfileOutcome {
        profile,
        root_seed: None,
        seed,
        status: ProfileStatus::Fail,
        severity: Some(Severity::High),
        summary: "profile panicked: ".to_string().concat(message),
        metrics,
        repro: Some(repro),
    }
}

/// Noting the seeds of a run changes nothing else of its outcome, and the note tells both seeds and
/// the profile; what was noted before stays at its end.
pub proof fn law_seeds_are_noted(o: OutcomeView, root_seed: u64, effective_seed: u64)
    ensures
        ({
            let noted = o.with_seeds(root_seed, effective_seed);
            &&& noted.root_seed == Some(root_seed)
            &&& noted.seed == effective_seed
            &&& noted.status == o.status && noted.severity == o.severity
            &&& noted.summary == o.summary && noted.metrics == o.metrics
            &&& noted.profile == o.profile
            &&& noted.repro matches Some(note) && {
                &&& occurs_in("root_seed="@ + decimal(root_seed as nat), note)
                &&& occurs_in("effective_seed="@ + decimal(effective_seed as nat), note)
                &&& occurs_in("profile="@ + o.profile.name(), note)
                &&& o.repro matches Some(extra) ==> occurs_in(extra, note)
            }
        }),
{
    reveal_strlit(" effective_seed=");
    reveal_strlit("effective_seed=");
    reveal_strlit(" profile=");
    reveal_strlit("profile=");
    reveal_strlit(" ");
    assert(" effective_seed="@ =~= " "@ + "effective_seed="@);
    assert(" profile="@ =~= " "@ + "profile="@);
    let root = "root_seed="@ + decimal(root_seed as nat);
    let effective = "effective_seed="@ + decimal(effective_seed as nat);
    let profile = "profile="@ + o.profile.name();
    let base = seed_note(root_seed, effective_seed, o.profile);
    lemma_occurs_between(Seq::empty(), root, " "@ + effective + " "@ + profile);
    assert(base =~= Seq::<char>::empty() + root + (" "@ + effective + " "@ + profile));
    lemma_occurs_between(root + " "@, effective, " "@ + profile);
    assert(base =~= root + " "@ + effective + (" "@ + profile));
    lemma_occurs_between(root + " "@ + effective + " "@, profile, Seq::empty());
    assert(base =~= root + " "@ + effective + " "@ + profile + Seq::<char>::empty());
    if let Some(extra) = o.repro {
        if extra.len() > 0 {
            lemma_occurs_in_itself(extra);
            lemma_occurs_in_longer(base, "; "@);
            lemma_occurs_in_longer(base + "; "@, extra);
        } else {
            let at: int = 0;
            assert(base.subrange(at, at + extra.len()) =~= extra);
        }
    }
}

/// A failed run is told as one, with its severity, its seed and what went wrong.
pub proof fn law_failure_is_told(
    profile: ProfileName,
    seed: u64,
    severity: Severity,
    summary: Seq<char>,
    metrics: Seq<(Seq<char>, MetricValue)>,
)
    ensures
        ({
            let o = OutcomeView::failed(profile, seed, severity, summary, metrics);
            &&& o.status == ProfileStatus::Fail
            &&& o.severity == Some(severity)
            &&& o.profile == profile && o.seed == seed
            &&& o.summary == summary && o.metrics == metrics
            &&& o.repro matches Some(note) && occurs_in(decimal(seed as nat), note)
        }),
{
    lemma_occurs_in_itself(decimal(seed as nat));
    lemma_occurs_in_longer("seed="@, decimal(seed as nat));
}

} // verus!
