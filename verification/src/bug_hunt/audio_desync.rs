//! `audio_desync` chaos: force skew injection into the media skew controller.
//!
//! The measurements are fractions and are compared outside; what they showed is judged here.

use vstd::prelude::*;
use crate::bug_hunt::config::{ProfileName, Severity};
use crate::bug_hunt::profiles::{
    failed_outcome, labelled, no_metrics, push_metric, MetricValue, OutcomeView, ProfileOutcome,
    ProfileStatus,
};
use crate::host::chrome::{bool_str, bool_text};
use crate::text::decimal;

verus! {

/// A measured fraction: its bits, and how it is shown.
#[derive(Debug, Clone)]
pub struct Fraction {
    pub bits: u64,
    pub text: String,
}

/// What the controller did, step by step.
#[derive(Debug, Clone)]
pub struct SkewReport {
    /// The injected skew.
    pub inject: Fraction,
    pub deadband: Fraction,
    pub max_stretch: Fraction,
    /// Within the deadband: whether it counts as such, and the delay step.
    pub inside_in_deadband: bool,
    pub inside_delay: Fraction,
    pub inside_delay_is_zero: bool,
    /// Audio ahead.
    pub ahead_in_deadband: bool,
    pub ahead_skew: Fraction,
    pub ahead_skew_positive: bool,
    pub ahead_delay: Fraction,
    pub ahead_delay_positive: bool,
    pub ahead_ratio: Fraction,
    pub ahead_ratio_above_one: bool,
    pub ahead_ratio_within_stretch: bool,
    /// The ratio to four places.
    pub ahead_ratio_short: String,
    pub offset_after_ahead: Fraction,
    /// Audio behind.
    pub behind_skew: Fraction,
    pub behind_skew_negative: bool,
    pub behind_delay: Fraction,
    pub behind_delay_negative: bool,
    pub behind_ratio: Fraction,
    pub behind_ratio_below_one: bool,
    /// The ratio to four places.
    pub behind_ratio_short: String,
    /// After a reset.
    pub reset_offset: Fraction,
    pub reset_is_zero: bool,
}

/// What is wrong with the controller; nothing where it answered every injection.
pub open spec fn skew_wrong(r: SkewReport) -> Option<Seq<char>> {
    if !r.inside_in_deadband || !r.inside_delay_is_zero {
        Some(
            "deadband violated: in_deadband="@ + bool_text(r.inside_in_deadband) + " delay="@
                + r.inside_delay.text@,
        )
    } else if r.ahead_in_deadband {
        Some("expected leave deadband on audio-ahead inject"@)
    } else if !r.ahead_skew_positive {
        Some("expected positive skew, got "@ + r.ahead_skew.text@)
    } else if !r.ahead_delay_positive {
        Some("expected positive delay step on audio-ahead, got "@ + r.ahead_delay.text@)
    } else if !r.ahead_ratio_above_one {
        Some("expected resample_ratio > 1 (slow audio), got "@ + r.ahead_ratio.text@)
    } else if !r.ahead_ratio_within_stretch {
        Some(
            "resample_ratio "@ + r.ahead_ratio.text@ + " exceeds max_stretch "@
                + r.max_stretch.text@,
        )
    } else if !r.behind_skew_negative {
        Some("expected negative skew, got "@ + r.behind_skew.text@)
    } else if !r.behind_delay_negative {
        Some("expected negative delay step on audio-behind, got "@ + r.behind_delay.text@)
    } else if !r.behind_ratio_below_one {
        Some("expected resample_ratio < 1 (speed audio), got "@ + r.behind_ratio.text@)
    } else if !r.reset_is_zero {
        Some("reset left delay_offset_ms="@ + r.reset_offset.text@)
    } else {
        None
    }
}

fn said(label: &str, f: &Fraction) -> (r: Option<String>)
    ensures
        r.deep_view() == Some(label@ + f.text@),
{
    Some(label.to_string().concat(&f.text))
}

/// What is wrong with the controller; the first fault counts.
pub fn skew_fault(r: &SkewReport) -> (f: Option<String>)
    ensures
        f.deep_view() == skew_wrong(*r),
{
    if !r.inside_in_deadband || !r.inside_delay_is_zero {
        let mut s = "deadband violated: in_deadband=".to_string();
        s.append(bool_str(r.inside_in_deadband));
        s.append(" delay=");
        s.append(&r.inside_delay.text);
        return Some(s);
    }
    if r.ahead_in_deadband {
        return Some("expected leave deadband on audio-ahead inject".to_string());
    }
    if !r.ahead_skew_positive {
        return said("expected positive skew, got ", &r.ahead_skew);
    }
    if !r.ahead_delay_positive {
        return said("expected positive delay step on audio-ahead, got ", &r.ahead_delay);
    }
    if !r.ahead_ratio_above_one {
        return said("expected resample_ratio > 1 (slow audio), got ", &r.ahead_ratio);
    }
    if !r.ahead_ratio_within_stretch {
        let mut s = "resample_ratio ".to_string();
        s.append(&r.ahead_ratio.text);
        s.append(" exceeds max_stretch ");
        s.append(&r.max_stretch.text);
        return Some(s);
    }
    if !r.behind_skew_negative {
        return said("expected negative skew, got ", &r.behind_skew);
    }
    if !r.behind_delay_negative {
        return said("expected negative delay step on audio-behind, got ", &r.behind_delay);
    }
    if !r.behind_ratio_below_one {
        return said("expected resample_ratio < 1 (speed audio), got ", &r.behind_ratio);
    }
    if !r.reset_is_zero {
        return said("reset left delay_offset_ms=", &r.reset_offset);
    }
    None
}

/// The outcome of a run: a fault is a failure of medium severity.
pub open spec fn desync_outcome(seed: u64, r: SkewReport) -> OutcomeView {
    match skew_wrong(r) {
        Some(e) => OutcomeView::failed(
            ProfileName::AudioDesync,
            seed,
            Severity::Medium,
            e,
            Seq::empty(),
        ),
        None => OutcomeView {
            profile: ProfileName::AudioDesync,
            root_seed: None,
            seed,
            status: ProfileStatus::Pass,
            severity: None,
            summary: "skew inject ±"@ + r.inject.text@ + " ms: ahead delay="@
                + r.ahead_delay.text@ + ", ratio="@ + r.ahead_ratio_short@ + "; behind delay="@
                + r.behind_delay.text@ + ", ratio="@ + r.behind_ratio_short@,
            metrics: seq![
                ("skew_inject_ms"@, MetricValue::Real { bits: r.inject.bits }),
                ("deadband_ms"@, MetricValue::Real { bits: r.deadband.bits }),
                ("ahead_skew_ms"@, MetricValue::Real { bits: r.ahead_skew.bits }),
                ("ahead_delay_adjust_ms"@, MetricValue::Real { bits: r.ahead_delay.bits }),
                ("ahead_resample_ratio"@, MetricValue::Real { bits: r.ahead_ratio.bits }),
                ("behind_skew_ms"@, MetricValue::Real { bits: r.behind_skew.bits }),
                ("behind_delay_adjust_ms"@, MetricValue::Real { bits: r.behind_delay.bits }),
                ("behind_resample_ratio"@, MetricValue::Real { bits: r.behind_ratio.bits }),
                ("offset_after_ahead_ms"@, MetricValue::Real { bits: r.offset_after_ahead.bits }),
                ("offset_after_reset_ms"@, MetricValue::Real { bits: 0 }),
            ],
            repro: Some(
                "seed="@ + decimal(seed as nat) + " skew_inject_ms="@ + r.inject.text@,
            ),
        },
    }
}

/// The outcome of a run. Bits of zero stand for the fraction zero.
pub fn judge_desync(seed: u64, r: &SkewReport) -> (o: ProfileOutcome)
    ensures
        o.deep_view() == desync_outcome(seed, *r),
{
    if let Some(e) = skew_fault(r) {
        return failed_outcome(ProfileName::AudioDesync, seed, Severity::Medium, e, no_metrics());
    }
    let mut summary = "skew inject ±".to_string();
    summary.append(&r.inject.text);
    summary.append(" ms: ahead delay=");
    summary.append(&r.ahead_delay.text);
    summary.append(", ratio=");
    summary.append(&r.ahead_ratio_short);
    summary.append("; behind delay=");
    summary.append(&r.behind_delay.text);
    summary.append(", ratio=");
    summary.append(&r.behind_ratio_short);
    let mut metrics = no_metrics();
    push_metric(&mut metrics, "skew_inject_ms", MetricValue::Real { bits: r.inject.bits });
    push_metric(&mut metrics, "deadband_ms", MetricValue::Real { bits: r.deadband.bits });
    push_metric(&mut metrics, "ahead_skew_ms", MetricValue::Real { bits: r.ahead_skew.bits });
    push_metric(
        &mut metrics,
        "ahead_delay_adjust_ms",
        MetricValue::Real { bits: r.ahead_delay.bits },
    );
    push_metric(
        &mut metrics,
        "ahead_resample_ratio",
        MetricValue::Real { bits: r.ahead_ratio.bits },
    );
    push_metric(&mut metrics, "behind_skew_ms", MetricValue::Real { bits: r.behind_skew.bits });
    push_metric(
        &mut metrics,
        "behind_delay_adjust_ms",
        MetricValue::Real { bits: r.behind_delay.bits },
    );
    push_metric(
        &mut metrics,
        "behind_resample_ratio",
        MetricValue::Real { bits: r.behind_ratio.bits },
    );
    push_metric(
        &mut metrics,
        "offset_after_ahead_ms",
        MetricValue::Real { bits: r.offset_after_ahead.bits },
    );
    push_metric(&mut metrics, "offset_after_reset_ms", MetricValue::Real { bits: 0 });
    assert(metrics.deep_view() =~= desync_outcome(seed, *r).metrics);
    let mut repro = labelled("seed=", seed);
    repro.append(" skew_inject_ms=");
    repro.append(&r.inject.text);
    ProfileOutcome {
        profile: ProfileName::AudioDesync,
        root_seed: None,
        seed,
        status: ProfileStatus::Pass,
        severity: None,
        summary,
        metrics,
        repro: Some(repro),
    }
}

/// A controller is in order exactly where it rests within the deadband, slows audio that is ahead
/// without stretching it too far, speeds up audio that is behind, and forgets all of it on a reset.
pub proof fn law_controller_has_to_answer_every_injection(r: SkewReport, seed: u64)
    ensures
        skew_wrong(r) is None <==> r.inside_in_deadband && r.inside_delay_is_zero
            && !r.ahead_in_deadband && r.ahead_skew_positive && r.ahead_delay_positive
            && r.ahead_ratio_above_one && r.ahead_ratio_within_stretch && r.behind_skew_negative
            && r.behind_delay_negative && r.behind_ratio_below_one && r.reset_is_zero,
        desync_outcome(seed, r).status == ProfileStatus::Pass <==> skew_wrong(r) is None,
        desync_outcome(seed, r).status == ProfileStatus::Fail <==> skew_wrong(r) is Some,
        desync_outcome(seed, r).severity == (if skew_wrong(r) is Some {
            Some(Severity::Medium)
        } else {
            None
        }),
        skew_wrong(r) matches Some(e) ==> desync_outcome(seed, r).summary == e,
        desync_outcome(seed, r).seed == seed,
        desync_outcome(seed, r).profile == ProfileName::AudioDesync,
{
}

/// The measurements of a run in order are told as they were taken.
pub proof fn law_measurements_are_told(r: SkewReport, seed: u64)
    requires
        skew_wrong(r) is None,
    ensures
        ({
            let m = desync_outcome(seed, r).metrics;
            &&& m.contains(("skew_inject_ms"@, MetricValue::Real { bits: r.inject.bits }))
            &&& m.contains(("deadband_ms"@, MetricValue::Real { bits: r.deadband.bits }))
            &&& m.contains(("ahead_skew_ms"@, MetricValue::Real { bits: r.ahead_skew.bits }))
            &&& m.contains(
                ("ahead_delay_adjust_ms"@, MetricValue::Real { bits: r.ahead_delay.bits }),
            )
            &&& m.contains(
                ("ahead_resample_ratio"@, MetricValue::Real { bits: r.ahead_ratio.bits }),
            )
            &&& m.contains(("behind_skew_ms"@, MetricValue::Real { bits: r.behind_skew.bits }))
            &&& m.contains(
                ("behind_delay_adjust_ms"@, MetricValue::Real { bits: r.behind_delay.bits }),
            )
            &&& m.contains(
                ("behind_resample_ratio"@, MetricValue::Real { bits: r.behind_ratio.bits }),
            )
            &&& m.len() == 10
        }),
{
    let m = desync_outcome(seed, r).metrics;
    assert(m[0].0 == "skew_inject_ms"@);
    assert(m[1].0 == "deadband_ms"@);
    assert(m[2].0 == "ahead_skew_ms"@);
    assert(m[3].0 == "ahead_delay_adjust_ms"@);
    assert(m[4].0 == "ahead_resample_ratio"@);
    assert(m[5].0 == "behind_skew_ms"@);
    assert(m[6].0 == "behind_delay_adjust_ms"@);
    assert(m[7].0 == "behind_resample_ratio"@);
}

} // verus!
