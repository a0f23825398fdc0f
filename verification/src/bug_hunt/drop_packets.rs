//! `drop_packets` chaos: simulate loss by randomly skipping mock-peer sends.

use vstd::prelude::*;
use crate::bug_hunt::config::{ProfileName, Severity};
use crate::bug_hunt::profiles::{
    failed_outcome, labelled, no_metrics, push_metric, MetricValue, OutcomeView, ProfileOutcome,
    ProfileStatus,
};
use crate::text::{decimal, push_number};

verus! {

/// What goes out in an iteration.
#[derive(Debug, Clone, Copy, PartialEq, Eq, Structural)]
pub enum Packet {
    Video { pts_ms: u64, rtp_ts: u32, keyframe: bool, tail: u8 },
    Audio { pts_ms: u64, rtp_ts: u32, mark: u8 },
}

/// What goes out in an iteration: video and audio in turn.
pub open spec fn packet_of(i: int) -> Packet {
    if i % 2 == 0 {
        Packet::Video {
            pts_ms: (i * 33) as u64,
            rtp_ts: (i * 3000) as u32,
            keyframe: i % 30 == 0,
            tail: (i % 256) as u8,
        }
    } else {
        Packet::Audio {
            pts_ms: (i * 20) as u64,
            rtp_ts: (i * 960) as u32,
            mark: (i % 256) as u8,
        }
    }
}

/// Whether the timestamp of an iteration's packet fits its field.
pub open spec fn stamp_fits(i: int) -> bool {
    if i % 2 == 0 {
        i * 3000 <= u32::MAX
    } else {
        i * 960 <= u32::MAX
    }
}

/// A drop run.
#[derive(Debug, Clone, Copy, PartialEq, Eq, Structural)]
pub struct DropRun {
    /// Effective seed.
    pub seed: u64,
    /// Iterations in all.
    pub iterations: u32,
    /// Packets attempted so far.
    pub attempted: u32,
    /// Packets skipped before the wire.
    pub dropped: u32,
    /// Packets sent.
    pub sent: u32,
    /// Packets that could not be sent.
    pub send_errors: u32,
}

/// What became of an iteration.
#[derive(Debug, Clone, Copy, PartialEq, Eq, Structural)]
pub enum Fate {
    Dropped,
    Sent,
    Failed,
}

/// The drop rate as it is shown and measured.
#[derive(Debug, Clone)]
pub struct DropRate {
    /// The target, as bits.
    pub target_bits: u64,
    /// The target, as text.
    pub target_text: String,
    /// What was measured, as bits.
    pub actual_bits: u64,
}

impl DropRun {
    /// Every attempted packet was dropped, sent, or failed.
    pub open spec fn accounted(self) -> bool {
        &&& self.attempted <= self.iterations
        &&& self.dropped + self.sent + self.send_errors == self.attempted
    }

    /// The run after an iteration.
    pub open spec fn after(self, fate: Fate) -> DropRun {
        DropRun {
            attempted: (self.attempted + 1) as u32,
            dropped: if fate == Fate::Dropped {
                (self.dropped + 1) as u32
            } else {
                self.dropped
            },
            sent: if fate == Fate::Sent {
                (self.sent + 1) as u32
            } else {
                self.sent
            },
            send_errors: if fate == Fate::Failed {
                (self.send_errors + 1) as u32
            } else {
                self.send_errors
            },
            ..self
        }
    }

    /// Whether what arrived is what was sent, without any error.
    pub open spec fn sound(self, received: u32) -> bool {
        self.send_errors == 0 && received == self.sent && self.dropped + self.sent
            == self.attempted
    }

    /// The outcome of a complete run.
    pub open spec fn outcome(self, received: u32, rate: DropRate) -> OutcomeView {
        let metrics = seq![
            ("attempted"@, MetricValue::Count(self.attempted as u64)),
            ("dropped"@, MetricValue::Count(self.dropped as u64)),
            ("sent"@, MetricValue::Count(self.sent as u64)),
            ("received"@, MetricValue::Count(received as u64)),
            ("send_errors"@, MetricValue::Count(self.send_errors as u64)),
            ("drop_rate_target"@, MetricValue::Real { bits: rate.target_bits }),
            ("drop_rate_actual"@, MetricValue::Real { bits: rate.actual_bits }),
        ];
        let repro = "seed="@ + decimal(self.seed as nat) + " drop_rate="@ + rate.target_text@
            + " iterations="@ + decimal(self.iterations as nat);
        if self.sound(received) {
            OutcomeView {
                profile: ProfileName::DropPackets,
                root_seed: None,
                seed: self.seed,
                status: ProfileStatus::Pass,
                severity: None,
                summary: "flaky send: dropped "@ + decimal(self.dropped as nat) + "/"@ + decimal(
                    self.attempted as nat,
                ) + ", delivered "@ + decimal(received as nat) + "/"@ + decimal(self.sent as nat),
                metrics,
                repro: Some(repro),
            }
        } else {
            OutcomeView {
                profile: ProfileName::DropPackets,
                root_seed: None,
                seed: self.seed,
                status: ProfileStatus::Fail,
                severity: Some(Severity::High),
                summary: "invariant broken: sent="@ + decimal(self.sent as nat) + " received="@
                    + decimal(received as nat) + " errors="@ + decimal(self.send_errors as nat)
                    + " dropped="@ + decimal(self.dropped as nat),
                metrics,
                repro: Some(repro),
            }
        }
    }

    /// A run at its start.
    pub fn start(seed: u64, iterations: u32) -> (r: Self)
        ensures
            r == (DropRun {
                seed,
                iterations: if iterations < 1 {
                    1
                } else {
                    iterations
                },
                attempted: 0,
                dropped: 0,
                sent: 0,
                send_errors: 0,
            }),
            r.accounted(),
    {
        DropRun {
            seed,
            iterations: if iterations < 1 {
                1
            } else {
                iterations
            },
            attempted: 0,
            dropped: 0,
            sent: 0,
            send_errors: 0,
        }
    }

    /// Whether there is an iteration left.
    pub fn goes_on(&self) -> (r: bool)
        ensures
            r == (self.attempted < self.iterations),
    {
        self.attempted < self.iterations
    }

    /// Whether the next iteration has a packet: its timestamp has to fit.
    pub fn has_packet(&self) -> (r: bool)
        ensures
            r == stamp_fits(self.attempted as int),
    {
        if self.attempted % 2 == 0 {
            self.attempted as u64 * 3000 <= u32::MAX as u64
        } else {
            self.attempted as u64 * 960 <= u32::MAX as u64
        }
    }

    /// The packet of the next iteration.
    pub fn next_packet(&self) -> (r: Packet)
        requires
            stamp_fits(self.attempted as int),
        ensures
            r == packet_of(self.attempted as int),
    {
        let i: u32 = self.attempted;
        if i % 2 == 0 {
            Packet::Video {
                pts_ms: i as u64 * 33,
                rtp_ts: i * 3000,
                keyframe: i % 30 == 0,
                tail: (i % 256) as u8,
            }
        } else {
            Packet::Audio { pts_ms: i as u64 * 20, rtp_ts: i * 960, mark: (i % 256) as u8 }
        }
    }

    /// Count an iteration.
    pub fn count(&mut self, fate: Fate)
        requires
            old(self).accounted(),
            old(self).attempted < old(self).iterations,
        ensures
            *final(self) == old(self).after(fate),
            final(self).accounted(),
    {
        self.attempted = self.attempted + 1;
        match fate {
            Fate::Dropped => {
                self.dropped = self.dropped + 1;
            },
            Fate::Sent => {
                self.sent = self.sent + 1;
            },
            Fate::Failed => {
                self.send_errors = self.send_errors + 1;
            },
        }
    }

    /// The outcome of a complete run: `received` is what the other peer got.
    pub fn finish(&self, received: u32, rate: &DropRate) -> (r: ProfileOutcome)
        requires
            self.accounted(),
        ensures
            r.deep_view() == self.outcome(received, *rate),
    {
        let mut metrics = no_metrics();
        push_metric(&mut metrics, "attempted", MetricValue::Count(self.attempted as u64));
        push_metric(&mut metrics, "dropped", MetricValue::Count(self.dropped as u64));
        push_metric(&mut metrics, "sent", MetricValue::Count(self.sent as u64));
        push_metric(&mut metrics, "received", MetricValue::Count(received as u64));
        push_metric(&mut metrics, "send_errors", MetricValue::Count(self.send_errors as u64));
        push_metric(
            &mut metrics,
            "drop_rate_target",
            MetricValue::Real { bits: rate.target_bits },
        );
        push_metric(
            &mut metrics,
            "drop_rate_actual",
            MetricValue::Real { bits: rate.actual_bits },
        );
        assert(metrics.deep_view() =~= self.outcome(received, *rate).metrics);
        let mut repro = labelled("seed=", self.seed);
        repro.append(" drop_rate=");
        repro.append(&rate.target_text);
        repro.append(" iterations=");
        push_number(&mut repro, self.iterations as u64);
        if self.send_errors == 0 && received == self.sent && self.dropped + self.sent
            == self.attempted {
            let mut summary = labelled("flaky send: dropped ", self.dropped as u64);
            summary.append("/");
            push_number(&mut summary, self.attempted as u64);
            summary.append(", delivered ");
            push_number(&mut summary, received as u64);
            summary.append("/");
            push_number(&mut summary, self.sent as u64);
            ProfileOutcome {
                profile: ProfileName::DropPackets,
                root_seed: None,
                seed: self.seed,
                status: ProfileStatus::Pass,
                severity: None,
                summary,
                metrics,
                repro: Some(repro),
            }
        } else {
            let mut summary = labelled("invariant broken: sent=", self.sent as u64);
            summary.append(" received=");
            push_number(&mut summary, received as u64);
            summary.append(" errors=");
            push_number(&mut summary, self.send_errors as u64);
            summary.append(" dropped=");
            push_number(&mut summary, self.dropped as u64);
            ProfileOutcome {
                profile: ProfileName::DropPackets,
                root_seed: None,
                seed: self.seed,
                status: ProfileStatus::Fail,
                severity: Some(Severity::High),
                summary,
                metrics,
                repro: Some(repro),
            }
        }
    }
}

/// The outcome of a run whose peers did not get so far.
pub fn drop_setup_failed(seed: u64, summary: String) -> (r: ProfileOutcome)
    ensures
        r.deep_view() == OutcomeView::failed(
            ProfileName::DropPackets,
            seed,
            Severity::High,
            summary@,
            Seq::empty(),
        ),
{
    failed_outcome(ProfileName::DropPackets, seed, Severity::High, summary, no_metrics())
}

/// A run passes exactly if nothing failed and all that was sent arrived; a run without drops and
/// errors delivers every packet.
pub proof fn law_run_passes_iff_delivered(run: DropRun, received: u32, rate: DropRate)
    requires
        run.accounted(),
    ensures
        run.outcome(received, rate).status == ProfileStatus::Pass <==> run.send_errors == 0
            && received == run.sent,
        run.outcome(received, rate).status == ProfileStatus::Pass && run.dropped == 0 ==> received
            == run.attempted,
{
}

/// Video and audio take turns, each at its own pace: two iterations later the same kind goes out, and
/// its clocks have moved on by two frames. A run begins with a keyframe, and every thirtieth packet
/// is one.
pub proof fn law_packets_take_turns(i: int)
    requires
        0 <= i <= u32::MAX,
        stamp_fits(i + 2),
    ensures
        stamp_fits(i),
        i % 2 == 0 <==> packet_of(i) is Video,
        match (packet_of(i), packet_of(i + 2)) {
            (
                Packet::Video { pts_ms: p, rtp_ts: t, .. },
                Packet::Video { pts_ms: q, rtp_ts: u, .. },
            ) => q == p + 66 && u == t + 6000,
            (
                Packet::Audio { pts_ms: p, rtp_ts: t, .. },
                Packet::Audio { pts_ms: q, rtp_ts: u, .. },
            ) => q == p + 40 && u == t + 1920,
            _ => false,
        },
        packet_of(0) == (Packet::Video { pts_ms: 0, rtp_ts: 0, keyframe: true, tail: 0 }),
        packet_of(1) == (Packet::Audio { pts_ms: 20, rtp_ts: 960, mark: 1 }),
        packet_of(i) matches Packet::Video { keyframe, .. } ==> (keyframe <==> i % 30 == 0),
{
}

/// An iteration is counted once, as what became of it, and nothing is lost from the account.
pub proof fn law_iteration_is_counted_once(run: DropRun, fate: Fate)
    requires
        run.accounted(),
        run.attempted < run.iterations,
    ensures
        ({
            let next = run.after(fate);
            &&& next.accounted()
            &&& next.attempted == run.attempted + 1
            &&& next.dropped - run.dropped == (if fate == Fate::Dropped { 1int } else { 0 })
            &&& next.sent - run.sent == (if fate == Fate::Sent { 1int } else { 0 })
            &&& next.send_errors - run.send_errors == (if fate == Fate::Failed { 1int } else { 0 })
            &&& next.seed == run.seed && next.iterations == run.iterations
        }),
{
}

/// The outcome tells the counts of the run, whether it passed or not, and a failure is grave.
pub proof fn law_outcome_tells_the_counts(run: DropRun, received: u32, rate: DropRate)
    ensures
        ({
            let o = run.outcome(received, rate);
            &&& o.metrics.contains(("attempted"@, MetricValue::Count(run.attempted as u64)))
            &&& o.metrics.contains(("dropped"@, MetricValue::Count(run.dropped as u64)))
            &&& o.metrics.contains(("sent"@, MetricValue::Count(run.sent as u64)))
            &&& o.metrics.contains(("received"@, MetricValue::Count(received as u64)))
            &&& o.metrics.contains(("send_errors"@, MetricValue::Count(run.send_errors as u64)))
            &&& o.metrics.contains(
                ("drop_rate_target"@, MetricValue::Real { bits: rate.target_bits }),
            )
            &&& o.metrics.contains(
                ("drop_rate_actual"@, MetricValue::Real { bits: rate.actual_bits }),
            )
            &&& o.seed == run.seed
            &&& o.severity is Some <==> o.status == ProfileStatus::Fail
            &&& o.severity matches Some(s) ==> s == Severity::High
            &&& o.status == ProfileStatus::Pass || o.status == ProfileStatus::Fail
        }),
{
    let m = run.outcome(received, rate).metrics;
    assert(m[0].0 == "attempted"@);
    assert(m[1].0 == "dropped"@);
    assert(m[2].0 == "sent"@);
    assert(m[3].0 == "received"@);
    assert(m[4].0 == "send_errors"@);
    assert(m[5].0 == "drop_rate_target"@);
    assert(m[6].0 == "drop_rate_actual"@);
}

} // verus!
