//! `reconnect` chaos: session teardown + restart on a mock peer pair.

use vstd::prelude::*;
use crate::bug_hunt::config::{ProfileName, Severity};
use crate::bug_hunt::profiles::{
    failed_outcome, labelled, no_metrics, push_metric, MetricValue, OutcomeView, ProfileOutcome,
    ProfileStatus,
};
use crate::host::session::ConnectionState;
use crate::text::{decimal, push_number};

verus! {

/// What one cycle showed, step by step. After a step that failed, the later ones are not looked at.
#[derive(Debug)]
pub struct CycleReport {
    pub handshake: Result<(), String>,
    pub host_connected: ConnectionState,
    pub viewer_connected: ConnectionState,
    pub send_data: Result<(), String>,
    pub send_audio: Result<(), String>,
    pub flush: Result<(), String>,
    /// Whether a data message arrived.
    pub data_arrived: bool,
    /// Whether a media frame arrived.
    pub media_arrived: bool,
    pub close: Result<(), String>,
    pub host_closed: ConnectionState,
    pub viewer_closed: ConnectionState,
    /// The viewer's state after the close, as it is logged.
    pub viewer_shown: String,
}

/// What an ICE restart within one session showed.
#[derive(Debug)]
pub struct IceRestartReport {
    pub handshake: Result<(), String>,
    pub restart: Result<(), String>,
    pub restarts: u64,
    pub host_state: ConnectionState,
}

impl CycleReport {
    /// A cycle of which nothing is known yet.
    pub fn blank() -> (r: Self)
        ensures
            r.handshake is Ok && r.send_data is Ok && r.send_audio is Ok && r.flush is Ok
                && r.close is Ok,
            r.host_connected == ConnectionState::New && r.viewer_connected == ConnectionState::New,
            r.host_closed == ConnectionState::New && r.viewer_closed == ConnectionState::New,
            !r.data_arrived && !r.media_arrived,
            r.viewer_shown@.len() == 0,
    {
        CycleReport {
            handshake: Ok(()),
            host_connected: ConnectionState::New,
            viewer_connected: ConnectionState::New,
            send_data: Ok(()),
            send_audio: Ok(()),
            flush: Ok(()),
            data_arrived: false,
            media_arrived: false,
            close: Ok(()),
            host_closed: ConnectionState::New,
            viewer_closed: ConnectionState::New,
            viewer_shown: String::new(),
        }
    }
}

/// A step of a cycle.
#[derive(Debug, Clone, Copy, PartialEq, Eq, Structural)]
pub enum CycleStep {
    /// Connect the two peers, and look at both.
    Handshake,
    /// Send a data message on the input channel.
    SendData,
    /// Send an audio packet.
    SendAudio,
    /// Let the peers deliver, and look at what arrived.
    Flush,
    /// Close the host's peer, and look at it.
    CloseHost,
    /// Let the viewer's peer notice, and look at it.
    PollViewer,
    /// Judge the cycle by its report.
    Judge,
}

/// The step after `last`, given what the cycle showed so far: the first fault ends the cycle.
pub open spec fn step_after(last: Option<CycleStep>, r: CycleReport) -> CycleStep {
    match last {
        None => CycleStep::Handshake,
        Some(CycleStep::Handshake) => if r.handshake is Ok && r.host_connected
            == ConnectionState::Connected && r.viewer_connected == ConnectionState::Connected {
            CycleStep::SendData
        } else {
            CycleStep::Judge
        },
        Some(CycleStep::SendData) => if r.send_data is Ok {
            CycleStep::SendAudio
        } else {
            CycleStep::Judge
        },
        Some(CycleStep::SendAudio) => if r.send_audio is Ok {
            CycleStep::Flush
        } else {
            CycleStep::Judge
        },
        Some(CycleStep::Flush) => if r.flush is Ok && r.data_arrived && r.media_arrived {
            CycleStep::CloseHost
        } else {
            CycleStep::Judge
        },
        Some(CycleStep::CloseHost) => if r.close is Ok && r.host_closed == ConnectionState::Closed {
            CycleStep::PollViewer
        } else {
            CycleStep::Judge
        },
        Some(CycleStep::PollViewer) | Some(CycleStep::Judge) => CycleStep::Judge,
    }
}

/// A cycle that ends before its last step has a fault, and one without a fault goes through all of
/// them.
pub proof fn law_cycle_stops_only_at_a_fault(last: CycleStep, r: CycleReport)
    requires
        last != CycleStep::PollViewer,
        last != CycleStep::Judge,
    ensures
        step_after(Some(last), r) == CycleStep::Judge ==> cycle_wrong(r) is Some,
        cycle_wrong(r) is None ==> step_after(Some(last), r) != CycleStep::Judge,
{
}

/// The data message of a cycle.
pub open spec fn cycle_text(cycle: u32) -> Seq<char> {
    "{\"cycle\":"@ + decimal(cycle as nat) + "}"@
}

/// An audio packet: its time in milliseconds, its RTP time and its payload.
#[derive(Debug)]
pub struct AudioPacket {
    pub at_ms: u64,
    pub rtp_time: u32,
    pub payload: Vec<u8>,
}

/// What is wrong with a cycle; nothing where it was in order.
pub open spec fn cycle_wrong(r: CycleReport) -> Option<Seq<char>> {
    if let Err(e) = r.handshake {
        Some("handshake failed: "@ + e@)
    } else if r.host_connected != ConnectionState::Connected || r.viewer_connected
        != ConnectionState::Connected {
        Some("not connected after handshake"@)
    } else if let Err(e) = r.send_data {
        Some("send_data: "@ + e@)
    } else if let Err(e) = r.send_audio {
        Some("send_audio: "@ + e@)
    } else if let Err(e) = r.flush {
        Some("flush: "@ + e@)
    } else if !r.data_arrived || !r.media_arrived {
        Some("media not delivered before teardown"@)
    } else if let Err(e) = r.close {
        Some("close host: "@ + e@)
    } else if r.host_closed != ConnectionState::Closed {
        Some("host not Closed after close()"@)
    } else if r.viewer_closed != ConnectionState::Disconnected && r.viewer_closed
        != ConnectionState::Closed {
        Some("viewer expected Disconnected/Closed, got "@ + r.viewer_shown@)
    } else {
        None
    }
}

fn cycle_fault(r: &CycleReport) -> (f: Option<String>)
    ensures
        f.deep_view() == cycle_wrong(*r),
{
    if let Err(e) = &r.handshake {
        return Some("handshake failed: ".to_string().concat(e));
    }
    if r.host_connected != ConnectionState::Connected || r.viewer_connected
        != ConnectionState::Connected {
        return Some("not connected after handshake".to_string());
    }
    if let Err(e) = &r.send_data {
        return Some("send_data: ".to_string().concat(e));
    }
    if let Err(e) = &r.send_audio {
        return Some("send_audio: ".to_string().concat(e));
    }
    if let Err(e) = &r.flush {
        return Some("flush: ".to_string().concat(e));
    }
    if !r.data_arrived || !r.media_arrived {
        return Some("media not delivered before teardown".to_string());
    }
    if let Err(e) = &r.close {
        return Some("close host: ".to_string().concat(e));
    }
    if r.host_closed != ConnectionState::Closed {
        return Some("host not Closed after close()".to_string());
    }
    if r.viewer_closed != ConnectionState::Disconnected && r.viewer_closed
        != ConnectionState::Closed {
        return Some(
            "viewer expected Disconnected/Closed, got ".to_string().concat(&r.viewer_shown),
        );
    }
    None
}

/// What is wrong with an ICE restart; nothing where it was in order.
pub open spec fn restart_wrong(r: IceRestartReport) -> Option<Seq<char>> {
    if let Err(e) = r.handshake {
        Some("ice-restart setup handshake: "@ + e@)
    } else if let Err(e) = r.restart {
        Some("restart_ice: "@ + e@)
    } else if r.restarts != 1 {
        Some("ice_restart_count="@ + decimal(r.restarts as nat) + ", expected 1"@)
    } else if r.host_state != ConnectionState::Connected {
        Some("host not Connected after ICE restart"@)
    } else {
        None
    }
}

fn restart_fault(r: &IceRestartReport) -> (f: Option<String>)
    ensures
        f.deep_view() == restart_wrong(*r),
{
    if let Err(e) = &r.handshake {
        return Some("ice-restart setup handshake: ".to_string().concat(e));
    }
    if let Err(e) = &r.restart {
        return Some("restart_ice: ".to_string().concat(e));
    }
    if r.restarts != 1 {
        let mut s = labelled("ice_restart_count=", r.restarts);
        s.append(", expected 1");
        return Some(s);
    }
    if r.host_state != ConnectionState::Connected {
        return Some("host not Connected after ICE restart".to_string());
    }
    None
}

/// A reconnect run.
#[derive(Debug, Clone, Copy, PartialEq, Eq, Structural)]
pub struct ReconnectRun {
    /// Effective seed.
    pub seed: u64,
    /// Cycles in all.
    pub cycles: u32,
    /// Cycles completed.
    pub completed: u32,
    /// Cycles in which media arrived.
    pub media_ok: u32,
}

impl ReconnectRun {
    /// A failed run.
    pub open spec fn failed(self, summary: Seq<char>) -> OutcomeView {
        OutcomeView::failed(
            ProfileName::Reconnect,
            self.seed,
            Severity::High,
            summary,
            seq![("completed"@, MetricValue::Count(self.completed as u64))],
        )
    }

    /// A run in which every cycle and the restart were in order.
    pub open spec fn passed(self) -> OutcomeView {
        OutcomeView {
            profile: ProfileName::Reconnect,
            root_seed: None,
            seed: self.seed,
            status: ProfileStatus::Pass,
            severity: None,
            summary: "completed "@ + decimal(self.completed as nat)
                + " teardown/restart cycles; media_ok="@ + decimal(self.media_ok as nat)
                + "; ice restart ok"@,
            metrics: seq![
                ("cycles"@, MetricValue::Count(self.cycles as u64)),
                ("completed"@, MetricValue::Count(self.completed as u64)),
                ("media_ok"@, MetricValue::Count(self.media_ok as u64)),
                ("ice_restart_count"@, MetricValue::Count(1)),
            ],
            repro: Some(
                "seed="@ + decimal(self.seed as nat) + " reconnect_cycles="@ + decimal(
                    self.cycles as nat,
                ),
            ),
        }
    }

    /// A run at its start.
    pub fn start(seed: u64, cycles: u32) -> (r: Self)
        ensures
            r == (ReconnectRun {
                seed,
                cycles: if cycles < 1 {
                    1
                } else {
                    cycles
                },
                completed: 0,
                media_ok: 0,
            }),
    {
        ReconnectRun {
            seed,
            cycles: if cycles < 1 {
                1
            } else {
                cycles
            },
            completed: 0,
            media_ok: 0,
        }
    }

    /// Whether there is a cycle left.
    pub fn goes_on(&self) -> (r: bool)
        ensures
            r == (self.completed < self.cycles),
    {
        self.completed < self.cycles
    }

    /// The step of the cycle after `last`.
    pub fn next_step(&self, last: Option<CycleStep>, report: &CycleReport) -> (r: CycleStep)
        ensures
            r == step_after(last, *report),
    {
        let connected = report.host_connected == ConnectionState::Connected
            && report.viewer_connected == ConnectionState::Connected;
        let (goes_on, next) = match last {
            None => (true, CycleStep::Handshake),
            Some(CycleStep::Handshake) => (
                report.handshake.is_ok() && connected,
                CycleStep::SendData,
            ),
            Some(CycleStep::SendData) => (report.send_data.is_ok(), CycleStep::SendAudio),
            Some(CycleStep::SendAudio) => (report.send_audio.is_ok(), CycleStep::Flush),
            Some(CycleStep::Flush) => (
                report.flush.is_ok() && report.data_arrived && report.media_arrived,
                CycleStep::CloseHost,
            ),
            Some(CycleStep::CloseHost) => (
                report.close.is_ok() && report.host_closed == ConnectionState::Closed,
                CycleStep::PollViewer,
            ),
            _ => (false, CycleStep::Judge),
        };
        if goes_on {
            next
        } else {
            CycleStep::Judge
        }
    }

    /// The data message that this cycle sends on the input channel.
    pub fn data_message(&self) -> (r: String)
        ensures
            r@ == cycle_text(self.completed),
    {
        let mut s = labelled("{\"cycle\":", self.completed as u64);
        s.append("}");
        s
    }

    /// The audio packet that a cycle sends.
    pub fn audio_packet(&self) -> (r: AudioPacket)
        ensures
            r.at_ms == 20,
            r.rtp_time == 960,
            r.payload@ == seq![1u8, 2, 3, 4],
    {
        let payload: Vec<u8> = vec![1, 2, 3, 4];
        assert(payload@ =~= seq![1u8, 2, 3, 4]);
        AudioPacket { at_ms: 20, rtp_time: 960, payload }
    }

    /// Whether ICE is restarted after the cycles: only on peers that have connected.
    pub fn restarts_ice(&self, handshake: &Result<(), String>) -> (r: bool)
        ensures
            r == (handshake is Ok),
    {
        handshake.is_ok()
    }

    fn fail(&self, summary: String) -> (r: ProfileOutcome)
        ensures
            r.deep_view() == self.failed(summary@),
    {
        let mut metrics = no_metrics();
        push_metric(&mut metrics, "completed", MetricValue::Count(self.completed as u64));
        assert(metrics.deep_view() =~= seq![
            ("completed"@, MetricValue::Count(self.completed as u64)),
        ]);
        failed_outcome(ProfileName::Reconnect, self.seed, Severity::High, summary, metrics)
    }

    /// Take note of a cycle; a fault ends the run with its outcome.
    pub fn cycle_done(&mut self, report: &CycleReport) -> (r: Option<ProfileOutcome>)
        requires
            old(self).completed < old(self).cycles,
            old(self).media_ok == old(self).completed,
        ensures
            match cycle_wrong(*report) {
                Some(e) => {
                    &&& r matches Some(o) && o.deep_view() == old(self).failed(
                        "cycle "@ + decimal(old(self).completed as nat) + ": "@ + e,
                    )
                    &&& *final(self) == *old(self)
                },
                None => {
                    &&& r is None
                    &&& *final(self) == (ReconnectRun {
                        completed: (old(self).completed + 1) as u32,
                        media_ok: (old(self).media_ok + 1) as u32,
                        ..*old(self)
                    })
                    &&& final(self).media_ok == final(self).completed
                },
            },
    {
        match cycle_fault(report) {
            Some(e) => {
                let mut s = labelled("cycle ", self.completed as u64);
                s.append(": ");
                s.append(&e);
                Some(self.fail(s))
            },
            None => {
                self.completed = self.completed + 1;
                self.media_ok = self.media_ok + 1;
                None
            },
        }
    }

    /// The outcome of a run, given the ICE restart after its cycles.
    pub fn finish(&self, report: &IceRestartReport) -> (r: ProfileOutcome)
        ensures
            r.deep_view() == match restart_wrong(*report) {
                Some(e) => self.failed(e),
                None => self.passed(),
            },
    {
        if let Some(e) = restart_fault(report) {
            return self.fail(e);
        }
        let mut summary = labelled("completed ", self.completed as u64);
        summary.append(" teardown/restart cycles; media_ok=");
        push_number(&mut summary, self.media_ok as u64);
        summary.append("; ice restart ok");
        let mut metrics = no_metrics();
        push_metric(&mut metrics, "cycles", MetricValue::Count(self.cycles as u64));
        push_metric(&mut metrics, "completed", MetricValue::Count(self.completed as u64));
        push_metric(&mut metrics, "media_ok", MetricValue::Count(self.media_ok as u64));
        push_metric(&mut metrics, "ice_restart_count", MetricValue::Count(1));
        assert(metrics.deep_view() =~= self.passed().metrics);
        let mut repro = labelled("seed=", self.seed);
        repro.append(" reconnect_cycles=");
        push_number(&mut repro, self.cycles as u64);
        ProfileOutcome {
            profile: ProfileName::Reconnect,
            root_seed: None,
            seed: self.seed,
            status: ProfileStatus::Pass,
            severity: None,
            summary,
            metrics,
            repro: Some(repro),
        }
    }
}

/// A cycle is in order exactly where both peers connected, both kinds of traffic arrived, and both
/// peers are down after the close.
pub proof fn law_cycle_is_in_order_when_all_steps_are(r: CycleReport)
    ensures
        cycle_wrong(r) is None <==> r.handshake is Ok && r.host_connected
            == ConnectionState::Connected && r.viewer_connected == ConnectionState::Connected
            && r.send_data is Ok && r.send_audio is Ok && r.flush is Ok && r.data_arrived
            && r.media_arrived && r.close is Ok && r.host_closed == ConnectionState::Closed && (
        r.viewer_closed == ConnectionState::Disconnected || r.viewer_closed
            == ConnectionState::Closed),
{
}

/// A cycle in order takes every step once: connect, send both kinds of traffic, deliver, close, look
/// at the viewer, judge.
pub proof fn law_cycle_takes_every_step(r: CycleReport)
    requires
        cycle_wrong(r) is None,
    ensures
        step_after(None, r) == CycleStep::Handshake,
        step_after(Some(CycleStep::Handshake), r) == CycleStep::SendData,
        step_after(Some(CycleStep::SendData), r) == CycleStep::SendAudio,
        step_after(Some(CycleStep::SendAudio), r) == CycleStep::Flush,
        step_after(Some(CycleStep::Flush), r) == CycleStep::CloseHost,
        step_after(Some(CycleStep::CloseHost), r) == CycleStep::PollViewer,
        step_after(Some(CycleStep::PollViewer), r) == CycleStep::Judge,
{
}

/// Nothing is sent before the peers are connected, and nothing is closed before what was sent has
/// arrived.
pub proof fn law_cycle_waits_for_its_peers(last: Option<CycleStep>, r: CycleReport)
    ensures
        step_after(last, r) == CycleStep::SendData ==> r.handshake is Ok && r.host_connected
            == ConnectionState::Connected && r.viewer_connected == ConnectionState::Connected,
        step_after(last, r) == CycleStep::CloseHost ==> r.data_arrived && r.media_arrived,
        step_after(last, r) == CycleStep::PollViewer ==> r.host_closed == ConnectionState::Closed,
        step_after(last, r) == CycleStep::Handshake ==> last is None,
{
}

/// A restart is in order exactly where it was the only one and left the host connected.
pub proof fn law_restart_keeps_the_connection(r: IceRestartReport)
    ensures
        restart_wrong(r) is None <==> r.handshake is Ok && r.restart is Ok && r.restarts == 1
            && r.host_state == ConnectionState::Connected,
{
}

/// A run tells how many cycles it completed; one that passed also tells how many it was to make.
pub proof fn law_run_tells_its_cycles(run: ReconnectRun, summary: Seq<char>)
    ensures
        run.failed(summary).status == ProfileStatus::Fail,
        run.failed(summary).severity == Some(Severity::High),
        run.failed(summary).summary == summary,
        run.failed(summary).seed == run.seed && run.passed().seed == run.seed,
        run.failed(summary).metrics == seq![
            ("completed"@, MetricValue::Count(run.completed as u64)),
        ],
        run.passed().status == ProfileStatus::Pass,
        run.passed().severity is None,
        run.passed().metrics.contains(("completed"@, MetricValue::Count(run.completed as u64))),
        run.passed().metrics.contains(("cycles"@, MetricValue::Count(run.cycles as u64))),
        run.passed().metrics.contains(("media_ok"@, MetricValue::Count(run.media_ok as u64))),
{
    let m = run.passed().metrics;
    assert(m[0].0 == "cycles"@);
    assert(m[1].0 == "completed"@);
    assert(m[2].0 == "media_ok"@);
}

} // verus!
