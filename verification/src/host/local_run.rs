//! The course of a session whose media runs in this process, from the offer on.
//!
//! The network, the peer, the tray and the clock are driven from outside: a step takes what
//! happened and how long it took, and hands out what to do next. The last action of a step asks
//! for the next event; the others are done on the way.

use vstd::prelude::*;
use crate::host::agent_run::{later, AgentFault, ANSWER_MS, ANSWER_POLL_MS, TRICKLE_MS};
use crate::host::chrome::bool_text;
use crate::host::control::{SignalForward, SignalView};
use crate::host::roles::TransportMode;
use crate::host::session::{ConnectionState, PumpStats};
use crate::host::ws_session::{
    capped_sum, larger, local_ice, local_summary, pump_failed, pump_fault, signal_ice, viewer_end,
    viewer_reason, BindStep, EventView, IceFault, IceFaultView, RelayEvent,
};
use crate::text::{chars_of, contains_text, decimal, lemma_occurs_between, occurs_in};

verus! {

/// How long a peer may take to become ready for media, in milliseconds.
pub const READY_MS: u64 = 10_000;

/// How often the host looks for the viewer's answer to the identity challenge.
pub const BIND_POLLS: u32 = 40;

/// What a session waits for.
#[derive(Debug, Clone, Copy, PartialEq, Eq, Structural)]
pub enum LocalPhase {
    /// The offer to be sent.
    Offering,
    /// The viewer's answer.
    AwaitAnswer,
    /// An early candidate of the viewer to be applied.
    EarlyIce,
    /// The answer to be applied.
    Answering,
    /// The candidates gathered so far.
    Gathering,
    /// The host's candidates to be sent.
    HostIce,
    /// The tray, at the beginning of a round.
    Round,
    /// The candidates gathered since.
    RoundGather,
    /// These candidates to be sent.
    RoundHostIce,
    /// A signal of the viewer.
    RoundSignal,
    /// A candidate of the viewer to be applied.
    RoundApply,
    /// The state of the peer.
    RoundPeer,
    /// The end of a round.
    RoundRest,
    /// The peer to be ready for media.
    Ready,
    /// The bind to be started.
    Binding,
    /// Whether the viewer is bound.
    Bound,
    /// The end of a rest between two looks at the bind.
    BindRest,
    /// The tray, in a live session.
    LiveTray,
    /// The state of the peer, in a live session.
    LivePeer,
    /// A signal of the viewer, in a live session.
    LiveSignal,
    /// A candidate of the viewer to be applied, in a live session.
    LiveApply,
    /// A frame to be pumped, in a live session.
    LivePump,
    /// The end of a rest, in a live session.
    LiveRest,
    /// The frames of a session of fixed length to be pumped.
    Pumping,
    /// The counters and the fingerprint.
    Report,
    /// Nothing: the session is over.
    Done,
}

impl LocalPhase {
    /// Whether the session is up to the host's first candidates.
    pub open spec fn answers(self) -> bool {
        self is Offering || self is AwaitAnswer || self is EarlyIce || self is Answering
            || self is Gathering || self is HostIce
    }

    /// Whether the session is in the rounds.
    pub open spec fn trickles(self) -> bool {
        self is Round || self is RoundGather || self is RoundHostIce || self is RoundSignal
            || self is RoundApply || self is RoundPeer || self is RoundRest
    }

    /// Whether the session is between the rounds and the media.
    pub open spec fn binds(self) -> bool {
        self is Ready || self is Binding || self is Bound || self is BindRest
    }

    /// Whether an event is what the session waits for.
    pub open spec fn awaits(self, e: LocalEventView) -> bool {
        match self {
            LocalPhase::Offering => e is OfferSent,
            LocalPhase::AwaitAnswer | LocalPhase::RoundSignal | LocalPhase::LiveSignal => e
                is Signal,
            LocalPhase::EarlyIce
            | LocalPhase::Answering
            | LocalPhase::RoundApply
            | LocalPhase::LiveApply => e is Applied,
            LocalPhase::Gathering | LocalPhase::RoundGather => e is Gathered,
            LocalPhase::HostIce | LocalPhase::RoundHostIce => e is IceSent,
            LocalPhase::Round | LocalPhase::LiveTray => e is Tray,
            LocalPhase::RoundPeer | LocalPhase::LivePeer => e is Peer,
            LocalPhase::RoundRest | LocalPhase::BindRest | LocalPhase::LiveRest => e is Rested,
            LocalPhase::Ready => e is Ready,
            LocalPhase::Binding => e is Bind,
            LocalPhase::Bound => e is Bound,
            LocalPhase::LivePump | LocalPhase::Pumping => e is Pumped,
            LocalPhase::Report => e is Report,
            LocalPhase::Done => false,
        }
    }

    fn is_answering(self) -> (r: bool)
        ensures
            r == self.answers(),
    {
        match self {
            LocalPhase::Offering
            | LocalPhase::AwaitAnswer
            | LocalPhase::EarlyIce
            | LocalPhase::Answering
            | LocalPhase::Gathering
            | LocalPhase::HostIce => true,
            _ => false,
        }
    }

    fn is_trickling(self) -> (r: bool)
        ensures
            r == self.trickles(),
    {
        match self {
            LocalPhase::Round
            | LocalPhase::RoundGather
            | LocalPhase::RoundHostIce
            | LocalPhase::RoundSignal
            | LocalPhase::RoundApply
            | LocalPhase::RoundPeer
            | LocalPhase::RoundRest => true,
            _ => false,
        }
    }

    fn is_binding(self) -> (r: bool)
        ensures
            r == self.binds(),
    {
        match self {
            LocalPhase::Ready
            | LocalPhase::Binding
            | LocalPhase::Bound
            | LocalPhase::BindRest => true,
            _ => false,
        }
    }
}

/// What happened.
#[derive(Debug)]
pub enum LocalEvent {
    /// The offer was sent, or could not be.
    OfferSent(Result<(), String>),
    /// What the signaling server delivered.
    Signal(RelayEvent),
    /// An answer or a candidate was applied to the peer, or could not be.
    Applied(Result<(), String>),
    /// The signals that the manager has produced.
    Gathered(Vec<SignalForward>),
    /// Candidates were sent, or could not be.
    IceSent(Result<(), IceFault>),
    /// A rest is over.
    Rested,
    /// Whether the tray asked to end the session.
    Tray { end: bool },
    /// The state of the peer.
    Peer(ConnectionState),
    /// The peer is ready for media, or did not become so.
    Ready(Result<(), String>),
    /// How the bind was started.
    Bind(BindStep),
    /// Whether the viewer is bound.
    Bound(bool),
    /// Frames were pumped, or could not be.
    Pumped(Result<PumpStats, String>),
    /// Units sent in all, and the fingerprint of the peer.
    Report { video_tx: u64, audio_tx: u64, fingerprint: Result<String, String> },
}

/// What a `LocalEvent` says.
pub enum LocalEventView {
    OfferSent(Result<(), Seq<char>>),
    Signal(EventView),
    Applied(Result<(), Seq<char>>),
    Gathered(Seq<SignalView>),
    IceSent(Result<(), IceFaultView>),
    Rested,
    Tray { end: bool },
    Peer(ConnectionState),
    Ready(Result<(), Seq<char>>),
    Bind(BindStep),
    Bound(bool),
    Pumped(Result<PumpStats, Seq<char>>),
    Report { video_tx: u64, audio_tx: u64, fingerprint: Result<Seq<char>, Seq<char>> },
}

/// A result without a value, with its error as text.
pub open spec fn outcome(r: Result<(), String>) -> Result<(), Seq<char>> {
    match r {
        Ok(()) => Ok(()),
        Err(e) => Err(e@),
    }
}

impl DeepView for LocalEvent {
    type V = LocalEventView;

    open spec fn deep_view(&self) -> LocalEventView {
        match self {
            LocalEvent::OfferSent(r) => LocalEventView::OfferSent(outcome(*r)),
            LocalEvent::Signal(e) => LocalEventView::Signal(e.deep_view()),
            LocalEvent::Applied(r) => LocalEventView::Applied(outcome(*r)),
            LocalEvent::Gathered(s) => LocalEventView::Gathered(s.deep_view()),
            LocalEvent::IceSent(r) => LocalEventView::IceSent(
                match r {
                    Ok(()) => Ok(()),
                    Err(e) => Err(e.deep_view()),
                },
            ),
            LocalEvent::Rested => LocalEventView::Rested,
            LocalEvent::Tray { end } => LocalEventView::Tray { end: *end },
            LocalEvent::Peer(state) => LocalEventView::Peer(*state),
            LocalEvent::Ready(r) => LocalEventView::Ready(outcome(*r)),
            LocalEvent::Bind(step) => LocalEventView::Bind(*step),
            LocalEvent::Bound(bound) => LocalEventView::Bound(*bound),
            LocalEvent::Pumped(r) => LocalEventView::Pumped(
                match r {
                    Ok(s) => Ok(*s),
                    Err(e) => Err(e@),
                },
            ),
            LocalEvent::Report { video_tx, audio_tx, fingerprint } => LocalEventView::Report {
                video_tx: *video_tx,
                audio_tx: *audio_tx,
                fingerprint: match fingerprint {
                    Ok(f) => Ok(f@),
                    Err(e) => Err(e@),
                },
            },
        }
    }
}

/// What to do.
#[derive(Debug)]
pub enum LocalAction {
    /// Wait so long for a signal, in milliseconds.
    Poll { ms: u64 },
    /// Rest so long, in milliseconds.
    Sleep { ms: u64 },
    /// Ask the tray whether the session is to end.
    AskTray,
    /// Let the peer work; what becomes of it does not matter.
    PollPeer,
    /// Take the signals that the manager has produced.
    Gather,
    /// Send candidates to the viewer.
    SendIce(Vec<String>),
    /// Apply the viewer's answer to the peer.
    ApplyAnswer(String),
    /// Apply a candidate of the viewer to the peer.
    ApplyIce(String),
    /// Ask for the state of the peer.
    AskPeer,
    /// Wait at most so long until the peer is ready for media, in milliseconds.
    WaitReady { ms: u64 },
    /// Show the session as active.
    MarkActive,
    /// Authorize the session on the minted code and challenge the viewer.
    StartBind,
    /// Take in what the viewer sent; what becomes of it does not matter.
    PollInbound,
    /// Ask whether the viewer is bound.
    AskBound,
    /// Pump frames.
    Pump { frames: u32 },
    /// Ask for the counters and the fingerprint.
    AskReport,
    /// Tell the viewer that the session ended.
    EndSession { reason: String },
    /// Stop media and close the peer.
    Shutdown,
    /// Show the session as ended.
    EndTray,
    /// Show the session as killed.
    KillTray,
    /// The session is over: the line about it, or its error.
    Finish(Result<String, String>),
}

/// What a `LocalAction` asks for.
pub enum LocalActionView {
    Poll { ms: u64 },
    Sleep { ms: u64 },
    AskTray,
    PollPeer,
    Gather,
    SendIce(Seq<Seq<char>>),
    ApplyAnswer(Seq<char>),
    ApplyIce(Seq<char>),
    AskPeer,
    WaitReady { ms: u64 },
    MarkActive,
    StartBind,
    PollInbound,
    AskBound,
    Pump { frames: u32 },
    AskReport,
    EndSession { reason: Seq<char> },
    Shutdown,
    EndTray,
    KillTray,
    Finish(Result<Seq<char>, Seq<char>>),
}

impl DeepView for LocalAction {
    type V = LocalActionView;

    open spec fn deep_view(&self) -> LocalActionView {
        match self {
            LocalAction::Poll { ms } => LocalActionView::Poll { ms: *ms },
            LocalAction::Sleep { ms } => LocalActionView::Sleep { ms: *ms },
            LocalAction::AskTray => LocalActionView::AskTray,
            LocalAction::PollPeer => LocalActionView::PollPeer,
            LocalAction::Gather => LocalActionView::Gather,
            LocalAction::SendIce(p) => LocalActionView::SendIce(p.deep_view()),
            LocalAction::ApplyAnswer(p) => LocalActionView::ApplyAnswer(p@),
            LocalAction::ApplyIce(p) => LocalActionView::ApplyIce(p@),
            LocalAction::AskPeer => LocalActionView::AskPeer,
            LocalAction::WaitReady { ms } => LocalActionView::WaitReady { ms: *ms },
            LocalAction::MarkActive => LocalActionView::MarkActive,
            LocalAction::StartBind => LocalActionView::StartBind,
            LocalAction::PollInbound => LocalActionView::PollInbound,
            LocalAction::AskBound => LocalActionView::AskBound,
            LocalAction::Pump { frames } => LocalActionView::Pump { frames: *frames },
            LocalAction::AskReport => LocalActionView::AskReport,
            LocalAction::EndSession { reason } => LocalActionView::EndSession { reason: reason@ },
            LocalAction::Shutdown => LocalActionView::Shutdown,
            LocalAction::EndTray => LocalActionView::EndTray,
            LocalAction::KillTray => LocalActionView::KillTray,
            LocalAction::Finish(r) => LocalActionView::Finish(
                match r {
                    Ok(s) => Ok(s@),
                    Err(e) => Err(e@),
                },
            ),
        }
    }
}

impl LocalActionView {
    /// Whether an action asks for the next event, or is the last one of all.
    pub open spec fn asks(self) -> bool {
        match self {
            LocalActionView::PollPeer
            | LocalActionView::MarkActive
            | LocalActionView::PollInbound
            | LocalActionView::EndSession { .. }
            | LocalActionView::Shutdown
            | LocalActionView::EndTray
            | LocalActionView::KillTray => false,
            _ => true,
        }
    }

    /// Whether an event answers an action.
    pub open spec fn answered_by(self, e: LocalEventView) -> bool {
        match self {
            LocalActionView::Poll { .. } => e is Signal,
            LocalActionView::Sleep { .. } => e is Rested,
            LocalActionView::AskTray => e is Tray,
            LocalActionView::Gather => e is Gathered,
            LocalActionView::SendIce(_) => e is IceSent,
            LocalActionView::ApplyAnswer(_) | LocalActionView::ApplyIce(_) => e is Applied,
            LocalActionView::AskPeer => e is Peer,
            LocalActionView::WaitReady { .. } => e is Ready,
            LocalActionView::StartBind => e is Bind,
            LocalActionView::AskBound => e is Bound,
            LocalActionView::Pump { .. } => e is Pumped,
            LocalActionView::AskReport => e is Report,
            _ => false,
        }
    }
}

/// A session whose media runs in this process, from the offer on.
#[derive(Debug)]
pub struct LocalRun {
    public_id: String,
    mode: TransportMode,
    session_id: String,
    video_frames: u32,
    phase: LocalPhase,
    waited_ms: u64,
    host_ice: Vec<String>,
    polls: u32,
    totals: PumpStats,
    reason: String,
}

/// What a `LocalRun` holds.
pub struct LocalView {
    pub public_id: Seq<char>,
    pub mode: TransportMode,
    pub session_id: Seq<char>,
    /// Frames to pump; none for a live session.
    pub video_frames: u32,
    pub phase: LocalPhase,
    /// How long the answer has been awaited, or candidates been exchanged.
    pub waited_ms: u64,
    /// Candidates of the host that wait for the answer.
    pub host_ice: Seq<Seq<char>>,
    /// How often the host has looked for the viewer's bind.
    pub polls: u32,
    /// What was sent.
    pub totals: PumpStats,
    /// Why the session ended.
    pub reason: Seq<char>,
}

impl DeepView for LocalRun {
    type V = LocalView;

    closed spec fn deep_view(&self) -> LocalView {
        LocalView {
            public_id: self.public_id@,
            mode: self.mode,
            session_id: self.session_id@,
            video_frames: self.video_frames,
            phase: self.phase,
            waited_ms: self.waited_ms,
            host_ice: self.host_ice.deep_view(),
            polls: self.polls,
            totals: self.totals,
            reason: self.reason@,
        }
    }
}

/// What a step gives: the session after it, and what to do.
pub type LocalStepped = (LocalView, Seq<LocalActionView>);

impl LocalView {
    /// The session in another phase.
    pub open spec fn at(self, phase: LocalPhase) -> LocalView {
        LocalView { phase, ..self }
    }

    /// The session in another phase, with one thing to do.
    pub open spec fn ask(self, phase: LocalPhase, action: LocalActionView) -> LocalStepped {
        (self.at(phase), seq![action])
    }

    /// One line about a session that was served.
    pub open spec fn summary(self, video_tx: u64, audio_tx: u64, fingerprint: Seq<char>) -> Seq<
        char,
    > {
        "ws-host ok public_id="@ + self.public_id + " session="@ + self.session_id
            + " media=local transport="@ + self.mode.name() + " video_tx="@ + decimal(
            larger(video_tx, self.totals.video_sent),
        ) + " audio_tx="@ + decimal(larger(audio_tx, self.totals.audio_sent)) + " live="@
            + bool_text(self.video_frames == 0) + " reason="@ + self.reason + " fp="@ + fingerprint
    }

    /// Ends with an error; everything else is left as it is.
    pub open spec fn failed(self, error: Seq<char>) -> LocalStepped {
        self.ask(LocalPhase::Done, LocalActionView::Finish(Err(error)))
    }

    /// The set-up failed: the tray shows the end, or the kill where the error names the tray.
    pub open spec fn refused(self, error: Seq<char>) -> LocalStepped {
        (
            self.at(LocalPhase::Done),
            seq![
                if occurs_in("tray"@, error) {
                    LocalActionView::KillTray
                } else {
                    LocalActionView::EndTray
                },
                LocalActionView::Finish(Err(error)),
            ],
        )
    }

    /// Waits on for the answer, as long as there is time.
    pub open spec fn await_answer(self) -> LocalStepped {
        if self.waited_ms >= ANSWER_MS {
            self.refused(AgentFault::AnswerTimeout.text())
        } else {
            self.ask(
                LocalPhase::AwaitAnswer,
                LocalActionView::Poll {
                    ms: if ANSWER_MS - self.waited_ms < ANSWER_POLL_MS {
                        (ANSWER_MS - self.waited_ms) as u64
                    } else {
                        ANSWER_POLL_MS
                    },
                },
            )
        }
    }

    /// The next round, as long as there is time; then the peer has to become ready.
    pub open spec fn round(self) -> LocalStepped {
        if self.waited_ms >= TRICKLE_MS {
            self.wait_ready()
        } else {
            self.ask(LocalPhase::Round, LocalActionView::AskTray)
        }
    }

    /// Waits until the peer is ready for media.
    pub open spec fn wait_ready(self) -> LocalStepped {
        self.ask(LocalPhase::Ready, LocalActionView::WaitReady { ms: READY_MS })
    }

    /// Looks for the viewer's bind, a limited number of times; then media begins.
    pub open spec fn look_for_bind(self) -> LocalStepped {
        if self.polls < BIND_POLLS {
            (
                LocalView {
                    polls: (self.polls + 1) as u32,
                    ..self.at(LocalPhase::Bound)
                },
                seq![LocalActionView::PollInbound, LocalActionView::AskBound],
            )
        } else {
            self.go_live()
        }
    }

    /// The next frame of a live session. The tray goes first.
    pub open spec fn go_live(self) -> LocalStepped {
        self.ask(LocalPhase::LiveTray, LocalActionView::AskTray)
    }

    /// Pumps one frame of a live session.
    pub open spec fn pump_one(self) -> LocalStepped {
        (
            self.at(LocalPhase::LivePump),
            seq![LocalActionView::PollInbound, LocalActionView::Pump { frames: 1 }],
        )
    }

    /// The media is over. A pump that failed ends the session in an error; otherwise the session
    /// is reported.
    pub open spec fn over(self, reason: Seq<char>) -> LocalStepped {
        if pump_failed(self.totals, self.video_frames) {
            (
                self.at(LocalPhase::Done),
                seq![
                    LocalActionView::Shutdown,
                    LocalActionView::EndTray,
                    LocalActionView::Finish(
                        Err(
                            "pump failed (skipped="@ + bool_text(self.totals.skipped_not_connected)
                                + " video_sent="@ + decimal(self.totals.video_sent as nat) + ")"@,
                        ),
                    ),
                ],
            )
        } else {
            (LocalView { reason, ..self }).ask(LocalPhase::Report, LocalActionView::AskReport)
        }
    }

    /// The session up to the host's first candidates, after what happened.
    pub open spec fn answering(self, event: LocalEventView) -> LocalStepped {
        match (self.phase, event) {
            (LocalPhase::Offering, LocalEventView::OfferSent(r)) => match r {
                Err(e) => self.refused("send offer: "@ + e),
                Ok(()) => (LocalView { waited_ms: 0, ..self }).await_answer(),
            },
            (LocalPhase::AwaitAnswer, LocalEventView::Signal(e)) => match e {
                EventView::Answer(p) => self.ask(
                    LocalPhase::Answering,
                    LocalActionView::ApplyAnswer(p),
                ),
                EventView::Ice(p) => self.ask(LocalPhase::EarlyIce, LocalActionView::ApplyIce(p)),
                EventView::Failed(e) => self.refused("recv: "@ + e),
                _ => self.await_answer(),
            },
            (LocalPhase::EarlyIce, LocalEventView::Applied(r)) => match r {
                Err(e) => self.refused("apply ice: "@ + e),
                Ok(()) => self.await_answer(),
            },
            (LocalPhase::Answering, LocalEventView::Applied(r)) => match r {
                Err(e) => self.refused("apply answer: "@ + e),
                Ok(()) => (
                    self.at(LocalPhase::Gathering),
                    seq![LocalActionView::PollPeer, LocalActionView::Gather],
                ),
            },
            (LocalPhase::Gathering, LocalEventView::Gathered(signals)) => (LocalView {
                host_ice: Seq::empty(),
                ..self
            }).ask(
                LocalPhase::HostIce,
                LocalActionView::SendIce(self.host_ice + signal_ice(signals)),
            ),
            (LocalPhase::HostIce, LocalEventView::IceSent(r)) => match r {
                Err(f) => self.refused(f.text("send host ice: "@)),
                Ok(()) => (LocalView { waited_ms: 0, ..self }).round(),
            },
            _ => (self, Seq::empty()),
        }
    }

    /// The session in the rounds, after what happened.
    pub open spec fn trickling(self, event: LocalEventView) -> LocalStepped {
        match (self.phase, event) {
            (LocalPhase::Round, LocalEventView::Tray { end }) => if end {
                self.refused(AgentFault::TrayEnded.text())
            } else {
                (
                    self.at(LocalPhase::RoundGather),
                    seq![LocalActionView::PollPeer, LocalActionView::Gather],
                )
            },
            (LocalPhase::RoundGather, LocalEventView::Gathered(signals)) => self.ask(
                LocalPhase::RoundHostIce,
                LocalActionView::SendIce(signal_ice(signals)),
            ),
            (LocalPhase::RoundHostIce, LocalEventView::IceSent(r)) => match r {
                Err(f) => self.refused(f.text("send host ice: "@)),
                Ok(()) => self.ask(LocalPhase::RoundSignal, LocalActionView::Poll { ms: 50 }),
            },
            (LocalPhase::RoundSignal, LocalEventView::Signal(e)) => match e {
                EventView::Ice(p) => self.ask(LocalPhase::RoundApply, LocalActionView::ApplyIce(p)),
                _ => self.ask(LocalPhase::RoundPeer, LocalActionView::AskPeer),
            },
            (LocalPhase::RoundApply, LocalEventView::Applied(r)) => match r {
                Err(e) => self.refused("apply ice: "@ + e),
                Ok(()) => self.ask(LocalPhase::RoundPeer, LocalActionView::AskPeer),
            },
            (LocalPhase::RoundPeer, LocalEventView::Peer(state)) => if state
                == ConnectionState::Connected {
                self.wait_ready()
            } else {
                self.ask(LocalPhase::RoundRest, LocalActionView::Sleep { ms: 20 })
            },
            (LocalPhase::RoundRest, LocalEventView::Rested) => self.round(),
            _ => (self, Seq::empty()),
        }
    }

    /// The session between the rounds and the media, after what happened.
    pub open spec fn binding(self, event: LocalEventView) -> LocalStepped {
        match (self.phase, event) {
            (LocalPhase::Ready, LocalEventView::Ready(r)) => match r {
                Err(e) => (
                    self.at(LocalPhase::Done),
                    seq![
                        LocalActionView::EndTray,
                        LocalActionView::Finish(Err("wait_ready: "@ + e)),
                    ],
                ),
                Ok(()) => if self.video_frames == 0 {
                    (
                        self.at(LocalPhase::Binding),
                        seq![LocalActionView::MarkActive, LocalActionView::StartBind],
                    )
                } else {
                    (
                        self.at(LocalPhase::Pumping),
                        seq![
                            LocalActionView::MarkActive,
                            LocalActionView::Pump { frames: self.video_frames },
                        ],
                    )
                },
            },
            (LocalPhase::Binding, LocalEventView::Bind(step)) => match step {
                BindStep::AwaitBind => self.look_for_bind(),
                BindStep::Closed => self.go_live(),
            },
            (LocalPhase::Bound, LocalEventView::Bound(bound)) => if bound {
                self.go_live()
            } else {
                self.ask(LocalPhase::BindRest, LocalActionView::Sleep { ms: 25 })
            },
            (LocalPhase::BindRest, LocalEventView::Rested) => self.look_for_bind(),
            _ => (self, Seq::empty()),
        }
    }

    /// The session after a frame of it was pumped, or could not be.
    pub open spec fn pumped(self, result: Result<PumpStats, Seq<char>>) -> LocalStepped {
        match result {
            Ok(sent) => {
                let s = LocalView {
                    totals: PumpStats {
                        video_sent: capped_sum(self.totals.video_sent, sent.video_sent),
                        audio_sent: capped_sum(self.totals.audio_sent, sent.audio_sent),
                        ..self.totals
                    },
                    ..self
                };
                if sent.skipped_not_connected {
                    s.over("peer_disconnected"@)
                } else {
                    s.ask(LocalPhase::LiveRest, LocalActionView::Sleep { ms: 32 })
                }
            },
            Err(e) => if occurs_in("idle"@, e) {
                self.ask(LocalPhase::LiveRest, LocalActionView::Sleep { ms: 16 })
            } else {
                self.over("pump:"@ + e)
            },
        }
    }

    /// The session during its media and its end, after what happened.
    pub open spec fn streaming(self, event: LocalEventView) -> LocalStepped {
        match (self.phase, event) {
            (LocalPhase::LiveTray, LocalEventView::Tray { end }) => if end {
                self.over("tray_end_session"@)
            } else {
                self.ask(LocalPhase::LivePeer, LocalActionView::AskPeer)
            },
            (LocalPhase::LivePeer, LocalEventView::Peer(state)) => if state
                == ConnectionState::Connected {
                self.ask(LocalPhase::LiveSignal, LocalActionView::Poll { ms: 5 })
            } else {
                self.over("peer_disconnected"@)
            },
            (LocalPhase::LiveSignal, LocalEventView::Signal(e)) => match e {
                EventView::End(reason) => self.over(viewer_reason(reason)),
                EventView::Ice(p) => self.ask(LocalPhase::LiveApply, LocalActionView::ApplyIce(p)),
                EventView::Failed(e) => self.over("signaling:"@ + e),
                _ => self.pump_one(),
            },
            (LocalPhase::LiveApply, LocalEventView::Applied(_)) => self.pump_one(),
            (LocalPhase::LivePump, LocalEventView::Pumped(r)) => self.pumped(r),
            (LocalPhase::LiveRest, LocalEventView::Rested) => self.go_live(),
            (LocalPhase::Pumping, LocalEventView::Pumped(r)) => match r {
                Err(e) => self.failed("pump: "@ + e),
                Ok(sent) => (LocalView { totals: sent, ..self }).over("host_media_complete"@),
            },
            (
                LocalPhase::Report,
                LocalEventView::Report { video_tx, audio_tx, fingerprint },
            ) => match fingerprint {
                Err(e) => self.failed(e),
                Ok(f) => (
                    self.at(LocalPhase::Done),
                    seq![
                        LocalActionView::EndSession { reason: self.reason },
                        LocalActionView::Shutdown,
                        LocalActionView::EndTray,
                        LocalActionView::Finish(Ok(self.summary(video_tx, audio_tx, f))),
                    ],
                ),
            },
            _ => (self, Seq::empty()),
        }
    }

    /// The session after what happened, `ms` milliseconds after the step before, and what to do.
    /// What a phase does not wait for only counts the time.
    pub open spec fn stepped(self, ms: u64, event: LocalEventView) -> LocalStepped {
        let s = LocalView { waited_ms: later(self.waited_ms, ms), ..self };
        if self.phase.answers() {
            s.answering(event)
        } else if self.phase.trickles() {
            s.trickling(event)
        } else if self.phase.binds() {
            s.binding(event)
        } else {
            s.streaming(event)
        }
    }
}

fn no_actions() -> (r: Vec<LocalAction>)
    ensures
        r.deep_view() == Seq::<LocalActionView>::empty(),
{
    let r: Vec<LocalAction> = Vec::new();
    assert(r.deep_view() =~= Seq::<LocalActionView>::empty());
    r
}

fn one(action: LocalAction) -> (r: Vec<LocalAction>)
    ensures
        r.deep_view() == seq![action.deep_view()],
{
    let ghost view = action.deep_view();
    let mut r: Vec<LocalAction> = Vec::new();
    r.push(action);
    assert(r.deep_view() =~= seq![view]);
    r
}

fn two(first: LocalAction, second: LocalAction) -> (r: Vec<LocalAction>)
    ensures
        r.deep_view() == seq![first.deep_view(), second.deep_view()],
{
    let ghost views = seq![first.deep_view(), second.deep_view()];
    let mut r: Vec<LocalAction> = Vec::new();
    r.push(first);
    r.push(second);
    assert(r.deep_view() =~= views);
    r
}

fn and(before: Vec<LocalAction>, action: LocalAction) -> (r: Vec<LocalAction>)
    ensures
        r.deep_view() == before.deep_view().push(action.deep_view()),
{
    let ghost first = before.deep_view();
    let ghost view = action.deep_view();
    let mut out = before;
    out.push(action);
    assert(out.deep_view() =~= first.push(view));
    out
}

impl LocalRun {
    /// A session whose peer has produced its first signals. The offer goes out first, and what
    /// became of it is the first event; the candidates wait until the viewer has answered.
    pub fn start(
        public_id: &str,
        mode: TransportMode,
        session_id: &str,
        video_frames: u32,
        outbound: &Vec<SignalForward>,
    ) -> (r: Self)
        ensures
            r.deep_view() == (LocalView {
                public_id: public_id@,
                mode,
                session_id: session_id@,
                video_frames,
                phase: LocalPhase::Offering,
                waited_ms: 0,
                host_ice: signal_ice(outbound.deep_view()),
                polls: 0,
                totals: PumpStats { video_sent: 0, audio_sent: 0, skipped_not_connected: false },
                reason: Seq::empty(),
            }),
    {
        let reason = String::new();
        assert(reason@ =~= Seq::<char>::empty());
        LocalRun {
            public_id: public_id.to_string(),
            mode,
            session_id: session_id.to_string(),
            video_frames,
            phase: LocalPhase::Offering,
            waited_ms: 0,
            host_ice: local_ice(outbound),
            polls: 0,
            totals: PumpStats::default(),
            reason,
        }
    }

    /// What the session waits for.
    pub fn phase(&self) -> (r: LocalPhase)
        ensures
            r == self.deep_view().phase,
    {
        self.phase
    }

    fn ask(&mut self, phase: LocalPhase, action: LocalAction) -> (r: Vec<LocalAction>)
        ensures
            (final(self).deep_view(), r.deep_view()) == old(self).deep_view().ask(
                phase,
                action.deep_view(),
            ),
    {
        self.phase = phase;
        one(action)
    }

    fn failed(&mut self, error: String) -> (r: Vec<LocalAction>)
        ensures
            (final(self).deep_view(), r.deep_view()) == old(self).deep_view().failed(error@),
    {
        self.ask(LocalPhase::Done, LocalAction::Finish(Err(error)))
    }

    fn refused(&mut self, error: String) -> (r: Vec<LocalAction>)
        ensures
            (final(self).deep_view(), r.deep_view()) == old(self).deep_view().refused(error@),
    {
        self.phase = LocalPhase::Done;
        let end = if contains_text(&chars_of(&error), "tray") {
            LocalAction::KillTray
        } else {
            LocalAction::EndTray
        };
        two(end, LocalAction::Finish(Err(error)))
    }

    fn refused_at(&mut self, label: &str, error: &str) -> (r: Vec<LocalAction>)
        ensures
            (final(self).deep_view(), r.deep_view()) == old(self).deep_view().refused(
                label@ + error@,
            ),
    {
        self.refused(label.to_string().concat(error))
    }

    fn await_answer(&mut self) -> (r: Vec<LocalAction>)
        ensures
            (final(self).deep_view(), r.deep_view()) == old(self).deep_view().await_answer(),
    {
        if self.waited_ms >= ANSWER_MS {
            return self.refused(AgentFault::AnswerTimeout.error().to_string());
        }
        let left: u64 = ANSWER_MS - self.waited_ms;
        self.ask(
            LocalPhase::AwaitAnswer,
            LocalAction::Poll {
                ms: if left < ANSWER_POLL_MS {
                    left
                } else {
                    ANSWER_POLL_MS
                },
            },
        )
    }

    fn round(&mut self) -> (r: Vec<LocalAction>)
        ensures
            (final(self).deep_view(), r.deep_view()) == old(self).deep_view().round(),
    {
        if self.waited_ms >= TRICKLE_MS {
            self.wait_ready()
        } else {
            self.ask(LocalPhase::Round, LocalAction::AskTray)
        }
    }

    fn wait_ready(&mut self) -> (r: Vec<LocalAction>)
        ensures
            (final(self).deep_view(), r.deep_view()) == old(self).deep_view().wait_ready(),
    {
        self.ask(LocalPhase::Ready, LocalAction::WaitReady { ms: READY_MS })
    }

    fn look_for_bind(&mut self) -> (r: Vec<LocalAction>)
        ensures
            (final(self).deep_view(), r.deep_view()) == old(self).deep_view().look_for_bind(),
    {
        if self.polls < BIND_POLLS {
            self.polls = self.polls + 1;
            self.phase = LocalPhase::Bound;
            two(LocalAction::PollInbound, LocalAction::AskBound)
        } else {
            self.go_live()
        }
    }

    fn go_live(&mut self) -> (r: Vec<LocalAction>)
        ensures
            (final(self).deep_view(), r.deep_view()) == old(self).deep_view().go_live(),
    {
        self.ask(LocalPhase::LiveTray, LocalAction::AskTray)
    }

    fn pump_one(&mut self) -> (r: Vec<LocalAction>)
        ensures
            (final(self).deep_view(), r.deep_view()) == old(self).deep_view().pump_one(),
    {
        self.phase = LocalPhase::LivePump;
        two(LocalAction::PollInbound, LocalAction::Pump { frames: 1 })
    }

    fn over(&mut self, reason: String) -> (r: Vec<LocalAction>)
        ensures
            (final(self).deep_view(), r.deep_view()) == old(self).deep_view().over(reason@),
    {
        match pump_fault(&self.totals, self.video_frames) {
            Some(e) => {
                self.phase = LocalPhase::Done;
                let ghost view = e@;
                let out = and(
                    two(LocalAction::Shutdown, LocalAction::EndTray),
                    LocalAction::Finish(Err(e)),
                );
                assert(out.deep_view() =~= seq![
                    LocalActionView::Shutdown,
                    LocalActionView::EndTray,
                    LocalActionView::Finish(Err(view)),
                ]);
                out
            },
            None => {
                self.reason = reason;
                self.ask(LocalPhase::Report, LocalAction::AskReport)
            },
        }
    }

    /// The host's candidates with those that were gathered since.
    fn take_host_ice(&mut self, signals: &Vec<SignalForward>) -> (r: Vec<String>)
        ensures
            r.deep_view() == old(self).deep_view().host_ice + signal_ice(signals.deep_view()),
            final(self).deep_view() == (LocalView {
                host_ice: Seq::empty(),
                ..old(self).deep_view()
            }),
    {
        let mut out: Vec<String> = Vec::new();
        std::mem::swap(&mut out, &mut self.host_ice);
        assert(self.host_ice.deep_view() =~= Seq::<Seq<char>>::empty());
        let ghost before = out.deep_view();
        let extra = local_ice(signals);
        let ghost all = extra.deep_view();
        let mut i: usize = 0;
        assert(before + all.take(0) =~= before);
        while i < extra.len()
            invariant
                i <= extra@.len(),
                all == extra.deep_view(),
                out.deep_view() == before + all.take(i as int),
            decreases extra@.len() - i,
        {
            assert(all[i as int] == extra@[i as int]@);
            assert(all.take(i + 1) == all.take(i as int).push(all[i as int]));
            let ghost so_far = out.deep_view();
            out.push(extra[i].clone());
            assert(out.deep_view() =~= so_far.push(all[i as int]));
            assert(out.deep_view() =~= before + all.take(i + 1));
            i += 1;
        }
        assert(all.take(all.len() as int) == all);
        out
    }

    fn answering(&mut self, event: LocalEvent) -> (r: Vec<LocalAction>)
        ensures
            (final(self).deep_view(), r.deep_view()) == old(self).deep_view().answering(
                event.deep_view(),
            ),
    {
        match (self.phase, event) {
            (LocalPhase::Offering, LocalEvent::OfferSent(r)) => match r {
                Err(e) => self.refused_at("send offer: ", &e),
                Ok(()) => {
                    self.waited_ms = 0;
                    self.await_answer()
                },
            },
            (LocalPhase::AwaitAnswer, LocalEvent::Signal(e)) => match e {
                RelayEvent::Answer(p) => self.ask(
                    LocalPhase::Answering,
                    LocalAction::ApplyAnswer(p),
                ),
                RelayEvent::Ice(p) => self.ask(LocalPhase::EarlyIce, LocalAction::ApplyIce(p)),
                RelayEvent::Failed(e) => self.refused_at("recv: ", &e),
                _ => self.await_answer(),
            },
            (LocalPhase::EarlyIce, LocalEvent::Applied(r)) => match r {
                Err(e) => self.refused_at("apply ice: ", &e),
                Ok(()) => self.await_answer(),
            },
            (LocalPhase::Answering, LocalEvent::Applied(r)) => match r {
                Err(e) => self.refused_at("apply answer: ", &e),
                Ok(()) => {
                    self.phase = LocalPhase::Gathering;
                    two(LocalAction::PollPeer, LocalAction::Gather)
                },
            },
            (LocalPhase::Gathering, LocalEvent::Gathered(signals)) => {
                let all = self.take_host_ice(&signals);
                self.ask(LocalPhase::HostIce, LocalAction::SendIce(all))
            },
            (LocalPhase::HostIce, LocalEvent::IceSent(r)) => match r {
                Err(f) => self.refused(f.message("send host ice: ")),
                Ok(()) => {
                    self.waited_ms = 0;
                    self.round()
                },
            },
            _ => no_actions(),
        }
    }

    fn trickling(&mut self, event: LocalEvent) -> (r: Vec<LocalAction>)
        ensures
            (final(self).deep_view(), r.deep_view()) == old(self).deep_view().trickling(
                event.deep_view(),
            ),
    {
        match (self.phase, event) {
            (LocalPhase::Round, LocalEvent::Tray { end }) => {
                if end {
                    return self.refused(AgentFault::TrayEnded.error().to_string());
                }
                self.phase = LocalPhase::RoundGather;
                two(LocalAction::PollPeer, LocalAction::Gather)
            },
            (LocalPhase::RoundGather, LocalEvent::Gathered(signals)) => self.ask(
                LocalPhase::RoundHostIce,
                LocalAction::SendIce(local_ice(&signals)),
            ),
            (LocalPhase::RoundHostIce, LocalEvent::IceSent(r)) => match r {
                Err(f) => self.refused(f.message("send host ice: ")),
                Ok(()) => self.ask(LocalPhase::RoundSignal, LocalAction::Poll { ms: 50 }),
            },
            (LocalPhase::RoundSignal, LocalEvent::Signal(e)) => match e {
                RelayEvent::Ice(p) => self.ask(LocalPhase::RoundApply, LocalAction::ApplyIce(p)),
                _ => self.ask(LocalPhase::RoundPeer, LocalAction::AskPeer),
            },
            (LocalPhase::RoundApply, LocalEvent::Applied(r)) => match r {
                Err(e) => self.refused_at("apply ice: ", &e),
                Ok(()) => self.ask(LocalPhase::RoundPeer, LocalAction::AskPeer),
            },
            (LocalPhase::RoundPeer, LocalEvent::Peer(state)) => {
                if state == ConnectionState::Connected {
                    self.wait_ready()
                } else {
                    self.ask(LocalPhase::RoundRest, LocalAction::Sleep { ms: 20 })
                }
            },
            (LocalPhase::RoundRest, LocalEvent::Rested) => self.round(),
            _ => no_actions(),
        }
    }

    fn binding(&mut self, event: LocalEvent) -> (r: Vec<LocalAction>)
        ensures
            (final(self).deep_view(), r.deep_view()) == old(self).deep_view().binding(
                event.deep_view(),
            ),
    {
        match (self.phase, event) {
            (LocalPhase::Ready, LocalEvent::Ready(r)) => match r {
                Err(e) => {
                    self.phase = LocalPhase::Done;
                    two(
                        LocalAction::EndTray,
                        LocalAction::Finish(Err("wait_ready: ".to_string().concat(&e))),
                    )
                },
                Ok(()) => {
                    if self.video_frames == 0 {
                        self.phase = LocalPhase::Binding;
                        two(LocalAction::MarkActive, LocalAction::StartBind)
                    } else {
                        self.phase = LocalPhase::Pumping;
                        two(
                            LocalAction::MarkActive,
                            LocalAction::Pump { frames: self.video_frames },
                        )
                    }
                },
            },
            (LocalPhase::Binding, LocalEvent::Bind(step)) => match step {
                BindStep::AwaitBind => self.look_for_bind(),
                BindStep::Closed => self.go_live(),
            },
            (LocalPhase::Bound, LocalEvent::Bound(bound)) => {
                if bound {
                    self.go_live()
                } else {
                    self.ask(LocalPhase::BindRest, LocalAction::Sleep { ms: 25 })
                }
            },
            (LocalPhase::BindRest, LocalEvent::Rested) => self.look_for_bind(),
            _ => no_actions(),
        }
    }

    fn pumped(&mut self, result: Result<PumpStats, String>) -> (r: Vec<LocalAction>)
        ensures
            (final(self).deep_view(), r.deep_view()) == old(self).deep_view().pumped(
                match result {
                    Ok(s) => Ok(s),
                    Err(e) => Err(e@),
                },
            ),
    {
        match result {
            Ok(sent) => {
                self.totals.video_sent = self.totals.video_sent.saturating_add(sent.video_sent);
                self.totals.audio_sent = self.totals.audio_sent.saturating_add(sent.audio_sent);
                if sent.skipped_not_connected {
                    self.over("peer_disconnected".to_string())
                } else {
                    self.ask(LocalPhase::LiveRest, LocalAction::Sleep { ms: 32 })
                }
            },
            Err(e) => {
                if contains_text(&chars_of(&e), "idle") {
                    self.ask(LocalPhase::LiveRest, LocalAction::Sleep { ms: 16 })
                } else {
                    self.over("pump:".to_string().concat(&e))
                }
            },
        }
    }

    fn reported(&mut self, video_tx: u64, audio_tx: u64, fingerprint: &str) -> (r: Vec<LocalAction>)
        ensures
            final(self).deep_view() == old(self).deep_view().at(LocalPhase::Done),
            r.deep_view() == seq![
                LocalActionView::EndSession { reason: old(self).deep_view().reason },
                LocalActionView::Shutdown,
                LocalActionView::EndTray,
                LocalActionView::Finish(
                    Ok(old(self).deep_view().summary(video_tx, audio_tx, fingerprint@)),
                ),
            ],
    {
        self.phase = LocalPhase::Done;
        let line = local_summary(
            &self.public_id,
            &self.session_id,
            self.mode,
            (video_tx, audio_tx),
            &self.totals,
            self.video_frames == 0,
            &self.reason,
            fingerprint,
        );
        let ghost view = line@;
        let out = two(
            LocalAction::EndSession { reason: self.reason.clone() },
            LocalAction::Shutdown,
        );
        let out = and(and(out, LocalAction::EndTray), LocalAction::Finish(Ok(line)));
        assert(out.deep_view() =~= seq![
            LocalActionView::EndSession { reason: self.deep_view().reason },
            LocalActionView::Shutdown,
            LocalActionView::EndTray,
            LocalActionView::Finish(Ok(view)),
        ]);
        out
    }

    fn streaming(&mut self, event: LocalEvent) -> (r: Vec<LocalAction>)
        ensures
            (final(self).deep_view(), r.deep_view()) == old(self).deep_view().streaming(
                event.deep_view(),
            ),
    {
        match (self.phase, event) {
            (LocalPhase::LiveTray, LocalEvent::Tray { end }) => {
                if end {
                    self.over("tray_end_session".to_string())
                } else {
                    self.ask(LocalPhase::LivePeer, LocalAction::AskPeer)
                }
            },
            (LocalPhase::LivePeer, LocalEvent::Peer(state)) => {
                if state == ConnectionState::Connected {
                    self.ask(LocalPhase::LiveSignal, LocalAction::Poll { ms: 5 })
                } else {
                    self.over("peer_disconnected".to_string())
                }
            },
            (LocalPhase::LiveSignal, LocalEvent::Signal(e)) => match e {
                RelayEvent::End(reason) => self.over(viewer_end(reason)),
                RelayEvent::Ice(p) => self.ask(LocalPhase::LiveApply, LocalAction::ApplyIce(p)),
                RelayEvent::Failed(e) => self.over("signaling:".to_string().concat(&e)),
                _ => self.pump_one(),
            },
            (LocalPhase::LiveApply, LocalEvent::Applied(_)) => self.pump_one(),
            (LocalPhase::LivePump, LocalEvent::Pumped(r)) => self.pumped(r),
            (LocalPhase::LiveRest, LocalEvent::Rested) => self.go_live(),
            (LocalPhase::Pumping, LocalEvent::Pumped(r)) => match r {
                Err(e) => self.failed("pump: ".to_string().concat(&e)),
                Ok(sent) => {
                    self.totals = sent;
                    self.over("host_media_complete".to_string())
                },
            },
            (
                LocalPhase::Report,
                LocalEvent::Report { video_tx, audio_tx, fingerprint },
            ) => match fingerprint {
                Err(e) => self.failed(e),
                Ok(f) => self.reported(video_tx, audio_tx, &f),
            },
            _ => no_actions(),
        }
    }

    /// The session goes on after what happened, `ms` milliseconds after the step before: what to
    /// do is returned. The last action asks for the next event, unless it is the last of all.
    pub fn step(&mut self, ms: u64, event: LocalEvent) -> (r: Vec<LocalAction>)
        ensures
            (final(self).deep_view(), r.deep_view()) == old(self).deep_view().stepped(
                ms,
                event.deep_view(),
            ),
    {
        self.waited_ms = self.waited_ms.saturating_add(ms);
        if self.phase.is_answering() {
            self.answering(event)
        } else if self.phase.is_trickling() {
            self.trickling(event)
        } else if self.phase.is_binding() {
            self.binding(event)
        } else {
            self.streaming(event)
        }
    }
}

/// Before the viewer's answer has been applied none of the host's candidates goes out.
pub proof fn law_no_local_candidate_before_answer(s: LocalView, ms: u64, e: LocalEventView)
    requires
        s.phase is Offering || s.phase is AwaitAnswer || s.phase is EarlyIce || s.phase
            is Answering,
    ensures
        forall|i: int|
            0 <= i < s.stepped(ms, e).1.len() ==> !((#[trigger] s.stepped(ms, e).1[i]) is SendIce),
        s.stepped(ms, e).0.phase is Gathering ==> s.phase is Answering && (e
            matches LocalEventView::Applied(r) && r is Ok),
{
}

/// A session whose answer does not come in time is given up: the tray shows the end, and the
/// session ends in the timeout.
pub proof fn law_unanswered_local_session_is_given_up(s: LocalView, ms: u64, e: EventView)
    requires
        s.phase is AwaitAnswer,
        s.waited_ms + ms >= 30_000,
        !(e is Answer),
        !(e is Ice),
        !(e is Failed),
    ensures
        s.stepped(ms, LocalEventView::Signal(e)).0.phase is Done,
        s.stepped(ms, LocalEventView::Signal(e)).1 == seq![
            LocalActionView::EndTray,
            LocalActionView::Finish(Err("timeout waiting for session_answer"@)),
        ],
{
    lemma_timeout_spares_the_tray();
}

proof fn lemma_timeout_spares_the_tray()
    ensures
        !occurs_in("tray"@, "timeout waiting for session_answer"@),
        occurs_in("tray"@, "session ended from tray"@),
{
    reveal_strlit("tray");
    reveal_strlit("timeout waiting for session_answer");
    reveal_strlit("session ended from tray");
    let t = "tray"@;
    let s = "timeout waiting for session_answer"@;
    assert forall|i: int| 0 <= i <= s.len() - t.len() implies #[trigger] s.subrange(i, i + t.len())
        != t by {
        if s.subrange(i, i + t.len()) == t {
            assert(s.subrange(i, i + t.len())[0] == 't');
            assert(s.subrange(i, i + t.len())[1] == 'r');
            assert(s[i] == 't' && s[i + 1] == 'r');
        }
    }
    let k = "session ended from tray"@;
    assert(k.subrange(19, 19 + t.len() as int) =~= t);
}

/// The tray's wish to end is obeyed at once. During the set-up the session is killed and ends in
/// an error; a live one is reported and closed in order.
pub proof fn law_tray_ends_local_session(s: LocalView, ms: u64)
    ensures
        s.phase is Round ==> s.stepped(ms, LocalEventView::Tray { end: true }).1 == seq![
            LocalActionView::KillTray,
            LocalActionView::Finish(Err("session ended from tray"@)),
        ],
        s.phase is LiveTray && !pump_failed(s.totals, s.video_frames) ==> {
            let r = s.stepped(ms, LocalEventView::Tray { end: true });
            r.0.phase is Report && r.0.reason == "tray_end_session"@ && r.1 == seq![
                LocalActionView::AskReport,
            ]
        },
{
    lemma_timeout_spares_the_tray();
}

/// Candidates are exchanged for a limited time: after it no further round begins, and the peer has
/// to become ready.
pub proof fn law_local_rounds_end(s: LocalView, ms: u64)
    requires
        s.phase is RoundRest,
        s.waited_ms + ms >= 15_000,
    ensures
        s.stepped(ms, LocalEventView::Rested).1 == seq![LocalActionView::WaitReady { ms: 10_000 }],
{
}

/// The bind is looked for a limited number of times: every look is counted, and after the last one
/// media begins without it.
pub proof fn law_bind_is_not_awaited_forever(s: LocalView, ms: u64)
    requires
        s.phase is BindRest,
    ensures
        s.polls >= 40 ==> s.stepped(ms, LocalEventView::Rested).1 == seq![LocalActionView::AskTray],
        s.polls < 40 ==> s.stepped(ms, LocalEventView::Rested).0.polls == s.polls + 1 && s.stepped(
            ms,
            LocalEventView::Rested,
        ).1 == seq![LocalActionView::PollInbound, LocalActionView::AskBound],
{
}

/// What a step gives asks for at most one event, in its last action, and finishes exactly where
/// the session is over.
pub open spec fn tidy(r: LocalStepped) -> bool {
    &&& forall|i: int| 0 <= i < r.1.len() - 1 ==> !(#[trigger] r.1[i]).asks()
    &&& r.1.len() > 0 ==> r.1.last().asks()
    &&& r.0.phase is Done <==> r.1.len() > 0 && r.1.last() is Finish
}

proof fn lemma_answering_is_tidy(s: LocalView, e: LocalEventView)
    requires
        s.phase.answers(),
    ensures
        tidy(s.answering(e)),
{
}

proof fn lemma_trickling_is_tidy(s: LocalView, e: LocalEventView)
    requires
        s.phase.trickles(),
    ensures
        tidy(s.trickling(e)),
{
}

proof fn lemma_binding_is_tidy(s: LocalView, e: LocalEventView)
    requires
        s.phase.binds(),
    ensures
        tidy(s.binding(e)),
{
}

proof fn lemma_streaming_is_tidy(s: LocalView, e: LocalEventView)
    requires
        !s.phase.answers() && !s.phase.trickles() && !s.phase.binds() && !(s.phase is Done),
    ensures
        tidy(s.streaming(e)),
{
}

/// A step asks for at most one event, in its last action, and finishes exactly where the session
/// is over with it.
pub proof fn law_one_local_question_at_a_time(s: LocalView, ms: u64, e: LocalEventView)
    requires
        !(s.phase is Done),
    ensures
        tidy(s.stepped(ms, e)),
{
    let t = LocalView { waited_ms: later(s.waited_ms, ms), ..s };
    if s.phase.answers() {
        lemma_answering_is_tidy(t, e);
    } else if s.phase.trickles() {
        lemma_trickling_is_tidy(t, e);
    } else if s.phase.binds() {
        lemma_binding_is_tidy(t, e);
    } else {
        lemma_streaming_is_tidy(t, e);
    }
}

/// An event that answers what the session waits for always leads on; any other is passed over,
/// and only its time is counted.
pub proof fn law_awaited_local_event_leads_on(s: LocalView, ms: u64, e: LocalEventView)
    ensures
        s.phase.awaits(e) ==> s.stepped(ms, e).1.len() > 0,
        !s.phase.awaits(e) ==> s.stepped(ms, e) == ((LocalView {
            waited_ms: later(s.waited_ms, ms),
            ..s
        }), Seq::<LocalActionView>::empty()),
{
}

/// Whether the session waits for an event that answers what a step asks for.
pub open spec fn fits(r: LocalStepped, answer: LocalEventView) -> bool {
    r.1.len() > 0 && r.1.last().answered_by(answer) ==> r.0.phase.awaits(answer)
}

proof fn lemma_answering_fits(s: LocalView, e: LocalEventView, answer: LocalEventView)
    ensures
        fits(s.answering(e), answer),
{
}

proof fn lemma_trickling_fits(s: LocalView, e: LocalEventView, answer: LocalEventView)
    ensures
        fits(s.trickling(e), answer),
{
}

proof fn lemma_binding_fits(s: LocalView, e: LocalEventView, answer: LocalEventView)
    ensures
        fits(s.binding(e), answer),
{
}

proof fn lemma_streaming_fits(s: LocalView, e: LocalEventView, answer: LocalEventView)
    ensures
        fits(s.streaming(e), answer),
{
}

/// What a step asks for is what the session then waits for.
pub proof fn law_local_question_fits_phase(
    s: LocalView,
    ms: u64,
    e: LocalEventView,
    answer: LocalEventView,
)
    ensures
        fits(s.stepped(ms, e), answer),
{
    let t = LocalView { waited_ms: later(s.waited_ms, ms), ..s };
    lemma_answering_fits(t, e, answer);
    lemma_trickling_fits(t, e, answer);
    lemma_binding_fits(t, e, answer);
    lemma_streaming_fits(t, e, answer);
}

/// A session that was served ends in order: the viewer is told the reason, media is shut down, the
/// tray shows the end, and the line about the session comes last.
pub proof fn law_served_local_session_is_closed(s: LocalView, ms: u64, e: LocalEventView)
    requires
        s.stepped(ms, e).1.len() > 0,
        s.stepped(ms, e).1.last() matches LocalActionView::Finish(r) && r is Ok,
    ensures
        s.phase is Report,
        e matches LocalEventView::Report { video_tx, audio_tx, fingerprint } && (fingerprint
            matches Ok(f) && s.stepped(ms, e).1 == seq![
            LocalActionView::EndSession { reason: s.reason },
            LocalActionView::Shutdown,
            LocalActionView::EndTray,
            LocalActionView::Finish(Ok(s.summary(video_tx, audio_tx, f))),
        ]),
{
}

proof fn lemma_answering_keeps_totals(s: LocalView, e: LocalEventView)
    ensures
        s.answering(e).0.totals == s.totals,
{
}

proof fn lemma_trickling_keeps_totals(s: LocalView, e: LocalEventView)
    ensures
        s.trickling(e).0.totals == s.totals,
{
}

proof fn lemma_binding_keeps_totals(s: LocalView, e: LocalEventView)
    requires
        !(s.phase is Pumping),
    ensures
        s.binding(e).0.totals == s.totals,
{
}

proof fn lemma_streaming_grows_totals(s: LocalView, e: LocalEventView)
    requires
        !(s.phase is Pumping),
    ensures
        s.streaming(e).0.totals.video_sent >= s.totals.video_sent,
        s.streaming(e).0.totals.audio_sent >= s.totals.audio_sent,
        s.streaming(e).0.totals.skipped_not_connected == s.totals.skipped_not_connected,
{
}

/// Totals of a live session never shrink.
pub proof fn law_totals_only_grow(s: LocalView, ms: u64, e: LocalEventView)
    requires
        !(s.phase is Pumping),
    ensures
        s.stepped(ms, e).0.totals.video_sent >= s.totals.video_sent,
        s.stepped(ms, e).0.totals.audio_sent >= s.totals.audio_sent,
        s.stepped(ms, e).0.totals.skipped_not_connected == s.totals.skipped_not_connected,
{
    let now = LocalView { waited_ms: later(s.waited_ms, ms), ..s };
    if s.phase.answers() {
        lemma_answering_keeps_totals(now, e);
    } else if s.phase.trickles() {
        lemma_trickling_keeps_totals(now, e);
    } else if s.phase.binds() {
        lemma_binding_keeps_totals(now, e);
    } else {
        lemma_streaming_grows_totals(now, e);
    }
}

/// A peer that is ready makes the session active. A live one goes on to the viewer's bind, and one
/// that was asked for frames pumps all of them.
pub proof fn law_ready_peer_gets_media(s: LocalView, ms: u64, e: Seq<char>)
    requires
        s.phase is Ready,
    ensures
        s.video_frames == 0 ==> s.stepped(ms, LocalEventView::Ready(Ok(()))).1 == seq![
            LocalActionView::MarkActive,
            LocalActionView::StartBind,
        ],
        s.video_frames > 0 ==> s.stepped(ms, LocalEventView::Ready(Ok(()))).1 == seq![
            LocalActionView::MarkActive,
            LocalActionView::Pump { frames: s.video_frames },
        ],
        s.stepped(ms, LocalEventView::Ready(Err(e))).1 == seq![
            LocalActionView::EndTray,
            LocalActionView::Finish(Err("wait_ready: "@ + e)),
        ],
{
}

/// The viewer's bind is awaited where the challenge went out, and otherwise media begins without it;
/// a bound viewer ends the wait.
pub proof fn law_bind_is_awaited_after_its_challenge(s: LocalView, ms: u64)
    ensures
        s.phase is Binding && s.polls < 40 ==> s.stepped(
            ms,
            LocalEventView::Bind(BindStep::AwaitBind),
        ).1 == seq![LocalActionView::PollInbound, LocalActionView::AskBound],
        s.phase is Binding ==> s.stepped(ms, LocalEventView::Bind(BindStep::Closed)).0.phase
            is LiveTray,
        s.phase is Bound ==> s.stepped(ms, LocalEventView::Bound(true)).0.phase is LiveTray,
        s.phase is Bound ==> s.stepped(ms, LocalEventView::Bound(false)).0.phase is BindRest,
{
}

/// What the viewer sends is applied: its answer, and its candidates, before the answer as well as
/// after it and while the session is live.
pub proof fn law_viewer_signals_are_applied(s: LocalView, ms: u64, p: Seq<char>)
    ensures
        s.phase is AwaitAnswer ==> s.stepped(
            ms,
            LocalEventView::Signal(EventView::Answer(p)),
        ).1 == seq![LocalActionView::ApplyAnswer(p)],
        s.phase is AwaitAnswer || s.phase is RoundSignal || s.phase is LiveSignal ==> s.stepped(
            ms,
            LocalEventView::Signal(EventView::Ice(p)),
        ).1 == seq![LocalActionView::ApplyIce(p)],
        s.phase is Answering ==> s.stepped(ms, LocalEventView::Applied(Ok(()))).1 == seq![
            LocalActionView::PollPeer,
            LocalActionView::Gather,
        ],
        s.phase is EarlyIce && s.waited_ms + ms < 30_000 ==> s.stepped(
            ms,
            LocalEventView::Applied(Ok(())),
        ).0.phase is AwaitAnswer,
        s.phase is RoundApply ==> s.stepped(ms, LocalEventView::Applied(Ok(()))).0.phase
            is RoundPeer,
{
}

/// The candidates of this process are sent as they are gathered: those that waited for the answer
/// first.
pub proof fn law_own_candidates_are_sent(s: LocalView, ms: u64, signals: Seq<SignalView>)
    ensures
        s.phase is Gathering ==> s.stepped(ms, LocalEventView::Gathered(signals)).1 == seq![
            LocalActionView::SendIce(s.host_ice + signal_ice(signals)),
        ] && s.stepped(ms, LocalEventView::Gathered(signals)).0.host_ice.len() == 0,
        s.phase is RoundGather ==> s.stepped(ms, LocalEventView::Gathered(signals)).1 == seq![
            LocalActionView::SendIce(signal_ice(signals)),
        ],
        s.phase is Round ==> s.stepped(ms, LocalEventView::Tray { end: false }).1 == seq![
            LocalActionView::PollPeer,
            LocalActionView::Gather,
        ],
{
}

/// The rounds end as soon as the peer is connected, and go on while it is not.
pub proof fn law_rounds_end_with_a_connection(s: LocalView, ms: u64, state: ConnectionState)
    requires
        s.phase is RoundPeer,
    ensures
        state == ConnectionState::Connected <==> s.stepped(ms, LocalEventView::Peer(state)).0.phase
            is Ready,
        state != ConnectionState::Connected <==> s.stepped(ms, LocalEventView::Peer(state)).0.phase
            is RoundRest,
{
}

/// A live session pumps one frame after another, counts what went out, and rests between them. A
/// desktop that is idle is no failure; a peer that is gone ends the session.
pub proof fn law_live_session_pumps_frame_by_frame(s: LocalView, ms: u64, sent: PumpStats)
    ensures
        s.phase is LiveTray ==> s.stepped(ms, LocalEventView::Tray { end: false }).0.phase
            is LivePeer,
        s.phase is LivePeer ==> s.stepped(
            ms,
            LocalEventView::Peer(ConnectionState::Connected),
        ).0.phase is LiveSignal,
        s.phase is LivePeer ==> !(s.stepped(
            ms,
            LocalEventView::Peer(ConnectionState::Disconnected),
        ).0.phase is LiveSignal),
        s.phase is LiveSignal ==> s.stepped(ms, LocalEventView::Signal(EventView::Quiet)).1 == seq![
            LocalActionView::PollInbound,
            LocalActionView::Pump { frames: 1 },
        ],
        s.phase is LivePump && !sent.skipped_not_connected ==> {
            let after = s.stepped(ms, LocalEventView::Pumped(Ok(sent))).0;
            &&& after.phase is LiveRest
            &&& s.totals.video_sent + sent.video_sent < u32::MAX ==> after.totals.video_sent
                == s.totals.video_sent + sent.video_sent
            &&& s.totals.audio_sent + sent.audio_sent < u32::MAX ==> after.totals.audio_sent
                == s.totals.audio_sent + sent.audio_sent
        },
        s.phase is LivePump && sent.skipped_not_connected ==> !(s.stepped(
            ms,
            LocalEventView::Pumped(Ok(sent)),
        ).0.phase is LiveRest),
        s.phase is LivePump ==> s.stepped(ms, LocalEventView::Pumped(Err("idle"@))).0.phase
            is LiveRest,
        s.phase is LiveRest ==> s.stepped(ms, LocalEventView::Rested).0.phase is LiveTray,
{
    let at: int = 0;
    assert("idle"@.subrange(at, at + "idle"@.len()) =~= "idle"@);
    assert(occurs_in("idle"@, "idle"@));
}

/// A session whose media went out is reported, with the reason it ended for; one whose media failed
/// is shut down and ends in an error.
pub proof fn law_media_decides_the_end(s: LocalView, ms: u64, sent: PumpStats, e: Seq<char>)
    ensures
        s.phase is Pumping && !pump_failed(sent, s.video_frames) ==> {
            let r = s.stepped(ms, LocalEventView::Pumped(Ok(sent)));
            r.0.phase is Report && r.0.reason == "host_media_complete"@ && r.0.totals == sent
        },
        s.phase is Pumping && pump_failed(sent, s.video_frames) ==> {
            let r = s.stepped(ms, LocalEventView::Pumped(Ok(sent)));
            r.0.phase is Done && r.1.len() == 3 && r.1[0] is Shutdown && r.1[1] is EndTray && (
            r.1[2] matches LocalActionView::Finish(f) && f is Err)
        },
        s.phase is Pumping ==> s.stepped(ms, LocalEventView::Pumped(Err(e))).1 == seq![
            LocalActionView::Finish(Err("pump: "@ + e)),
        ],
        s.phase is LiveSignal && !pump_failed(s.totals, s.video_frames) ==> s.stepped(
            ms,
            LocalEventView::Signal(EventView::End(e)),
        ).0.reason == viewer_reason(e),
        s.phase is LiveSignal && !pump_failed(s.totals, s.video_frames) ==> s.stepped(
            ms,
            LocalEventView::Signal(EventView::Failed(e)),
        ).0.reason == "signaling:"@ + e,
{
}

/// What cannot be sent or applied ends the set-up in an error that tells it.
pub proof fn law_failed_local_setup_tells_why(s: LocalView, ms: u64, e: Seq<char>)
    ensures
        s.phase is Offering ==> s.stepped(ms, LocalEventView::OfferSent(Err(e))).1.last()
            == LocalActionView::Finish(Err("send offer: "@ + e)),
        s.phase is AwaitAnswer ==> s.stepped(
            ms,
            LocalEventView::Signal(EventView::Failed(e)),
        ).1.last() == LocalActionView::Finish(Err("recv: "@ + e)),
        s.phase is EarlyIce || s.phase is RoundApply ==> s.stepped(
            ms,
            LocalEventView::Applied(Err(e)),
        ).1.last() == LocalActionView::Finish(Err("apply ice: "@ + e)),
        s.phase is Answering ==> s.stepped(ms, LocalEventView::Applied(Err(e))).1.last()
            == LocalActionView::Finish(Err("apply answer: "@ + e)),
        s.phase is LiveApply ==> s.stepped(ms, LocalEventView::Applied(Err(e))).0.phase is LivePump,
{
}

/// The summary of a session tells what it was asked for and how it ended.
pub proof fn law_local_summary_tells_the_session(
    s: LocalView,
    video_tx: u64,
    audio_tx: u64,
    fingerprint: Seq<char>,
)
    ensures
        ({
            let line = s.summary(video_tx, audio_tx, fingerprint);
            &&& fingerprint.is_suffix_of(line)
            &&& occurs_in(s.reason, line)
        }),
{
    let line = s.summary(video_tx, audio_tx, fingerprint);
    assert(line.subrange(line.len() - fingerprint.len(), line.len() as int) =~= fingerprint);
    let before = "ws-host ok public_id="@ + s.public_id + " session="@ + s.session_id
        + " media=local transport="@ + s.mode.name() + " video_tx="@ + decimal(
        larger(video_tx, s.totals.video_sent),
    ) + " audio_tx="@ + decimal(larger(audio_tx, s.totals.audio_sent)) + " live="@ + bool_text(
        s.video_frames == 0,
    ) + " reason="@;
    lemma_occurs_between(before, s.reason, " fp="@ + fingerprint);
    assert(line =~= before + s.reason + (" fp="@ + fingerprint));
}

} // verus!
