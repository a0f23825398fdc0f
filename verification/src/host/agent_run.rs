//! The course of a session whose media runs on an agent, from the offer on.
//!
//! The network, the control channel, the tray and the clock are driven from outside: a step takes
//! what happened and how long it took, and hands out what to do next. The last action of a step
//! asks for the next event; the others are done on the way.

use vstd::prelude::*;
use crate::host::control::{
    ControlMessage, DetachSession, MessageView, QueryStats, SignalHop, SignalView, StatsView,
};
use crate::host::roles::TransportMode;
use crate::host::service::signal_to_agent;
use crate::host::signal_kind;
use crate::host::ws_session::{
    agent_ice, ice_payloads, viewer_end, viewer_reason, EventView, IceFault, IceFaultView,
    RelayEvent,
};
use crate::text::{decimal, lemma_occurs_between, occurs_in, push_number, same};

verus! {

/// How long the viewer may take to answer, in milliseconds.
pub const ANSWER_MS: u64 = 30_000;

/// How long one wait for the answer takes at most, in milliseconds.
pub const ANSWER_POLL_MS: u64 = 250;

/// How long candidates are exchanged at most, in milliseconds.
pub const TRICKLE_MS: u64 = 15_000;

/// Why a session on the agent was given up.
#[derive(Debug, Clone, Copy, PartialEq, Eq, Structural)]
pub enum AgentFault {
    /// No answer came in time.
    AnswerTimeout,
    /// The session was ended from the tray.
    TrayEnded,
    /// The agent's peer never connected.
    NotConnected,
    /// The agent connected but sent no video.
    NoVideo,
}

impl AgentFault {
    /// The reason that the agent is given on detach.
    pub open spec fn reason(self) -> Seq<char> {
        match self {
            AgentFault::AnswerTimeout => "answer_timeout"@,
            AgentFault::TrayEnded => "tray_end_session"@,
            AgentFault::NotConnected => "agent_not_connected"@,
            AgentFault::NoVideo => "agent_no_video"@,
        }
    }

    /// The error of the session.
    pub open spec fn text(self) -> Seq<char> {
        match self {
            AgentFault::AnswerTimeout => "timeout waiting for session_answer"@,
            AgentFault::TrayEnded => "session ended from tray"@,
            AgentFault::NotConnected => "agent media plane never reached Connected"@,
            AgentFault::NoVideo => "agent connected but pumped no video"@,
        }
    }

    /// The reason that the agent is given on detach.
    pub fn detach_reason(&self) -> (r: &'static str)
        ensures
            r@ == self.reason(),
    {
        match self {
            AgentFault::AnswerTimeout => "answer_timeout",
            AgentFault::TrayEnded => "tray_end_session",
            AgentFault::NotConnected => "agent_not_connected",
            AgentFault::NoVideo => "agent_no_video",
        }
    }

    /// The error of the session.
    pub fn error(&self) -> (r: &'static str)
        ensures
            r@ == self.text(),
    {
        match self {
            AgentFault::AnswerTimeout => "timeout waiting for session_answer",
            AgentFault::TrayEnded => "session ended from tray",
            AgentFault::NotConnected => "agent media plane never reached Connected",
            AgentFault::NoVideo => "agent connected but pumped no video",
        }
    }
}

/// What a session waits for.
#[derive(Debug, Clone, Copy, PartialEq, Eq, Structural)]
pub enum RunPhase {
    /// The offer to be sent.
    Offering,
    /// The viewer's answer.
    AwaitAnswer,
    /// The agent's reply to the answer.
    Answering,
    /// The host's candidates to be sent.
    HostIce,
    /// The agent's reply to an early candidate of the viewer.
    EarlyIce,
    /// The agent's candidates from that reply to be sent.
    EarlyReplyIce,
    /// The tray, at the beginning of a round.
    Round,
    /// A signal of the viewer.
    RoundSignal,
    /// The agent's reply to a candidate.
    RoundIce,
    /// The agent's candidates from that reply to be sent.
    RoundReplyIce,
    /// The agent's statistics.
    RoundStats,
    /// The agent's candidates from the statistics to be sent.
    RoundStatsIce,
    /// The end of a round.
    RoundRest,
    /// The end of the rest before the last look at the statistics.
    SettleRest,
    /// The last look at the statistics.
    SettleStats,
    /// The tray, in a live session.
    LiveTray,
    /// A signal of the viewer, in a live session.
    LiveSignal,
    /// The agent's reply to a candidate, in a live session.
    LiveIce,
    /// The agent's candidates from that reply to be sent.
    LiveReplyIce,
    /// The agent's statistics, in a live session.
    LiveStats,
    /// The end of a rest, in a live session.
    LiveRest,
    /// Nothing: the session is over.
    Done,
}

impl RunPhase {
    /// Whether the session is not yet exchanging candidates in rounds.
    pub open spec fn opens(self) -> bool {
        self is Offering || self is AwaitAnswer || self is Answering || self is HostIce
            || self is EarlyIce || self is EarlyReplyIce
    }

    /// Whether the session is in the rounds, or in the last look after them.
    pub open spec fn trickles(self) -> bool {
        self is Round || self is RoundSignal || self is RoundIce || self is RoundReplyIce
            || self is RoundStats || self is RoundStatsIce || self is RoundRest
            || self is SettleRest || self is SettleStats
    }

    /// Whether an event is what the session waits for.
    pub open spec fn awaits(self, e: RunEventView) -> bool {
        match self {
            RunPhase::Offering => e is OfferSent,
            RunPhase::AwaitAnswer | RunPhase::RoundSignal | RunPhase::LiveSignal => e is Signal,
            RunPhase::Answering
            | RunPhase::EarlyIce
            | RunPhase::RoundIce
            | RunPhase::RoundStats
            | RunPhase::SettleStats
            | RunPhase::LiveIce
            | RunPhase::LiveStats => e is Reply || e is RequestFailed,
            RunPhase::HostIce
            | RunPhase::EarlyReplyIce
            | RunPhase::RoundReplyIce
            | RunPhase::RoundStatsIce
            | RunPhase::LiveReplyIce => e is IceSent,
            RunPhase::RoundRest | RunPhase::SettleRest | RunPhase::LiveRest => e is Rested,
            RunPhase::Round | RunPhase::LiveTray => e is Tray,
            RunPhase::Done => false,
        }
    }

    fn is_opening(self) -> (r: bool)
        ensures
            r == self.opens(),
    {
        match self {
            RunPhase::Offering
            | RunPhase::AwaitAnswer
            | RunPhase::Answering
            | RunPhase::HostIce
            | RunPhase::EarlyIce
            | RunPhase::EarlyReplyIce => true,
            _ => false,
        }
    }

    fn is_trickling(self) -> (r: bool)
        ensures
            r == self.trickles(),
    {
        match self {
            RunPhase::Round
            | RunPhase::RoundSignal
            | RunPhase::RoundIce
            | RunPhase::RoundReplyIce
            | RunPhase::RoundStats
            | RunPhase::RoundStatsIce
            | RunPhase::RoundRest
            | RunPhase::SettleRest
            | RunPhase::SettleStats => true,
            _ => false,
        }
    }
}

/// What happened.
#[derive(Debug)]
pub enum RunEvent {
    /// The offer was sent, or could not be.
    OfferSent(Result<(), String>),
    /// What the signaling server delivered.
    Signal(RelayEvent),
    /// The agent replied; `shown` is the reply as it is logged, and `more` what came with it.
    Reply { msg: ControlMessage, shown: String, more: Vec<ControlMessage> },
    /// The agent could not be asked.
    RequestFailed(String),
    /// Candidates were sent, or could not be.
    IceSent(Result<(), IceFault>),
    /// A rest is over.
    Rested,
    /// Whether the tray asked to end the session.
    Tray { end: bool },
}

/// What a `RunEvent` says.
pub enum RunEventView {
    OfferSent(Result<(), Seq<char>>),
    Signal(EventView),
    Reply { msg: MessageView, shown: Seq<char>, more: Seq<MessageView> },
    RequestFailed(Seq<char>),
    IceSent(Result<(), IceFaultView>),
    Rested,
    Tray { end: bool },
}

impl DeepView for RunEvent {
    type V = RunEventView;

    open spec fn deep_view(&self) -> RunEventView {
        match self {
            RunEvent::OfferSent(r) => RunEventView::OfferSent(
                match r {
                    Ok(()) => Ok(()),
                    Err(e) => Err(e@),
                },
            ),
            RunEvent::Signal(e) => RunEventView::Signal(e.deep_view()),
            RunEvent::Reply { msg, shown, more } => RunEventView::Reply {
                msg: msg.deep_view(),
                shown: shown@,
                more: more.deep_view(),
            },
            RunEvent::RequestFailed(e) => RunEventView::RequestFailed(e@),
            RunEvent::IceSent(r) => RunEventView::IceSent(
                match r {
                    Ok(()) => Ok(()),
                    Err(e) => Err(e.deep_view()),
                },
            ),
            RunEvent::Rested => RunEventView::Rested,
            RunEvent::Tray { end } => RunEventView::Tray { end: *end },
        }
    }
}

/// What to do.
#[derive(Debug)]
pub enum RunAction {
    /// Wait so long for a signal, in milliseconds.
    Poll { ms: u64 },
    /// Rest so long, in milliseconds.
    Sleep { ms: u64 },
    /// Ask the tray whether the session is to end.
    AskTray,
    /// Send a message to the agent, and wait for its reply.
    Request(ControlMessage),
    /// Send candidates to the viewer.
    SendIce(Vec<String>),
    /// Show the session as active.
    MarkActive,
    /// Send a message to the agent whose reply does not matter.
    Detach(ControlMessage),
    /// Show the session as ended.
    EndTray,
    /// Show the session as killed.
    KillTray,
    /// Tell the viewer that the session ended.
    EndSession { reason: String },
    /// The session is over: the line about it, or its error.
    Finish(Result<String, String>),
}

/// What a `RunAction` asks for.
pub enum ActionView {
    Poll { ms: u64 },
    Sleep { ms: u64 },
    AskTray,
    Request(MessageView),
    SendIce(Seq<Seq<char>>),
    MarkActive,
    Detach(MessageView),
    EndTray,
    KillTray,
    EndSession { reason: Seq<char> },
    Finish(Result<Seq<char>, Seq<char>>),
}

impl DeepView for RunAction {
    type V = ActionView;

    open spec fn deep_view(&self) -> ActionView {
        match self {
            RunAction::Poll { ms } => ActionView::Poll { ms: *ms },
            RunAction::Sleep { ms } => ActionView::Sleep { ms: *ms },
            RunAction::AskTray => ActionView::AskTray,
            RunAction::Request(m) => ActionView::Request(m.deep_view()),
            RunAction::SendIce(p) => ActionView::SendIce(p.deep_view()),
            RunAction::MarkActive => ActionView::MarkActive,
            RunAction::Detach(m) => ActionView::Detach(m.deep_view()),
            RunAction::EndTray => ActionView::EndTray,
            RunAction::KillTray => ActionView::KillTray,
            RunAction::EndSession { reason } => ActionView::EndSession { reason: reason@ },
            RunAction::Finish(r) => ActionView::Finish(
                match r {
                    Ok(s) => Ok(s@),
                    Err(e) => Err(e@),
                },
            ),
        }
    }
}

impl ActionView {
    /// Whether an action asks for the next event, or is the last one of all.
    pub open spec fn asks(self) -> bool {
        self is Poll || self is Sleep || self is AskTray || self is Request || self is SendIce
            || self is Finish
    }

    /// Whether an event answers an action.
    pub open spec fn answered_by(self, e: RunEventView) -> bool {
        match self {
            ActionView::Poll { .. } => e is Signal,
            ActionView::Sleep { .. } => e is Rested,
            ActionView::AskTray => e is Tray,
            ActionView::Request(_) => e is Reply || e is RequestFailed,
            ActionView::SendIce(_) => e is IceSent,
            _ => false,
        }
    }
}

/// A session whose media runs on an agent, from the offer on.
#[derive(Debug)]
pub struct AgentRun {
    public_id: String,
    mode: TransportMode,
    session_id: String,
    video_frames: u32,
    phase: RunPhase,
    waited_ms: u64,
    host_ice: Vec<String>,
    viewer_ice: Vec<String>,
    connected: bool,
    video: bool,
}

/// What an `AgentRun` holds.
pub struct RunView {
    pub public_id: Seq<char>,
    pub mode: TransportMode,
    pub session_id: Seq<char>,
    /// Frames to pump; none for a live session.
    pub video_frames: u32,
    pub phase: RunPhase,
    /// How long the answer has been awaited, or candidates been exchanged.
    pub waited_ms: u64,
    /// Candidates of the host that wait for the answer.
    pub host_ice: Seq<Seq<char>>,
    /// Candidates of the viewer that came before the answer.
    pub viewer_ice: Seq<Seq<char>>,
    /// The agent reported its peer as connected.
    pub connected: bool,
    /// The agent reported video.
    pub video: bool,
}

impl DeepView for AgentRun {
    type V = RunView;

    closed spec fn deep_view(&self) -> RunView {
        RunView {
            public_id: self.public_id@,
            mode: self.mode,
            session_id: self.session_id@,
            video_frames: self.video_frames,
            phase: self.phase,
            waited_ms: self.waited_ms,
            host_ice: self.host_ice.deep_view(),
            viewer_ice: self.viewer_ice.deep_view(),
            connected: self.connected,
            video: self.video,
        }
    }
}

/// Whether a reply reports a connected peer.
pub open spec fn reports_connected(reply: MessageView) -> bool {
    reply matches MessageView::StatsPush(s) && s.ice_path == Some("connected"@)
}

/// Whether a reply reports video.
pub open spec fn reports_video(reply: MessageView) -> bool {
    reply matches MessageView::StatsPush(s) && (s.video_bitrate_bps matches Some(n) && n > 0)
}

/// A time that stays at the largest number.
pub open spec fn later(ms: u64, more: u64) -> u64 {
    if ms + more <= u64::MAX {
        (ms + more) as u64
    } else {
        u64::MAX
    }
}

/// What a step gives: the session after it, and what to do.
pub type Stepped = (RunView, Seq<ActionView>);

impl RunView {
    /// The session in another phase.
    pub open spec fn at(self, phase: RunPhase) -> RunView {
        RunView { phase, ..self }
    }

    /// A signal of this session for the agent.
    pub open spec fn to_agent(self, kind: Seq<char>, payload: Seq<char>) -> MessageView {
        MessageView::SignalForward(
            SignalView { session_id: self.session_id, kind, payload, from: SignalHop::Service },
        )
    }

    /// The question about the agent's statistics.
    pub open spec fn stats_query(self) -> MessageView {
        MessageView::QueryStats { session_id: Some(self.session_id) }
    }

    /// The message that ends the session on the agent.
    pub open spec fn detach(self, reason: Seq<char>) -> MessageView {
        MessageView::DetachSession { session_id: self.session_id, reason: Some(reason) }
    }

    /// Whether the set-up is complete.
    pub open spec fn ready(self) -> bool {
        self.connected && self.video
    }

    /// What the phase says of the reports: a last look is only taken by a connected session, and
    /// a live session was reported connected and with video.
    pub open spec fn sound(self) -> bool {
        &&& self.phase is SettleRest || self.phase is SettleStats ==> self.connected
        &&& !self.phase.opens() && !self.phase.trickles() && !(self.phase is Done) ==> self.ready()
    }

    /// The session after a statistics reply.
    pub open spec fn noted(self, reply: MessageView) -> RunView {
        RunView {
            connected: self.connected || reports_connected(reply),
            video: self.video || reports_video(reply),
            ..self
        }
    }

    /// One line about a session that was served.
    pub open spec fn summary(self) -> Seq<char> {
        "ws-host ok public_id="@ + self.public_id + " session="@ + self.session_id
            + " media=agent transport="@ + self.mode.name() + " video_tx>="@ + decimal(
            if self.video_frames < 3 {
                self.video_frames as nat
            } else {
                3
            },
        )
    }

    /// Ends with an error; the agent and the tray are left as they are.
    pub open spec fn failed(self, error: Seq<char>) -> Stepped {
        (self.at(RunPhase::Done), seq![ActionView::Finish(Err(error))])
    }

    /// Gives the session up: the agent is detached, and the tray shows the end, or the kill where
    /// the tray asked for it.
    pub open spec fn given_up(self, before: Seq<ActionView>, fault: AgentFault) -> Stepped {
        (
            self.at(RunPhase::Done),
            before.push(ActionView::Detach(self.detach(fault.reason()))).push(
                if fault == AgentFault::TrayEnded {
                    ActionView::KillTray
                } else {
                    ActionView::EndTray
                },
            ).push(ActionView::Finish(Err(fault.text()))),
        )
    }

    /// Ends a session that was served: the agent is detached, the viewer told, the tray updated.
    pub open spec fn served(self, before: Seq<ActionView>, reason: Seq<char>) -> Stepped {
        (
            self.at(RunPhase::Done),
            before.push(ActionView::Detach(self.detach(reason))).push(
                ActionView::EndSession { reason },
            ).push(ActionView::EndTray).push(ActionView::Finish(Ok(self.summary()))),
        )
    }

    /// Waits on for the answer, as long as there is time.
    pub open spec fn await_answer(self) -> Stepped {
        if self.waited_ms >= ANSWER_MS {
            self.given_up(Seq::empty(), AgentFault::AnswerTimeout)
        } else {
            (
                self.at(RunPhase::AwaitAnswer),
                seq![
                    ActionView::Poll {
                        ms: if ANSWER_MS - self.waited_ms < ANSWER_POLL_MS {
                            (ANSWER_MS - self.waited_ms) as u64
                        } else {
                            ANSWER_POLL_MS
                        },
                    },
                ],
            )
        }
    }

    /// Asks the agent to take a candidate of the viewer.
    pub open spec fn offer_ice(self, phase: RunPhase, payload: Seq<char>) -> Stepped {
        (
            self.at(phase),
            seq![ActionView::Request(self.to_agent(signal_kind::ICE_CANDIDATE@, payload))],
        )
    }

    /// Sends candidates to the viewer.
    pub open spec fn send_ice(self, phase: RunPhase, payloads: Seq<Seq<char>>) -> Stepped {
        (self.at(phase), seq![ActionView::SendIce(payloads)])
    }

    /// Asks for the agent's statistics.
    pub open spec fn ask_stats(self, phase: RunPhase) -> Stepped {
        (self.at(phase), seq![ActionView::Request(self.stats_query())])
    }

    /// Rests.
    pub open spec fn rest(self, phase: RunPhase, ms: u64) -> Stepped {
        (self.at(phase), seq![ActionView::Sleep { ms }])
    }

    /// The next early candidate of the viewer; after the last one the rounds begin.
    pub open spec fn next_early(self) -> Stepped {
        if self.viewer_ice.len() > 0 {
            (RunView { viewer_ice: self.viewer_ice.skip(1), ..self }).offer_ice(
                RunPhase::EarlyIce,
                self.viewer_ice[0],
            )
        } else {
            (RunView { waited_ms: 0, ..self }).round()
        }
    }

    /// The next round, as long as there is time. The tray goes first.
    pub open spec fn round(self) -> Stepped {
        if self.waited_ms >= TRICKLE_MS {
            self.after_rounds()
        } else {
            (self.at(RunPhase::Round), seq![ActionView::AskTray])
        }
    }

    /// The rounds are over. A session that counts as connected becomes active; where frames are
    /// due and none was reported, the statistics are looked at once more.
    pub open spec fn after_rounds(self) -> Stepped {
        if !self.connected {
            self.given_up(Seq::empty(), AgentFault::NotConnected)
        } else if !self.video && self.video_frames > 0 {
            (
                self.at(RunPhase::SettleRest),
                seq![ActionView::MarkActive, ActionView::Sleep { ms: 100 }],
            )
        } else {
            self.settled(seq![ActionView::MarkActive])
        }
    }

    /// The set-up is over: without any video the session is given up, a live one goes on, another
    /// one is complete.
    pub open spec fn settled(self, before: Seq<ActionView>) -> Stepped {
        if !self.video {
            self.given_up(before, AgentFault::NoVideo)
        } else if self.video_frames == 0 {
            (self.at(RunPhase::LiveTray), before.push(ActionView::AskTray))
        } else {
            self.served(before, "host_media_complete"@)
        }
    }

    /// The session up to the candidates that came early, after what happened.
    pub open spec fn opening(self, event: RunEventView) -> Stepped {
        match (self.phase, event) {
            (RunPhase::Offering, RunEventView::OfferSent(r)) => match r {
                Err(e) => self.failed("send offer: "@ + e),
                Ok(()) => (RunView { waited_ms: 0, ..self }).await_answer(),
            },
            (RunPhase::AwaitAnswer, RunEventView::Signal(e)) => match e {
                EventView::Answer(p) => (
                    self.at(RunPhase::Answering),
                    seq![ActionView::Request(self.to_agent(signal_kind::SESSION_ANSWER@, p))],
                ),
                EventView::Ice(p) => (RunView {
                    viewer_ice: self.viewer_ice.push(p),
                    ..self
                }).await_answer(),
                EventView::Failed(e) => self.failed("recv: "@ + e),
                _ => self.await_answer(),
            },
            (RunPhase::Answering, RunEventView::RequestFailed(e)) => self.failed(
                "agent answer: "@ + e,
            ),
            (RunPhase::Answering, RunEventView::Reply { msg, shown, more }) => if msg is Ack {
                (RunView { host_ice: Seq::empty(), ..self }).send_ice(
                    RunPhase::HostIce,
                    self.host_ice + ice_payloads(more),
                )
            } else {
                self.failed("agent rejected answer: "@ + shown)
            },
            (RunPhase::HostIce, RunEventView::IceSent(r)) => match r {
                Err(f) => self.failed(f.text("send host ice: "@)),
                Ok(()) => self.next_early(),
            },
            (RunPhase::EarlyIce, RunEventView::RequestFailed(e)) => self.failed("agent ice: "@ + e),
            (RunPhase::EarlyIce, RunEventView::Reply { msg, shown, more }) => if msg is Ack {
                self.send_ice(RunPhase::EarlyReplyIce, ice_payloads(more))
            } else {
                self.failed("agent rejected ice: "@ + shown)
            },
            (RunPhase::EarlyReplyIce, RunEventView::IceSent(r)) => match r {
                Err(f) => self.failed(f.text("send agent ice: "@)),
                Ok(()) => self.next_early(),
            },
            _ => (self, Seq::empty()),
        }
    }

    /// The session during the exchange of candidates, after what happened.
    pub open spec fn trickling(self, event: RunEventView) -> Stepped {
        match (self.phase, event) {
            (RunPhase::Round, RunEventView::Tray { end }) => if end {
                self.given_up(Seq::empty(), AgentFault::TrayEnded)
            } else {
                (self.at(RunPhase::RoundSignal), seq![ActionView::Poll { ms: 40 }])
            },
            (RunPhase::RoundSignal, RunEventView::Signal(e)) => match e {
                EventView::Ice(p) => self.offer_ice(RunPhase::RoundIce, p),
                _ => self.ask_stats(RunPhase::RoundStats),
            },
            (RunPhase::RoundIce, RunEventView::RequestFailed(e)) => self.failed("agent ice: "@ + e),
            (RunPhase::RoundIce, RunEventView::Reply { msg, shown, more }) => if msg is Ack {
                self.send_ice(RunPhase::RoundReplyIce, ice_payloads(more))
            } else {
                self.failed("agent rejected ice: "@ + shown)
            },
            (RunPhase::RoundReplyIce, RunEventView::IceSent(r)) => match r {
                Err(f) => self.failed(f.text("send agent ice: "@)),
                Ok(()) => self.ask_stats(RunPhase::RoundStats),
            },
            (RunPhase::RoundStats, RunEventView::RequestFailed(e)) => self.failed(
                "agent query_stats: "@ + e,
            ),
            (RunPhase::RoundStats, RunEventView::Reply { msg, more, .. }) => self.noted(msg).send_ice(
                RunPhase::RoundStatsIce,
                ice_payloads(more),
            ),
            (RunPhase::RoundStatsIce, RunEventView::IceSent(r)) => match r {
                Err(f) => self.failed(f.text("send agent ice: "@)),
                Ok(()) => if self.ready() {
                    self.after_rounds()
                } else {
                    self.rest(RunPhase::RoundRest, 30)
                },
            },
            (RunPhase::RoundRest, RunEventView::Rested) => self.round(),
            (RunPhase::SettleRest, RunEventView::Rested) => self.ask_stats(RunPhase::SettleStats),
            (RunPhase::SettleStats, RunEventView::RequestFailed(e)) => self.failed(
                "agent query_stats: "@ + e,
            ),
            (RunPhase::SettleStats, RunEventView::Reply { msg, .. }) => (RunView {
                video: self.video || reports_video(msg),
                ..self
            }).settled(Seq::empty()),
            _ => (self, Seq::empty()),
        }
    }

    /// A live session after what happened.
    pub open spec fn live(self, event: RunEventView) -> Stepped {
        match (self.phase, event) {
            (RunPhase::LiveTray, RunEventView::Tray { end }) => if end {
                self.served(Seq::empty(), "tray_end_session"@)
            } else {
                (self.at(RunPhase::LiveSignal), seq![ActionView::Poll { ms: 40 }])
            },
            (RunPhase::LiveSignal, RunEventView::Signal(e)) => match e {
                EventView::End(reason) => self.served(Seq::empty(), viewer_reason(reason)),
                EventView::Ice(p) => self.offer_ice(RunPhase::LiveIce, p),
                EventView::Failed(e) => self.served(Seq::empty(), "signaling:"@ + e),
                _ => self.ask_stats(RunPhase::LiveStats),
            },
            (RunPhase::LiveIce, RunEventView::RequestFailed(e)) => self.failed("agent ice: "@ + e),
            (RunPhase::LiveIce, RunEventView::Reply { msg, more, .. }) => if msg is Ack {
                self.send_ice(RunPhase::LiveReplyIce, ice_payloads(more))
            } else {
                self.served(Seq::empty(), "agent_rejected_ice"@)
            },
            (RunPhase::LiveReplyIce, RunEventView::IceSent(_)) => self.ask_stats(RunPhase::LiveStats),
            (RunPhase::LiveStats, RunEventView::RequestFailed(_)) => self.rest(RunPhase::LiveRest, 32),
            (RunPhase::LiveStats, RunEventView::Reply { .. }) => self.rest(RunPhase::LiveRest, 32),
            (RunPhase::LiveRest, RunEventView::Rested) => (
                self.at(RunPhase::LiveTray),
                seq![ActionView::AskTray],
            ),
            _ => (self, Seq::empty()),
        }
    }

    /// The session after what happened, `ms` milliseconds after the step before, and what to do.
    /// What a phase does not wait for only counts the time.
    pub open spec fn stepped(self, ms: u64, event: RunEventView) -> Stepped {
        let s = RunView { waited_ms: later(self.waited_ms, ms), ..self };
        if self.phase.opens() {
            s.opening(event)
        } else if self.phase.trickles() {
            s.trickling(event)
        } else {
            s.live(event)
        }
    }
}

fn no_actions() -> (r: Vec<RunAction>)
    ensures
        r.deep_view() == Seq::<ActionView>::empty(),
{
    let r: Vec<RunAction> = Vec::new();
    assert(r.deep_view() =~= Seq::<ActionView>::empty());
    r
}

fn and(before: Vec<RunAction>, action: RunAction) -> (r: Vec<RunAction>)
    ensures
        r.deep_view() == before.deep_view().push(action.deep_view()),
{
    let ghost first = before.deep_view();
    let ghost view = action.deep_view();
    let mut out = before;
    out.push(action);
    assert(out.deep_view() =~= first.push(view));
    out
}

fn only(action: RunAction) -> (r: Vec<RunAction>)
    ensures
        r.deep_view() == seq![action.deep_view()],
{
    let r = and(no_actions(), action);
    assert(r.deep_view() =~= seq![action.deep_view()]);
    r
}

fn is_ack(msg: &ControlMessage) -> (r: bool)
    ensures
        r == (msg.deep_view() is Ack),
{
    match msg {
        ControlMessage::Ack(_) => true,
        _ => false,
    }
}

fn shows_video(reply: &ControlMessage) -> (r: bool)
    ensures
        r == reports_video(reply.deep_view()),
{
    match reply {
        ControlMessage::StatsPush(s) => match s.video_bitrate_bps {
            Some(n) => n > 0,
            None => false,
        },
        _ => false,
    }
}

fn shows_connected(reply: &ControlMessage) -> (r: bool)
    ensures
        r == reports_connected(reply.deep_view()),
{
    match reply {
        ControlMessage::StatsPush(s) => match &s.ice_path {
            Some(path) => same(path, "connected"),
            None => false,
        },
        _ => false,
    }
}

impl AgentRun {
    /// A session that the agent has started: `outbound` is what it sent while starting. The offer
    /// goes out first, and what became of it is the first event; the candidates wait until the
    /// viewer has answered.
    pub fn start(
        public_id: &str,
        mode: TransportMode,
        session_id: &str,
        video_frames: u32,
        outbound: &Vec<ControlMessage>,
    ) -> (r: Self)
        ensures
            r.deep_view() == (RunView {
                public_id: public_id@,
                mode,
                session_id: session_id@,
                video_frames,
                phase: RunPhase::Offering,
                waited_ms: 0,
                host_ice: ice_payloads(outbound.deep_view()),
                viewer_ice: Seq::empty(),
                connected: false,
                video: false,
            }),
    {
        let viewer_ice: Vec<String> = Vec::new();
        assert(viewer_ice.deep_view() =~= Seq::<Seq<char>>::empty());
        AgentRun {
            public_id: public_id.to_string(),
            mode,
            session_id: session_id.to_string(),
            video_frames,
            phase: RunPhase::Offering,
            waited_ms: 0,
            host_ice: agent_ice(outbound),
            viewer_ice,
            connected: false,
            video: false,
        }
    }

    /// What the session waits for.
    pub fn phase(&self) -> (r: RunPhase)
        ensures
            r == self.deep_view().phase,
    {
        self.phase
    }

    fn summary(&self) -> (r: String)
        ensures
            r@ == self.deep_view().summary(),
    {
        let mut s = "ws-host ok public_id=".to_string();
        s.append(&self.public_id);
        s.append(" session=");
        s.append(&self.session_id);
        s.append(" media=agent transport=");
        s.append(self.mode.as_str());
        s.append(" video_tx>=");
        let least: u64 = if self.video_frames < 3 {
            self.video_frames as u64
        } else {
            3
        };
        push_number(&mut s, least);
        s
    }

    fn detach(&self, reason: &str) -> (r: RunAction)
        ensures
            r.deep_view() == ActionView::Detach(self.deep_view().detach(reason@)),
    {
        RunAction::Detach(
            ControlMessage::DetachSession(
                DetachSession {
                    session_id: self.session_id.clone(),
                    reason: Some(reason.to_string()),
                },
            ),
        )
    }

    fn failed(&mut self, label: &str, error: &str) -> (r: Vec<RunAction>)
        ensures
            (final(self).deep_view(), r.deep_view()) == old(self).deep_view().failed(
                label@ + error@,
            ),
    {
        self.phase = RunPhase::Done;
        only(RunAction::Finish(Err(label.to_string().concat(error))))
    }

    fn ice_failed(&mut self, fault: IceFault, label: &str) -> (r: Vec<RunAction>)
        ensures
            (final(self).deep_view(), r.deep_view()) == old(self).deep_view().failed(
                fault.deep_view().text(label@),
            ),
    {
        self.phase = RunPhase::Done;
        only(RunAction::Finish(Err(fault.message(label))))
    }

    fn given_up(&mut self, before: Vec<RunAction>, fault: AgentFault) -> (r: Vec<RunAction>)
        ensures
            (final(self).deep_view(), r.deep_view()) == old(self).deep_view().given_up(
                before.deep_view(),
                fault,
            ),
    {
        self.phase = RunPhase::Done;
        let out = and(before, self.detach(fault.detach_reason()));
        let out = and(
            out,
            if fault == AgentFault::TrayEnded {
                RunAction::KillTray
            } else {
                RunAction::EndTray
            },
        );
        and(out, RunAction::Finish(Err(fault.error().to_string())))
    }

    fn served(&mut self, before: Vec<RunAction>, reason: &str) -> (r: Vec<RunAction>)
        ensures
            (final(self).deep_view(), r.deep_view()) == old(self).deep_view().served(
                before.deep_view(),
                reason@,
            ),
    {
        self.phase = RunPhase::Done;
        let out = and(before, self.detach(reason));
        let out = and(out, RunAction::EndSession { reason: reason.to_string() });
        let out = and(out, RunAction::EndTray);
        and(out, RunAction::Finish(Ok(self.summary())))
    }

    fn await_answer(&mut self) -> (r: Vec<RunAction>)
        ensures
            (final(self).deep_view(), r.deep_view()) == old(self).deep_view().await_answer(),
    {
        if self.waited_ms >= ANSWER_MS {
            return self.given_up(no_actions(), AgentFault::AnswerTimeout);
        }
        let left: u64 = ANSWER_MS - self.waited_ms;
        self.phase = RunPhase::AwaitAnswer;
        only(
            RunAction::Poll {
                ms: if left < ANSWER_POLL_MS {
                    left
                } else {
                    ANSWER_POLL_MS
                },
            },
        )
    }

    fn offer_ice(&mut self, phase: RunPhase, payload: &str) -> (r: Vec<RunAction>)
        ensures
            (final(self).deep_view(), r.deep_view()) == old(self).deep_view().offer_ice(
                phase,
                payload@,
            ),
    {
        self.phase = phase;
        only(
            RunAction::Request(
                signal_to_agent(&self.session_id, signal_kind::ICE_CANDIDATE, payload),
            ),
        )
    }

    fn send_ice(&mut self, phase: RunPhase, payloads: Vec<String>) -> (r: Vec<RunAction>)
        ensures
            (final(self).deep_view(), r.deep_view()) == old(self).deep_view().send_ice(
                phase,
                payloads.deep_view(),
            ),
    {
        self.phase = phase;
        only(RunAction::SendIce(payloads))
    }

    fn ask_stats(&mut self, phase: RunPhase) -> (r: Vec<RunAction>)
        ensures
            (final(self).deep_view(), r.deep_view()) == old(self).deep_view().ask_stats(phase),
    {
        self.phase = phase;
        only(
            RunAction::Request(
                ControlMessage::QueryStats(
                    QueryStats { session_id: Some(self.session_id.clone()) },
                ),
            ),
        )
    }

    fn rest(&mut self, phase: RunPhase, ms: u64) -> (r: Vec<RunAction>)
        ensures
            (final(self).deep_view(), r.deep_view()) == old(self).deep_view().rest(phase, ms),
    {
        self.phase = phase;
        only(RunAction::Sleep { ms })
    }

    /// The host's candidates with those that came with the agent's reply.
    fn take_host_ice(&mut self, more: &Vec<ControlMessage>) -> (r: Vec<String>)
        ensures
            r.deep_view() == old(self).deep_view().host_ice + ice_payloads(more.deep_view()),
            final(self).deep_view() == (RunView {
                host_ice: Seq::empty(),
                ..old(self).deep_view()
            }),
    {
        let mut out: Vec<String> = Vec::new();
        std::mem::swap(&mut out, &mut self.host_ice);
        assert(self.host_ice.deep_view() =~= Seq::<Seq<char>>::empty());
        let ghost before = out.deep_view();
        let extra = agent_ice(more);
        let ghost all = extra.deep_view();
        let mut i: usize = 0;
        assert(before + all.take(0) =~= before);
        while i < extra.len()
            invariant
                i <= extra@.len(),
                all == extra.deep_view(),
                out.deep_view() == before + all.take(i as int),
            decreases extra@.len() - i,
        {
            assert(all[i as int] == extra@[i as int]@);
            assert(all.take(i + 1) == all.take(i as int).push(all[i as int]));
            let ghost so_far = out.deep_view();
            out.push(extra[i].clone());
            assert(out.deep_view() =~= so_far.push(all[i as int]));
            assert(out.deep_view() =~= before + all.take(i + 1));
            i += 1;
        }
        assert(all.take(all.len() as int) == all);
        out
    }

    fn next_early(&mut self) -> (r: Vec<RunAction>)
        ensures
            (final(self).deep_view(), r.deep_view()) == old(self).deep_view().next_early(),
    {
        if self.viewer_ice.len() > 0 {
            let ghost all = self.viewer_ice.deep_view();
            let payload = self.viewer_ice.remove(0);
            assert(self.viewer_ice.deep_view() =~= all.skip(1));
            return self.offer_ice(RunPhase::EarlyIce, &payload);
        }
        self.waited_ms = 0;
        self.round()
    }

    fn round(&mut self) -> (r: Vec<RunAction>)
        ensures
            (final(self).deep_view(), r.deep_view()) == old(self).deep_view().round(),
    {
        if self.waited_ms >= TRICKLE_MS {
            return self.after_rounds();
        }
        self.phase = RunPhase::Round;
        only(RunAction::AskTray)
    }

    fn after_rounds(&mut self) -> (r: Vec<RunAction>)
        ensures
            (final(self).deep_view(), r.deep_view()) == old(self).deep_view().after_rounds(),
    {
        if !self.connected {
            return self.given_up(no_actions(), AgentFault::NotConnected);
        }
        let active = only(RunAction::MarkActive);
        if !self.video && self.video_frames > 0 {
            self.phase = RunPhase::SettleRest;
            let out = and(active, RunAction::Sleep { ms: 100 });
            assert(out.deep_view() =~= seq![
                ActionView::MarkActive,
                ActionView::Sleep { ms: 100 },
            ]);
            return out;
        }
        self.settled(active)
    }

    fn settled(&mut self, before: Vec<RunAction>) -> (r: Vec<RunAction>)
        ensures
            (final(self).deep_view(), r.deep_view()) == old(self).deep_view().settled(
                before.deep_view(),
            ),
    {
        if !self.video {
            self.given_up(before, AgentFault::NoVideo)
        } else if self.video_frames == 0 {
            self.phase = RunPhase::LiveTray;
            and(before, RunAction::AskTray)
        } else {
            self.served(before, "host_media_complete")
        }
    }

    fn opening(&mut self, event: RunEvent) -> (r: Vec<RunAction>)
        ensures
            (final(self).deep_view(), r.deep_view()) == old(self).deep_view().opening(
                event.deep_view(),
            ),
    {
        match (self.phase, event) {
            (RunPhase::Offering, RunEvent::OfferSent(r)) => match r {
                Err(e) => self.failed("send offer: ", &e),
                Ok(()) => {
                    self.waited_ms = 0;
                    self.await_answer()
                },
            },
            (RunPhase::AwaitAnswer, RunEvent::Signal(e)) => match e {
                RelayEvent::Answer(p) => {
                    self.phase = RunPhase::Answering;
                    only(
                        RunAction::Request(
                            signal_to_agent(&self.session_id, signal_kind::SESSION_ANSWER, &p),
                        ),
                    )
                },
                RelayEvent::Ice(p) => {
                    let ghost so_far = self.viewer_ice.deep_view();
                    let ghost view = p@;
                    self.viewer_ice.push(p);
                    assert(self.viewer_ice.deep_view() =~= so_far.push(view));
                    self.await_answer()
                },
                RelayEvent::Failed(e) => self.failed("recv: ", &e),
                _ => self.await_answer(),
            },
            (RunPhase::Answering, RunEvent::RequestFailed(e)) => self.failed("agent answer: ", &e),
            (RunPhase::Answering, RunEvent::Reply { msg, shown, more }) => {
                if !is_ack(&msg) {
                    return self.failed("agent rejected answer: ", &shown);
                }
                let all = self.take_host_ice(&more);
                self.send_ice(RunPhase::HostIce, all)
            },
            (RunPhase::HostIce, RunEvent::IceSent(r)) => match r {
                Err(f) => self.ice_failed(f, "send host ice: "),
                Ok(()) => self.next_early(),
            },
            (RunPhase::EarlyIce, RunEvent::RequestFailed(e)) => self.failed("agent ice: ", &e),
            (RunPhase::EarlyIce, RunEvent::Reply { msg, shown, more }) => {
                if !is_ack(&msg) {
                    return self.failed("agent rejected ice: ", &shown);
                }
                self.send_ice(RunPhase::EarlyReplyIce, agent_ice(&more))
            },
            (RunPhase::EarlyReplyIce, RunEvent::IceSent(r)) => match r {
                Err(f) => self.ice_failed(f, "send agent ice: "),
                Ok(()) => self.next_early(),
            },
            _ => no_actions(),
        }
    }

    fn trickling(&mut self, event: RunEvent) -> (r: Vec<RunAction>)
        ensures
            (final(self).deep_view(), r.deep_view()) == old(self).deep_view().trickling(
                event.deep_view(),
            ),
    {
        match (self.phase, event) {
            (RunPhase::Round, RunEvent::Tray { end }) => {
                if end {
                    return self.given_up(no_actions(), AgentFault::TrayEnded);
                }
                self.phase = RunPhase::RoundSignal;
                only(RunAction::Poll { ms: 40 })
            },
            (RunPhase::RoundSignal, RunEvent::Signal(e)) => match e {
                RelayEvent::Ice(p) => self.offer_ice(RunPhase::RoundIce, &p),
                _ => self.ask_stats(RunPhase::RoundStats),
            },
            (RunPhase::RoundIce, RunEvent::RequestFailed(e)) => self.failed("agent ice: ", &e),
            (RunPhase::RoundIce, RunEvent::Reply { msg, shown, more }) => {
                if !is_ack(&msg) {
                    return self.failed("agent rejected ice: ", &shown);
                }
                self.send_ice(RunPhase::RoundReplyIce, agent_ice(&more))
            },
            (RunPhase::RoundReplyIce, RunEvent::IceSent(r)) => match r {
                Err(f) => self.ice_failed(f, "send agent ice: "),
                Ok(()) => self.ask_stats(RunPhase::RoundStats),
            },
            (RunPhase::RoundStats, RunEvent::RequestFailed(e)) => self.failed(
                "agent query_stats: ",
                &e,
            ),
            (RunPhase::RoundStats, RunEvent::Reply { msg, shown: _, more }) => {
                self.connected = self.connected || shows_connected(&msg);
                self.video = self.video || shows_video(&msg);
                self.send_ice(RunPhase::RoundStatsIce, agent_ice(&more))
            },
            (RunPhase::RoundStatsIce, RunEvent::IceSent(r)) => match r {
                Err(f) => self.ice_failed(f, "send agent ice: "),
                Ok(()) => {
                    if self.connected && self.video {
                        self.after_rounds()
                    } else {
                        self.rest(RunPhase::RoundRest, 30)
                    }
                },
            },
            (RunPhase::RoundRest, RunEvent::Rested) => self.round(),
            (RunPhase::SettleRest, RunEvent::Rested) => self.ask_stats(RunPhase::SettleStats),
            (RunPhase::SettleStats, RunEvent::RequestFailed(e)) => self.failed(
                "agent query_stats: ",
                &e,
            ),
            (RunPhase::SettleStats, RunEvent::Reply { msg, shown: _, more: _ }) => {
                self.video = self.video || shows_video(&msg);
                self.settled(no_actions())
            },
            _ => no_actions(),
        }
    }

    fn live(&mut self, event: RunEvent) -> (r: Vec<RunAction>)
        ensures
            (final(self).deep_view(), r.deep_view()) == old(self).deep_view().live(
                event.deep_view(),
            ),
    {
        match (self.phase, event) {
            (RunPhase::LiveTray, RunEvent::Tray { end }) => {
                if end {
                    return self.served(no_actions(), "tray_end_session");
                }
                self.phase = RunPhase::LiveSignal;
                only(RunAction::Poll { ms: 40 })
            },
            (RunPhase::LiveSignal, RunEvent::Signal(e)) => match e {
                RelayEvent::End(reason) => self.served(no_actions(), &viewer_end(reason)),
                RelayEvent::Ice(p) => self.offer_ice(RunPhase::LiveIce, &p),
                RelayEvent::Failed(e) => self.served(
                    no_actions(),
                    &"signaling:".to_string().concat(&e),
                ),
                _ => self.ask_stats(RunPhase::LiveStats),
            },
            (RunPhase::LiveIce, RunEvent::RequestFailed(e)) => self.failed("agent ice: ", &e),
            (RunPhase::LiveIce, RunEvent::Reply { msg, shown: _, more }) => {
                if !is_ack(&msg) {
                    return self.served(no_actions(), "agent_rejected_ice");
                }
                self.send_ice(RunPhase::LiveReplyIce, agent_ice(&more))
            },
            (RunPhase::LiveReplyIce, RunEvent::IceSent(_)) => self.ask_stats(RunPhase::LiveStats),
            (RunPhase::LiveStats, RunEvent::RequestFailed(_)) => self.rest(RunPhase::LiveRest, 32),
            (RunPhase::LiveStats, RunEvent::Reply { .. }) => self.rest(RunPhase::LiveRest, 32),
            (RunPhase::LiveRest, RunEvent::Rested) => {
                self.phase = RunPhase::LiveTray;
                only(RunAction::AskTray)
            },
            _ => no_actions(),
        }
    }

    /// The session goes on after what happened, `ms` milliseconds after the step before: what to
    /// do is returned. The last action asks for the next event, unless it is the last of all.
    pub fn step(&mut self, ms: u64, event: RunEvent) -> (r: Vec<RunAction>)
        ensures
            (final(self).deep_view(), r.deep_view()) == old(self).deep_view().stepped(
                ms,
                event.deep_view(),
            ),
    {
        self.waited_ms = self.waited_ms.saturating_add(ms);
        if self.phase.is_opening() {
            self.opening(event)
        } else if self.phase.is_trickling() {
            self.trickling(event)
        } else {
            self.live(event)
        }
    }
}

/// Before the viewer's answer none of the host's candidates goes out, and the agent's reply to the
/// answer brings them out only where it accepts it. There is no other way past the answer.
pub proof fn law_no_candidate_before_answer(s: RunView, ms: u64, e: RunEventView)
    requires
        s.phase is Offering || s.phase is AwaitAnswer || s.phase is Answering,
    ensures
        !(s.phase is Answering && (e matches RunEventView::Reply { msg, .. } && msg is Ack)) ==> {
            let next = s.stepped(ms, e);
            &&& forall|i: int| 0 <= i < next.1.len() ==> !((#[trigger] next.1[i]) is SendIce)
            &&& next.0.phase is Offering || next.0.phase is AwaitAnswer || next.0.phase is Answering
                || next.0.phase is Done
        },
{
}

/// A session whose answer does not come in time is given up: the agent is detached, the tray shows
/// the end, and the session ends in the timeout.
pub proof fn law_unanswered_session_is_given_up(s: RunView, ms: u64, e: EventView)
    requires
        s.phase is AwaitAnswer,
        s.waited_ms + ms >= 30_000,
        !(e is Answer),
        !(e is Failed),
    ensures
        s.stepped(ms, RunEventView::Signal(e)).0.phase is Done,
        s.stepped(ms, RunEventView::Signal(e)).1 == seq![
            ActionView::Detach(s.detach("answer_timeout"@)),
            ActionView::EndTray,
            ActionView::Finish(Err("timeout waiting for session_answer"@)),
        ],
{
    assert(s.stepped(ms, RunEventView::Signal(e)).1 =~= seq![
        ActionView::Detach(s.detach("answer_timeout"@)),
        ActionView::EndTray,
        ActionView::Finish(Err("timeout waiting for session_answer"@)),
    ]);
}

/// Waiting for the answer is never overslept: a wait ends no later than the time for the answer.
pub proof fn law_answer_is_awaited_in_time(s: RunView, ms: u64, e: RunEventView)
    requires
        s.phase is Offering || s.phase is AwaitAnswer,
        s.stepped(ms, e).1.len() > 0,
    ensures
        s.stepped(ms, e).1.last() matches ActionView::Poll { ms: wait } ==> 0 < wait
            && s.stepped(ms, e).0.waited_ms + wait <= 30_000,
{
}

/// Candidates are exchanged for a limited time: after it no further round begins. Without a
/// connection the session is then given up.
pub proof fn law_rounds_end(s: RunView, ms: u64)
    requires
        s.phase is RoundRest,
        s.waited_ms + ms >= 15_000,
    ensures
        !(s.stepped(ms, RunEventView::Rested).0.phase is Round),
        !s.connected ==> s.stepped(ms, RunEventView::Rested).1 == seq![
            ActionView::Detach(s.detach("agent_not_connected"@)),
            ActionView::EndTray,
            ActionView::Finish(Err("agent media plane never reached Connected"@)),
        ],
{
    if !s.connected {
        assert(s.stepped(ms, RunEventView::Rested).1 =~= seq![
            ActionView::Detach(s.detach("agent_not_connected"@)),
            ActionView::EndTray,
            ActionView::Finish(Err("agent media plane never reached Connected"@)),
        ]);
    }
}

/// The tray's wish to end is obeyed at once. During the set-up the session is killed and ends in
/// an error; a live one is closed in order, and the viewer is told.
pub proof fn law_tray_ends_session(s: RunView, ms: u64)
    ensures
        s.phase is Round ==> s.stepped(ms, RunEventView::Tray { end: true }).1 == seq![
            ActionView::Detach(s.detach("tray_end_session"@)),
            ActionView::KillTray,
            ActionView::Finish(Err("session ended from tray"@)),
        ],
        s.phase is LiveTray ==> s.stepped(ms, RunEventView::Tray { end: true }).1 == seq![
            ActionView::Detach(s.detach("tray_end_session"@)),
            ActionView::EndSession { reason: "tray_end_session"@ },
            ActionView::EndTray,
            ActionView::Finish(Ok(s.summary())),
        ],
{
    let out = s.stepped(ms, RunEventView::Tray { end: true }).1;
    if s.phase is Round {
        assert(out =~= seq![
            ActionView::Detach(s.detach("tray_end_session"@)),
            ActionView::KillTray,
            ActionView::Finish(Err("session ended from tray"@)),
        ]);
    }
    if s.phase is LiveTray {
        assert(out =~= seq![
            ActionView::Detach(s.detach("tray_end_session"@)),
            ActionView::EndSession { reason: "tray_end_session"@ },
            ActionView::EndTray,
            ActionView::Finish(Ok(s.summary())),
        ]);
    }
}

/// A step asks for at most one event, in its last action, and finishes exactly where the session
/// is over with it.
pub proof fn law_one_question_at_a_time(s: RunView, ms: u64, e: RunEventView)
    requires
        !(s.phase is Done),
    ensures
        forall|i: int|
            0 <= i < s.stepped(ms, e).1.len() - 1 ==> !(#[trigger] s.stepped(ms, e).1[i]).asks(),
        s.stepped(ms, e).1.len() > 0 ==> s.stepped(ms, e).1.last().asks(),
        s.stepped(ms, e).0.phase is Done <==> s.stepped(ms, e).1.len() > 0 && s.stepped(
            ms,
            e,
        ).1.last() is Finish,
{
}

/// An event that answers what the session waits for always leads on; any other is passed over,
/// and only its time is counted.
pub proof fn law_awaited_event_leads_on(s: RunView, ms: u64, e: RunEventView)
    ensures
        s.phase.awaits(e) ==> s.stepped(ms, e).1.len() > 0,
        !s.phase.awaits(e) ==> s.stepped(ms, e) == ((RunView {
            waited_ms: later(s.waited_ms, ms),
            ..s
        }), Seq::<ActionView>::empty()),
{
}

/// What a step asks for is what the session then waits for.
pub proof fn law_question_fits_phase(s: RunView, ms: u64, e: RunEventView, answer: RunEventView)
    requires
        s.stepped(ms, e).1.len() > 0,
        s.stepped(ms, e).1.last().answered_by(answer),
    ensures
        s.stepped(ms, e).0.phase.awaits(answer),
{
}

/// A session that was served ends in order: the agent is detached and the viewer told for one
/// reason, the tray shows the end, and the line about the session comes last.
pub proof fn law_served_session_is_closed(s: RunView, ms: u64, e: RunEventView)
    requires
        s.stepped(ms, e).1.len() > 0,
        s.stepped(ms, e).1.last() matches ActionView::Finish(r) && r is Ok,
    ensures
        ({
            let out = s.stepped(ms, e).1;
            let n = out.len() as int;
            &&& n >= 4
            &&& out[n - 1] == ActionView::Finish(Ok(s.summary()))
            &&& out[n - 2] is EndTray
            &&& out[n - 3] matches ActionView::EndSession { reason } && out[n - 4]
                == ActionView::Detach(s.detach(reason))
        }),
{
}

/// What a session has been told is kept in mind: a live session, and one that was served, was
/// reported connected and with video; no session is shown as active without a connection.
pub proof fn law_service_needs_both_reports(s: RunView, ms: u64, e: RunEventView)
    requires
        s.sound(),
    ensures
        s.stepped(ms, e).0.sound(),
        s.stepped(ms, e).1.len() > 0 && (s.stepped(ms, e).1.last() matches ActionView::Finish(r)
            && r is Ok) ==> s.stepped(ms, e).0.ready(),
        forall|i: int|
            0 <= i < s.stepped(ms, e).1.len() && (#[trigger] s.stepped(ms, e).1[i]) is MarkActive
                ==> s.stepped(ms, e).0.connected,
{
}

/// A session whose set-up is complete is shown as active. A live one then goes on; one that was asked
/// for frames is complete.
pub proof fn law_complete_setup_goes_live(s: RunView, ms: u64)
    requires
        s.phase is RoundStatsIce,
        s.connected && s.video,
    ensures
        ({
            let (after, todo) = s.stepped(ms, RunEventView::IceSent(Ok(())));
            &&& todo[0] is MarkActive
            &&& s.video_frames == 0 ==> after.phase is LiveTray && todo == seq![
                ActionView::MarkActive,
                ActionView::AskTray,
            ]
            &&& s.video_frames > 0 ==> after.phase is Done && todo == seq![
                ActionView::MarkActive,
                ActionView::Detach(s.detach("host_media_complete"@)),
                ActionView::EndSession { reason: "host_media_complete"@ },
                ActionView::EndTray,
                ActionView::Finish(Ok(s.summary())),
            ]
        }),
{
    let (after, todo) = s.stepped(ms, RunEventView::IceSent(Ok(())));
    if s.video_frames == 0 {
        assert(todo =~= seq![ActionView::MarkActive, ActionView::AskTray]);
    } else {
        assert(todo =~= seq![
            ActionView::MarkActive,
            ActionView::Detach(s.detach("host_media_complete"@)),
            ActionView::EndSession { reason: "host_media_complete"@ },
            ActionView::EndTray,
            ActionView::Finish(Ok(s.summary())),
        ]);
    }
}

/// An incomplete set-up goes on for another round after a rest.
pub proof fn law_incomplete_setup_goes_on(s: RunView, ms: u64)
    ensures
        s.phase is RoundStatsIce && !(s.connected && s.video) ==> s.stepped(
            ms,
            RunEventView::IceSent(Ok(())),
        ).0.phase is RoundRest,
        s.phase is RoundRest && s.waited_ms + ms < 15_000 ==> s.stepped(
            ms,
            RunEventView::Rested,
        ).0.phase is Round,
        s.phase is Round ==> s.stepped(ms, RunEventView::Tray { end: false }).0.phase is RoundSignal,
{
}

/// Where the rounds end with a connection but without video, a session that was asked for frames is
/// looked at once more; without video even then, or without frames to wait for, it is given up.
pub proof fn law_missing_video_is_looked_for_once_more(s: RunView, ms: u64, reply: RunEventView)
    requires
        s.connected,
        !s.video,
    ensures
        s.phase is RoundRest && s.waited_ms + ms >= 15_000 && s.video_frames > 0 ==> s.stepped(
            ms,
            RunEventView::Rested,
        ).0.phase is SettleRest,
        s.phase is RoundRest && s.waited_ms + ms >= 15_000 && s.video_frames == 0 ==> (s.stepped(
            ms,
            RunEventView::Rested,
        ).1.last() matches ActionView::Finish(r) && r is Err),
        s.phase is SettleStats ==> (reply matches RunEventView::Reply { msg, .. }
            ==> !reports_video(msg) ==> (s.stepped(ms, reply).1.last() matches ActionView::Finish(r)
            && r is Err)),
{
}

/// What the viewer sends is handed to the agent: its answer, and its candidates in the order they
/// came, those before the answer only after it.
pub proof fn law_viewer_signals_reach_the_agent(s: RunView, ms: u64, p: Seq<char>)
    ensures
        s.phase is AwaitAnswer ==> s.stepped(ms, RunEventView::Signal(EventView::Answer(p))).1
            == seq![ActionView::Request(s.to_agent("session_answer"@, p))],
        s.phase is AwaitAnswer ==> s.stepped(
            ms,
            RunEventView::Signal(EventView::Ice(p)),
        ).0.viewer_ice == s.viewer_ice.push(p),
        s.phase is RoundSignal || s.phase is LiveSignal ==> s.stepped(
            ms,
            RunEventView::Signal(EventView::Ice(p)),
        ).1 == seq![ActionView::Request(s.to_agent("ice_candidate"@, p))],
        (s.phase is HostIce || s.phase is EarlyReplyIce) && s.viewer_ice.len() > 0 ==> {
            let (after, todo) = s.stepped(ms, RunEventView::IceSent(Ok(())));
            &&& todo == seq![ActionView::Request(s.to_agent("ice_candidate"@, s.viewer_ice[0]))]
            &&& after.viewer_ice == s.viewer_ice.skip(1)
        },
        (s.phase is HostIce || s.phase is EarlyReplyIce) && s.viewer_ice.len() == 0 ==> s.stepped(
            ms,
            RunEventView::IceSent(Ok(())),
        ).0.phase is Round,
        s.to_agent("ice_candidate"@, p) matches MessageView::SignalForward(f) && f.session_id
            == s.session_id && f.kind == "ice_candidate"@ && f.payload == p,
{
}

/// The agent's candidates are sent to the viewer with every reply that brings some: those that waited
/// for the answer first.
pub proof fn law_agent_candidates_reach_the_viewer(
    s: RunView,
    ms: u64,
    msg: MessageView,
    shown: Seq<char>,
    more: Seq<MessageView>,
)
    requires
        msg is Ack,
    ensures
        ({
            let (after, todo) = s.stepped(ms, RunEventView::Reply { msg, shown, more });
            &&& s.phase is Answering ==> todo == seq![
                ActionView::SendIce(s.host_ice + ice_payloads(more)),
            ] && after.host_ice.len() == 0
            &&& s.phase is EarlyIce || s.phase is RoundIce || s.phase is LiveIce ==> todo == seq![
                ActionView::SendIce(ice_payloads(more)),
            ]
            &&& s.phase is RoundStats ==> todo == seq![ActionView::SendIce(ice_payloads(more))]
        }),
{
}

/// What the agent reports is kept: a connected peer and running video, as soon as each was reported
/// once.
pub proof fn law_reports_are_kept(s: RunView, stats: StatsView, other: MessageView)
    requires
        !(other is StatsPush),
    ensures
        s.connected ==> s.noted(other).connected,
        s.video ==> s.noted(other).video,
        s.noted(other) == s,
        stats.ice_path == Some("connected"@) <==> reports_connected(MessageView::StatsPush(stats)),
        (stats.video_bitrate_bps matches Some(n) && n > 0) <==> reports_video(
            MessageView::StatsPush(stats),
        ),
        reports_connected(MessageView::StatsPush(stats)) ==> s.noted(
            MessageView::StatsPush(stats),
        ).connected,
        reports_video(MessageView::StatsPush(stats)) ==> s.noted(
            MessageView::StatsPush(stats),
        ).video,
        s.noted(MessageView::StatsPush(stats)).session_id == s.session_id,
        s.noted(MessageView::StatsPush(stats)).phase == s.phase,
{
}

/// A live session ends when the viewer ends it or signaling fails, for that reason, and when the
/// agent takes its candidates no more; statistics that cannot be had end nothing.
pub proof fn law_live_session_ends_for_a_reason(s: RunView, ms: u64, e: Seq<char>)
    ensures
        s.phase is LiveSignal ==> s.stepped(
            ms,
            RunEventView::Signal(EventView::End(e)),
        ).1[0] == ActionView::Detach(s.detach(viewer_reason(e))),
        s.phase is LiveSignal ==> s.stepped(
            ms,
            RunEventView::Signal(EventView::Failed(e)),
        ).1[0] == ActionView::Detach(s.detach("signaling:"@ + e)),
        s.phase is LiveSignal ==> s.stepped(
            ms,
            RunEventView::Signal(EventView::Quiet),
        ).0.phase is LiveStats,
        s.phase is LiveStats ==> s.stepped(ms, RunEventView::RequestFailed(e)).0.phase is LiveRest,
        s.phase is LiveRest ==> s.stepped(ms, RunEventView::Rested).0.phase is LiveTray,
        s.phase is LiveTray ==> s.stepped(ms, RunEventView::Tray { end: false }).0.phase
            is LiveSignal,
{
}

/// What cannot be sent, and what the agent refuses, ends the set-up in an error that tells it.
pub proof fn law_failed_setup_tells_why(s: RunView, ms: u64, e: Seq<char>)
    ensures
        s.phase is Offering ==> (s.stepped(ms, RunEventView::OfferSent(Err(e))).1.last()
            matches ActionView::Finish(Err(t)) && t == "send offer: "@ + e),
        s.phase is AwaitAnswer ==> (s.stepped(
            ms,
            RunEventView::Signal(EventView::Failed(e)),
        ).1.last() matches ActionView::Finish(Err(t)) && t == "recv: "@ + e),
        s.phase is Answering ==> (s.stepped(ms, RunEventView::RequestFailed(e)).1.last()
            matches ActionView::Finish(Err(t)) && t == "agent answer: "@ + e),
        s.phase is EarlyIce || s.phase is RoundIce || s.phase is LiveIce ==> (s.stepped(
            ms,
            RunEventView::RequestFailed(e),
        ).1.last() matches ActionView::Finish(Err(t)) && t == "agent ice: "@ + e),
        s.phase is RoundStats || s.phase is SettleStats ==> (s.stepped(
            ms,
            RunEventView::RequestFailed(e),
        ).1.last() matches ActionView::Finish(Err(t)) && t == "agent query_stats: "@ + e),
{
}

/// A reply answers a request, and so does its failure.
pub proof fn law_actions_have_their_answers(
    m: MessageView,
    shown: Seq<char>,
    more: Seq<MessageView>,
    e: Seq<char>,
)
    ensures
        ActionView::Request(m).answered_by(RunEventView::Reply { msg: m, shown, more }),
        ActionView::Request(m).answered_by(RunEventView::RequestFailed(e)),
        !ActionView::Request(m).answered_by(RunEventView::Rested),
{
}

/// The summary of a session names it and closes with the frames that are known to have gone out: as
/// many as were asked for, and never more than three.
pub proof fn law_summary_tells_the_session(s: RunView)
    ensures
        occurs_in(s.session_id, s.summary()),
        occurs_in(s.public_id, s.summary()),
        s.video_frames <= 3 ==> decimal(s.video_frames as nat).is_suffix_of(s.summary()),
        s.video_frames >= 3 ==> decimal(3).is_suffix_of(s.summary()),
{
    let line = s.summary();
    let count = decimal(
        if s.video_frames < 3 {
            s.video_frames as nat
        } else {
            3
        },
    );
    let head = "ws-host ok public_id="@;
    let mid = " session="@;
    let tail = " media=agent transport="@ + s.mode.name() + " video_tx>="@ + count;
    lemma_occurs_between(head, s.public_id, mid + s.session_id + tail);
    assert(line =~= head + s.public_id + (mid + s.session_id + tail));
    lemma_occurs_between(head + s.public_id + mid, s.session_id, tail);
    assert(line =~= head + s.public_id + mid + s.session_id + tail);
    assert(line.subrange(line.len() - count.len(), line.len() as int) =~= count);
}

} // verus!
