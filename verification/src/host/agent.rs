//! The session agent: control state and session manager together.

use vstd::prelude::*;
use crate::host::agent_state::{AgentSessionState, AgentView};
use crate::host::control::{
    copy_text, ControlMessage, ErrorCode, KillSwitchSource, LocalConfirmResult, MessageView,
    SignalView, StatsPush, StatsView,
};
use crate::host::session::{
    apply_signal, counters, outcome, signal_use, ConnectionState, InboundMessage, InboundStats,
    ManagerView, MediaPlane, MediaStart, PumpRun, PumpStats, SessionError, SessionErrorView,
    SessionManager, SetupView, SignalUse,
};
use crate::host::signal_kind;
use crate::text::same;

verus! {

/// Full agent session: control state + session manager.
#[derive(Debug)]
pub struct AgentSession {
    /// Control-plane flags (attach / policy / kill).
    pub state: AgentSessionState,
    /// Identity gate, signaling queue and media pacing.
    pub manager: SessionManager,
}

/// What an `AgentSession` holds.
pub struct SessionView {
    pub state: AgentView,
    pub manager: ManagerView,
}

impl DeepView for AgentSession {
    type V = SessionView;

    open spec fn deep_view(&self) -> SessionView {
        SessionView { state: self.state.deep_view(), manager: self.manager.deep_view() }
    }
}

/// What the peer transport has to do for a command.
#[derive(Debug, Clone, Copy, PartialEq, Eq, Structural)]
pub enum PeerEffect {
    /// Nothing at all.
    Nothing,
    /// Create a local offer and queue it with the gathered candidates.
    CreateOffer,
    /// Queue the gathered candidates.
    DrainIce,
    /// Apply the signal of the command.
    Apply(SignalUse),
}

/// The reply to a command, and what the peer transport has to do before it is sent.
#[derive(Debug)]
pub struct AgentStep {
    /// Sent once the effect succeeded.
    pub reply: ControlMessage,
    pub effect: PeerEffect,
}

/// Bits per second out of a frame count, as a 32-bit statistic.
pub open spec fn rate_of(count: u64, bits: u64) -> u32 {
    (if count * bits <= u64::MAX {
        (count * bits) as u64
    } else {
        u64::MAX
    }) as u32
}

fn rate(count: u64, bits: u64) -> (r: u32)
    requires
        bits > 0,
    ensures
        r == rate_of(count, bits),
{
    match count.checked_mul(bits) {
        Some(n) => n as u32,
        None => u64::MAX as u32,
    }
}

/// Statistics with what the media counters and the transport add.
pub open spec fn enriched(
    stats: StatsView,
    media: Option<MediaPlane>,
    connection: ConnectionState,
) -> StatsView {
    let (v, a) = counters(media);
    StatsView {
        video_bitrate_bps: if v > 0 {
            Some(rate_of(v, 8000))
        } else {
            stats.video_bitrate_bps
        },
        audio_bitrate_bps: if a > 0 {
            Some(rate_of(a, 1600))
        } else {
            stats.audio_bitrate_bps
        },
        ice_path: Some(connection.name()),
        ..stats
    }
}

/// Whether a signal is for the peer transport.
pub open spec fn peer_signal(kind: Seq<char>) -> bool {
    kind == signal_kind::SESSION_OFFER@ || kind == signal_kind::SESSION_ANSWER@ || kind
        == signal_kind::ICE_CANDIDATE@
}

fn is_peer_signal_kind(kind: &str) -> (r: bool)
    ensures
        r == peer_signal(kind@),
{
    same(kind, signal_kind::SESSION_OFFER) || same(kind, signal_kind::SESSION_ANSWER) || same(
        kind,
        signal_kind::ICE_CANDIDATE,
    )
}

impl SessionView {
    /// Whether policy and the kill-switch let input through.
    pub open spec fn policy(self) -> bool {
        self.state.enable_input && !self.state.killed
    }

    /// Whether input may be injected: policy, no kill, identity and authorization.
    pub open spec fn input_injection_allowed(self) -> bool {
        self.policy() && self.manager.identity.input_allowed()
    }

    /// The manager with the policy of the control state.
    pub open spec fn synced(self) -> SessionView {
        SessionView {
            manager: ManagerView { policy_input: self.policy(), ..self.manager },
            ..self
        }
    }

    /// A fresh session for the next attach. What a local kill-switch latched off stays off.
    pub open spec fn rebuilt(self) -> SessionView {
        SessionView {
            state: AgentView::idle(self.state.unattended_disabled),
            manager: ManagerView::unbound(SetupView::standard()),
        }
    }

    /// The session after media could not be started.
    pub open spec fn start_undone(self) -> SessionView {
        SessionView { state: AgentView { media_started: false, ..self.state }, ..self }
    }

    /// The session, the reply and the effect after a message.
    pub open spec fn step(self, msg: MessageView, connection: ConnectionState) -> (
        SessionView,
        MessageView,
        PeerEffect,
    ) {
        let (state, reply) = self.state.step(msg);
        let s = SessionView { state, ..self };
        let m = self.manager;
        if !(reply is Ack || reply is StatsPush) {
            (s, reply, PeerEffect::Nothing)
        } else {
            match msg {
                MessageView::AttachSession { session_id, .. } => (
                    SessionView { manager: ManagerView::bound(m.setup, session_id), ..s },
                    reply,
                    PeerEffect::Nothing,
                ),
                MessageView::DetachSession { .. } | MessageView::ShutdownSession { .. } => (
                    SessionView { manager: ManagerView::unbound(m.setup), ..s },
                    reply,
                    PeerEffect::Nothing,
                ),
                MessageView::SetPolicy { .. } => (s.synced(), reply, PeerEffect::Nothing),
                MessageView::StartMedia { .. } => if m.session_id is None {
                    (
                        SessionView {
                            state: AgentView { media_started: false, ..state },
                            ..s
                        },
                        MessageView::refusal(
                            ErrorCode::Unexpected,
                            "start_media failed: "@ + SessionErrorView::InvalidState(
                                "no session attached"@,
                            ).text(),
                            state.session_id,
                        ),
                        PeerEffect::Nothing,
                    )
                } else if m.media is Some {
                    (s, reply, PeerEffect::Nothing)
                } else {
                    (
                        SessionView {
                            manager: ManagerView {
                                media: Some(
                                    MediaPlane { video_frames_sent: 0, audio_packets_sent: 0 },
                                ),
                                ..m
                            },
                            ..s
                        },
                        reply,
                        if connection == ConnectionState::New {
                            PeerEffect::CreateOffer
                        } else {
                            PeerEffect::DrainIce
                        },
                    )
                },
                MessageView::StopMedia { .. } => (
                    SessionView { manager: ManagerView { media: None, ..m }, ..s },
                    reply,
                    PeerEffect::Nothing,
                ),
                MessageView::KillSwitch { .. } => (
                    SessionView { manager: ManagerView::unbound(m.setup), ..s }.synced(),
                    reply,
                    PeerEffect::Nothing,
                ),
                MessageView::SignalForward(f) => (
                    s,
                    reply,
                    match signal_use(f.kind) {
                        Ok(u) => PeerEffect::Apply(u),
                        Err(_) => PeerEffect::Nothing,
                    },
                ),
                MessageView::QueryStats { .. } => (
                    s,
                    match reply {
                        MessageView::StatsPush(stats) => MessageView::StatsPush(
                            enriched(stats, m.media, connection),
                        ),
                        other => other,
                    },
                    PeerEffect::Nothing,
                ),
                _ => (s, reply, PeerEffect::Nothing),
            }
        }
    }

    /// The manager holds the session exactly while it is attached and not killed.
    pub open spec fn in_step(self) -> bool {
        &&& self.state.consistent()
        &&& self.manager.gated()
        &&& self.manager.session_id == (if self.state.killed {
            None
        } else {
            self.state.session_id
        })
    }
}

impl AgentSession {
    /// New agent session without a session attached.
    pub fn new() -> (r: Self)
        ensures
            r.deep_view() == (SessionView {
                state: AgentView::idle(false),
                manager: ManagerView::unbound(SetupView::standard()),
            }),
    {
        AgentSession { state: AgentSessionState::default(), manager: SessionManager::new() }
    }

    /// Start afresh, so that the next attach gets a new transport. The latch on unattended access
    /// is the host's own and stays.
    pub fn rebuilt(&mut self)
        ensures
            final(self).deep_view() == old(self).deep_view().rebuilt(),
    {
        self.state.clear_session_keep_unattended_latch();
        self.manager = SessionManager::new();
    }

    /// True when policy requested input **and** identity bind is complete **and** the kill-switch
    /// is not latched.
    ///
    /// The host must not inject input unless this returns true.
    pub fn input_injection_allowed(&self) -> (r: bool)
        ensures
            r == self.deep_view().input_injection_allowed(),
    {
        self.state.enable_input && !self.state.killed && self.manager.input_allowed()
    }

    /// Sync the session manager's policy gate from control-plane flags.
    pub fn sync_input_policy(&mut self)
        ensures
            final(self).deep_view() == old(self).deep_view().synced(),
    {
        self.manager.set_input_policy_enabled(self.state.enable_input && !self.state.killed);
    }

    /// Process inbound DataChannel messages (identity + input), with the policy gate brought up
    /// to date first.
    pub fn poll_inbound(&mut self, messages: Vec<InboundMessage>) -> (r: Result<
        InboundStats,
        SessionError,
    >)
        ensures
            ({
                let s = old(self).deep_view().synced();
                let (manager, result) = s.manager.after_inbound(
                    messages@,
                    InboundStats { identity_messages: 0, input_accepted: 0, input_rejected: 0 },
                );
                final(self).deep_view() == (SessionView { manager, ..s }) && outcome(r) == result
            }),
    {
        self.sync_input_policy();
        self.manager.poll_inbound(messages)
    }

    /// Apply a control message: update state and drive the session manager. What the peer
    /// transport has to do is returned with the reply.
    pub fn handle(&mut self, msg: &ControlMessage, connection: ConnectionState) -> (r: AgentStep)
        ensures
            (final(self).deep_view(), r.reply.deep_view(), r.effect) == old(self).deep_view().step(
                msg.deep_view(),
                connection,
            ),
    {
        let reply = self.state.handle(msg);
        match &reply {
            ControlMessage::Ack(_) | ControlMessage::StatsPush(_) => {},
            _ => {
                return AgentStep { reply, effect: PeerEffect::Nothing };
            },
        }
        match msg {
            ControlMessage::AttachSession(a) => {
                self.manager.attach(&a.session_id);
            },
            ControlMessage::DetachSession(_) | ControlMessage::ShutdownSession(_) => {
                self.manager.detach();
            },
            ControlMessage::SetPolicy(_) => {
                self.sync_input_policy();
            },
            ControlMessage::StartMedia(_) => {
                match self.manager.start_media(connection) {
                    Ok(MediaStart::AlreadyRunning) => {},
                    Ok(MediaStart::CreateOffer) => {
                        return AgentStep { reply, effect: PeerEffect::CreateOffer };
                    },
                    Ok(MediaStart::DrainIce) => {
                        return AgentStep { reply, effect: PeerEffect::DrainIce };
                    },
                    Err(e) => {
                        let reply = self.start_failed(&e.to_string());
                        return AgentStep { reply, effect: PeerEffect::Nothing };
                    },
                }
            },
            ControlMessage::StopMedia(_) => {
                self.manager.stop_media();
            },
            ControlMessage::KillSwitch(_) => {
                // End media and the session binding, so that neither input nor media goes on.
                self.manager.stop_media();
                self.manager.detach();
                self.sync_input_policy();
            },
            ControlMessage::SignalForward(s) => {
                if is_peer_signal_kind(&s.kind) {
                    if let Ok(u) = apply_signal(&s.kind) {
                        return AgentStep { reply, effect: PeerEffect::Apply(u) };
                    }
                }
            },
            ControlMessage::QueryStats(_) => {
                if let ControlMessage::StatsPush(stats) = reply {
                    let (v, a) = self.manager.media_counters();
                    let reply = ControlMessage::StatsPush(
                        StatsPush {
                            session_id: stats.session_id,
                            rtt_ms: stats.rtt_ms,
                            video_bitrate_bps: if v > 0 {
                                Some(rate(v, 8000))
                            } else {
                                stats.video_bitrate_bps
                            },
                            audio_bitrate_bps: if a > 0 {
                                Some(rate(a, 1600))
                            } else {
                                stats.audio_bitrate_bps
                            },
                            ice_path: Some(connection.as_str().to_string()),
                            av_skew_ms: stats.av_skew_ms,
                            fps: stats.fps,
                            loss: stats.loss,
                        },
                    );
                    return AgentStep { reply, effect: PeerEffect::Nothing };
                }
            },
            _ => {},
        }
        AgentStep { reply, effect: PeerEffect::Nothing }
    }

    /// Media could not be started: the reply to send instead of the acknowledgement.
    pub fn start_failed(&mut self, error: &str) -> (r: ControlMessage)
        ensures
            final(self).deep_view() == old(self).deep_view().start_undone(),
            r.deep_view() == MessageView::refusal(
                ErrorCode::Unexpected,
                "start_media failed: "@ + error@,
                old(self).deep_view().state.session_id,
            ),
    {
        self.state.media_started = false;
        let text = "start_media failed: ".to_string().concat(error);
        ControlMessage::refusal(ErrorCode::Unexpected, &text, copy_text(&self.state.session_id))
    }

    /// A signal could not be applied: the reply to send instead of the acknowledgement.
    pub fn apply_failed(session_id: &str, error: &str) -> (r: ControlMessage)
        ensures
            r.deep_view() == MessageView::refusal(
                ErrorCode::Unexpected,
                "signal_forward apply failed: "@ + error@,
                Some(session_id@),
            ),
    {
        let text = "signal_forward apply failed: ".to_string().concat(error);
        ControlMessage::refusal(ErrorCode::Unexpected, &text, Some(session_id.to_string()))
    }

    /// Begin to pump synthetic media (no-op if media is not started or the peer not connected).
    pub fn pump_media(&self, video_frames: u32, connection: ConnectionState) -> (r: Result<
        PumpRun,
        SessionError,
    >)
        ensures
            r == Ok::<PumpRun, SessionError>(
                PumpRun {
                    frames_left: if self.deep_view().manager.media is Some && connection
                        == ConnectionState::Connected {
                        video_frames
                    } else {
                        0
                    },
                    audio_in_frame: 0,
                    stats: PumpStats {
                        video_sent: 0,
                        audio_sent: 0,
                        skipped_not_connected: connection != ConnectionState::Connected,
                    },
                },
            ),
    {
        if !self.manager.media_started() {
            return Ok(
                PumpRun {
                    frames_left: 0,
                    audio_in_frame: 0,
                    stats: PumpStats {
                        video_sent: 0,
                        audio_sent: 0,
                        skipped_not_connected: connection != ConnectionState::Connected,
                    },
                },
            );
        }
        self.manager.pump_media(video_frames, connection)
    }

    /// Drain signals for the service.
    pub fn take_outbound_signals(&mut self) -> (r: Vec<ControlMessage>)
        ensures
            r.deep_view() == old(self).deep_view().manager.outbound.map_values(
                |s: SignalView| MessageView::SignalForward(s),
            ),
            final(self).deep_view() == (SessionView {
                manager: ManagerView {
                    outbound: Seq::empty(),
                    ..old(self).deep_view().manager
                },
                ..old(self).deep_view()
            }),
    {
        let mut signals = self.manager.take_outbound_signals();
        let ghost all = signals.deep_view();
        let mut reversed: Vec<ControlMessage> = Vec::new();
        while signals.len() > 0
            invariant
                all.len() == signals@.len() + reversed@.len(),
                forall|i: int|
                    0 <= i < signals@.len() ==> (#[trigger] signals@[i]).deep_view() == all[i],
                forall|i: int|
                    0 <= i < reversed@.len() ==> (#[trigger] reversed@[i]).deep_view()
                        == MessageView::SignalForward(all[all.len() - 1 - i]),
            decreases signals@.len(),
        {
            match signals.pop() {
                Some(s) => reversed.push(ControlMessage::SignalForward(s)),
                None => {},
            }
        }
        let mut out: Vec<ControlMessage> = Vec::new();
        while reversed.len() > 0
            invariant
                all.len() == out@.len() + reversed@.len(),
                forall|i: int|
                    0 <= i < reversed@.len() ==> (#[trigger] reversed@[i]).deep_view()
                        == MessageView::SignalForward(all[all.len() - 1 - i]),
                forall|i: int|
                    0 <= i < out@.len() ==> (#[trigger] out@[i]).deep_view()
                        == MessageView::SignalForward(all[i]),
            decreases reversed@.len(),
        {
            match reversed.pop() {
                Some(m) => out.push(m),
                None => {},
            }
        }
        assert(out.deep_view() =~= all.map_values(|s: SignalView| MessageView::SignalForward(s)));
        out
    }
}

/// What the user at the host decided, as the agent reports it.
pub fn local_confirm(session_id: &str, accepted: bool) -> (r: ControlMessage)
    ensures
        r.deep_view() == (MessageView::LocalConfirmResult {
            session_id: session_id@,
            accepted,
            reason: if accepted {
                None
            } else {
                Some("user_denied"@)
            },
        }),
{
    ControlMessage::LocalConfirmResult(
        LocalConfirmResult {
            session_id: session_id.to_string(),
            accepted,
            reason: if accepted {
                None
            } else {
                Some("user_denied".to_string())
            },
        },
    )
}

/// Control state and manager stay in step: every message keeps the manager bound exactly to the
/// session that is attached and not killed.
pub proof fn law_agent_stays_in_step(s: SessionView, msg: MessageView, connection: ConnectionState)
    requires
        s.in_step(),
    ensures
        s.step(msg, connection).0.in_step(),
{
}

/// Input is injected only while a session is attached and not killed, policy allows it, and the
/// viewer is authorized and bound. A kill-switch or a fresh attach stops injection at once.
pub proof fn law_injection_needs_everything(
    s: SessionView,
    msg: MessageView,
    connection: ConnectionState,
)
    requires
        s.in_step(),
    ensures
        s.input_injection_allowed() ==> s.state.session_id is Some && !s.state.killed
            && s.state.enable_input && s.manager.identity.session_authorized
            && s.manager.identity.identity_bound,
        (msg is KillSwitch || msg is AttachSession) && s.step(msg, connection).1 is Ack ==> !s.step(
            msg,
            connection,
        ).0.input_injection_allowed() && !s.step(msg, connection).0.manager.injection_allowed(),
{
}

/// The session that a command names, where it is about an attached one.
pub open spec fn names_session(msg: MessageView) -> Option<Seq<char>> {
    match msg {
        MessageView::DetachSession { session_id, .. } => Some(session_id),
        MessageView::ShutdownSession { session_id, .. } => Some(session_id),
        MessageView::SetPolicy { session_id, .. } => Some(session_id),
        MessageView::StartMedia { session_id, .. } => Some(session_id),
        MessageView::StopMedia { session_id } => Some(session_id),
        MessageView::ShowSessionChrome { session_id, .. } => Some(session_id),
        MessageView::SignalForward(f) => Some(f.session_id),
        _ => None,
    }
}

/// Media runs from a start to the next stop. An acknowledged start has the manager hold media, and
/// counts from zero unless it runs already; an acknowledged stop, a fresh attach and every end of a
/// session leave the manager without media, so that no pump goes on; nothing else touches it.
pub proof fn law_media_runs_from_start_to_stop(
    s: SessionView,
    msg: MessageView,
    connection: ConnectionState,
)
    requires
        s.in_step(),
    ensures
        ({
            let (t, reply, _) = s.step(msg, connection);
            let ends = msg is StopMedia || msg is AttachSession || msg is DetachSession || msg
                is ShutdownSession || msg is KillSwitch;
            &&& reply is Ack && ends ==> t.manager.media is None && !t.state.media_started
            &&& reply is Ack && msg is StartMedia ==> t.state.media_started && t.manager.media
                == Some(
                match s.manager.media {
                    Some(running) => running,
                    None => MediaPlane { video_frames_sent: 0, audio_packets_sent: 0 },
                },
            )
            &&& !(reply is Ack && (ends || msg is StartMedia)) ==> t.manager.media
                == s.manager.media && t.state.media_started == s.state.media_started
        }),
{
}

/// Whenever the control state calls media started, the manager holds it.
pub proof fn law_started_media_is_held(
    s: SessionView,
    msg: MessageView,
    connection: ConnectionState,
)
    requires
        s.in_step(),
        s.state.media_started ==> s.manager.media is Some,
    ensures
        s.step(msg, connection).0.state.media_started ==> s.step(msg, connection).0.manager.media
            is Some,
        s.start_undone().state.media_started ==> s.start_undone().manager.media is Some,
        s.rebuilt().state.media_started ==> s.rebuilt().manager.media is Some,
{
}

/// A command for a session is carried out only on that session: without one attached the answer is
/// `not_attached`, on another it is `session_mismatch`, and what is acknowledged was for the
/// attached session and is acknowledged by the command's own name.
pub proof fn law_command_reaches_its_session_only(
    s: SessionView,
    msg: MessageView,
    connection: ConnectionState,
)
    requires
        s.in_step(),
        names_session(msg) is Some,
    ensures
        ({
            let id = names_session(msg)->0;
            let (t, reply, effect) = s.step(msg, connection);
            &&& s.state.session_id is None ==> (reply matches MessageView::Error {
                code,
                session_id,
                ..
            } && code == "not_attached"@ && session_id == Some(id))
            &&& (s.state.session_id matches Some(cur) && cur != id) ==> (reply
                matches MessageView::Error { code, session_id, .. } && code == "session_mismatch"@
                && session_id == Some(id))
            &&& s.state.session_id != Some(id) ==> t == s && effect == PeerEffect::Nothing
            &&& reply is Ack ==> s.state.session_id == Some(id) && reply == (MessageView::Ack {
                for_method: Some(msg.method()),
                session_id: Some(id),
            })
            &&& reply is Ack || reply is Error
        }),
{
}

/// On the attached session only what the kill-switch, the latch and the mandatory chrome forbid is
/// refused, each under its own code; everything else is acknowledged. A stop and an end of the
/// session are taken even after a kill.
pub proof fn law_attached_session_is_served(
    s: SessionView,
    msg: MessageView,
    connection: ConnectionState,
)
    requires
        s.in_step(),
        names_session(msg) is Some,
        names_session(msg) == s.state.session_id,
    ensures
        ({
            let reply = s.step(msg, connection).1;
            let ends = msg is StopMedia || msg is DetachSession || msg is ShutdownSession;
            let latched = msg matches MessageView::SetPolicy { unattended, .. } && unattended
                && s.state.unattended_disabled;
            let hides = msg matches MessageView::ShowSessionChrome { visible, .. } && !visible;
            &&& ends ==> reply is Ack
            &&& !ends && s.state.killed ==> (reply matches MessageView::Error { code, .. } && code
                == "killed"@)
            &&& !s.state.killed && latched ==> (reply matches MessageView::Error { code, .. }
                && code == "unattended_disabled"@)
            &&& !s.state.killed && hides ==> (reply matches MessageView::Error { code, .. } && code
                == "chrome_mandatory"@)
            &&& !s.state.killed && !latched && !hides ==> reply is Ack
        }),
{
}

/// A session is attached exactly where none is live, and begins with nothing of the one before it:
/// no media, no signals, nobody authorized or bound, no key, no challenge, no input and no policy.
/// The chrome is up; what the host has latched and how it captures stays.
pub proof fn law_attach_begins_afresh(s: SessionView, msg: MessageView, connection: ConnectionState)
    requires
        s.in_step(),
        msg is AttachSession,
    ensures
        ({
            let id = msg->AttachSession_session_id;
            let (t, reply, effect) = s.step(msg, connection);
            let live = s.state.session_id is Some && !s.state.killed;
            &&& effect == PeerEffect::Nothing
            &&& live ==> t == s && (reply matches MessageView::Error { code, session_id, .. }
                && code == "busy"@ && session_id == Some(id))
            &&& !live ==> {
                &&& reply == (MessageView::Ack {
                    for_method: Some("attach_session"@),
                    session_id: Some(id),
                })
                &&& t.state.session_id == Some(id) && t.manager.session_id == Some(id)
                &&& t.manager.identity.session_id == Some(id)
                &&& t.state.chrome_visible && !t.state.killed && !t.state.enable_input
                    && !t.state.unattended
                &&& t.manager.outbound.len() == 0 && t.manager.accepted.len() == 0
                    && t.manager.injected.len() == 0 && t.manager.rejected == 0
                &&& !t.manager.identity.session_authorized && !t.manager.identity.identity_bound
                &&& t.manager.bind_key is None && t.manager.challenge is None
                    && !t.manager.policy_input
                &&& t.state.unattended_disabled == s.state.unattended_disabled
                &&& t.manager.setup == s.manager.setup
            }
        }),
{
}

/// A session that ends leaves nothing behind: after a detach or a shutdown nobody is attached, and
/// after a kill-switch the session stays named but is dead. Either way the manager lets go of the
/// viewer, the key, the input and the signals. Only a kill-switch that says so latches unattended
/// access off.
pub proof fn law_end_of_session_leaves_nothing(
    s: SessionView,
    msg: MessageView,
    connection: ConnectionState,
)
    requires
        s.in_step(),
        msg is DetachSession || msg is ShutdownSession || msg is KillSwitch,
        s.step(msg, connection).1 is Ack,
    ensures
        ({
            let t = s.step(msg, connection).0;
            &&& t.manager.session_id is None && t.manager.identity.session_id is None
            &&& t.manager.outbound.len() == 0 && t.manager.accepted.len() == 0
                && t.manager.injected.len() == 0 && t.manager.rejected == 0
            &&& !t.manager.identity.session_authorized && !t.manager.identity.identity_bound
            &&& t.manager.bind_key is None && t.manager.challenge is None
                && !t.manager.policy_input
            &&& t.manager.setup == s.manager.setup
            &&& !t.state.chrome_visible && !t.state.enable_input && !t.state.unattended
            &&& t.state.killed <==> msg is KillSwitch
            &&& t.state.session_id == (if msg is KillSwitch {
                s.state.session_id
            } else {
                None
            })
            &&& t.state.unattended_disabled <==> s.state.unattended_disabled || (msg
                matches MessageView::KillSwitch { disable_unattended, .. } && disable_unattended)
        }),
{
}

/// A kill-switch without a session, or for the attached one, always works; for another session it
/// is refused and changes nothing.
pub proof fn law_kill_switch_hits_its_target(
    s: SessionView,
    target: Option<Seq<char>>,
    disable_unattended: bool,
    source: KillSwitchSource,
    connection: ConnectionState,
)
    requires
        s.in_step(),
    ensures
        ({
            let msg = MessageView::KillSwitch { session_id: target, disable_unattended, source };
            let (t, reply, effect) = s.step(msg, connection);
            let hits = target is None || target == s.state.session_id;
            &&& effect == PeerEffect::Nothing
            &&& hits ==> t.state.killed && reply == (MessageView::Ack {
                for_method: Some("kill_switch"@),
                session_id: target,
            })
            &&& !hits ==> t == s && (reply matches MessageView::Error { code, .. } && code == (
            if s.state.session_id is None {
                "not_attached"@
            } else {
                "session_mismatch"@
            }))
        }),
{
}

/// An acknowledged policy is in force at once, in the control state and at the manager's gate, and
/// changes nothing else. Unattended access is never granted while it is latched off.
pub proof fn law_policy_takes_effect(
    s: SessionView,
    id: Seq<char>,
    enable_input: bool,
    unattended: bool,
    max_bitrate_bps: u32,
    disable_hw_encode: bool,
    connection: ConnectionState,
)
    requires
        s.in_step(),
    ensures
        ({
            let msg = MessageView::SetPolicy {
                session_id: id,
                enable_input,
                unattended,
                max_bitrate_bps,
                disable_hw_encode,
            };
            let (t, reply, effect) = s.step(msg, connection);
            &&& effect == PeerEffect::Nothing
            &&& !(reply is Ack) ==> t == s
            &&& reply is Ack ==> {
                &&& t.state.enable_input == enable_input && t.state.unattended == unattended
                &&& t.manager.policy_input == enable_input
                &&& unattended ==> !s.state.unattended_disabled
                &&& t.state == (AgentView { enable_input, unattended, ..s.state })
                &&& t.manager == (ManagerView { policy_input: enable_input, ..s.manager })
            }
        }),
{
}

/// Statistics are those of the attached session, and a question for another one is refused. They
/// carry the state of the transport, and a rate only where something was sent since media started.
/// Asking changes nothing.
pub proof fn law_stats_tell_what_was_sent(
    s: SessionView,
    asked: Option<Seq<char>>,
    connection: ConnectionState,
)
    requires
        s.in_step(),
    ensures
        ({
            let (t, reply, effect) = s.step(MessageView::QueryStats { session_id: asked }, connection);
            let sent_video = s.manager.media matches Some(m) && m.video_frames_sent > 0;
            let sent_audio = s.manager.media matches Some(m) && m.audio_packets_sent > 0;
            &&& t == s && effect == PeerEffect::Nothing
            &&& reply is StatsPush <==> s.state.session_id is Some && (asked is None || asked
                == s.state.session_id)
            &&& reply matches MessageView::StatsPush(stats) ==> {
                &&& Some(stats.session_id) == s.state.session_id
                &&& stats.ice_path == Some(connection.name())
                &&& stats.video_bitrate_bps is Some <==> sent_video
                &&& stats.audio_bitrate_bps is Some <==> sent_audio
                &&& sent_video && 8000 * s.manager.media->0.video_frames_sent <= u32::MAX
                    ==> stats.video_bitrate_bps == Some(
                    (8000 * s.manager.media->0.video_frames_sent) as u32,
                )
                &&& sent_audio && 1600 * s.manager.media->0.audio_packets_sent <= u32::MAX
                    ==> stats.audio_bitrate_bps == Some(
                    (1600 * s.manager.media->0.audio_packets_sent) as u32,
                )
                &&& stats.rtt_ms is None && stats.av_skew_ms is None && stats.fps is None
                    && stats.loss is None
            }
            &&& !(reply is StatsPush) ==> (reply matches MessageView::Error { code, .. } && code
                == (if s.state.session_id is None {
                "not_attached"@
            } else {
                "session_mismatch"@
            }))
        }),
{
}

/// The transport is asked for exactly what a command needs of it: an offer where media starts on a
/// new connection, the gathered candidates where it starts on another, and a signal of the live
/// session by its kind. A signal changes nothing that the agent holds.
pub proof fn law_effect_fits_command(s: SessionView, msg: MessageView, connection: ConnectionState)
    requires
        s.in_step(),
    ensures
        ({
            let (t, reply, effect) = s.step(msg, connection);
            let starts = msg is StartMedia && reply is Ack && s.manager.media is None;
            let kind = msg->SignalForward_0.kind;
            let signals = msg is SignalForward && reply is Ack;
            &&& effect == PeerEffect::CreateOffer <==> starts && connection == ConnectionState::New
            &&& effect == PeerEffect::DrainIce <==> starts && connection != ConnectionState::New
            &&& effect == PeerEffect::Apply(SignalUse::RemoteOffer) <==> signals && kind
                == "session_offer"@
            &&& effect == PeerEffect::Apply(SignalUse::RemoteAnswer) <==> signals && kind
                == "session_answer"@
            &&& effect == PeerEffect::Apply(SignalUse::RemoteCandidate) <==> signals && kind
                == "ice_candidate"@
            &&& msg is SignalForward ==> t == s
        }),
{
    reveal_strlit("session_offer");
    reveal_strlit("session_answer");
    reveal_strlit("ice_candidate");
    assert("session_offer"@.len() == 13);
    assert("session_answer"@.len() == 14);
    assert("ice_candidate"@.len() == 13);
    assert("session_offer"@[0] != "ice_candidate"@[0]);
}

/// What is no command is refused as `unexpected` and changes nothing, and a command that only shows
/// chrome or asks leaves the manager as it is.
pub proof fn law_other_messages_change_nothing(
    s: SessionView,
    msg: MessageView,
    connection: ConnectionState,
)
    requires
        s.in_step(),
    ensures
        ({
            let (t, reply, effect) = s.step(msg, connection);
            let strange = msg is StatsPush || msg is LocalConfirmResult || msg is Ack || msg
                is Error;
            &&& strange ==> t == s && effect == PeerEffect::Nothing && (reply
                matches MessageView::Error { code, session_id, .. } && code == "unexpected"@
                && session_id == s.state.session_id)
            &&& msg is ShowSessionChrome ==> t.manager == s.manager && t.state == s.state && effect
                == PeerEffect::Nothing
            &&& reply is Error ==> t == s
        }),
{
}

/// Input is judged by the policy of the moment: what the agent polls is what the manager takes in
/// under the policy that the control state has, whatever was judged before.
pub proof fn law_gate_follows_control_state(s: SessionView)
    ensures
        s.synced().manager.policy_input <==> s.state.enable_input && !s.state.killed,
        s.synced().state == s.state,
        s.synced().manager == (ManagerView {
            policy_input: s.state.enable_input && !s.state.killed,
            ..s.manager
        }),
        s.input_injection_allowed() <==> s.state.enable_input && !s.state.killed
            && s.manager.identity.identity_bound && s.manager.identity.session_authorized,
        s.input_injection_allowed() <==> s.synced().manager.injection_allowed(),
{
}

/// A start that the transport could not carry out is taken back in the control state alone, and a
/// rebuilt agent is a new one but for the latch on unattended access.
pub proof fn law_undone_start_and_rebuild(s: SessionView)
    ensures
        !s.start_undone().state.media_started,
        s.start_undone().manager == s.manager,
        s.start_undone().state == (AgentView { media_started: false, ..s.state }),
        s.rebuilt().in_step(),
        s.rebuilt().state.session_id is None && !s.rebuilt().state.killed,
        s.rebuilt().state.unattended_disabled == s.state.unattended_disabled,
        s.rebuilt().manager.session_id is None && s.rebuilt().manager.media is None,
        s.rebuilt().manager.outbound.len() == 0,
        !s.rebuilt().input_injection_allowed(),
{
}

/// The signals that concern the peer are offers, answers and candidates.
pub proof fn law_peer_signals(kind: Seq<char>)
    ensures
        peer_signal(kind) <==> kind == "session_offer"@ || kind == "session_answer"@ || kind
            == "ice_candidate"@,
        peer_signal("session_answer"@),
        peer_signal("ice_candidate"@),
        peer_signal("session_offer"@),
{
}

} // verus!
