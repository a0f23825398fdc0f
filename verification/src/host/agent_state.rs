//! Control state of the session agent.
//!
//! A command is acknowledged only when it was applied; a session mismatch, a missing session or
//! a latched kill-switch is answered with an error of a stable code.

use vstd::prelude::*;
use crate::host::control::{
    copy_text, ControlMessage, ErrorCode, MessageView, StatsPush, StatsView,
};
use crate::text::same;

verus! {

/// Agent-side session state.
#[derive(Debug, Clone)]
pub struct AgentSessionState {
    /// Currently attached session id, if any.
    pub session_id: Option<String>,
    /// Whether the media plane has been requested to start.
    pub media_started: bool,
    /// Whether policy allows input. Injection needs an identity bind as well.
    pub enable_input: bool,
    /// Whether unattended access is requested for the current session.
    ///
    /// Cleared on session end; cannot be set while `unattended_disabled` is latched.
    pub unattended: bool,
    /// Session chrome visibility.
    pub chrome_visible: bool,
    /// Kill-switch latched (current session surface ended).
    pub killed: bool,
    /// A local kill-switch latched unattended access off until `reenable_unattended_local`.
    ///
    /// Survives detach, shutdown and re-attach.
    pub unattended_disabled: bool,
}

/// What an `AgentSessionState` holds.
pub struct AgentView {
    pub session_id: Option<Seq<char>>,
    pub media_started: bool,
    pub enable_input: bool,
    pub unattended: bool,
    pub chrome_visible: bool,
    pub killed: bool,
    pub unattended_disabled: bool,
}

impl DeepView for AgentSessionState {
    type V = AgentView;

    open spec fn deep_view(&self) -> AgentView {
        AgentView {
            session_id: self.session_id.deep_view(),
            media_started: self.media_started,
            enable_input: self.enable_input,
            unattended: self.unattended,
            chrome_visible: self.chrome_visible,
            killed: self.killed,
            unattended_disabled: self.unattended_disabled,
        }
    }
}

impl AgentView {
    /// No session, and unattended access as `unattended_disabled` says.
    pub open spec fn idle(unattended_disabled: bool) -> AgentView {
        AgentView {
            session_id: None,
            media_started: false,
            enable_input: false,
            unattended: false,
            chrome_visible: false,
            killed: false,
            unattended_disabled,
        }
    }

    /// Why a command for `id` does not concern the attached session, if it does not.
    pub open spec fn wrong_session(self, id: Seq<char>) -> Option<MessageView> {
        match self.session_id {
            None => Some(
                MessageView::refusal(ErrorCode::NotAttached, "no session attached"@, Some(id)),
            ),
            Some(cur) => if cur == id {
                None
            } else {
                Some(
                    MessageView::refusal(
                        ErrorCode::SessionMismatch,
                        "session id does not match attached session"@,
                        Some(id),
                    ),
                )
            },
        }
    }

    /// The refusal of a command while the kill-switch is latched.
    pub open spec fn killed_refusal(id: Seq<char>) -> MessageView {
        MessageView::refusal(ErrorCode::Killed, "kill-switch is latched"@, Some(id))
    }

    /// The state after a message, and the reply to it.
    pub open spec fn step(self, msg: MessageView) -> (AgentView, MessageView) {
        match msg {
            MessageView::AttachSession { session_id, .. } => if self.session_id is Some
                && !self.killed {
                (
                    self,
                    MessageView::refusal(
                        ErrorCode::Busy,
                        "session already active on host"@,
                        Some(session_id),
                    ),
                )
            } else {
                (
                    AgentView {
                        session_id: Some(session_id),
                        chrome_visible: true,
                        ..AgentView::idle(self.unattended_disabled)
                    },
                    MessageView::ack(msg.method(), Some(session_id)),
                )
            },
            MessageView::DetachSession { session_id, .. } => match self.wrong_session(session_id) {
                Some(e) => (self, e),
                None => (
                    AgentView::idle(self.unattended_disabled),
                    MessageView::ack(msg.method(), Some(session_id)),
                ),
            },
            MessageView::ShutdownSession { session_id, .. } => match self.wrong_session(
                session_id,
            ) {
                Some(e) => (self, e),
                None => (
                    AgentView::idle(self.unattended_disabled),
                    MessageView::ack(msg.method(), Some(session_id)),
                ),
            },
            MessageView::SetPolicy { session_id, enable_input, unattended, .. } => {
                match self.wrong_session(session_id) {
                    Some(e) => (self, e),
                    None => if self.killed {
                        (self, Self::killed_refusal(session_id))
                    } else if unattended && self.unattended_disabled {
                        (
                            self,
                            MessageView::refusal(
                                ErrorCode::UnattendedDisabled,
                                "unattended disabled by local kill-switch until re-enabled on host"@,
                                Some(session_id),
                            ),
                        )
                    } else {
                        (
                            AgentView { enable_input, unattended, ..self },
                            MessageView::ack(msg.method(), Some(session_id)),
                        )
                    },
                }
            },
            MessageView::StartMedia { session_id, .. } => match self.wrong_session(session_id) {
                Some(e) => (self, e),
                None => if self.killed {
                    (self, Self::killed_refusal(session_id))
                } else {
                    (
                        AgentView { media_started: true, ..self },
                        MessageView::ack(msg.method(), Some(session_id)),
                    )
                },
            },
            MessageView::StopMedia { session_id } => match self.wrong_session(session_id) {
                Some(e) => (self, e),
                None => (
                    AgentView { media_started: false, ..self },
                    MessageView::ack(msg.method(), Some(session_id)),
                ),
            },
            MessageView::QueryStats { session_id } => match (session_id, self.session_id) {
                (Some(id), _) => match self.wrong_session(id) {
                    Some(e) => (self, e),
                    None => (self, MessageView::StatsPush(no_stats(id))),
                },
                (None, Some(cur)) => (self, MessageView::StatsPush(no_stats(cur))),
                (None, None) => (
                    self,
                    MessageView::refusal(ErrorCode::NotAttached, "no session attached"@, None),
                ),
            },
            MessageView::ShowSessionChrome { session_id, visible, .. } => {
                match self.wrong_session(session_id) {
                    Some(e) => (self, e),
                    None => if self.killed {
                        (
                            self,
                            MessageView::refusal(
                                ErrorCode::Killed,
                                "kill-switch is latched; chrome commands refused until re-attach"@,
                                Some(session_id),
                            ),
                        )
                    } else if !visible {
                        (
                            AgentView { chrome_visible: true, ..self },
                            MessageView::refusal(
                                ErrorCode::ChromeMandatory,
                                "session chrome is mandatory while session is live"@,
                                Some(session_id),
                            ),
                        )
                    } else {
                        (
                            AgentView { chrome_visible: true, ..self },
                            MessageView::ack(msg.method(), Some(session_id)),
                        )
                    },
                }
            },
            MessageView::KillSwitch { session_id, disable_unattended, .. } => match (
                session_id,
                self.session_id,
            ) {
                (Some(target), None) => (
                    self,
                    MessageView::refusal(
                        ErrorCode::NotAttached,
                        "no session attached for kill-switch"@,
                        Some(target),
                    ),
                ),
                (Some(target), Some(cur)) => if target == cur {
                    (
                        self.after_kill(disable_unattended),
                        MessageView::ack(msg.method(), Some(target)),
                    )
                } else {
                    (
                        self,
                        MessageView::refusal(
                            ErrorCode::SessionMismatch,
                            "kill-switch session id does not match"@,
                            Some(target),
                        ),
                    )
                },
                (None, _) => (
                    self.after_kill(disable_unattended),
                    MessageView::ack(msg.method(), None),
                ),
            },
            MessageView::SignalForward(s) => match self.wrong_session(s.session_id) {
                Some(e) => (self, e),
                None => if self.killed {
                    (self, Self::killed_refusal(s.session_id))
                } else {
                    (self, MessageView::ack(msg.method(), Some(s.session_id)))
                },
            },
            _ => (
                self,
                MessageView::refusal(
                    ErrorCode::Unexpected,
                    "message not expected as agent command"@,
                    self.session_id,
                ),
            ),
        }
    }

    /// The session surface ended by a local kill: no media, no input, no chrome. The session id
    /// stays, so that further commands for it are still told apart.
    pub open spec fn after_kill(self, disable_unattended: bool) -> AgentView {
        AgentView {
            session_id: self.session_id,
            killed: true,
            media_started: false,
            enable_input: false,
            unattended: false,
            chrome_visible: false,
            unattended_disabled: self.unattended_disabled || disable_unattended,
        }
    }

    /// What every sequence of commands keeps: chrome is up while a session is live; a killed or
    /// missing session has no media, no input and no unattended access; and unattended access is
    /// never on while it is latched off.
    pub open spec fn consistent(self) -> bool {
        &&& self.session_id is Some && !self.killed ==> self.chrome_visible
        &&& self.session_id is None || self.killed ==> !self.media_started && !self.enable_input
            && !self.unattended && !self.chrome_visible
        &&& self.unattended ==> !self.unattended_disabled
    }
}

/// Statistics of which nothing is known yet.
pub open spec fn no_stats(session_id: Seq<char>) -> StatsView {
    StatsView {
        session_id,
        rtt_ms: None,
        video_bitrate_bps: None,
        audio_bitrate_bps: None,
        ice_path: None,
        av_skew_ms: None,
        fps: None,
        loss: None,
    }
}

fn empty_stats(session_id: String) -> (r: ControlMessage)
    ensures
        r.deep_view() == MessageView::StatsPush(no_stats(session_id@)),
{
    ControlMessage::StatsPush(
        StatsPush {
            session_id,
            rtt_ms: None,
            video_bitrate_bps: None,
            audio_bitrate_bps: None,
            ice_path: None,
            av_skew_ms: None,
            fps: None,
            loss: None,
        },
    )
}

impl Default for AgentSessionState {
    fn default() -> (r: Self)
        ensures
            r.deep_view() == AgentView::idle(false),
    {
        AgentSessionState {
            session_id: None,
            media_started: false,
            enable_input: false,
            unattended: false,
            chrome_visible: false,
            killed: false,
            unattended_disabled: false,
        }
    }
}

impl AgentSessionState {
    /// Reset session-scoped fields while preserving the host-local `unattended_disabled` latch.
    pub(crate) fn clear_session_keep_unattended_latch(&mut self)
        ensures
            final(self).deep_view() == AgentView::idle(old(self).unattended_disabled),
    {
        let unattended_disabled = self.unattended_disabled;
        *self = AgentSessionState::default();
        self.unattended_disabled = unattended_disabled;
    }

    /// Local-only: clear the unattended-disabled latch so that unattended access may be enabled
    /// by policy again. Remote control paths must not call this.
    pub fn reenable_unattended_local(&mut self)
        ensures
            final(self).deep_view() == (AgentView {
                unattended_disabled: false,
                ..old(self).deep_view()
            }),
    {
        self.unattended_disabled = false;
    }

    /// The refusal of a command that is not for the attached session.
    fn require_session(&self, session_id: &str) -> (r: Option<ControlMessage>)
        ensures
            r.deep_view() == self.deep_view().wrong_session(session_id@),
    {
        match &self.session_id {
            None => Some(
                ControlMessage::refusal(
                    ErrorCode::NotAttached,
                    "no session attached",
                    Some(session_id.to_string()),
                ),
            ),
            Some(cur) => {
                if same(cur, session_id) {
                    None
                } else {
                    Some(
                        ControlMessage::refusal(
                            ErrorCode::SessionMismatch,
                            "session id does not match attached session",
                            Some(session_id.to_string()),
                        ),
                    )
                }
            },
        }
    }

    /// The refusal of a command while the kill-switch is latched.
    fn require_not_killed(&self, session_id: &str) -> (r: Option<ControlMessage>)
        ensures
            r.deep_view() == (if self.killed {
                Some(AgentView::killed_refusal(session_id@))
            } else {
                None
            }),
    {
        if self.killed {
            Some(
                ControlMessage::refusal(
                    ErrorCode::Killed,
                    "kill-switch is latched",
                    Some(session_id.to_string()),
                ),
            )
        } else {
            None
        }
    }

    fn apply_kill(&mut self, disable_unattended: bool)
        ensures
            final(self).deep_view() == old(self).deep_view().after_kill(disable_unattended),
    {
        self.killed = true;
        self.media_started = false;
        self.enable_input = false;
        self.unattended = false;
        self.chrome_visible = false;
        if disable_unattended {
            self.unattended_disabled = true;
        }
    }

    /// Apply a control message.
    ///
    /// Returns `Ack` only when the command was applied; otherwise a stable `Error`
    /// (`not_attached`, `session_mismatch`, `busy`, `killed`, `chrome_mandatory`,
    /// `unattended_disabled`, `unexpected`).
    pub fn handle(&mut self, msg: &ControlMessage) -> (r: ControlMessage)
        ensures
            (final(self).deep_view(), r.deep_view()) == old(self).deep_view().step(
                msg.deep_view(),
            ),
    {
        match msg {
            ControlMessage::AttachSession(a) => {
                if self.session_id.is_some() && !self.killed {
                    return ControlMessage::refusal(
                        ErrorCode::Busy,
                        "session already active on host",
                        Some(a.session_id.clone()),
                    );
                }
                self.session_id = Some(a.session_id.clone());
                self.media_started = false;
                self.enable_input = false;
                self.unattended = false;
                self.chrome_visible = true;
                self.killed = false;
                ControlMessage::ack("attach_session", Some(a.session_id.clone()))
            },
            ControlMessage::DetachSession(d) => {
                if let Some(e) = self.require_session(&d.session_id) {
                    return e;
                }
                self.clear_session_keep_unattended_latch();
                ControlMessage::ack("detach_session", Some(d.session_id.clone()))
            },
            ControlMessage::SetPolicy(p) => {
                if let Some(e) = self.require_session(&p.session_id) {
                    return e;
                }
                if let Some(e) = self.require_not_killed(&p.session_id) {
                    return e;
                }
                if p.unattended && self.unattended_disabled {
                    return ControlMessage::refusal(
                        ErrorCode::UnattendedDisabled,
                        "unattended disabled by local kill-switch until re-enabled on host",
                        Some(p.session_id.clone()),
                    );
                }
                self.enable_input = p.enable_input;
                self.unattended = p.unattended;
                ControlMessage::ack("set_policy", Some(p.session_id.clone()))
            },
            ControlMessage::StartMedia(s) => {
                if let Some(e) = self.require_session(&s.session_id) {
                    return e;
                }
                if let Some(e) = self.require_not_killed(&s.session_id) {
                    return e;
                }
                self.media_started = true;
                ControlMessage::ack("start_media", Some(s.session_id.clone()))
            },
            ControlMessage::StopMedia(s) => {
                if let Some(e) = self.require_session(&s.session_id) {
                    return e;
                }
                // Stop is allowed after kill so resources can still drain.
                self.media_started = false;
                ControlMessage::ack("stop_media", Some(s.session_id.clone()))
            },
            ControlMessage::QueryStats(q) => {
                match &q.session_id {
                    Some(sid) => {
                        if let Some(e) = self.require_session(sid) {
                            return e;
                        }
                        empty_stats(sid.clone())
                    },
                    None => match &self.session_id {
                        Some(cur) => empty_stats(cur.clone()),
                        None => ControlMessage::refusal(
                            ErrorCode::NotAttached,
                            "no session attached",
                            None,
                        ),
                    },
                }
            },
            ControlMessage::ShowSessionChrome(c) => {
                if let Some(e) = self.require_session(&c.session_id) {
                    return e;
                }
                // After a kill no chrome command is taken: nothing brings back a dead session
                // surface, and hiding it is no success either.
                if self.killed {
                    return ControlMessage::refusal(
                        ErrorCode::Killed,
                        "kill-switch is latched; chrome commands refused until re-attach",
                        Some(c.session_id.clone()),
                    );
                }
                self.chrome_visible = true;
                if !c.visible {
                    return ControlMessage::refusal(
                        ErrorCode::ChromeMandatory,
                        "session chrome is mandatory while session is live",
                        Some(c.session_id.clone()),
                    );
                }
                ControlMessage::ack("show_session_chrome", Some(c.session_id.clone()))
            },
            ControlMessage::ShutdownSession(s) => {
                if let Some(e) = self.require_session(&s.session_id) {
                    return e;
                }
                self.clear_session_keep_unattended_latch();
                ControlMessage::ack("shutdown_session", Some(s.session_id.clone()))
            },
            ControlMessage::KillSwitch(k) => {
                if let Some(target) = &k.session_id {
                    match &self.session_id {
                        None => {
                            return ControlMessage::refusal(
                                ErrorCode::NotAttached,
                                "no session attached for kill-switch",
                                Some(target.clone()),
                            );
                        },
                        Some(cur) => {
                            if !same(target, cur) {
                                return ControlMessage::refusal(
                                    ErrorCode::SessionMismatch,
                                    "kill-switch session id does not match",
                                    Some(target.clone()),
                                );
                            }
                        },
                    }
                }
                self.apply_kill(k.disable_unattended);
                ControlMessage::ack("kill_switch", copy_text(&k.session_id))
            },
            ControlMessage::SignalForward(s) => {
                if let Some(e) = self.require_session(&s.session_id) {
                    return e;
                }
                if let Some(e) = self.require_not_killed(&s.session_id) {
                    return e;
                }
                ControlMessage::ack("signal_forward", Some(s.session_id.clone()))
            },
            ControlMessage::LocalConfirmResult(_)
            | ControlMessage::StatsPush(_)
            | ControlMessage::Ack(_)
            | ControlMessage::Error(_) => ControlMessage::refusal(
                ErrorCode::Unexpected,
                "message not expected as agent command",
                copy_text(&self.session_id),
            ),
        }
    }
}

/// Every command keeps the state consistent, and so do the start and a local re-enable.
pub proof fn law_state_stays_consistent(s: AgentView, msg: MessageView)
    ensures
        AgentView::idle(s.unattended_disabled).consistent(),
        s.consistent() ==> s.step(msg).0.consistent(),
        s.consistent() ==> (AgentView { unattended_disabled: false, ..s }).consistent(),
{
}

/// A command that is refused changes nothing.
pub proof fn law_refusal_changes_nothing(s: AgentView, msg: MessageView)
    requires
        s.consistent(),
        s.step(msg).1 is Error,
    ensures
        s.step(msg).0 == s,
{
}

/// No control message lifts the latch on unattended access; only a local re-enable does.
pub proof fn law_unattended_latch_survives(s: AgentView, msg: MessageView)
    requires
        s.unattended_disabled,
    ensures
        s.step(msg).0.unattended_disabled,
        s.consistent() ==> !s.step(msg).0.unattended,
{
}

/// While a session is live no other can be attached: the attempt is answered `busy` and the
/// session stays as it is.
pub proof fn law_one_session_at_a_time(s: AgentView, msg: MessageView)
    requires
        s.session_id is Some,
        !s.killed,
        msg is AttachSession,
    ensures
        s.step(msg).0 == s,
        s.step(msg).1 matches MessageView::Error { code, .. } && code == ErrorCode::Busy.text(),
{
}

/// Chrome cannot be hidden while a session is live, by any message but a kill-switch.
pub proof fn law_chrome_stays_while_live(s: AgentView, msg: MessageView)
    requires
        s.consistent(),
        s.session_id is Some,
        !s.killed,
        s.step(msg).0.session_id is Some,
    ensures
        s.step(msg).0.chrome_visible || (msg is KillSwitch && s.step(msg).0.killed),
{
}

/// After a kill the session surface stays dead until a fresh attach or the end of the session:
/// no message brings back media, input or chrome.
pub proof fn law_kill_holds_until_reattach(s: AgentView, msg: MessageView)
    requires
        s.consistent(),
        s.killed,
        msg !is AttachSession,
    ensures
        !s.step(msg).0.media_started,
        !s.step(msg).0.enable_input,
        !s.step(msg).0.chrome_visible,
        s.step(msg).0.killed || s.step(msg).0 == AgentView::idle(s.unattended_disabled),
{
}

/// The session that a command is for, where it is for one.
pub open spec fn meant_session(msg: MessageView) -> Option<Seq<char>> {
    match msg {
        MessageView::DetachSession { session_id, .. } => Some(session_id),
        MessageView::ShutdownSession { session_id, .. } => Some(session_id),
        MessageView::SetPolicy { session_id, .. } => Some(session_id),
        MessageView::StartMedia { session_id, .. } => Some(session_id),
        MessageView::StopMedia { session_id } => Some(session_id),
        MessageView::QueryStats { session_id } => session_id,
        MessageView::ShowSessionChrome { session_id, .. } => Some(session_id),
        MessageView::SignalForward(s) => Some(s.session_id),
        _ => None,
    }
}

/// A command for a session is refused where none is attached, and where another one is, and told
/// which of the two it was; for the attached session it is never refused on that account.
pub proof fn law_command_is_for_the_attached_session(s: AgentView, msg: MessageView)
    ensures
        meant_session(msg) matches Some(id) ==> {
            let (after, reply) = s.step(msg);
            &&& s.session_id is None ==> after == s && (reply matches MessageView::Error {
                code,
                ..
            } && code == "not_attached"@)
            &&& s.session_id is Some && s.session_id != Some(id) ==> after == s && (
            reply matches MessageView::Error { code, .. } && code == "session_mismatch"@)
            &&& s.session_id == Some(id) ==> (reply matches MessageView::Error { code, .. } ==> code
                != "not_attached"@ && code != "session_mismatch"@)
        },
{
    reveal_strlit("not_attached");
    reveal_strlit("session_mismatch");
    reveal_strlit("killed");
    reveal_strlit("chrome_mandatory");
    reveal_strlit("unattended_disabled");
    assert("not_attached"@.len() == 12 && "session_mismatch"@.len() == 16 && "killed"@.len() == 6
        && "chrome_mandatory"@.len() == 16 && "unattended_disabled"@.len() == 19);
    assert("session_mismatch"@[0] != "chrome_mandatory"@[0]);
}

/// Of a live session's own commands only two are ever refused: unattended access while it is latched
/// off, and hiding the chrome. What is not refused takes effect as asked and touches nothing else.
pub proof fn law_own_commands_take_effect(s: AgentView, msg: MessageView)
    requires
        s.session_id is Some,
        !s.killed,
        meant_session(msg) == s.session_id,
    ensures
        ({
            let (after, reply) = s.step(msg);
            &&& reply is Error <==> (msg matches MessageView::SetPolicy { unattended, .. }
                && unattended && s.unattended_disabled) || (
            msg matches MessageView::ShowSessionChrome { visible, .. } && !visible)
            &&& msg matches MessageView::SetPolicy { enable_input, unattended, .. } ==> !(unattended
                && s.unattended_disabled) ==> after.enable_input == enable_input && after.unattended
                == unattended && after.media_started == s.media_started
            &&& msg matches MessageView::SetPolicy { unattended, .. } ==> unattended
                && s.unattended_disabled ==> after == s
            &&& msg is StartMedia ==> after.media_started && after.enable_input == s.enable_input
            &&& msg is StopMedia ==> !after.media_started && after.enable_input == s.enable_input
            &&& msg is DetachSession || msg is ShutdownSession ==> after.session_id is None
            &&& !(msg is DetachSession || msg is ShutdownSession) ==> after.session_id
                == s.session_id
            &&& msg is SignalForward || msg is QueryStats ==> after == s
            &&& reply matches MessageView::Ack { for_method, session_id } ==> for_method == Some(
                msg.method(),
            ) && session_id == s.session_id
            &&& after.unattended_disabled == s.unattended_disabled
        }),
{
}

/// A killed session takes no policy, no media, no chrome and no signals, and is told so.
pub proof fn law_killed_session_refuses(s: AgentView, msg: MessageView)
    requires
        s.session_id is Some,
        s.killed,
        meant_session(msg) == s.session_id,
        msg is SetPolicy || msg is StartMedia || msg is ShowSessionChrome || msg is SignalForward,
    ensures
        s.step(msg).0 == s,
        s.step(msg).1 matches MessageView::Error { code, .. } && code == "killed"@,
{
}

/// Of a session whose media has not run nothing is known yet.
pub proof fn law_fresh_statistics_are_empty(session_id: Seq<char>)
    ensures
        ({
            let s = no_stats(session_id);
            &&& s.session_id == session_id
            &&& s.rtt_ms is None && s.video_bitrate_bps is None && s.audio_bitrate_bps is None
            &&& s.ice_path is None && s.av_skew_ms is None && s.fps is None && s.loss is None
        }),
{
}

/// A session can be attached wherever none is live, to a killed one's place too; while one is live
/// the agent is busy. An attached session starts afresh: visible, without media and without input.
pub proof fn law_attaching_needs_a_free_agent(s: AgentView, msg: MessageView)
    ensures
        msg matches MessageView::AttachSession { session_id, .. } ==> {
            let (after, reply) = s.step(msg);
            &&& s.session_id is None || s.killed <==> reply is Ack
            &&& s.session_id is Some && !s.killed <==> (reply matches MessageView::Error {
                code,
                ..
            } && code == "busy"@)
            &&& reply is Ack ==> after.session_id == Some(session_id) && after.chrome_visible
                && !after.media_started && !after.enable_input && !after.unattended && !after.killed
            &&& reply is Ack ==> (reply matches MessageView::Ack { session_id: told, .. } && told
                == Some(session_id))
            &&& reply is Error ==> after == s
        },
{
}

} // verus!
