//! Control messages between the host service and its session agent.
//!
//! Commands, replies and signaling only: no message carries media.

use vstd::prelude::*;

verus! {

/// Stable codes of error replies.
#[derive(Debug, Clone, Copy, PartialEq, Eq, Structural)]
pub enum ErrorCode {
    /// No session is attached.
    NotAttached,
    /// Another session is attached.
    SessionMismatch,
    /// A session is live already.
    Busy,
    /// The kill-switch is latched.
    Killed,
    /// Session chrome cannot be hidden.
    ChromeMandatory,
    /// Unattended access was disabled locally.
    UnattendedDisabled,
    /// The message is no command.
    Unexpected,
}

impl ErrorCode {
    /// The code on the wire.
    pub open spec fn text(self) -> Seq<char> {
        match self {
            ErrorCode::NotAttached => "not_attached"@,
            ErrorCode::SessionMismatch => "session_mismatch"@,
            ErrorCode::Busy => "busy"@,
            ErrorCode::Killed => "killed"@,
            ErrorCode::ChromeMandatory => "chrome_mandatory"@,
            ErrorCode::UnattendedDisabled => "unattended_disabled"@,
            ErrorCode::Unexpected => "unexpected"@,
        }
    }

    /// The code on the wire.
    pub fn as_str(&self) -> (r: &'static str)
        ensures
            r@ == self.text(),
    {
        match self {
            ErrorCode::NotAttached => "not_attached",
            ErrorCode::SessionMismatch => "session_mismatch",
            ErrorCode::Busy => "busy",
            ErrorCode::Killed => "killed",
            ErrorCode::ChromeMandatory => "chrome_mandatory",
            ErrorCode::UnattendedDisabled => "unattended_disabled",
            ErrorCode::Unexpected => "unexpected",
        }
    }
}

/// Where a kill-switch was triggered.
#[derive(Debug, Clone, Copy, PartialEq, Eq, Structural)]
pub enum KillSwitchSource {
    Hotkey,
    Tray,
}

/// Which side a forwarded signal comes from.
#[derive(Debug, Clone, Copy, PartialEq, Eq, Structural)]
pub enum SignalHop {
    Service,
    Agent,
}

/// Optional features of a session, one bit each.
#[derive(Debug, Clone, Copy, PartialEq, Eq, Structural)]
pub struct FeatureFlags {
    pub bits: u32,
}

impl Default for FeatureFlags {
    fn default() -> (r: Self)
        ensures
            r == (FeatureFlags { bits: 0 }),
    {
        FeatureFlags { bits: 0 }
    }
}

/// Bind the agent to a session.
#[derive(Debug, Clone, PartialEq, Eq)]
pub struct AttachSession {
    pub session_id: String,
    pub viewer_label: Option<String>,
    pub feature_flags: FeatureFlags,
    pub turn_uris: Vec<String>,
    pub boot_secret: Option<String>,
}

/// Release the agent from a session.
#[derive(Debug, Clone, PartialEq, Eq)]
pub struct DetachSession {
    pub session_id: String,
    pub reason: Option<String>,
}

/// Session policy.
#[derive(Debug, Clone, PartialEq, Eq)]
pub struct SetPolicy {
    pub session_id: String,
    pub enable_input: bool,
    pub unattended: bool,
    pub max_bitrate_bps: u32,
    pub disable_hw_encode: bool,
}

/// Start capture and encode.
#[derive(Debug, Clone, PartialEq, Eq)]
pub struct StartMedia {
    pub session_id: String,
    pub display_id: Option<String>,
}

/// Stop capture and encode.
#[derive(Debug, Clone, PartialEq, Eq)]
pub struct StopMedia {
    pub session_id: String,
}

/// Ask for statistics.
#[derive(Debug, Clone, PartialEq, Eq)]
pub struct QueryStats {
    pub session_id: Option<String>,
}

/// Statistics.
#[derive(Debug, Clone, PartialEq, Eq)]
pub struct StatsPush {
    pub session_id: String,
    pub rtt_ms: Option<u32>,
    pub video_bitrate_bps: Option<u32>,
    pub audio_bitrate_bps: Option<u32>,
    pub ice_path: Option<String>,
    pub av_skew_ms: Option<i32>,
    pub fps: Option<u32>,
    pub loss: Option<u32>,
}

/// Show or hide session chrome.
#[derive(Debug, Clone, PartialEq, Eq)]
pub struct ShowSessionChrome {
    pub session_id: String,
    pub visible: bool,
    pub label: Option<String>,
}

/// End a session.
#[derive(Debug, Clone, PartialEq, Eq)]
pub struct ShutdownSession {
    pub session_id: String,
    pub reason: Option<String>,
}

/// Local kill-switch; without a session id it applies to whatever is attached.
#[derive(Debug, Clone, PartialEq, Eq)]
pub struct KillSwitch {
    pub session_id: Option<String>,
    pub disable_unattended: bool,
    pub source: KillSwitchSource,
}

/// A signaling payload on its way between server and peer transport.
#[derive(Debug, Clone, PartialEq, Eq)]
pub struct SignalForward {
    pub session_id: String,
    pub kind: String,
    pub payload: String,
    pub from: SignalHop,
}

/// What the user at the host decided.
#[derive(Debug, Clone, PartialEq, Eq)]
pub struct LocalConfirmResult {
    pub session_id: String,
    pub accepted: bool,
    pub reason: Option<String>,
}

/// A command was applied.
#[derive(Debug, Clone, PartialEq, Eq)]
pub struct Ack {
    pub for_method: Option<String>,
    pub session_id: Option<String>,
}

/// A command was refused.
#[derive(Debug, Clone, PartialEq, Eq)]
pub struct ControlError {
    pub code: String,
    pub message: String,
    pub session_id: Option<String>,
}

/// A control message.
#[derive(Debug, Clone, PartialEq, Eq)]
pub enum ControlMessage {
    AttachSession(AttachSession),
    DetachSession(DetachSession),
    SetPolicy(SetPolicy),
    StartMedia(StartMedia),
    StopMedia(StopMedia),
    QueryStats(QueryStats),
    StatsPush(StatsPush),
    ShowSessionChrome(ShowSessionChrome),
    ShutdownSession(ShutdownSession),
    KillSwitch(KillSwitch),
    SignalForward(SignalForward),
    LocalConfirmResult(LocalConfirmResult),
    Ack(Ack),
    Error(ControlError),
}

/// What statistics hold.
pub struct StatsView {
    pub session_id: Seq<char>,
    pub rtt_ms: Option<u32>,
    pub video_bitrate_bps: Option<u32>,
    pub audio_bitrate_bps: Option<u32>,
    pub ice_path: Option<Seq<char>>,
    pub av_skew_ms: Option<i32>,
    pub fps: Option<u32>,
    pub loss: Option<u32>,
}

/// What a forwarded signal holds.
pub struct SignalView {
    pub session_id: Seq<char>,
    pub kind: Seq<char>,
    pub payload: Seq<char>,
    pub from: SignalHop,
}

/// What a control message says.
pub enum MessageView {
    AttachSession {
        session_id: Seq<char>,
        viewer_label: Option<Seq<char>>,
        feature_flags: FeatureFlags,
        turn_uris: Seq<Seq<char>>,
        boot_secret: Option<Seq<char>>,
    },
    DetachSession { session_id: Seq<char>, reason: Option<Seq<char>> },
    SetPolicy {
        session_id: Seq<char>,
        enable_input: bool,
        unattended: bool,
        max_bitrate_bps: u32,
        disable_hw_encode: bool,
    },
    StartMedia { session_id: Seq<char>, display_id: Option<Seq<char>> },
    StopMedia { session_id: Seq<char> },
    QueryStats { session_id: Option<Seq<char>> },
    StatsPush(StatsView),
    ShowSessionChrome { session_id: Seq<char>, visible: bool, label: Option<Seq<char>> },
    ShutdownSession { session_id: Seq<char>, reason: Option<Seq<char>> },
    KillSwitch { session_id: Option<Seq<char>>, disable_unattended: bool, source: KillSwitchSource },
    SignalForward(SignalView),
    LocalConfirmResult { session_id: Seq<char>, accepted: bool, reason: Option<Seq<char>> },
    Ack { for_method: Option<Seq<char>>, session_id: Option<Seq<char>> },
    Error { code: Seq<char>, message: Seq<char>, session_id: Option<Seq<char>> },
}

impl DeepView for StatsPush {
    type V = StatsView;

    open spec fn deep_view(&self) -> StatsView {
        StatsView {
            session_id: self.session_id@,
            rtt_ms: self.rtt_ms,
            video_bitrate_bps: self.video_bitrate_bps,
            audio_bitrate_bps: self.audio_bitrate_bps,
            ice_path: self.ice_path.deep_view(),
            av_skew_ms: self.av_skew_ms,
            fps: self.fps,
            loss: self.loss,
        }
    }
}

impl DeepView for SignalForward {
    type V = SignalView;

    open spec fn deep_view(&self) -> SignalView {
        SignalView {
            session_id: self.session_id@,
            kind: self.kind@,
            payload: self.payload@,
            from: self.from,
        }
    }
}

impl DeepView for ControlMessage {
    type V = MessageView;

    open spec fn deep_view(&self) -> MessageView {
        match self {
            ControlMessage::AttachSession(m) => MessageView::AttachSession {
                session_id: m.session_id@,
                viewer_label: m.viewer_label.deep_view(),
                feature_flags: m.feature_flags,
                turn_uris: m.turn_uris.deep_view(),
                boot_secret: m.boot_secret.deep_view(),
            },
            ControlMessage::DetachSession(m) => MessageView::DetachSession {
                session_id: m.session_id@,
                reason: m.reason.deep_view(),
            },
            ControlMessage::SetPolicy(m) => MessageView::SetPolicy {
                session_id: m.session_id@,
                enable_input: m.enable_input,
                unattended: m.unattended,
                max_bitrate_bps: m.max_bitrate_bps,
                disable_hw_encode: m.disable_hw_encode,
            },
            ControlMessage::StartMedia(m) => MessageView::StartMedia {
                session_id: m.session_id@,
                display_id: m.display_id.deep_view(),
            },
            ControlMessage::StopMedia(m) => MessageView::StopMedia { session_id: m.session_id@ },
            ControlMessage::QueryStats(m) => MessageView::QueryStats {
                session_id: m.session_id.deep_view(),
            },
            ControlMessage::StatsPush(m) => MessageView::StatsPush(m.deep_view()),
            ControlMessage::ShowSessionChrome(m) => MessageView::ShowSessionChrome {
                session_id: m.session_id@,
                visible: m.visible,
                label: m.label.deep_view(),
            },
            ControlMessage::ShutdownSession(m) => MessageView::ShutdownSession {
                session_id: m.session_id@,
                reason: m.reason.deep_view(),
            },
            ControlMessage::KillSwitch(m) => MessageView::KillSwitch {
                session_id: m.session_id.deep_view(),
                disable_unattended: m.disable_unattended,
                source: m.source,
            },
            ControlMessage::SignalForward(m) => MessageView::SignalForward(m.deep_view()),
            ControlMessage::LocalConfirmResult(m) => MessageView::LocalConfirmResult {
                session_id: m.session_id@,
                accepted: m.accepted,
                reason: m.reason.deep_view(),
            },
            ControlMessage::Ack(m) => MessageView::Ack {
                for_method: m.for_method.deep_view(),
                session_id: m.session_id.deep_view(),
            },
            ControlMessage::Error(m) => MessageView::Error {
                code: m.code@,
                message: m.message@,
                session_id: m.session_id.deep_view(),
            },
        }
    }
}

impl MessageView {
    /// The method that a message names on the wire.
    pub open spec fn method(self) -> Seq<char> {
        match self {
            MessageView::AttachSession { .. } => "attach_session"@,
            MessageView::DetachSession { .. } => "detach_session"@,
            MessageView::SetPolicy { .. } => "set_policy"@,
            MessageView::StartMedia { .. } => "start_media"@,
            MessageView::StopMedia { .. } => "stop_media"@,
            MessageView::QueryStats { .. } => "query_stats"@,
            MessageView::StatsPush(_) => "stats_push"@,
            MessageView::ShowSessionChrome { .. } => "show_session_chrome"@,
            MessageView::ShutdownSession { .. } => "shutdown_session"@,
            MessageView::KillSwitch { .. } => "kill_switch"@,
            MessageView::SignalForward(_) => "signal_forward"@,
            MessageView::LocalConfirmResult { .. } => "local_confirm_result"@,
            MessageView::Ack { .. } => "ack"@,
            MessageView::Error { .. } => "error"@,
        }
    }

    /// An acknowledgement of `method`.
    pub open spec fn ack(method: Seq<char>, session_id: Option<Seq<char>>) -> MessageView {
        MessageView::Ack { for_method: Some(method), session_id }
    }

    /// A refusal.
    pub open spec fn refusal(
        code: ErrorCode,
        message: Seq<char>,
        session_id: Option<Seq<char>>,
    ) -> MessageView {
        MessageView::Error { code: code.text(), message, session_id }
    }
}

impl ControlMessage {
    /// The method that a message names on the wire.
    pub fn method_name(&self) -> (r: &'static str)
        ensures
            r@ == self.deep_view().method(),
    {
        match self {
            ControlMessage::AttachSession(_) => "attach_session",
            ControlMessage::DetachSession(_) => "detach_session",
            ControlMessage::SetPolicy(_) => "set_policy",
            ControlMessage::StartMedia(_) => "start_media",
            ControlMessage::StopMedia(_) => "stop_media",
            ControlMessage::QueryStats(_) => "query_stats",
            ControlMessage::StatsPush(_) => "stats_push",
            ControlMessage::ShowSessionChrome(_) => "show_session_chrome",
            ControlMessage::ShutdownSession(_) => "shutdown_session",
            ControlMessage::KillSwitch(_) => "kill_switch",
            ControlMessage::SignalForward(_) => "signal_forward",
            ControlMessage::LocalConfirmResult(_) => "local_confirm_result",
            ControlMessage::Ack(_) => "ack",
            ControlMessage::Error(_) => "error",
        }
    }

    /// An acknowledgement of `method`.
    pub fn ack(method: &str, session_id: Option<String>) -> (r: ControlMessage)
        ensures
            r.deep_view() == MessageView::ack(method@, session_id.deep_view()),
    {
        ControlMessage::Ack(Ack { for_method: Some(method.to_string()), session_id })
    }

    /// A refusal.
    pub fn refusal(code: ErrorCode, message: &str, session_id: Option<String>) -> (r:
        ControlMessage)
        ensures
            r.deep_view() == MessageView::refusal(code, message@, session_id.deep_view()),
    {
        ControlMessage::Error(
            ControlError {
                code: code.as_str().to_string(),
                message: message.to_string(),
                session_id,
            },
        )
    }
}

/// An optional text again.
pub fn copy_text(s: &Option<String>) -> (r: Option<String>)
    ensures
        r.deep_view() == s.deep_view(),
{
    match s {
        Some(t) => Some(t.clone()),
        None => None,
    }
}

} // verus!
