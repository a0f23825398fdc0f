//! Agent-side session: identity gate, input gate, signaling queue and media pacing.
//!
//! Video and audio stay inside the agent and go only to its peer transport; control messages
//! carry signaling, never media.
//!
//! Remote input is accepted only once the session is authorized **and** the viewer's identity is
//! bound to the transport.

use vstd::prelude::*;
use ed25519_dalek::SigningKey;
use crate::host::control::{SignalForward, SignalHop, SignalView};
use crate::host::platform_capture::{
    default_audio_kind, default_video_kind, system_audio, system_video, AudioCaptureKind, Platform,
    VideoCaptureKind,
};
use crate::host::signal_kind;
use crate::text::{chars_of, push_chars, same, starts_with, string_of, trim, trimmed};

verus! {

/// DataChannel label for viewer → host input events.
pub const INPUT_CHANNEL_LABEL: &'static str = "input";

/// DataChannel label for the identity handshake.
pub const IDENTITY_CHANNEL_LABEL: &'static str = "identity";

/// JSON body of offers and answers.
#[derive(Debug, Clone, PartialEq, Eq)]
pub struct SdpPayload {
    /// Full SDP body.
    pub sdp: String,
    /// Optional identity fingerprint signature; empty in synthetic mode.
    pub fingerprint_sig: Option<String>,
}

/// What an `SdpPayload` holds.
pub struct SdpView {
    pub sdp: Seq<char>,
    pub fingerprint_sig: Option<Seq<char>>,
}

impl DeepView for SdpPayload {
    type V = SdpView;

    open spec fn deep_view(&self) -> SdpView {
        SdpView { sdp: self.sdp@, fingerprint_sig: self.fingerprint_sig.deep_view() }
    }
}

/// An ICE candidate.
#[derive(Debug, Clone, PartialEq, Eq)]
pub struct IceCandidate {
    pub candidate: String,
    pub sdp_mid: Option<String>,
    pub sdp_m_line_index: Option<u16>,
    pub username_fragment: Option<String>,
}

/// What an `IceCandidate` holds.
pub struct IceView {
    pub candidate: Seq<char>,
    pub sdp_mid: Option<Seq<char>>,
    pub sdp_m_line_index: Option<u16>,
    pub username_fragment: Option<Seq<char>>,
}

impl DeepView for IceCandidate {
    type V = IceView;

    open spec fn deep_view(&self) -> IceView {
        IceView {
            candidate: self.candidate@,
            sdp_mid: self.sdp_mid.deep_view(),
            sdp_m_line_index: self.sdp_m_line_index,
            username_fragment: self.username_fragment.deep_view(),
        }
    }
}

/// Why authorization or the identity bind failed.
#[derive(Debug, Clone)]
pub enum AuthError {
    /// The session was not authorized.
    SessionNotAuthorized,
    /// The viewer's identity is not bound.
    IdentityNotBound,
    /// The identity handshake went wrong.
    IdentityBind(String),
    /// Another failure, as its text.
    Other(String),
}

/// What an `AuthError` says.
pub enum AuthErrorView {
    SessionNotAuthorized,
    IdentityNotBound,
    IdentityBind(Seq<char>),
    Other(Seq<char>),
}

impl DeepView for AuthError {
    type V = AuthErrorView;

    open spec fn deep_view(&self) -> AuthErrorView {
        match self {
            AuthError::SessionNotAuthorized => AuthErrorView::SessionNotAuthorized,
            AuthError::IdentityNotBound => AuthErrorView::IdentityNotBound,
            AuthError::IdentityBind(e) => AuthErrorView::IdentityBind(e@),
            AuthError::Other(e) => AuthErrorView::Other(e@),
        }
    }
}

impl AuthErrorView {
    /// The error as a message.
    pub open spec fn text(self) -> Seq<char> {
        match self {
            AuthErrorView::SessionNotAuthorized => "session not authorized"@,
            AuthErrorView::IdentityNotBound => "identity not bound"@,
            AuthErrorView::IdentityBind(e) => "identity bind: "@ + e,
            AuthErrorView::Other(e) => e,
        }
    }
}

impl AuthError {
    /// The error as a message.
    pub fn to_string(&self) -> (r: String)
        ensures
            r@ == self.deep_view().text(),
    {
        match self {
            AuthError::SessionNotAuthorized => "session not authorized".to_string(),
            AuthError::IdentityNotBound => "identity not bound".to_string(),
            AuthError::IdentityBind(e) => "identity bind: ".to_string().concat(e),
            AuthError::Other(e) => e.clone(),
        }
    }
}

/// Errors from the agent session.
#[derive(Debug, Clone)]
pub enum SessionError {
    /// Peer transport failure.
    Transport(String),
    /// Media encode / source failure.
    Media(String),
    /// Signaling payload could not be parsed or applied.
    Signaling(String),
    /// Session / media not in the expected state.
    InvalidState(String),
    /// Auth / identity bind failure.
    Auth(AuthError),
    /// Input rejected: the viewer is not bound and authorized.
    InputRejected(String),
}

/// What a `SessionError` says.
pub enum SessionErrorView {
    Transport(Seq<char>),
    Media(Seq<char>),
    Signaling(Seq<char>),
    InvalidState(Seq<char>),
    Auth(AuthErrorView),
    InputRejected(Seq<char>),
}

impl DeepView for SessionError {
    type V = SessionErrorView;

    open spec fn deep_view(&self) -> SessionErrorView {
        match self {
            SessionError::Transport(e) => SessionErrorView::Transport(e@),
            SessionError::Media(e) => SessionErrorView::Media(e@),
            SessionError::Signaling(e) => SessionErrorView::Signaling(e@),
            SessionError::InvalidState(e) => SessionErrorView::InvalidState(e@),
            SessionError::Auth(e) => SessionErrorView::Auth(e.deep_view()),
            SessionError::InputRejected(e) => SessionErrorView::InputRejected(e@),
        }
    }
}

impl SessionErrorView {
    /// The error as a message.
    pub open spec fn text(self) -> Seq<char> {
        match self {
            SessionErrorView::Transport(e) => "transport: "@ + e,
            SessionErrorView::Media(e) => "media: "@ + e,
            SessionErrorView::Signaling(e) => "signaling: "@ + e,
            SessionErrorView::InvalidState(e) => "invalid state: "@ + e,
            SessionErrorView::Auth(e) => "auth: "@ + e.text(),
            SessionErrorView::InputRejected(e) => "input rejected: "@ + e,
        }
    }
}

impl SessionError {
    /// The error as a message.
    pub fn to_string(&self) -> (r: String)
        ensures
            r@ == self.deep_view().text(),
    {
        match self {
            SessionError::Transport(e) => "transport: ".to_string().concat(e),
            SessionError::Media(e) => "media: ".to_string().concat(e),
            SessionError::Signaling(e) => "signaling: ".to_string().concat(e),
            SessionError::InvalidState(e) => "invalid state: ".to_string().concat(e),
            SessionError::Auth(e) => "auth: ".to_string().concat(&e.to_string()),
            SessionError::InputRejected(e) => "input rejected: ".to_string().concat(e),
        }
    }
}

/// The outcome of an operation, by its contents.
pub open spec fn outcome<T>(r: Result<T, SessionError>) -> Result<T, SessionErrorView> {
    match r {
        Ok(v) => Ok(v),
        Err(e) => Err(e.deep_view()),
    }
}

/// Stats from one media pump.
#[derive(Debug, Clone, Copy, PartialEq, Eq, Structural)]
pub struct PumpStats {
    /// Video units sent.
    pub video_sent: u32,
    /// Audio packets sent.
    pub audio_sent: u32,
    /// True when the peer was not connected (nothing sent).
    pub skipped_not_connected: bool,
}

impl Default for PumpStats {
    fn default() -> (r: Self)
        ensures
            r == (PumpStats { video_sent: 0, audio_sent: 0, skipped_not_connected: false }),
    {
        PumpStats { video_sent: 0, audio_sent: 0, skipped_not_connected: false }
    }
}

/// Outcome of processing inbound DataChannel messages (identity + input).
#[derive(Debug, Clone, Copy, PartialEq, Eq, Structural)]
pub struct InboundStats {
    /// Identity messages handled.
    pub identity_messages: u32,
    /// Input events accepted (gate open).
    pub input_accepted: u32,
    /// Input events rejected (not bound / not authorized).
    pub input_rejected: u32,
}

impl Default for InboundStats {
    fn default() -> (r: Self)
        ensures
            r == (InboundStats { identity_messages: 0, input_accepted: 0, input_rejected: 0 }),
    {
        InboundStats { identity_messages: 0, input_accepted: 0, input_rejected: 0 }
    }
}

/// State of the peer transport.
#[derive(Debug, Clone, Copy, PartialEq, Eq, Structural)]
pub enum ConnectionState {
    New,
    Connecting,
    Connected,
    Disconnected,
    Failed,
    Closed,
}

impl ConnectionState {
    /// The name of a state.
    pub open spec fn name(self) -> Seq<char> {
        match self {
            ConnectionState::New => "new"@,
            ConnectionState::Connecting => "connecting"@,
            ConnectionState::Connected => "connected"@,
            ConnectionState::Disconnected => "disconnected"@,
            ConnectionState::Failed => "failed"@,
            ConnectionState::Closed => "closed"@,
        }
    }

    /// The name of a state.
    pub fn as_str(&self) -> (r: &'static str)
        ensures
            r@ == self.name(),
    {
        match self {
            ConnectionState::New => "new",
            ConnectionState::Connecting => "connecting",
            ConnectionState::Connected => "connected",
            ConnectionState::Disconnected => "disconnected",
            ConnectionState::Failed => "failed",
            ConnectionState::Closed => "closed",
        }
    }
}

/// A DataChannel message.
#[derive(Debug, Clone, PartialEq, Eq)]
pub struct DataMessage {
    pub label: String,
    pub data: Vec<u8>,
    pub unordered: bool,
}

/// What a `DataMessage` holds.
pub struct DataView {
    pub label: Seq<char>,
    pub data: Seq<u8>,
    pub unordered: bool,
}

impl DeepView for DataMessage {
    type V = DataView;

    open spec fn deep_view(&self) -> DataView {
        DataView { label: self.label@, data: self.data@, unordered: self.unordered }
    }
}

/// Identity flags of the attached session.
#[derive(Debug, Clone)]
pub struct IdentityBindState {
    pub session_id: Option<String>,
    pub session_authorized: bool,
    pub identity_bound: bool,
}

/// What an `IdentityBindState` holds.
pub struct IdentityView {
    pub session_id: Option<Seq<char>>,
    pub session_authorized: bool,
    pub identity_bound: bool,
}

impl DeepView for IdentityBindState {
    type V = IdentityView;

    open spec fn deep_view(&self) -> IdentityView {
        IdentityView {
            session_id: self.session_id.deep_view(),
            session_authorized: self.session_authorized,
            identity_bound: self.identity_bound,
        }
    }
}

impl IdentityView {
    /// Nobody is authorized or bound.
    pub open spec fn fresh(session_id: Option<Seq<char>>) -> IdentityView {
        IdentityView { session_id, session_authorized: false, identity_bound: false }
    }

    /// Whether remote input may be accepted.
    pub open spec fn input_allowed(self) -> bool {
        self.identity_bound && self.session_authorized
    }
}

impl IdentityBindState {
    fn fresh(session_id: Option<String>) -> (r: Self)
        ensures
            r.deep_view() == IdentityView::fresh(session_id.deep_view()),
    {
        IdentityBindState { session_id, session_authorized: false, identity_bound: false }
    }

    /// Whether remote input may be accepted.
    pub fn input_allowed(&self) -> (r: bool)
        ensures
            r == self.deep_view().input_allowed(),
    {
        self.identity_bound && self.session_authorized
    }

    /// Why remote input may not be accepted.
    pub fn input_gate_error(&self) -> (r: AuthError)
        ensures
            r.deep_view() == (if !self.session_authorized {
                AuthErrorView::SessionNotAuthorized
            } else {
                AuthErrorView::IdentityNotBound
            }),
    {
        if !self.session_authorized {
            AuthError::SessionNotAuthorized
        } else {
            AuthError::IdentityNotBound
        }
    }
}

/// Media counters since the last media start.
#[derive(Debug, Clone, Copy, PartialEq, Eq, Structural)]
pub struct MediaPlane {
    pub video_frames_sent: u64,
    pub audio_packets_sent: u64,
}

/// An identity message as the handshake reads it.
#[derive(Debug)]
pub enum IdentityMessage {
    /// It could not be read.
    Malformed(AuthError),
    /// A challenge, which a host does not expect.
    Challenge,
    /// A response, and what checking it against the outstanding challenge gave.
    Response(Result<(), SessionError>),
}

/// A message that arrived, with its identity reading where it is on the identity channel.
#[derive(Debug)]
pub struct InboundMessage {
    pub message: DataMessage,
    pub identity: IdentityMessage,
}

/// `ed25519_dalek::SigningKey`, carried from enrollment to the signer.
#[verifier::external_type_specification]
#[verifier::external_body]
pub struct ExSigningKey(SigningKey);

/// The session manager: binds one session at a time and gates its input.
#[derive(Debug)]
pub struct SessionManager {
    session_id: Option<String>,
    media: Option<MediaPlane>,
    outbound_signals: Vec<SignalForward>,
    synth_width: u32,
    synth_height: u32,
    synth_fps: u32,
    video_kind: Option<VideoCaptureKind>,
    audio_kind: Option<AudioCaptureKind>,
    force_software: bool,
    identity: IdentityBindState,
    device_signing_key: Option<SigningKey>,
    bind_key: Option<Vec<u8>>,
    pending_dc_challenge: Option<Vec<u8>>,
    accepted_input: Vec<DataMessage>,
    injected_input: Vec<DataMessage>,
    rejected_input_count: u64,
    policy_input: bool,
}

/// What a `SessionManager` keeps from session to session.
pub struct SetupView {
    /// Width, height and frame rate of synthetic capture.
    pub geometry: (u32, u32, u32),
    /// Capture kinds, where they are not those of the system.
    pub video_kind: Option<VideoCaptureKind>,
    pub audio_kind: Option<AudioCaptureKind>,
    /// Encode in software.
    pub force_software: bool,
    /// The enrolled device key, which signs fingerprints.
    pub device_key: Option<SigningKey>,
}

impl SetupView {
    /// The setup of a new manager.
    pub open spec fn standard() -> SetupView {
        SetupView {
            geometry: (64, 36, 30),
            video_kind: None,
            audio_kind: None,
            force_software: false,
            device_key: None,
        }
    }

    /// The capture kinds: those that were set, else those of the system.
    pub open spec fn kinds(self, platform: Platform) -> (VideoCaptureKind, AudioCaptureKind) {
        (
            match self.video_kind {
                Some(kind) => kind,
                None => system_video(platform),
            },
            match self.audio_kind {
                Some(kind) => kind,
                None => system_audio(platform),
            },
        )
    }
}

/// What a `SessionManager` holds.
pub struct ManagerView {
    pub session_id: Option<Seq<char>>,
    /// Media counters, where media is started.
    pub media: Option<MediaPlane>,
    /// Signals for the service.
    pub outbound: Seq<SignalView>,
    pub setup: SetupView,
    pub identity: IdentityView,
    /// The key of an authorized session.
    pub bind_key: Option<Seq<u8>>,
    /// The challenge that awaits its response.
    pub challenge: Option<Seq<u8>>,
    /// Input that passed the identity gate.
    pub accepted: Seq<DataView>,
    /// Input that was handed on for injection.
    pub injected: Seq<DataView>,
    pub rejected: u64,
    /// Whether policy lets input be injected.
    pub policy_input: bool,
}

/// What optional bytes hold.
pub open spec fn opt_bytes(b: Option<Vec<u8>>) -> Option<Seq<u8>> {
    match b {
        Some(v) => Some(v@),
        None => None,
    }
}

impl DeepView for SessionManager {
    type V = ManagerView;

    closed spec fn deep_view(&self) -> ManagerView {
        ManagerView {
            session_id: self.session_id.deep_view(),
            media: self.media,
            outbound: self.outbound_signals.deep_view(),
            setup: SetupView {
                geometry: (self.synth_width, self.synth_height, self.synth_fps),
                video_kind: self.video_kind,
                audio_kind: self.audio_kind,
                force_software: self.force_software,
                device_key: self.device_signing_key,
            },
            identity: self.identity.deep_view(),
            bind_key: opt_bytes(self.bind_key),
            challenge: opt_bytes(self.pending_dc_challenge),
            accepted: self.accepted_input.deep_view(),
            injected: self.injected_input.deep_view(),
            rejected: self.rejected_input_count,
            policy_input: self.policy_input,
        }
    }
}

/// One more, but never past the largest number.
pub open spec fn one_more(n: u32) -> u32 {
    if n == u32::MAX {
        n
    } else {
        (n + 1) as u32
    }
}

/// One more, but never past the largest number.
pub open spec fn one_more_long(n: u64) -> u64 {
    if n == u64::MAX {
        n
    } else {
        (n + 1) as u64
    }
}

impl ManagerView {
    /// A manager without a session.
    pub open spec fn unbound(setup: SetupView) -> ManagerView {
        ManagerView {
            session_id: None,
            media: None,
            outbound: Seq::empty(),
            setup,
            identity: IdentityView::fresh(None),
            bind_key: None,
            challenge: None,
            accepted: Seq::empty(),
            injected: Seq::empty(),
            rejected: 0,
            policy_input: false,
        }
    }

    /// A manager freshly bound to a session.
    pub open spec fn bound(setup: SetupView, session_id: Seq<char>) -> ManagerView {
        ManagerView {
            session_id: Some(session_id),
            identity: IdentityView::fresh(Some(session_id)),
            ..ManagerView::unbound(setup)
        }
    }

    /// Whether input may be injected: identity, authorization and policy.
    pub open spec fn injection_allowed(self) -> bool {
        self.identity.input_allowed() && self.policy_input
    }

    /// The manager after an input message.
    pub open spec fn after_input(self, msg: DataView) -> ManagerView {
        if self.identity.input_allowed() {
            ManagerView {
                accepted: self.accepted.push(msg),
                injected: if self.policy_input {
                    self.injected.push(msg)
                } else {
                    self.injected
                },
                ..self
            }
        } else {
            ManagerView { rejected: one_more_long(self.rejected), ..self }
        }
    }

    /// The manager after an identity message, and whether it was in order. A response uses up the
    /// outstanding challenge, whatever comes of it.
    pub open spec fn after_identity(self, msg: IdentityMessage) -> (
        ManagerView,
        Result<(), SessionErrorView>,
    ) {
        match msg {
            IdentityMessage::Malformed(e) => (self, Err(SessionErrorView::Auth(e.deep_view()))),
            IdentityMessage::Challenge => (
                self,
                Err(
                    SessionErrorView::Auth(
                        AuthErrorView::IdentityBind("host does not expect dc_challenge"@),
                    ),
                ),
            ),
            IdentityMessage::Response(verdict) => if self.challenge is None {
                (
                    self,
                    Err(
                        SessionErrorView::Auth(
                            AuthErrorView::IdentityBind("dc response without pending challenge"@),
                        ),
                    ),
                )
            } else {
                let used = ManagerView { challenge: None, ..self };
                if self.bind_key is None {
                    (used, Err(SessionErrorView::InvalidState("missing bind key for dc verify"@)))
                } else {
                    match verdict {
                        Err(e) => (used, Err(e.deep_view())),
                        Ok(()) => (
                            ManagerView {
                                identity: IdentityView { identity_bound: true, ..used.identity },
                                ..used
                            },
                            Ok(()),
                        ),
                    }
                }
            },
        }
    }

    /// The manager and the statistics after messages; an identity error ends the processing.
    pub open spec fn after_inbound(
        self,
        messages: Seq<InboundMessage>,
        stats: InboundStats,
    ) -> (ManagerView, Result<InboundStats, SessionErrorView>)
        decreases messages.len(),
    {
        if messages.len() == 0 {
            (self, Ok(stats))
        } else {
            let m = messages[0];
            let rest = messages.skip(1);
            if m.message.label@ == IDENTITY_CHANNEL_LABEL@ {
                let (next, r) = self.after_identity(m.identity);
                match r {
                    Err(e) => (next, Err(e)),
                    Ok(()) => next.after_inbound(
                        rest,
                        InboundStats {
                            identity_messages: one_more(stats.identity_messages),
                            ..stats
                        },
                    ),
                }
            } else if m.message.label@ == INPUT_CHANNEL_LABEL@ {
                self.after_input(m.message.deep_view()).after_inbound(
                    rest,
                    if self.identity.input_allowed() {
                        InboundStats { input_accepted: one_more(stats.input_accepted), ..stats }
                    } else {
                        InboundStats { input_rejected: one_more(stats.input_rejected), ..stats }
                    },
                )
            } else {
                self.after_inbound(rest, stats)
            }
        }
    }

    /// The manager after the bind of a live session was started, or could not be: then the input
    /// policy is closed.
    pub open spec fn settled(self, started: bool) -> ManagerView {
        ManagerView { policy_input: self.policy_input && started, ..self }
    }

    /// What must hold before a challenge is issued.
    pub open spec fn challenge_check(self, connection: ConnectionState) -> Result<
        (),
        SessionErrorView,
    > {
        if self.session_id is None {
            Err(SessionErrorView::InvalidState("no session attached"@))
        } else if !self.identity.session_authorized {
            Err(SessionErrorView::Auth(AuthErrorView::SessionNotAuthorized))
        } else if self.bind_key is None {
            Err(
                SessionErrorView::InvalidState("no session bind key (authorize Mode A/B first)"@),
            )
        } else if connection != ConnectionState::Connected {
            Err(SessionErrorView::InvalidState("peer not connected for identity challenge"@))
        } else {
            Ok(())
        }
    }

    /// Input is only ever held of a session whose viewer is bound and authorized, and only
    /// accepted input is handed on.
    pub open spec fn gated(self) -> bool {
        &&& !self.identity.input_allowed() ==> self.accepted.len() == 0 && self.injected.len() == 0
        &&& self.session_id is None ==> !self.identity.input_allowed() && self.bind_key is None
        &&& self.identity.session_authorized ==> self.bind_key is Some
    }
}

/// What starting media asks of the transport.
#[derive(Debug, Clone, Copy, PartialEq, Eq, Structural)]
pub enum MediaStart {
    /// Media runs already.
    AlreadyRunning,
    /// Create a local offer, then queue it and the gathered candidates.
    CreateOffer,
    /// Queue the gathered candidates.
    DrainIce,
}

/// What creating the local offer gave, step by step.
#[derive(Debug)]
pub struct OfferSteps {
    /// The description that the transport made.
    pub offer: Result<String, String>,
    /// Whether it could be set as the local description.
    pub local_set: Result<(), String>,
    /// The signature over the session and the local fingerprint. It counts only where there is a
    /// device signing key.
    pub signature: Result<String, String>,
}

impl OfferSteps {
    /// The payload of the offer, or the first step that failed.
    pub open spec fn payload(self, has_key: bool) -> Result<SdpView, SessionErrorView> {
        match (self.offer, self.local_set) {
            (Err(e), _) => Err(SessionErrorView::Transport(e@)),
            (_, Err(e)) => Err(SessionErrorView::Transport(e@)),
            (Ok(sdp), Ok(())) => if has_key {
                match self.signature {
                    Ok(s) => Ok(SdpView { sdp: sdp@, fingerprint_sig: Some(s@) }),
                    Err(e) => Err(SessionErrorView::Transport(e@)),
                }
            } else {
                Ok(SdpView { sdp: sdp@, fingerprint_sig: Some(Seq::empty()) })
            },
        }
    }
}

impl SessionManager {
    /// A manager without a session; synthetic capture is 64×36 at 30 frames per second.
    pub fn new() -> (r: Self)
        ensures
            r.deep_view() == ManagerView::unbound(SetupView::standard()),
    {
        let r = SessionManager {
            session_id: None,
            media: None,
            outbound_signals: Vec::new(),
            synth_width: 64,
            synth_height: 36,
            synth_fps: 30,
            video_kind: None,
            audio_kind: None,
            force_software: false,
            identity: IdentityBindState::fresh(None),
            device_signing_key: None,
            bind_key: None,
            pending_dc_challenge: None,
            accepted_input: Vec::new(),
            injected_input: Vec::new(),
            rejected_input_count: 0,
            policy_input: false,
        };
        assert(r.deep_view().outbound =~= Seq::empty());
        assert(r.deep_view().accepted =~= Seq::empty());
        assert(r.deep_view().injected =~= Seq::empty());
        r
    }

    /// Install the enrolled device signing key used for `fingerprint_sig`.
    pub fn set_device_signing_key(&mut self, key: SigningKey)
        ensures
            final(self).deep_view() == (ManagerView {
                setup: SetupView { device_key: Some(key), ..old(self).deep_view().setup },
                ..old(self).deep_view()
            }),
    {
        self.device_signing_key = Some(key);
    }

    /// The device signing key, once it is installed.
    pub fn device_signing_key(&self) -> (r: Option<&SigningKey>)
        ensures
            r == (match self.deep_view().setup.device_key {
                Some(key) => Some(&key),
                None => None,
            }),
    {
        match &self.device_signing_key {
            Some(key) => Some(key),
            None => None,
        }
    }

    /// Current identity bind state.
    pub fn identity(&self) -> (r: &IdentityBindState)
        ensures
            r.deep_view() == self.deep_view().identity,
    {
        &self.identity
    }

    /// Host may accept remote input only when identity-bound and session-authorized.
    pub fn input_allowed(&self) -> (r: bool)
        ensures
            r == self.deep_view().identity.input_allowed(),
    {
        self.identity.input_allowed()
    }

    /// Whether policy lets input be injected.
    pub fn policy_input_enabled(&self) -> (r: bool)
        ensures
            r == self.deep_view().policy_input,
    {
        self.policy_input
    }

    /// Sets whether policy lets input be injected.
    pub fn set_input_policy_enabled(&mut self, enabled: bool)
        ensures
            final(self).deep_view() == (ManagerView {
                policy_input: enabled,
                ..old(self).deep_view()
            }),
    {
        self.policy_input = enabled;
    }

    /// Whether input may be injected: identity, authorization and policy.
    pub fn injection_allowed(&self) -> (r: bool)
        ensures
            r == self.deep_view().injection_allowed(),
    {
        self.identity.input_allowed() && self.policy_input
    }

    /// The input that was handed on for injection.
    pub fn input_stub(&self) -> (r: Option<&Vec<DataMessage>>)
        ensures
            r matches Some(v) && v.deep_view() == self.deep_view().injected,
    {
        Some(&self.injected_input)
    }

    /// Accepted input messages; none are left behind.
    pub fn take_accepted_input(&mut self) -> (r: Vec<DataMessage>)
        ensures
            r.deep_view() == old(self).deep_view().accepted,
            final(self).deep_view() == (ManagerView {
                accepted: Seq::empty(),
                ..old(self).deep_view()
            }),
    {
        let mut out: Vec<DataMessage> = Vec::new();
        std::mem::swap(&mut out, &mut self.accepted_input);
        assert(self.accepted_input.deep_view() =~= Seq::empty());
        out
    }

    /// Number of input messages rejected by the identity gate.
    pub fn rejected_input_count(&self) -> (r: u64)
        ensures
            r == self.deep_view().rejected,
    {
        self.rejected_input_count
    }

    fn clear(&mut self, session_id: Option<String>, identity: IdentityBindState)
        ensures
            final(self).deep_view() == (ManagerView {
                session_id: session_id.deep_view(),
                identity: identity.deep_view(),
                ..ManagerView::unbound(old(self).deep_view().setup)
            }),
    {
        self.session_id = session_id;
        self.identity = identity;
        self.media = None;
        self.outbound_signals = Vec::new();
        self.bind_key = None;
        self.pending_dc_challenge = None;
        self.accepted_input = Vec::new();
        self.injected_input = Vec::new();
        self.rejected_input_count = 0;
        self.policy_input = false;
        assert(self.outbound_signals.deep_view() =~= Seq::empty());
        assert(self.accepted_input.deep_view() =~= Seq::empty());
        assert(self.injected_input.deep_view() =~= Seq::empty());
    }

    /// Bind to a session id (does not start media). Resets identity flags and the input policy.
    pub fn attach(&mut self, session_id: &str)
        ensures
            final(self).deep_view() == ManagerView::bound(
                old(self).deep_view().setup,
                session_id@,
            ),
    {
        let identity = IdentityBindState::fresh(Some(session_id.to_string()));
        self.clear(Some(session_id.to_string()), identity);
    }

    /// Clear session binding and stop media.
    pub fn detach(&mut self)
        ensures
            final(self).deep_view() == ManagerView::unbound(old(self).deep_view().setup),
    {
        self.clear(None, IdentityBindState::fresh(None));
    }

    fn mark_authorized(&mut self, key: Vec<u8>)
        ensures
            final(self).deep_view() == (ManagerView {
                bind_key: Some(key@),
                identity: IdentityView {
                    session_authorized: true,
                    ..old(self).deep_view().identity
                },
                ..old(self).deep_view()
            }),
    {
        self.bind_key = Some(key);
        self.identity.session_authorized = true;
    }

    /// Mode A (OTP): take over what verifying and consuming the host's OTP gave.
    pub fn authorize_mode_a(&mut self, verified: Result<Vec<u8>, AuthError>) -> (r: Result<
        (),
        SessionError,
    >)
        ensures
            match verified {
                Ok(key) => r is Ok && final(self).deep_view() == (ManagerView {
                    bind_key: Some(key@),
                    identity: IdentityView {
                        session_authorized: true,
                        ..old(self).deep_view().identity
                    },
                    ..old(self).deep_view()
                }),
                Err(e) => outcome(r) == Err::<(), SessionErrorView>(
                    SessionErrorView::Auth(e.deep_view()),
                ) && final(self).deep_view() == old(self).deep_view(),
            },
    {
        match verified {
            Ok(key) => {
                self.mark_authorized(key);
                Ok(())
            },
            Err(e) => Err(SessionError::Auth(e)),
        }
    }

    /// Mode B (unattended): take over what verifying the challenge-response MAC gave. Without a
    /// session there is nothing to verify.
    pub fn authorize_mode_b(&mut self, verified: Result<Vec<u8>, AuthError>) -> (r: Result<
        (),
        SessionError,
    >)
        ensures
            if old(self).deep_view().session_id is None {
                outcome(r) == Err::<(), SessionErrorView>(
                    SessionErrorView::InvalidState("no session attached"@),
                ) && final(self).deep_view() == old(self).deep_view()
            } else {
                match verified {
                    Ok(key) => r is Ok && final(self).deep_view() == (ManagerView {
                        bind_key: Some(key@),
                        identity: IdentityView {
                            session_authorized: true,
                            ..old(self).deep_view().identity
                        },
                        ..old(self).deep_view()
                    }),
                    Err(e) => outcome(r) == Err::<(), SessionErrorView>(
                        SessionErrorView::Auth(e.deep_view()),
                    ) && final(self).deep_view() == old(self).deep_view(),
                }
            },
    {
        if self.session_id.is_none() {
            return Err(SessionError::InvalidState("no session attached".to_string()));
        }
        match verified {
            Ok(key) => {
                self.mark_authorized(key);
                Ok(())
            },
            Err(e) => Err(SessionError::Auth(e)),
        }
    }

    /// Marks the session authorized and the viewer bound without a handshake: for tests only.
    pub fn force_identity_bound_for_tests(&mut self)
        ensures
            final(self).deep_view() == (ManagerView {
                identity: IdentityView {
                    session_authorized: true,
                    identity_bound: true,
                    ..old(self).deep_view().identity
                },
                ..old(self).deep_view()
            }),
    {
        self.identity.session_authorized = true;
        self.identity.identity_bound = true;
    }

    /// Whether an identity challenge may be issued now: it needs an attached and authorized
    /// session and a connected peer.
    pub fn start_identity_challenge(&self, connection: ConnectionState) -> (r: Result<
        (),
        SessionError,
    >)
        ensures
            outcome(r) == self.deep_view().challenge_check(connection),
    {
        if self.session_id.is_none() {
            return Err(SessionError::InvalidState("no session attached".to_string()));
        }
        if !self.identity.session_authorized {
            return Err(SessionError::Auth(AuthError::SessionNotAuthorized));
        }
        if self.bind_key.is_none() {
            return Err(
                SessionError::InvalidState(
                    "no session bind key (authorize Mode A/B first)".to_string(),
                ),
            );
        }
        if connection != ConnectionState::Connected {
            return Err(
                SessionError::InvalidState("peer not connected for identity challenge".to_string()),
            );
        }
        Ok(())
    }

    /// A challenge went out and awaits its response.
    pub fn challenge_sent(&mut self, challenge: Vec<u8>)
        ensures
            final(self).deep_view() == (ManagerView {
                challenge: Some(challenge@),
                ..old(self).deep_view()
            }),
    {
        self.pending_dc_challenge = Some(challenge);
    }

    /// The outstanding challenge and the session key, for checking a response.
    pub fn bind_material(&self) -> (r: Option<(&Vec<u8>, &Vec<u8>)>)
        ensures
            match r {
                Some((c, k)) => self.deep_view().challenge == Some(c@)
                    && self.deep_view().bind_key == Some(k@),
                None => self.deep_view().challenge is None || self.deep_view().bind_key is None,
            },
    {
        match (&self.pending_dc_challenge, &self.bind_key) {
            (Some(c), Some(k)) => Some((c, k)),
            _ => None,
        }
    }

    /// Process identity / input messages that arrived.
    pub fn poll_inbound(&mut self, messages: Vec<InboundMessage>) -> (r: Result<
        InboundStats,
        SessionError,
    >)
        ensures
            (final(self).deep_view(), outcome(r)) == old(self).deep_view().after_inbound(
                messages@,
                InboundStats { identity_messages: 0, input_accepted: 0, input_rejected: 0 },
            ),
    {
        let mut stats = InboundStats::default();
        let ghost whole = self.deep_view().after_inbound(messages@, stats);
        let ghost all = messages@;
        let mut i: usize = 0;
        assert(all.skip(0) == all);
        while i < messages.len()
            invariant
                i <= messages@.len(),
                messages@ == all,
                whole == old(self).deep_view().after_inbound(
                    messages@,
                    InboundStats { identity_messages: 0, input_accepted: 0, input_rejected: 0 },
                ),
                whole == self.deep_view().after_inbound(all.skip(i as int), stats),
            decreases messages@.len() - i,
        {
            assert(all.skip(i as int)[0] == all[i as int]);
            assert(all.skip(i as int).skip(1) == all.skip(i + 1));
            let m = &messages[i];
            if same(&m.message.label, IDENTITY_CHANNEL_LABEL) {
                match self.handle_identity_data(&m.identity) {
                    Err(e) => {
                        return Err(e);
                    },
                    Ok(()) => {},
                }
                stats.identity_messages = stats.identity_messages.saturating_add(1);
            } else if same(&m.message.label, INPUT_CHANNEL_LABEL) {
                let msg = copy_data(&m.message);
                if self.try_accept_input(msg) {
                    stats.input_accepted = stats.input_accepted.saturating_add(1);
                } else {
                    stats.input_rejected = stats.input_rejected.saturating_add(1);
                }
            }
            i += 1;
        }
        Ok(stats)
    }

    /// Accept a single input message if the identity gate is open; hand it on for injection if
    /// policy allows that too.
    ///
    /// Returns `true` when accepted, `false` when rejected (and counted).
    pub fn try_accept_input(&mut self, msg: DataMessage) -> (r: bool)
        ensures
            r == old(self).deep_view().identity.input_allowed(),
            final(self).deep_view() == old(self).deep_view().after_input(msg.deep_view()),
    {
        if self.identity.input_allowed() {
            let ghost before = self.deep_view();
            if self.policy_input {
                self.injected_input.push(copy_data(&msg));
                assert(self.injected_input.deep_view() =~= before.injected.push(msg.deep_view()));
            }
            let ghost view = msg.deep_view();
            self.accepted_input.push(msg);
            assert(self.accepted_input.deep_view() =~= before.accepted.push(view));
            true
        } else {
            self.rejected_input_count = self.rejected_input_count.saturating_add(1);
            false
        }
    }

    /// Explicit gate: return error unless input is allowed.
    pub fn ensure_input_allowed(&self) -> (r: Result<(), SessionError>)
        ensures
            outcome(r) == (if self.deep_view().identity.input_allowed() {
                Ok(())
            } else if !self.deep_view().identity.session_authorized {
                Err(SessionErrorView::Auth(AuthErrorView::SessionNotAuthorized))
            } else {
                Err(SessionErrorView::Auth(AuthErrorView::IdentityNotBound))
            }),
    {
        if self.identity.input_allowed() {
            Ok(())
        } else {
            Err(SessionError::Auth(self.identity.input_gate_error()))
        }
    }

    fn handle_identity_data(&mut self, msg: &IdentityMessage) -> (r: Result<(), SessionError>)
        ensures
            (final(self).deep_view(), outcome(r)) == old(self).deep_view().after_identity(*msg),
    {
        match msg {
            IdentityMessage::Malformed(e) => Err(SessionError::Auth(copy_auth_error(e))),
            IdentityMessage::Challenge => Err(
                SessionError::Auth(
                    AuthError::IdentityBind("host does not expect dc_challenge".to_string()),
                ),
            ),
            IdentityMessage::Response(verdict) => {
                if self.pending_dc_challenge.is_none() {
                    return Err(
                        SessionError::Auth(
                            AuthError::IdentityBind(
                                "dc response without pending challenge".to_string(),
                            ),
                        ),
                    );
                }
                self.pending_dc_challenge = None;
                if self.bind_key.is_none() {
                    return Err(
                        SessionError::InvalidState("missing bind key for dc verify".to_string()),
                    );
                }
                match verdict {
                    Ok(()) => {
                        self.identity.identity_bound = true;
                        Ok(())
                    },
                    Err(e) => Err(copy_session_error(e)),
                }
            },
        }
    }

    /// Currently attached session id, if any.
    pub fn session_id(&self) -> (r: Option<&str>)
        ensures
            r.deep_view() == self.deep_view().session_id,
    {
        match &self.session_id {
            Some(s) => Some(s.as_str()),
            None => None,
        }
    }

    /// Whether synthetic media sources are running.
    pub fn media_started(&self) -> (r: bool)
        ensures
            r == (self.deep_view().media is Some),
    {
        self.media.is_some()
    }

    /// Override synthetic capture geometry (default 64×36 @ 30 fps).
    pub fn set_synthetic_geometry(&mut self, width: u32, height: u32, fps: u32)
        requires
            width > 0,
            height > 0,
            fps > 0,
        ensures
            final(self).deep_view() == (ManagerView {
                setup: SetupView {
                    geometry: (width, height, fps),
                    ..old(self).deep_view().setup
                },
                ..old(self).deep_view()
            }),
    {
        self.synth_width = width;
        self.synth_height = height;
        self.synth_fps = fps;
    }

    /// Override the video capture kind (default: that of the system).
    pub fn set_video_kind(&mut self, kind: VideoCaptureKind)
        ensures
            final(self).deep_view() == (ManagerView {
                setup: SetupView { video_kind: Some(kind), ..old(self).deep_view().setup },
                ..old(self).deep_view()
            }),
    {
        self.video_kind = Some(kind);
    }

    /// Override the audio capture kind (default: that of the system).
    pub fn set_audio_kind(&mut self, kind: AudioCaptureKind)
        ensures
            final(self).deep_view() == (ManagerView {
                setup: SetupView { audio_kind: Some(kind), ..old(self).deep_view().setup },
                ..old(self).deep_view()
            }),
    {
        self.audio_kind = Some(kind);
    }

    /// Encode in software, or let the system choose.
    pub fn set_force_software(&mut self, force: bool)
        ensures
            final(self).deep_view() == (ManagerView {
                setup: SetupView { force_software: force, ..old(self).deep_view().setup },
                ..old(self).deep_view()
            }),
    {
        self.force_software = force;
    }

    /// Whether encoding is done in software.
    pub fn force_software(&self) -> (r: bool)
        ensures
            r == self.deep_view().setup.force_software,
    {
        self.force_software
    }

    /// The capture kinds to start media with: those that were set, else those of the system.
    pub fn capture_kinds(&self, platform: Platform) -> (r: (VideoCaptureKind, AudioCaptureKind))
        ensures
            r == self.deep_view().setup.kinds(platform),
    {
        (
            match self.video_kind {
                Some(kind) => kind,
                None => default_video_kind(platform),
            },
            match self.audio_kind {
                Some(kind) => kind,
                None => default_audio_kind(platform),
            },
        )
    }

    /// Synthetic geometry currently configured.
    pub fn synthetic_geometry(&self) -> (r: (u32, u32, u32))
        ensures
            r == self.deep_view().setup.geometry,
    {
        (self.synth_width, self.synth_height, self.synth_fps)
    }

    /// Start synthetic capture/encode.
    ///
    /// When the peer is still `New` a local offer has to be created and queued; otherwise the
    /// candidates gathered so far are queued.
    pub fn start_media(&mut self, connection: ConnectionState) -> (r: Result<
        MediaStart,
        SessionError,
    >)
        ensures
            if old(self).deep_view().session_id is None {
                outcome(r) == Err::<MediaStart, SessionErrorView>(
                    SessionErrorView::InvalidState("no session attached"@),
                ) && final(self).deep_view() == old(self).deep_view()
            } else if old(self).deep_view().media is Some {
                r == Ok::<MediaStart, SessionError>(MediaStart::AlreadyRunning)
                    && final(self).deep_view() == old(self).deep_view()
            } else {
                r == Ok::<MediaStart, SessionError>(
                    if connection == ConnectionState::New {
                        MediaStart::CreateOffer
                    } else {
                        MediaStart::DrainIce
                    },
                ) && final(self).deep_view() == (ManagerView {
                    media: Some(MediaPlane { video_frames_sent: 0, audio_packets_sent: 0 }),
                    ..old(self).deep_view()
                })
            },
    {
        if self.session_id.is_none() {
            return Err(SessionError::InvalidState("no session attached".to_string()));
        }
        if self.media.is_some() {
            return Ok(MediaStart::AlreadyRunning);
        }
        self.media = Some(MediaPlane { video_frames_sent: 0, audio_packets_sent: 0 });
        if connection == ConnectionState::New {
            Ok(MediaStart::CreateOffer)
        } else {
            Ok(MediaStart::DrainIce)
        }
    }

    /// Stop synthetic media sources (peer stays open).
    pub fn stop_media(&mut self)
        ensures
            final(self).deep_view() == (ManagerView { media: None, ..old(self).deep_view() }),
    {
        self.media = None;
    }

    /// Stop media; `closed` is what closing the peer transport gave.
    pub fn shutdown(&mut self, closed: Result<(), String>) -> (r: Result<(), SessionError>)
        ensures
            final(self).deep_view() == (ManagerView { media: None, ..old(self).deep_view() }),
            outcome(r) == (match closed {
                Ok(()) => Ok::<(), SessionErrorView>(()),
                Err(e) => Err(SessionErrorView::Transport(e@)),
            }),
    {
        self.stop_media();
        match closed {
            Ok(()) => Ok(()),
            Err(e) => Err(SessionError::Transport(e)),
        }
    }

    /// Queue a signal for the service.
    pub fn queue_signal(&mut self, session_id: &str, kind: &str, payload: String)
        ensures
            final(self).deep_view() == (ManagerView {
                outbound: old(self).deep_view().outbound.push(
                    SignalView {
                        session_id: session_id@,
                        kind: kind@,
                        payload: payload@,
                        from: SignalHop::Agent,
                    },
                ),
                ..old(self).deep_view()
            }),
    {
        let ghost before = self.outbound_signals.deep_view();
        let signal = SignalForward {
            session_id: session_id.to_string(),
            kind: kind.to_string(),
            payload,
            from: SignalHop::Agent,
        };
        let ghost view = signal.deep_view();
        self.outbound_signals.push(signal);
        assert(self.outbound_signals.deep_view() =~= before.push(view));
    }

    /// The payload of the local offer, out of what creating it gave. With a device signing key it
    /// carries the signature over the session and the local fingerprint, else an empty one.
    pub fn local_offer(&self, steps: OfferSteps) -> (r: Result<SdpPayload, SessionError>)
        ensures
            match r {
                Ok(p) => steps.payload(self.deep_view().setup.device_key is Some) == Ok::<
                    SdpView,
                    SessionErrorView,
                >(p.deep_view()),
                Err(e) => steps.payload(self.deep_view().setup.device_key is Some) == Err::<
                    SdpView,
                    SessionErrorView,
                >(e.deep_view()),
            },
    {
        let sdp = match steps.offer {
            Ok(sdp) => sdp,
            Err(e) => {
                return Err(SessionError::Transport(e));
            },
        };
        if let Err(e) = steps.local_set {
            return Err(SessionError::Transport(e));
        }
        if self.device_signing_key.is_none() {
            return Ok(SdpPayload { sdp, fingerprint_sig: Some(String::new()) });
        }
        match steps.signature {
            Ok(signature) => Ok(SdpPayload { sdp, fingerprint_sig: Some(signature) }),
            Err(e) => Err(SessionError::Transport(e)),
        }
    }

    /// Queue the local offer as it was written, then the candidates gathered with it. An offer that
    /// could not be written is an error, and nothing is queued.
    pub fn create_local_offer_and_queue(
        &mut self,
        session_id: &str,
        offer: Result<String, String>,
        candidates: Vec<String>,
    ) -> (r: Result<(), SessionError>)
        ensures
            match offer {
                Err(e) => {
                    &&& outcome(r) == Err::<(), SessionErrorView>(SessionErrorView::Signaling(e@))
                    &&& final(self).deep_view() == old(self).deep_view()
                },
                Ok(text) => {
                    &&& r is Ok
                    &&& final(self).deep_view() == (ManagerView {
                        outbound: old(self).deep_view().outbound.push(
                            SignalView {
                                session_id: session_id@,
                                kind: signal_kind::SESSION_OFFER@,
                                payload: text@,
                                from: SignalHop::Agent,
                            },
                        ) + ice_signals(session_id@, candidates.deep_view()),
                        ..old(self).deep_view()
                    })
                },
            },
    {
        match offer {
            Err(e) => Err(SessionError::Signaling(e)),
            Ok(text) => {
                self.queue_signal(session_id, signal_kind::SESSION_OFFER, text);
                self.queue_pending_ice(session_id, candidates);
                Ok(())
            },
        }
    }

    /// Queue gathered candidates.
    pub fn queue_pending_ice(&mut self, session_id: &str, candidates: Vec<String>)
        ensures
            final(self).deep_view() == (ManagerView {
                outbound: old(self).deep_view().outbound + ice_signals(
                    session_id@,
                    candidates.deep_view(),
                ),
                ..old(self).deep_view()
            }),
    {
        let ghost first = self.deep_view();
        let ghost all = ice_signals(session_id@, candidates.deep_view());
        let mut i: usize = 0;
        assert(first.outbound + all.take(0) =~= first.outbound);
        while i < candidates.len()
            invariant
                i <= candidates@.len(),
                all == ice_signals(session_id@, candidates.deep_view()),
                self.deep_view() == (ManagerView {
                    outbound: first.outbound + all.take(i as int),
                    ..first
                }),
            decreases candidates@.len() - i,
        {
            self.queue_signal(session_id, signal_kind::ICE_CANDIDATE, candidates[i].clone());
            assert(all.take(i + 1) == all.take(i as int).push(all[i as int]));
            assert(self.deep_view().outbound =~= first.outbound + all.take(i + 1));
            i += 1;
        }
        assert(all.take(all.len() as int) == all);
    }

    /// Take queued signals for the service.
    pub fn take_outbound_signals(&mut self) -> (r: Vec<SignalForward>)
        ensures
            r.deep_view() == old(self).deep_view().outbound,
            final(self).deep_view() == (ManagerView {
                outbound: Seq::empty(),
                ..old(self).deep_view()
            }),
    {
        let mut out: Vec<SignalForward> = Vec::new();
        std::mem::swap(&mut out, &mut self.outbound_signals);
        assert(self.outbound_signals.deep_view() =~= Seq::empty());
        out
    }

    /// (video_frames_sent, audio_packets_sent) since the last media start.
    pub fn media_counters(&self) -> (r: (u64, u64))
        ensures
            r == counters(self.deep_view().media),
    {
        match &self.media {
            Some(m) => (m.video_frames_sent, m.audio_packets_sent),
            None => (0, 0),
        }
    }

    /// Begin to pump `video_frames` frames: three audio packets go before each of them.
    pub fn pump_media(&self, video_frames: u32, connection: ConnectionState) -> (r: Result<
        PumpRun,
        SessionError,
    >)
        ensures
            if self.deep_view().media is None {
                outcome(r) == Err::<PumpRun, SessionErrorView>(
                    SessionErrorView::InvalidState("media not started"@),
                )
            } else if connection != ConnectionState::Connected {
                r == Ok::<PumpRun, SessionError>(
                    PumpRun {
                        frames_left: 0,
                        audio_in_frame: 0,
                        stats: PumpStats {
                            video_sent: 0,
                            audio_sent: 0,
                            skipped_not_connected: true,
                        },
                    },
                )
            } else {
                r == Ok::<PumpRun, SessionError>(
                    PumpRun {
                        frames_left: video_frames,
                        audio_in_frame: 0,
                        stats: PumpStats {
                            video_sent: 0,
                            audio_sent: 0,
                            skipped_not_connected: false,
                        },
                    },
                )
            },
    {
        if self.media.is_none() {
            return Err(SessionError::InvalidState("media not started".to_string()));
        }
        if connection != ConnectionState::Connected {
            return Ok(
                PumpRun {
                    frames_left: 0,
                    audio_in_frame: 0,
                    stats: PumpStats {
                        video_sent: 0,
                        audio_sent: 0,
                        skipped_not_connected: true,
                    },
                },
            );
        }
        Ok(PumpRun { frames_left: video_frames, audio_in_frame: 0, stats: PumpStats::default() })
    }

    /// What a pump sends next. Every thirtieth video frame of a media start is a key frame.
    pub fn pump_next(&self, run: &PumpRun) -> (r: PumpAction)
        ensures
            r == pump_action(*run, self.deep_view().media),
    {
        if run.frames_left == 0 {
            PumpAction::Done
        } else if run.audio_in_frame < 3 {
            PumpAction::SendAudio
        } else {
            let sent: u64 = match &self.media {
                Some(m) => m.video_frames_sent,
                None => 0,
            };
            PumpAction::SendVideo { keyframe: sent % 30 == 0 }
        }
    }

    /// Count what is next in a pump. It counts once it is handed to the transport, whether or not
    /// the transport takes it.
    pub fn pump_sent(&mut self, run: &mut PumpRun)
        requires
            old(run).frames_left > 0,
            old(self).deep_view().media matches Some(m) && m.video_frames_sent < u64::MAX
                && m.audio_packets_sent < u64::MAX,
            old(run).stats.video_sent < u32::MAX,
            old(run).stats.audio_sent < u32::MAX,
        ensures
            ({
                let (next, media) = pump_after(*old(run), old(self).deep_view().media->0);
                &&& *final(run) == next
                &&& final(self).deep_view() == (ManagerView {
                    media: Some(media),
                    ..old(self).deep_view()
                })
            }),
    {
        if let Some(m) = self.media {
            if run.audio_in_frame < 3 {
                self.media = Some(
                    MediaPlane {
                        video_frames_sent: m.video_frames_sent,
                        audio_packets_sent: m.audio_packets_sent + 1,
                    },
                );
                run.audio_in_frame = run.audio_in_frame + 1;
                run.stats.audio_sent = run.stats.audio_sent + 1;
            } else {
                self.media = Some(
                    MediaPlane {
                        video_frames_sent: m.video_frames_sent + 1,
                        audio_packets_sent: m.audio_packets_sent,
                    },
                );
                run.audio_in_frame = 0;
                run.frames_left = run.frames_left - 1;
                run.stats.video_sent = run.stats.video_sent + 1;
            }
        }
    }
}

/// The media counters, zero without media.
pub open spec fn counters(media: Option<MediaPlane>) -> (u64, u64) {
    match media {
        Some(m) => (m.video_frames_sent, m.audio_packets_sent),
        None => (0, 0),
    }
}

/// Candidates as signals of a session.
pub open spec fn ice_signals(session_id: Seq<char>, candidates: Seq<Seq<char>>) -> Seq<SignalView> {
    candidates.map_values(
        |payload: Seq<char>|
            SignalView {
                session_id,
                kind: signal_kind::ICE_CANDIDATE@,
                payload,
                from: SignalHop::Agent,
            },
    )
}

/// A media pump under way.
#[derive(Debug, Clone, Copy, PartialEq, Eq, Structural)]
pub struct PumpRun {
    /// Video frames still to send.
    pub frames_left: u32,
    /// Audio packets sent for the frame in hand.
    pub audio_in_frame: u8,
    /// What was sent so far.
    pub stats: PumpStats,
}

/// What a pump sends next.
#[derive(Debug, Clone, Copy, PartialEq, Eq, Structural)]
pub enum PumpAction {
    SendAudio,
    SendVideo { keyframe: bool },
    Done,
}

/// What a pump sends next.
pub open spec fn pump_action(run: PumpRun, media: Option<MediaPlane>) -> PumpAction {
    if run.frames_left == 0 {
        PumpAction::Done
    } else if run.audio_in_frame < 3 {
        PumpAction::SendAudio
    } else {
        PumpAction::SendVideo { keyframe: counters(media).0 % 30 == 0 }
    }
}

/// A pump and the media counters after what was next went out.
pub open spec fn pump_after(run: PumpRun, media: MediaPlane) -> (PumpRun, MediaPlane) {
    if run.audio_in_frame < 3 {
        (
            PumpRun {
                audio_in_frame: (run.audio_in_frame + 1) as u8,
                stats: PumpStats { audio_sent: (run.stats.audio_sent + 1) as u32, ..run.stats },
                ..run
            },
            MediaPlane { audio_packets_sent: (media.audio_packets_sent + 1) as u64, ..media },
        )
    } else {
        (
            PumpRun {
                audio_in_frame: 0,
                frames_left: (run.frames_left - 1) as u32,
                stats: PumpStats { video_sent: (run.stats.video_sent + 1) as u32, ..run.stats },
            },
            MediaPlane { video_frames_sent: (media.video_frames_sent + 1) as u64, ..media },
        )
    }
}

/// A pump of which every step went out.
pub open spec fn pump_end(run: PumpRun, media: MediaPlane) -> PumpRun
    decreases run.frames_left, 3 - run.audio_in_frame,
{
    if run.frames_left == 0 || run.audio_in_frame > 3 {
        run
    } else {
        let (next, m) = pump_after(run, media);
        pump_end(next, m)
    }
}

/// A pump that is not interrupted sends each of its video frames, and three audio packets for
/// each of them.
pub proof fn law_pump_sends_three_audio_per_video(run: PumpRun, media: MediaPlane)
    requires
        run.audio_in_frame <= 3,
        run.stats.audio_sent + 3 * run.frames_left - run.audio_in_frame <= u32::MAX,
        run.stats.video_sent + run.frames_left <= u32::MAX,
        run.frames_left == 0 ==> run.audio_in_frame == 0,
    ensures
        pump_end(run, media).frames_left == 0,
        pump_end(run, media).stats.video_sent == run.stats.video_sent + run.frames_left,
        pump_end(run, media).stats.audio_sent == run.stats.audio_sent + 3 * run.frames_left
            - run.audio_in_frame,
    decreases run.frames_left, 3 - run.audio_in_frame,
{
    if run.frames_left > 0 {
        let (next, m) = pump_after(run, media);
        law_pump_sends_three_audio_per_video(next, m);
    }
}

fn copy_data(msg: &DataMessage) -> (r: DataMessage)
    ensures
        r.deep_view() == msg.deep_view(),
{
    DataMessage {
        label: msg.label.clone(),
        data: vstd::slice::slice_to_vec(msg.data.as_slice()),
        unordered: msg.unordered,
    }
}

/// The same error again.
pub fn copy_auth_error(e: &AuthError) -> (r: AuthError)
    ensures
        r.deep_view() == e.deep_view(),
{
    match e {
        AuthError::SessionNotAuthorized => AuthError::SessionNotAuthorized,
        AuthError::IdentityNotBound => AuthError::IdentityNotBound,
        AuthError::IdentityBind(s) => AuthError::IdentityBind(s.clone()),
        AuthError::Other(s) => AuthError::Other(s.clone()),
    }
}

/// The same error again.
pub fn copy_session_error(e: &SessionError) -> (r: SessionError)
    ensures
        r.deep_view() == e.deep_view(),
{
    match e {
        SessionError::Transport(s) => SessionError::Transport(s.clone()),
        SessionError::Media(s) => SessionError::Media(s.clone()),
        SessionError::Signaling(s) => SessionError::Signaling(s.clone()),
        SessionError::InvalidState(s) => SessionError::InvalidState(s.clone()),
        SessionError::Auth(a) => SessionError::Auth(copy_auth_error(a)),
        SessionError::InputRejected(s) => SessionError::InputRejected(s.clone()),
    }
}

/// An SDP payload: JSON where it begins with a brace, else the bare text.
pub open spec fn sdp_of(payload: Seq<char>, json: Result<SdpView, Seq<char>>) -> Result<
    SdpView,
    SessionErrorView,
> {
    let t = trimmed(payload);
    if t.len() == 0 {
        Err(SessionErrorView::Signaling("empty sdp payload"@))
    } else if t[0] == '{' {
        match json {
            Ok(p) => Ok(p),
            Err(e) => Err(SessionErrorView::Signaling("sdp json: "@ + e)),
        }
    } else {
        Ok(SdpView { sdp: payload, fingerprint_sig: None })
    }
}

/// What a JSON reading holds.
pub open spec fn sdp_reading(json: Result<SdpPayload, String>) -> Result<SdpView, Seq<char>> {
    match json {
        Ok(p) => Ok(p.deep_view()),
        Err(e) => Err(e@),
    }
}

/// Parse an SDP payload (JSON `SdpPayload` or bare SDP text). `json` is the JSON reading of the
/// trimmed payload, or its error.
pub fn parse_sdp_payload(payload: &str, json: Result<SdpPayload, String>) -> (r: Result<
    SdpPayload,
    SessionError,
>)
    ensures
        match r {
            Ok(p) => sdp_of(payload@, sdp_reading(json)) == Ok::<SdpView, SessionErrorView>(
                p.deep_view(),
            ),
            Err(e) => sdp_of(payload@, sdp_reading(json)) == Err::<SdpView, SessionErrorView>(
                e.deep_view(),
            ),
        },
{
    let all = chars_of(payload);
    let t = trim(&all);
    if t.len() == 0 {
        return Err(SessionError::Signaling("empty sdp payload".to_string()));
    }
    if t[0] == '{' {
        match json {
            Ok(p) => Ok(p),
            Err(e) => Err(SessionError::Signaling("sdp json: ".to_string().concat(&e))),
        }
    } else {
        Ok(SdpPayload { sdp: payload.to_string(), fingerprint_sig: None })
    }
}

/// The bytes that a character takes in UTF-8.
pub open spec fn char_bytes(c: char) -> int {
    if (c as int) < 0x80 {
        1
    } else if (c as int) < 0x800 {
        2
    } else if (c as int) < 0x10000 {
        3
    } else {
        4
    }
}

/// The number of leading characters that fit into `room` bytes.
pub open spec fn fitting(s: Seq<char>, room: int) -> nat
    decreases s.len(),
{
    if s.len() == 0 || char_bytes(s[0]) > room {
        0
    } else {
        1 + fitting(s.skip(1), room - char_bytes(s[0]))
    }
}

/// The beginning of a text, at most `room` bytes of it.
pub open spec fn head_of(s: Seq<char>, room: int) -> Seq<char> {
    s.take(fitting(s, room) as int)
}

fn char_len(c: char) -> (r: usize)
    ensures
        r == char_bytes(c),
{
    let n: u32 = c as u32;
    if n < 0x80 {
        1
    } else if n < 0x800 {
        2
    } else if n < 0x10000 {
        3
    } else {
        4
    }
}

fn count_fitting(s: &[char], room: usize) -> (r: usize)
    ensures
        r == fitting(s@, room as int),
        r <= s@.len(),
{
    let mut left: usize = room;
    let mut i: usize = 0;
    assert(s@.skip(0) == s@);
    while i < s.len()
        invariant
            i <= s@.len(),
            fitting(s@, room as int) == i + fitting(s@.skip(i as int), left as int),
        decreases s@.len() - i,
    {
        let need: usize = char_len(s[i]);
        assert(s@.skip(i as int)[0] == s@[i as int]);
        if need > left {
            return i;
        }
        assert(s@.skip(i as int).skip(1) == s@.skip(i + 1));
        left = left - need;
        i += 1;
    }
    i
}

/// An ICE payload: a candidate object, an object around one, or a bare candidate line.
pub open spec fn ice_of(
    payload: Seq<char>,
    direct: Option<IceView>,
    nested: Option<IceView>,
) -> Result<IceView, SessionErrorView> {
    let t = trimmed(payload);
    match direct {
        Some(c) => Ok(c),
        None => match nested {
            Some(c) => Ok(c),
            None => if "candidate:"@.is_prefix_of(t) {
                Ok(
                    IceView {
                        candidate: t,
                        sdp_mid: None,
                        sdp_m_line_index: None,
                        username_fragment: None,
                    },
                )
            } else {
                Err(
                    SessionErrorView::Signaling("unrecognized ice payload: "@ + head_of(t, 64)),
                )
            },
        },
    }
}

/// Parse an ICE payload. `direct` and `nested` are the JSON readings of the trimmed payload as a
/// candidate and as an object around one, where it can be read so.
pub fn parse_ice_payload(
    payload: &str,
    direct: Option<IceCandidate>,
    nested: Option<IceCandidate>,
) -> (r: Result<IceCandidate, SessionError>)
    ensures
        match r {
            Ok(c) => ice_of(payload@, direct.deep_view(), nested.deep_view()) == Ok::<
                IceView,
                SessionErrorView,
            >(c.deep_view()),
            Err(e) => ice_of(payload@, direct.deep_view(), nested.deep_view()) == Err::<
                IceView,
                SessionErrorView,
            >(e.deep_view()),
        },
{
    if let Some(c) = direct {
        return Ok(c);
    }
    if let Some(c) = nested {
        return Ok(c);
    }
    let all = chars_of(payload);
    let t = trim(&all);
    if starts_with(t, "candidate:") {
        return Ok(
            IceCandidate {
                candidate: string_of(t),
                sdp_mid: None,
                sdp_m_line_index: None,
                username_fragment: None,
            },
        );
    }
    let n: usize = count_fitting(t, 64);
    let head = &t[0..n];
    assert(head@ =~= head_of(t@, 64));
    let mut s = "unrecognized ice payload: ".to_string();
    push_chars(&mut s, head);
    Err(SessionError::Signaling(s))
}

/// What a control signal asks of the peer transport.
#[derive(Debug, Clone, Copy, PartialEq, Eq, Structural)]
pub enum SignalUse {
    /// Set the remote offer, then queue gathered candidates.
    RemoteOffer,
    /// Set the remote answer, then queue gathered candidates.
    RemoteAnswer,
    /// Add a remote candidate.
    RemoteCandidate,
}

/// What a signal kind asks of the peer transport.
pub open spec fn signal_use(kind: Seq<char>) -> Result<SignalUse, SessionErrorView> {
    if kind == signal_kind::SESSION_OFFER@ {
        Ok(SignalUse::RemoteOffer)
    } else if kind == signal_kind::SESSION_ANSWER@ {
        Ok(SignalUse::RemoteAnswer)
    } else if kind == signal_kind::ICE_CANDIDATE@ {
        Ok(SignalUse::RemoteCandidate)
    } else {
        Err(
            SessionErrorView::Signaling(
                "unsupported signal kind `"@ + kind + "` for peer transport"@,
            ),
        )
    }
}

/// What a control signal asks of the peer transport.
pub fn apply_signal(kind: &str) -> (r: Result<SignalUse, SessionError>)
    ensures
        outcome(r) == signal_use(kind@),
{
    if same(kind, signal_kind::SESSION_OFFER) {
        Ok(SignalUse::RemoteOffer)
    } else if same(kind, signal_kind::SESSION_ANSWER) {
        Ok(SignalUse::RemoteAnswer)
    } else if same(kind, signal_kind::ICE_CANDIDATE) {
        Ok(SignalUse::RemoteCandidate)
    } else {
        let mut s = "unsupported signal kind `".to_string();
        s.append(kind);
        s.append("` for peer transport");
        Err(SessionError::Signaling(s))
    }
}

/// The four bytes of a number, lowest first.
pub open spec fn le_bytes(n: u32) -> Seq<u8> {
    seq![
        (n % 256) as u8,
        (n / 256 % 256) as u8,
        (n / 65536 % 256) as u8,
        (n / 16777216) as u8,
    ]
}

/// A mock video unit: start code, unit type, frame size and the first bytes of the frame.
pub open spec fn mock_unit(width: u32, height: u32, data: Seq<u8>, keyframe: bool) -> Seq<u8> {
    seq![
        0u8,
        0u8,
        0u8,
        1u8,
        if keyframe {
            0x65u8
        } else {
            0x41u8
        },
    ] + le_bytes(width) + le_bytes(height) + (if data.len() <= 32 {
        data
    } else {
        data.take(32)
    })
}

fn push_le(out: &mut Vec<u8>, n: u32)
    ensures
        final(out)@ == old(out)@ + le_bytes(n),
{
    out.push((n % 256) as u8);
    out.push((n / 256 % 256) as u8);
    out.push((n / 65536 % 256) as u8);
    out.push((n / 16777216) as u8);
    assert(out@ =~= old(out)@ + le_bytes(n));
}

/// Mock-encode a video frame: start code + unit type + compact header (not real H.264).
pub fn mock_encode_video_nalu(width: u32, height: u32, data: &[u8], keyframe: bool) -> (r: Vec<u8>)
    ensures
        r@ == mock_unit(width, height, data@, keyframe),
{
    let mut out: Vec<u8> = Vec::new();
    out.push(0);
    out.push(0);
    out.push(0);
    out.push(1);
    out.push(if keyframe { 0x65 } else { 0x41 });
    push_le(&mut out, width);
    push_le(&mut out, height);
    let ghost head = out@;
    let n: usize = if data.len() <= 32 { data.len() } else { 32 };
    let mut i: usize = 0;
    assert(data@.take(0) =~= Seq::<u8>::empty());
    while i < n
        invariant
            i <= n <= data@.len(),
            out@ == head + data@.take(i as int),
        decreases n - i,
    {
        out.push(data[i]);
        assert(data@.take(i + 1) == data@.take(i as int).push(data@[i as int]));
        i += 1;
    }
    assert(data@.take(data@.len() as int) == data@);
    assert(out@ =~= mock_unit(width, height, data@, keyframe));
    out
}

/// Attaching starts from nothing: whatever was authorized, bound, queued or held of an earlier
/// session is gone.
pub proof fn law_attach_resets_identity(setup: SetupView, session_id: Seq<char>)
    ensures
        !ManagerView::bound(setup, session_id).identity.input_allowed(),
        !ManagerView::bound(setup, session_id).injection_allowed(),
        ManagerView::bound(setup, session_id).gated(),
        ManagerView::unbound(setup).gated(),
{
}

/// Input is held and handed on only while the viewer is authorized and bound: messages keep it so,
/// and rejected input is never held.
pub proof fn law_input_stays_gated(m: ManagerView, msg: DataView, id: IdentityMessage)
    requires
        m.gated(),
    ensures
        m.after_input(msg).gated(),
        m.after_identity(id).0.gated(),
        !m.identity.input_allowed() ==> m.after_input(msg).accepted == m.accepted
            && m.after_input(msg).injected == m.injected,
        !m.policy_input ==> m.after_input(msg).injected == m.injected,
{
}

/// A session whose bind could not be started takes no input: whatever arrives afterwards, the
/// viewer stays unbound, and nothing is accepted or handed on.
pub proof fn law_failed_bind_takes_no_input(
    m: ManagerView,
    messages: Seq<InboundMessage>,
    stats: InboundStats,
)
    requires
        m.challenge is None,
        !m.identity.identity_bound,
    ensures
        ({
            let after = m.settled(false).after_inbound(messages, stats).0;
            &&& after.identity == m.identity
            &&& after.accepted == m.accepted
            &&& after.injected == m.injected
            &&& !after.injection_allowed()
        }),
{
    lemma_unbound_takes_no_input(m.settled(false), messages, stats);
}

proof fn lemma_unbound_takes_no_input(
    m: ManagerView,
    messages: Seq<InboundMessage>,
    stats: InboundStats,
)
    requires
        m.challenge is None,
        !m.identity.identity_bound,
    ensures
        ({
            let after = m.after_inbound(messages, stats).0;
            after == (ManagerView { rejected: after.rejected, ..m })
        }),
    decreases messages.len(),
{
    if messages.len() > 0 {
        let msg = messages[0];
        let rest = messages.skip(1);
        if msg.message.label@ == IDENTITY_CHANNEL_LABEL@ {
            assert(m.after_identity(msg.identity).0 == m);
            assert(m.after_identity(msg.identity).1 is Err);
        } else if msg.message.label@ == INPUT_CHANNEL_LABEL@ {
            lemma_unbound_takes_no_input(
                m.after_input(msg.message.deep_view()),
                rest,
                InboundStats { input_rejected: one_more(stats.input_rejected), ..stats },
            );
        } else {
            lemma_unbound_takes_no_input(m, rest, stats);
        }
    }
}

/// A challenge serves once: after any response to it none is outstanding, and the next response
/// is refused.
pub proof fn law_challenge_serves_once(m: ManagerView, first: IdentityMessage, second: IdentityMessage)
    requires
        first is Response,
        second is Response,
    ensures
        m.after_identity(first).0.challenge is None,
        m.after_identity(first).0.after_identity(second).1 is Err,
{
}

/// The messages of a batch that are on the input channel, in their order.
pub open spec fn input_batch(messages: Seq<InboundMessage>) -> Seq<DataView> {
    messages.filter(|m: InboundMessage| m.message.label@ == "input"@).map_values(
        |m: InboundMessage| m.message.deep_view(),
    )
}

/// The messages of a batch that are on the identity channel.
pub open spec fn identity_batch(messages: Seq<InboundMessage>) -> Seq<InboundMessage> {
    messages.filter(|m: InboundMessage| m.message.label@ == "identity"@)
}

proof fn lemma_batch_head(messages: Seq<InboundMessage>)
    requires
        messages.len() > 0,
    ensures
        ({
            let m = messages[0];
            let rest = messages.skip(1);
            &&& input_batch(messages) == (if m.message.label@ == "input"@ {
                seq![m.message.deep_view()] + input_batch(rest)
            } else {
                input_batch(rest)
            })
            &&& identity_batch(messages) == (if m.message.label@ == "identity"@ {
                seq![m] + identity_batch(rest)
            } else {
                identity_batch(rest)
            })
        }),
{
    let on_input = |m: InboundMessage| m.message.label@ == "input"@;
    let on_identity = |m: InboundMessage| m.message.label@ == "identity"@;
    let view = |m: InboundMessage| m.message.deep_view();
    let first = seq![messages[0]];
    let rest = messages.skip(1);
    assert(messages =~= first + rest);
    Seq::filter_distributes_over_add(first, rest, on_input);
    Seq::filter_distributes_over_add(first, rest, on_identity);
    reveal_with_fuel(Seq::filter, 2);
    assert(first.drop_last() =~= Seq::<InboundMessage>::empty());
    assert(first.filter(on_input) =~= (if on_input(messages[0]) {
        first
    } else {
        Seq::empty()
    }));
    assert(first.filter(on_identity) =~= (if on_identity(messages[0]) {
        first
    } else {
        Seq::empty()
    }));
    assert(input_batch(messages) =~= (if on_input(messages[0]) {
        seq![view(messages[0])] + input_batch(rest)
    } else {
        input_batch(rest)
    }));
    assert(identity_batch(messages) =~= (if on_identity(messages[0]) {
        first + identity_batch(rest)
    } else {
        identity_batch(rest)
    }));
}

proof fn lemma_labels_differ()
    ensures
        "input"@ != "identity"@,
{
    reveal_strlit("input");
    reveal_strlit("identity");
    assert("input"@.len() == 5);
    assert("identity"@.len() == 8);
}

/// While the viewer is authorized and bound no input is lost, doubled or reordered: what is held
/// after a batch is what was held before, followed by every message of the batch on the input
/// channel in the order of arrival. The same goes for what is handed on for injection, where policy
/// allows that; where it does not, nothing is handed on. Nothing is rejected, and every message that
/// is accepted is counted.
pub proof fn law_accepted_input_is_kept_in_order(
    m: ManagerView,
    messages: Seq<InboundMessage>,
    stats: InboundStats,
)
    requires
        m.identity.session_authorized,
        m.identity.identity_bound,
        m.after_inbound(messages, stats).1 is Ok,
    ensures
        ({
            let (after, result) = m.after_inbound(messages, stats);
            let inputs = input_batch(messages);
            let counted = result->Ok_0;
            &&& after.accepted == m.accepted + inputs
            &&& after.injected == (if m.policy_input {
                m.injected + inputs
            } else {
                m.injected
            })
            &&& after.rejected == m.rejected
            &&& counted.input_rejected == stats.input_rejected
            &&& counted.input_accepted == if stats.input_accepted + inputs.len() <= u32::MAX {
                stats.input_accepted + inputs.len()
            } else {
                u32::MAX as int
            }
        }),
    decreases messages.len(),
{
    if messages.len() == 0 {
        assert(m.accepted + input_batch(messages) =~= m.accepted);
        assert(m.injected + input_batch(messages) =~= m.injected);
    } else {
        lemma_batch_head(messages);
        lemma_labels_differ();
        let msg = messages[0];
        let rest = messages.skip(1);
        let tail = input_batch(rest);
        let view = msg.message.deep_view();
        if msg.message.label@ == "identity"@ {
            let next = m.after_identity(msg.identity).0;
            law_accepted_input_is_kept_in_order(
                next,
                rest,
                InboundStats { identity_messages: one_more(stats.identity_messages), ..stats },
            );
        } else if msg.message.label@ == "input"@ {
            law_accepted_input_is_kept_in_order(
                m.after_input(view),
                rest,
                InboundStats { input_accepted: one_more(stats.input_accepted), ..stats },
            );
            assert(m.accepted.push(view) + tail =~= m.accepted + (seq![view] + tail));
            assert(m.injected.push(view) + tail =~= m.injected + (seq![view] + tail));
        } else {
            law_accepted_input_is_kept_in_order(m, rest, stats);
        }
    }
}

/// Until the viewer is both authorized and bound no input passes: a batch that brings no bind leaves
/// what is held and handed on as it was, and every input message of it is counted as rejected.
pub proof fn law_unbound_input_is_rejected_and_counted(
    m: ManagerView,
    messages: Seq<InboundMessage>,
    stats: InboundStats,
)
    requires
        !(m.identity.session_authorized && m.identity.identity_bound),
        identity_batch(messages).len() == 0,
    ensures
        ({
            let (after, result) = m.after_inbound(messages, stats);
            let n = input_batch(messages).len();
            &&& after == (ManagerView { rejected: after.rejected, ..m })
            &&& after.rejected == if m.rejected + n <= u64::MAX {
                m.rejected + n
            } else {
                u64::MAX as int
            }
            &&& result matches Ok(counted) && counted.input_accepted == stats.input_accepted
                && counted.identity_messages == stats.identity_messages && counted.input_rejected
                == if stats.input_rejected + n <= u32::MAX {
                stats.input_rejected + n
            } else {
                u32::MAX as int
            }
        }),
    decreases messages.len(),
{
    if messages.len() > 0 {
        lemma_batch_head(messages);
        lemma_labels_differ();
        let msg = messages[0];
        let rest = messages.skip(1);
        if msg.message.label@ == "input"@ {
            law_unbound_input_is_rejected_and_counted(
                m.after_input(msg.message.deep_view()),
                rest,
                InboundStats { input_rejected: one_more(stats.input_rejected), ..stats },
            );
        } else {
            law_unbound_input_is_rejected_and_counted(m, rest, stats);
        }
    } else {
        assert(input_batch(messages) =~= Seq::empty());
    }
}

/// One message alone: it is accepted exactly where the viewer is authorized and bound, and then it
/// is the last of what is held; handed on exactly where policy allows injection as well; and counted
/// as rejected exactly where it is not accepted. Everything else stays.
pub proof fn law_input_needs_authorization_and_bind(m: ManagerView, msg: DataView)
    ensures
        ({
            let after = m.after_input(msg);
            let passes = m.identity.session_authorized && m.identity.identity_bound;
            &&& passes ==> after.accepted.len() == m.accepted.len() + 1 && after.accepted.last()
                == msg && after.accepted.drop_last() == m.accepted && after.rejected == m.rejected
            &&& !passes ==> after.accepted == m.accepted && (m.rejected < u64::MAX
                ==> after.rejected == m.rejected + 1)
            &&& passes && m.policy_input ==> after.injected.len() == m.injected.len() + 1
                && after.injected.last() == msg && after.injected.drop_last() == m.injected
            &&& !(passes && m.policy_input) ==> after.injected == m.injected
            &&& after == (ManagerView {
                accepted: after.accepted,
                injected: after.injected,
                rejected: after.rejected,
                ..m
            })
        }),
{
    let after = m.after_input(msg);
    assert(m.accepted.push(msg).drop_last() =~= m.accepted);
    assert(m.injected.push(msg).drop_last() =~= m.injected);
}

/// The viewer is bound by a good response to an outstanding challenge under the session's key, and
/// by nothing else. A response uses the challenge up; everything else about the session stays.
pub proof fn law_bind_needs_challenge_key_and_response(m: ManagerView, msg: IdentityMessage)
    ensures
        ({
            let (after, result) = m.after_identity(msg);
            let good = m.challenge is Some && m.bind_key is Some && (msg
                matches IdentityMessage::Response(v) && v is Ok);
            &&& result is Ok <==> good
            &&& after.identity.identity_bound <==> m.identity.identity_bound || good
            &&& after.challenge == (if msg is Response {
                None
            } else {
                m.challenge
            })
            &&& after == (ManagerView {
                challenge: after.challenge,
                identity: IdentityView {
                    identity_bound: after.identity.identity_bound,
                    ..m.identity
                },
                ..m
            })
        }),
{
}

/// Batches add up: what two batches bring one after the other is what they bring as one, and an
/// identity error in the first leaves the second unread.
pub proof fn law_batches_add_up(
    m: ManagerView,
    first: Seq<InboundMessage>,
    second: Seq<InboundMessage>,
    stats: InboundStats,
)
    ensures
        m.after_inbound(first + second, stats) == (match m.after_inbound(first, stats) {
            (next, Ok(counted)) => next.after_inbound(second, counted),
            (next, Err(e)) => (next, Err(e)),
        }),
    decreases first.len(),
{
    if first.len() == 0 {
        assert(first + second =~= second);
    } else {
        let all = first + second;
        let msg = all[0];
        let rest = first.skip(1);
        assert(msg == first[0]);
        assert(all.skip(1) =~= rest + second);
        lemma_labels_differ();
        if msg.message.label@ == "identity"@ {
            law_batches_add_up(
                m.after_identity(msg.identity).0,
                rest,
                second,
                InboundStats { identity_messages: one_more(stats.identity_messages), ..stats },
            );
        } else if msg.message.label@ == "input"@ {
            law_batches_add_up(
                m.after_input(msg.message.deep_view()),
                rest,
                second,
                if m.identity.input_allowed() {
                    InboundStats { input_accepted: one_more(stats.input_accepted), ..stats }
                } else {
                    InboundStats { input_rejected: one_more(stats.input_rejected), ..stats }
                },
            );
        } else {
            law_batches_add_up(m, rest, second, stats);
        }
    }
}

/// A batch that is taken in to its end counts each of its identity messages.
pub proof fn law_good_batch_counts_its_identity_messages(
    m: ManagerView,
    messages: Seq<InboundMessage>,
    stats: InboundStats,
)
    ensures
        m.after_inbound(messages, stats).1 matches Ok(counted) ==> counted.identity_messages
            == if stats.identity_messages + identity_batch(messages).len() <= u32::MAX {
            stats.identity_messages + identity_batch(messages).len()
        } else {
            u32::MAX as int
        },
    decreases messages.len(),
{
    if messages.len() == 0 {
        assert(identity_batch(messages) =~= Seq::empty());
    } else {
        lemma_batch_head(messages);
        lemma_labels_differ();
        let msg = messages[0];
        let rest = messages.skip(1);
        if msg.message.label@ == "identity"@ {
            law_good_batch_counts_its_identity_messages(
                m.after_identity(msg.identity).0,
                rest,
                InboundStats { identity_messages: one_more(stats.identity_messages), ..stats },
            );
        } else if msg.message.label@ == "input"@ {
            law_good_batch_counts_its_identity_messages(
                m.after_input(msg.message.deep_view()),
                rest,
                if m.identity.input_allowed() {
                    InboundStats { input_accepted: one_more(stats.input_accepted), ..stats }
                } else {
                    InboundStats { input_rejected: one_more(stats.input_rejected), ..stats }
                },
            );
        } else {
            law_good_batch_counts_its_identity_messages(m, rest, stats);
        }
    }
}

/// A challenge goes out only for an attached and authorized session that has its key, over a
/// connected peer.
pub proof fn law_challenge_needs_all(m: ManagerView, connection: ConnectionState)
    ensures
        m.challenge_check(connection) is Ok <==> m.session_id is Some
            && m.identity.session_authorized && m.bind_key is Some && connection
            == ConnectionState::Connected,
{
}

/// A frame goes out after three packets of audio, with a key frame first and then every thirtieth;
/// the counters follow what was sent, and nothing is sent once no frame is left.
pub proof fn law_pump_counts_what_it_sends(run: PumpRun, media: MediaPlane)
    requires
        run.frames_left > 0,
        run.audio_in_frame <= 3,
        run.stats.audio_sent < u32::MAX && run.stats.video_sent < u32::MAX,
        media.audio_packets_sent < u64::MAX && media.video_frames_sent < u64::MAX,
    ensures
        ({
            let action = pump_action(run, Some(media));
            let (next, after) = pump_after(run, media);
            &&& run.audio_in_frame < 3 ==> action == PumpAction::SendAudio && next.stats.audio_sent
                == run.stats.audio_sent + 1 && next.stats.video_sent == run.stats.video_sent
                && next.frames_left == run.frames_left && after.audio_packets_sent
                == media.audio_packets_sent + 1 && after.video_frames_sent
                == media.video_frames_sent
            &&& run.audio_in_frame == 3 ==> action is SendVideo && next.stats.video_sent
                == run.stats.video_sent + 1 && next.stats.audio_sent == run.stats.audio_sent
                && next.frames_left == run.frames_left - 1 && next.audio_in_frame == 0
                && after.video_frames_sent == media.video_frames_sent + 1
                && after.audio_packets_sent == media.audio_packets_sent
            &&& action matches PumpAction::SendVideo { keyframe } ==> (keyframe
                <==> media.video_frames_sent % 30 == 0)
            &&& pump_action(PumpRun { frames_left: 0, ..run }, Some(media)) == PumpAction::Done
        }),
{
}

/// A manager that is bound to nothing has nothing: no media, no key, no challenge, no input and no
/// leave to inject any. Binding it to a session gives it the session and nothing else.
pub proof fn law_fresh_manager_has_nothing(setup: SetupView, session_id: Seq<char>)
    ensures
        ({
            let none = ManagerView::unbound(setup);
            let fresh = ManagerView::bound(setup, session_id);
            &&& none.session_id is None && fresh.session_id == Some(session_id)
            &&& fresh == (ManagerView {
                session_id: fresh.session_id,
                identity: fresh.identity,
                ..none
            })
            &&& none.media is None && none.bind_key is None && none.challenge is None
            &&& none.outbound.len() == 0 && none.accepted.len() == 0 && none.injected.len() == 0
            &&& none.rejected == 0 && !none.policy_input && none.setup == setup
            &&& !none.identity.input_allowed() && !fresh.identity.input_allowed()
            &&& !fresh.identity.identity_bound && !fresh.identity.session_authorized
            &&& !none.injection_allowed() && !fresh.injection_allowed()
        }),
{
}

/// The bytes that the first `n` characters of a text take.
pub open spec fn byte_length(s: Seq<char>, n: nat) -> int
    decreases n,
{
    if n == 0 {
        0
    } else {
        byte_length(s, (n - 1) as nat) + char_bytes(s[n - 1])
    }
}

proof fn lemma_byte_length_behind(s: Seq<char>, n: nat)
    requires
        n < s.len(),
    ensures
        byte_length(s, n + 1) == char_bytes(s[0]) + byte_length(s.skip(1), n),
    decreases n,
{
    if n > 0 {
        lemma_byte_length_behind(s, (n - 1) as nat);
        assert(s.skip(1)[n - 1] == s[n as int]);
    } else {
        assert(byte_length(s, 0) == 0);
        assert(byte_length(s.skip(1), 0) == 0);
    }
}

/// As many characters are kept as fit into the room: all that are kept fit, and one more would not.
pub proof fn law_beginning_fits_its_room(s: Seq<char>, room: int)
    requires
        room >= 0,
    ensures
        fitting(s, room) <= s.len(),
        byte_length(s, fitting(s, room)) <= room,
        fitting(s, room) < s.len() ==> byte_length(s, fitting(s, room) + 1) > room,
        head_of(s, room).is_prefix_of(s),
        head_of(s, room).len() == fitting(s, room),
    decreases s.len(),
{
    if s.len() == 0 || char_bytes(s[0]) > room {
        if s.len() > 0 {
            assert(byte_length(s, 0) == 0);
            assert(byte_length(s, 1) == byte_length(s, 0) + char_bytes(s[0]));
        }
    } else {
        let rest = s.skip(1);
        let left = room - char_bytes(s[0]);
        law_beginning_fits_its_room(rest, left);
        let n = fitting(rest, left);
        lemma_byte_length_behind(s, n);
        if n < rest.len() {
            lemma_byte_length_behind(s, n + 1);
        }
    }
}

/// A character takes one byte in ASCII and at most four; more for a higher one.
pub proof fn law_bytes_of_a_character(a: char, b: char)
    ensures
        a <= '\u{7f}' <==> char_bytes(a) == 1,
        a <= '\u{7ff}' <==> char_bytes(a) <= 2,
        a <= '\u{ffff}' <==> char_bytes(a) <= 3,
        1 <= char_bytes(a) <= 4,
        a <= b ==> char_bytes(a) <= char_bytes(b),
{
}

} // verus!
