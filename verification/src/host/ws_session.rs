//! Host service over the signaling WebSocket: enrollment, the service loop, and what the host
//! decides while it serves a session.
//!
//! The network, the agent connection and the clock are driven from outside; here stand the
//! decisions.

use vstd::prelude::*;
use crate::hex_text::hex_of;
use crate::host::chrome::{bool_str, bool_text};
use crate::host::control::{ControlMessage, MessageView, SignalForward, SignalView};
use crate::host::control_loop::ControlEndpoint;
use crate::host::platform_capture::{AudioCaptureKind, Platform, VideoCaptureKind};
use crate::host::policy::{
    default_pepper, FreshOtp, HostAuthService, HostLocalConfig, OtpHash, PolicyErrorView,
    PolicyView, WindowView, DEFAULT_OTP_TTL_SECS,
};
use crate::host::roles::TransportMode;
use crate::host::session::{
    AuthError, ConnectionState, IdentityView, ManagerView, PumpStats, SdpPayload,
    SessionErrorView, SessionManager, SetupView,
};
use crate::host::signal_kind;
use crate::text::{chars_of, contains_text, decimal, occurs_in, push_number, same};

verus! {

/// Product-shell lab signaling URL.
pub const DEFAULT_LAB_SERVER: &'static str = "http://127.0.0.1:18080";

/// Where credentials are kept by default.
pub const DEFAULT_CREDS_PATH: &'static str = ".remotelink-host.json";

/// Longest wait between two attempts to connect, in milliseconds.
pub const MAX_BACKOFF_MS: u64 = 60_000;

/// Pre-enrolled host credentials.
#[derive(Debug, Clone)]
pub struct ExistingHostCreds {
    /// Host public id.
    pub public_id: String,
    /// Access token.
    pub access_token: String,
    /// Refresh token (optional; enables rotation when access expires).
    pub refresh_token: Option<String>,
}

/// Configuration of the host service.
#[derive(Debug, Clone)]
pub struct WsHostConfig {
    /// HTTP(S) base of the signaling server.
    pub server: String,
    /// Display name for enrollment.
    pub display_name: String,
    /// Transport mode (mock is coerced to live).
    pub transport: TransportMode,
    /// Synthetic video frames to pump after each connect.
    ///
    /// **`0` = live session**: keep capturing until the viewer hangs up, the tray ends the
    /// session, or the peer drops.
    pub video_frames: u32,
    /// How long to wait for each incoming session, in milliseconds.
    pub wait_incoming_ms: u64,
    /// When set, skip registration and use these credentials.
    pub existing: Option<ExistingHostCreds>,
    /// Max sessions to serve before exit. **`0` = unlimited** (service mode).
    pub max_sessions: u32,
    /// Reconnect the signaling WebSocket after disconnect (service mode).
    pub reconnect: bool,
    /// Base backoff between reconnect attempts, in milliseconds.
    pub reconnect_backoff_ms: u64,
    /// Path to persist credentials.
    pub creds_path: String,
    /// When true, load credentials from `creds_path` if present.
    pub load_creds: bool,
    /// When true, write credentials after register/refresh.
    pub save_creds: bool,
    /// Mint a Mode A OTP and post its hash to the server.
    pub mint_otp: bool,
    /// When set, drive media via the agent at this control endpoint.
    pub agent_control: Option<ControlEndpoint>,
    /// Enable the tray surface (console panel + status file).
    pub tray: bool,
    /// Enable the notification-area icon.
    pub os_tray: bool,
    /// Path of the status file (default next to `creds_path`).
    pub status_path: Option<String>,
    /// Control IPC boot secret (must match the agent's).
    pub boot_secret: Option<String>,
}

impl WsHostConfig {
    /// Whether everything is as in the default configuration on a system, but for what is run: the
    /// server, the transport, the sessions and the agent.
    pub open spec fn otherwise_standard(self, platform: Platform) -> bool {
        &&& self.display_name@ == "remotelink-host"@
        &&& self.video_frames == 5
        &&& self.wait_incoming_ms == 120_000
        &&& self.existing is None
        &&& self.reconnect_backoff_ms == 2_000
        &&& self.creds_path@ == DEFAULT_CREDS_PATH@
        &&& self.load_creds && self.save_creds && self.mint_otp && self.tray
        &&& self.os_tray == (platform == Platform::Windows)
        &&& self.status_path is None
    }

    /// The default configuration on a system: one session, no reconnect.
    pub fn standard(platform: Platform) -> (r: WsHostConfig)
        ensures
            r.server@ == DEFAULT_LAB_SERVER@,
            r.transport == TransportMode::Live,
            r.max_sessions == 1,
            !r.reconnect,
            r.agent_control is None,
            r.boot_secret is None,
            r.otherwise_standard(platform),
    {
        WsHostConfig {
            server: DEFAULT_LAB_SERVER.to_string(),
            display_name: "remotelink-host".to_string(),
            transport: TransportMode::Live,
            video_frames: 5,
            wait_incoming_ms: 120_000,
            existing: None,
            max_sessions: 1,
            reconnect: false,
            reconnect_backoff_ms: 2_000,
            creds_path: DEFAULT_CREDS_PATH.to_string(),
            load_creds: true,
            save_creds: true,
            mint_otp: true,
            agent_control: None,
            tray: true,
            os_tray: platform == Platform::Windows,
            status_path: None,
            boot_secret: None,
        }
    }

    /// The configuration of the service behind the desktop shell: it serves sessions without limit,
    /// reconnects, waits five minutes for a viewer, and leaves the tray icon to the shell.
    pub fn desktop(
        platform: Platform,
        server: String,
        display_name: String,
        transport: TransportMode,
        status_path: String,
        creds_path: String,
    ) -> (r: WsHostConfig)
        ensures
            r.server@ == server@,
            r.display_name@ == display_name@,
            r.transport == transport,
            r.video_frames == 5,
            r.wait_incoming_ms == 300_000,
            r.existing is None,
            r.max_sessions == 0,
            r.reconnect,
            r.reconnect_backoff_ms == 2_000,
            r.creds_path@ == creds_path@,
            r.load_creds && r.save_creds && r.mint_otp && r.tray,
            r.agent_control is None,
            !r.os_tray,
            r.status_path matches Some(p) && p@ == status_path@,
            r.boot_secret is None,
    {
        let mut cfg = WsHostConfig::standard(platform);
        cfg.server = server;
        cfg.display_name = display_name;
        cfg.transport = transport;
        cfg.wait_incoming_ms = 300_000;
        cfg.max_sessions = 0;
        cfg.reconnect = true;
        cfg.creds_path = creds_path;
        cfg.os_tray = false;
        cfg.status_path = Some(status_path);
        cfg
    }

    /// The configuration for one session only.
    pub fn one_shot(self) -> (r: WsHostConfig)
        ensures
            r == (WsHostConfig { max_sessions: 1, reconnect: false, ..self }),
    {
        let mut one = self;
        one.max_sessions = 1;
        one.reconnect = false;
        one
    }

    /// Whether the program runs as a service, or for one session only.
    pub fn runs_as_service(&self) -> (r: bool)
        ensures
            r == (self.reconnect || self.max_sessions != 1),
    {
        self.reconnect || self.max_sessions != 1
    }
}

/// The transport that is used: one that works between processes.
pub fn coerce_transport(mode: TransportMode) -> (r: TransportMode)
    ensures
        r == (if mode == TransportMode::Mock || mode == TransportMode::Auto {
            TransportMode::Live
        } else {
            mode
        }),
{
    if mode == TransportMode::Mock || mode == TransportMode::Auto {
        TransportMode::Live
    } else {
        mode
    }
}

/// Whether a server is one of the built-in lab servers.
pub open spec fn lab_server(server: Seq<char>) -> bool {
    server == "http://127.0.0.1:8080"@ || server == "http://localhost:8080"@ || server
        == "http://127.0.0.1:18080"@ || server == "http://localhost:18080"@
}

/// Whether a server is one of the built-in lab servers.
pub fn is_builtin_lab_server(server: &str) -> (r: bool)
    ensures
        r == lab_server(server@),
{
    same(server, "http://127.0.0.1:8080") || same(server, "http://localhost:8080") || same(
        server,
        "http://127.0.0.1:18080",
    ) || same(server, "http://localhost:18080")
}

/// Credentials as they are kept in a file.
#[derive(Debug)]
pub struct CredentialFile {
    pub server: String,
    pub public_id: String,
    pub access_token: String,
    pub refresh_token: String,
    pub expires_at: Option<String>,
}

/// What a `CredentialFile` holds.
pub struct CredentialView {
    pub server: Seq<char>,
    pub public_id: Seq<char>,
    pub access_token: Seq<char>,
    pub refresh_token: Seq<char>,
    pub expires_at: Option<Seq<char>>,
}

impl DeepView for CredentialFile {
    type V = CredentialView;

    open spec fn deep_view(&self) -> CredentialView {
        CredentialView {
            server: self.server@,
            public_id: self.public_id@,
            access_token: self.access_token@,
            refresh_token: self.refresh_token@,
            expires_at: self.expires_at.deep_view(),
        }
    }
}

/// Tokens that the server handed out on refresh.
#[derive(Debug)]
pub struct FreshTokens {
    pub access_token: String,
    pub refresh_token: String,
    pub expires_at: String,
}

/// Enrolled identity of the host.
#[derive(Debug)]
pub struct EnrolledHost {
    pub public_id: String,
    pub access_token: String,
    pub refresh_token: Option<String>,
}

/// What an `EnrolledHost` holds.
pub struct EnrolledView {
    pub public_id: Seq<char>,
    pub access_token: Seq<char>,
    pub refresh_token: Option<Seq<char>>,
}

impl DeepView for EnrolledHost {
    type V = EnrolledView;

    open spec fn deep_view(&self) -> EnrolledView {
        EnrolledView {
            public_id: self.public_id@,
            access_token: self.access_token@,
            refresh_token: self.refresh_token.deep_view(),
        }
    }
}

impl CredentialView {
    /// The identity that credentials give.
    pub open spec fn enrolled(self) -> EnrolledView {
        EnrolledView {
            public_id: self.public_id,
            access_token: self.access_token,
            refresh_token: Some(self.refresh_token),
        }
    }
}

/// How enrollment goes on.
#[derive(Debug)]
pub enum EnrollStep {
    /// The host is enrolled.
    Use(EnrolledHost),
    /// Load the credential file.
    LoadFile,
    /// Refresh the tokens of a file at a server.
    Refresh { server: String, file: CredentialFile },
    /// Register a new device.
    Register,
}

/// What an `EnrollStep` asks for.
pub enum EnrollView {
    Use(EnrolledView),
    LoadFile,
    Refresh { server: Seq<char>, file: CredentialView },
    Register,
}

impl DeepView for EnrollStep {
    type V = EnrollView;

    open spec fn deep_view(&self) -> EnrollView {
        match self {
            EnrollStep::Use(h) => EnrollView::Use(h.deep_view()),
            EnrollStep::LoadFile => EnrollView::LoadFile,
            EnrollStep::Refresh { server, file } => EnrollView::Refresh {
                server: server@,
                file: file.deep_view(),
            },
            EnrollStep::Register => EnrollView::Register,
        }
    }
}

/// How enrollment begins: given credentials go before a file, a file before registration.
pub fn enroll_start(existing: &Option<ExistingHostCreds>, load_creds: bool, file_exists: bool) -> (r:
    EnrollStep)
    ensures
        r.deep_view() == match *existing {
            Some(ex) => EnrollView::Use(
                EnrolledView {
                    public_id: ex.public_id@,
                    access_token: ex.access_token@,
                    refresh_token: ex.refresh_token.deep_view(),
                },
            ),
            None => if load_creds && file_exists {
                EnrollView::LoadFile
            } else {
                EnrollView::Register
            },
        },
{
    match existing {
        Some(ex) => {
            let refresh_token = match &ex.refresh_token {
                Some(t) => Some(t.clone()),
                None => None,
            };
            EnrollStep::Use(
                EnrolledHost {
                    public_id: ex.public_id.clone(),
                    access_token: ex.access_token.clone(),
                    refresh_token,
                },
            )
        },
        None => if load_creds && file_exists {
            EnrollStep::LoadFile
        } else {
            EnrollStep::Register
        },
    }
}

/// The server at which the tokens of a file are refreshed: the file's own where the configured one
/// is a built-in lab server and the file names one.
pub open spec fn refresh_server(configured: Seq<char>, of_file: Seq<char>) -> Seq<char> {
    if lab_server(configured) && of_file.len() > 0 {
        of_file
    } else {
        configured
    }
}

/// How enrollment goes on after the file was read: a file that could not be read, or whose tokens
/// cannot be refreshed, leads to registration.
pub fn file_loaded(configured: &str, loaded: Result<CredentialFile, String>) -> (r: EnrollStep)
    ensures
        r.deep_view() == match loaded {
            Ok(file) => if file.refresh_token@.len() == 0 {
                EnrollView::Use(file.deep_view().enrolled())
            } else {
                EnrollView::Refresh {
                    server: refresh_server(configured@, file.server@),
                    file: file.deep_view(),
                }
            },
            Err(_) => EnrollView::Register,
        },
{
    match loaded {
        Ok(file) => {
            if file.refresh_token.as_str().unicode_len() == 0 {
                return EnrollStep::Use(
                    EnrolledHost {
                        public_id: file.public_id,
                        access_token: file.access_token,
                        refresh_token: Some(file.refresh_token),
                    },
                );
            }
            let server = if is_builtin_lab_server(configured)
                && file.server.as_str().unicode_len() > 0 {
                file.server.clone()
            } else {
                configured.to_string()
            };
            EnrollStep::Refresh { server, file }
        },
        Err(_) => EnrollStep::Register,
    }
}

/// The credentials of a file after its tokens were refreshed at a server, to be saved and used.
/// Nothing where refreshing failed: then a new device is registered.
pub fn tokens_refreshed(
    server: &str,
    file: CredentialFile,
    refreshed: Result<FreshTokens, String>,
) -> (r: Option<CredentialFile>)
    ensures
        match refreshed {
            Ok(t) => r matches Some(f) && f.deep_view() == (CredentialView {
                server: server@,
                public_id: file.public_id@,
                access_token: t.access_token@,
                refresh_token: t.refresh_token@,
                expires_at: Some(t.expires_at@),
            }),
            Err(_) => r is None,
        },
{
    match refreshed {
        Ok(t) => Some(
            CredentialFile {
                server: server.to_string(),
                public_id: file.public_id,
                access_token: t.access_token,
                refresh_token: t.refresh_token,
                expires_at: Some(t.expires_at),
            },
        ),
        Err(_) => None,
    }
}

/// The identity that credentials give.
pub fn enrolled_as(file: CredentialFile) -> (r: EnrolledHost)
    ensures
        r.deep_view() == file.deep_view().enrolled(),
{
    EnrolledHost {
        public_id: file.public_id,
        access_token: file.access_token,
        refresh_token: Some(file.refresh_token),
    }
}

/// What is posted to the server about a freshly minted code.
#[derive(Debug)]
pub struct OtpPost {
    pub digest_hex: String,
    pub salt_hex: String,
    pub keyed: bool,
    pub ttl_secs: u64,
}

/// What is posted to the server about a freshly minted code: its hash, never its plaintext.
pub fn otp_post(hash: &OtpHash) -> (r: OtpPost)
    ensures
        r.digest_hex@ == hex_of(hash.deep_view().digest),
        r.salt_hex@ == hex_of(hash.deep_view().salt),
        r.keyed == hash.keyed,
        r.ttl_secs == DEFAULT_OTP_TTL_SECS,
{
    let (digest_hex, salt_hex) = HostAuthService::otp_hash_wire(hash);
    OtpPost { digest_hex, salt_hex, keyed: hash.keyed, ttl_secs: DEFAULT_OTP_TTL_SECS }
}

/// Host-local OTP window used for the Mode A identity bind on live sessions.
#[derive(Debug)]
pub struct LiveOtpHub {
    pub policy: HostAuthService,
}

impl LiveOtpHub {
    /// A hub with the default policy.
    pub fn new() -> (r: Self)
        ensures
            r.policy.deep_view() == (PolicyView {
                config: HostLocalConfig::standard(),
                otp_pepper: default_pepper(),
                host_secret: None,
                active_otp: None,
                last_otp_code: None,
            }),
    {
        LiveOtpHub { policy: HostAuthService::default() }
    }

    /// Take over a code minted at `now`: its plaintext, and its hash for the server.
    pub fn mint_local(&mut self, now: u64, minted: Result<FreshOtp, AuthError>) -> (r: Result<
        (String, OtpHash),
        String,
    >)
        ensures
            match minted {
                Ok(otp) => {
                    &&& r matches Ok(p) && p.0@ == otp.code@ && p.1.deep_view()
                        == otp.hash.deep_view()
                    &&& final(self).policy.deep_view() == (PolicyView {
                        active_otp: Some(
                            WindowView {
                                hash: otp.hash.deep_view(),
                                expires_at_unix: old(self).policy.deep_view().expiry(now),
                            },
                        ),
                        last_otp_code: Some(otp.code@),
                        ..old(self).policy.deep_view()
                    })
                },
                Err(e) => {
                    &&& r matches Err(t) && t@ == "mint_otp: "@ + PolicyErrorView::Auth(
                        e.deep_view().text(),
                    ).text()
                    &&& final(self).policy.deep_view() == old(self).policy.deep_view()
                },
            },
    {
        match self.policy.mint_otp(now, minted) {
            Ok(code) => match self.policy.active_otp() {
                Some(w) => Ok((code, w.hash().copied())),
                None => Err("OTP window missing after mint".to_string()),
            },
            Err(e) => Err("mint_otp: ".to_string().concat(&e.to_string())),
        }
    }

    /// Authorize a live session on the code that was minted last, open the input policy, and find
    /// out whether the identity challenge can go out.
    pub fn authorize_live(
        &mut self,
        mgr: &mut SessionManager,
        verified: Result<Vec<u8>, AuthError>,
        connection: ConnectionState,
    ) -> (r: Result<(), String>)
        ensures
            ({
                let p = old(self).policy.deep_view();
                let m = old(mgr).deep_view();
                if p.last_otp_code is None {
                    &&& r matches Err(e) && e@ == "no OTP minted"@
                    &&& final(self).policy.deep_view() == p
                    &&& final(mgr).deep_view() == m
                } else if p.active_otp is None {
                    &&& r matches Err(e) && e@ == "authorize mode a: "@
                        + SessionErrorView::InvalidState("no active OTP window"@).text()
                    &&& final(self).policy.deep_view() == p
                    &&& final(mgr).deep_view() == m
                } else {
                    match verified {
                        Err(a) => {
                            &&& r matches Err(e) && e@ == "authorize mode a: "@
                                + SessionErrorView::Auth(a.deep_view()).text()
                            &&& final(self).policy.deep_view() == p
                            &&& final(mgr).deep_view() == m
                        },
                        Ok(key) => {
                            let open = ManagerView {
                                bind_key: Some(key@),
                                identity: IdentityView { session_authorized: true, ..m.identity },
                                policy_input: true,
                                ..m
                            };
                            &&& final(self).policy.deep_view() == (PolicyView {
                                active_otp: None,
                                ..p
                            })
                            &&& final(mgr).deep_view() == open
                            &&& match open.challenge_check(connection) {
                                Ok(()) => r is Ok,
                                Err(e) => r matches Err(t) && t@ == "identity challenge: "@
                                    + e.text(),
                            }
                        },
                    }
                }
            }),
    {
        if self.policy.last_otp_code().is_none() {
            return Err("no OTP minted".to_string());
        }
        match self.policy.authorize_session_mode_a(mgr, verified) {
            Ok(()) => {},
            Err(e) => {
                return Err("authorize mode a: ".to_string().concat(&e.to_string()));
            },
        }
        mgr.set_input_policy_enabled(true);
        match mgr.start_identity_challenge(connection) {
            Ok(()) => Ok(()),
            Err(e) => Err("identity challenge: ".to_string().concat(&e.to_string())),
        }
    }
}

/// How a live session goes on after its bind was started.
#[derive(Debug, Clone, Copy, PartialEq, Eq, Structural)]
pub enum BindStep {
    /// The challenge went out: wait for the viewer to answer it.
    AwaitBind,
    /// The bind could not be started: the session goes on without input.
    Closed,
}

/// The bind of a live session was started, or could not be. Input needs a bound and authorized
/// viewer, so a failure closes the input policy and binds nobody.
pub fn settle_bind(mgr: &mut SessionManager, started: Result<(), String>) -> (r: BindStep)
    ensures
        final(mgr).deep_view() == old(mgr).deep_view().settled(started is Ok),
        final(mgr).deep_view().identity == old(mgr).deep_view().identity,
        r == (if started is Ok {
            BindStep::AwaitBind
        } else {
            BindStep::Closed
        }),
{
    match started {
        Ok(()) => BindStep::AwaitBind,
        Err(_) => {
            mgr.set_input_policy_enabled(false);
            BindStep::Closed
        },
    }
}

/// What a session needs before its offer can go out.
#[derive(Debug, Clone, Copy, PartialEq, Eq, Structural)]
pub enum SetUp {
    /// A viewer.
    Incoming,
    /// Its acceptance.
    Accept,
    /// The agent's media.
    Agent,
    /// A peer in this process.
    Peer,
    /// Media in this process, on the stand-in for the desktop.
    Fallback,
}

impl SetUp {
    /// What goes before an error.
    pub open spec fn label(self) -> Seq<char> {
        match self {
            SetUp::Incoming => "wait incoming: "@,
            SetUp::Accept => "accept: "@,
            SetUp::Agent => "agent start_session: "@,
            SetUp::Peer => "create offerer: "@,
            SetUp::Fallback => "start_media (mock fallback): "@,
        }
    }

    /// The error of a session that does not get it.
    pub fn error(self, cause: &str) -> (r: String)
        ensures
            r@ == self.label() + cause@,
    {
        let label = match self {
            SetUp::Incoming => "wait incoming: ",
            SetUp::Accept => "accept: ",
            SetUp::Agent => "agent start_session: ",
            SetUp::Peer => "create offerer: ",
            SetUp::Fallback => "start_media (mock fallback): ",
        };
        label.to_string().concat(cause)
    }
}

/// The sequence number that follows an incoming one.
pub fn seq_after(incoming: u64) -> (r: u64)
    ensures
        r == (if incoming == u64::MAX {
            incoming as int
        } else {
            incoming + 1
        }),
{
    incoming.saturating_add(1)
}

/// The signature that goes out with an offer; empty where there is none.
pub fn offer_signature(offer: &SdpPayload) -> (r: String)
    ensures
        r@ == match offer.deep_view().fingerprint_sig {
            Some(s) => s,
            None => Seq::empty(),
        },
{
    match &offer.fingerprint_sig {
        Some(s) => s.clone(),
        None => {
            let r = String::new();
            assert(r@ =~= Seq::<char>::empty());
            r
        },
    }
}

/// What the signaling server delivered while a session is set up or live. Payloads are JSON.
#[derive(Debug)]
pub enum RelayEvent {
    /// The viewer's answer.
    Answer(String),
    /// A candidate of the viewer.
    Ice(String),
    /// The viewer ended the session, with its reason.
    End(String),
    /// Anything else.
    Other,
    /// Nothing arrived in time.
    Quiet,
    /// Receiving failed.
    Failed(String),
}

/// What a `RelayEvent` says.
pub enum EventView {
    Answer(Seq<char>),
    Ice(Seq<char>),
    End(Seq<char>),
    Other,
    Quiet,
    Failed(Seq<char>),
}

impl DeepView for RelayEvent {
    type V = EventView;

    open spec fn deep_view(&self) -> EventView {
        match self {
            RelayEvent::Answer(p) => EventView::Answer(p@),
            RelayEvent::Ice(p) => EventView::Ice(p@),
            RelayEvent::End(p) => EventView::End(p@),
            RelayEvent::Other => EventView::Other,
            RelayEvent::Quiet => EventView::Quiet,
            RelayEvent::Failed(e) => EventView::Failed(e@),
        }
    }
}

/// Why candidates could not be sent.
#[derive(Debug)]
pub enum IceFault {
    /// One could not be read.
    Unreadable(String),
    /// One could not be sent.
    Unsent(String),
}

/// What an `IceFault` says.
pub enum IceFaultView {
    Unreadable(Seq<char>),
    Unsent(Seq<char>),
}

impl DeepView for IceFault {
    type V = IceFaultView;

    open spec fn deep_view(&self) -> IceFaultView {
        match self {
            IceFault::Unreadable(e) => IceFaultView::Unreadable(e@),
            IceFault::Unsent(e) => IceFaultView::Unsent(e@),
        }
    }
}

impl IceFaultView {
    /// The fault as an error; `label` goes before what the server said.
    pub open spec fn text(self, label: Seq<char>) -> Seq<char> {
        match self {
            IceFaultView::Unreadable(e) => e,
            IceFaultView::Unsent(e) => label + e,
        }
    }
}

impl IceFault {
    /// The fault as an error; `label` goes before what the server said.
    pub fn message(self, label: &str) -> (r: String)
        ensures
            r@ == self.deep_view().text(label@),
    {
        match self {
            IceFault::Unreadable(e) => e,
            IceFault::Unsent(e) => label.to_string().concat(&e),
        }
    }
}

/// The payload of a message that carries a candidate.
pub open spec fn ice_payload(msg: MessageView) -> Option<Seq<char>> {
    match msg {
        MessageView::SignalForward(s) => if s.kind == signal_kind::ICE_CANDIDATE@ {
            Some(s.payload)
        } else {
            None
        },
        _ => None,
    }
}

/// The candidates among messages, in order.
pub open spec fn ice_payloads(msgs: Seq<MessageView>) -> Seq<Seq<char>>
    decreases msgs.len(),
{
    if msgs.len() == 0 {
        Seq::empty()
    } else {
        match ice_payload(msgs.last()) {
            Some(p) => ice_payloads(msgs.drop_last()).push(p),
            None => ice_payloads(msgs.drop_last()),
        }
    }
}

/// The candidates among the agent's messages, in order: they are relayed to the viewer.
pub fn agent_ice(messages: &Vec<ControlMessage>) -> (r: Vec<String>)
    ensures
        r.deep_view() == ice_payloads(messages.deep_view()),
{
    let ghost all = messages.deep_view();
    let mut out: Vec<String> = Vec::new();
    assert(out.deep_view() =~= ice_payloads(all.take(0)));
    let mut i: usize = 0;
    while i < messages.len()
        invariant
            i <= messages@.len(),
            all == messages.deep_view(),
            out.deep_view() == ice_payloads(all.take(i as int)),
        decreases messages@.len() - i,
    {
        let ghost before = out.deep_view();
        assert(all[i as int] == messages@[i as int].deep_view());
        assert(all.take(i + 1).drop_last() == all.take(i as int));
        if let ControlMessage::SignalForward(s) = &messages[i] {
            if same(&s.kind, signal_kind::ICE_CANDIDATE) {
                out.push(s.payload.clone());
                assert(out.deep_view() =~= before.push(s.payload@));
            }
        }
        i += 1;
    }
    assert(all.take(all.len() as int) == all);
    out
}

/// The payload of a message that carries an offer.
pub open spec fn offer_payload_of(msg: MessageView) -> Option<Seq<char>> {
    match msg {
        MessageView::SignalForward(s) => if s.kind == signal_kind::SESSION_OFFER@ {
            Some(s.payload)
        } else {
            None
        },
        _ => None,
    }
}

/// The offers among messages, in order.
pub open spec fn offer_payloads(msgs: Seq<MessageView>) -> Seq<Seq<char>>
    decreases msgs.len(),
{
    if msgs.len() == 0 {
        Seq::empty()
    } else {
        match offer_payload_of(msgs.last()) {
            Some(p) => offer_payloads(msgs.drop_last()).push(p),
            None => offer_payloads(msgs.drop_last()),
        }
    }
}

/// The offers among the agent's messages, in order.
pub fn agent_offers(messages: &Vec<ControlMessage>) -> (r: Vec<String>)
    ensures
        r.deep_view() == offer_payloads(messages.deep_view()),
{
    let ghost all = messages.deep_view();
    let mut out: Vec<String> = Vec::new();
    assert(out.deep_view() =~= offer_payloads(all.take(0)));
    let mut i: usize = 0;
    while i < messages.len()
        invariant
            i <= messages@.len(),
            all == messages.deep_view(),
            out.deep_view() == offer_payloads(all.take(i as int)),
        decreases messages@.len() - i,
    {
        let ghost before = out.deep_view();
        assert(all[i as int] == messages@[i as int].deep_view());
        assert(all.take(i + 1).drop_last() == all.take(i as int));
        if let ControlMessage::SignalForward(s) = &messages[i] {
            if same(&s.kind, signal_kind::SESSION_OFFER) {
                out.push(s.payload.clone());
                assert(out.deep_view() =~= before.push(s.payload@));
            }
        }
        i += 1;
    }
    assert(all.take(all.len() as int) == all);
    out
}

/// The offer to send to the viewer, out of the agent's offers as they were read: the last one,
/// provided that all of them could be read.
pub fn choose_offer(read: Vec<Result<SdpPayload, String>>) -> (r: Result<SdpPayload, String>)
    ensures
        match r {
            Ok(offer) => {
                &&& read@.len() > 0
                &&& forall|i: int| 0 <= i < read@.len() ==> #[trigger] read@[i] is Ok
                &&& read@.last() == Ok::<SdpPayload, String>(offer)
            },
            Err(e) => {
                ||| read@.len() == 0 && e@ == "agent did not emit session_offer"@
                ||| exists|k: int|
                    0 <= k < read@.len() && #[trigger] read@[k] is Err && e@ == "parse offer: "@
                        + read@[k]->Err_0@ && (forall|j: int|
                        0 <= j < k ==> #[trigger] read@[j] is Ok)
            },
        },
{
    let ghost all = read@;
    let mut i: usize = 0;
    while i < read.len()
        invariant
            i <= read@.len(),
            all == read@,
            forall|j: int| 0 <= j < i ==> #[trigger] read@[j] is Ok,
        decreases read@.len() - i,
    {
        if let Err(e) = &read[i] {
            assert(read@[i as int] is Err);
            return Err("parse offer: ".to_string().concat(e));
        }
        i += 1;
    }
    let mut left = read;
    match left.pop() {
        Some(last) => last,
        None => Err("agent did not emit session_offer".to_string()),
    }
}

/// The reason for which a viewer ended a session.
pub open spec fn viewer_reason(reason: Seq<char>) -> Seq<char> {
    if reason.len() == 0 {
        "viewer_session_end"@
    } else {
        reason
    }
}

/// The reason for which a viewer ended a session.
pub(crate) fn viewer_end(reason: String) -> (r: String)
    ensures
        r@ == viewer_reason(reason@),
{
    if reason.as_str().unicode_len() == 0 {
        "viewer_session_end".to_string()
    } else {
        reason
    }
}

/// How media of a session is set up: a live one captures the desktop, another one keeps its setup.
pub open spec fn live_setup(setup: SetupView, live: bool, platform: Platform) -> SetupView {
    if !live {
        setup
    } else {
        SetupView {
            geometry: (1280, 720, 20),
            force_software: true,
            video_kind: if platform == Platform::Windows {
                Some(VideoCaptureKind::WindowsDxgi)
            } else {
                setup.video_kind
            },
            audio_kind: if platform == Platform::Windows {
                Some(AudioCaptureKind::WindowsWasapiPreferNative)
            } else {
                setup.audio_kind
            },
            ..setup
        }
    }
}

/// Set up the media of a session.
pub fn configure_session_media(mgr: &mut SessionManager, live: bool, platform: Platform)
    ensures
        final(mgr).deep_view() == (ManagerView {
            setup: live_setup(old(mgr).deep_view().setup, live, platform),
            ..old(mgr).deep_view()
        }),
{
    if !live {
        return;
    }
    mgr.set_force_software(true);
    mgr.set_synthetic_geometry(1280, 720, 20);
    if platform == Platform::Windows {
        mgr.set_video_kind(VideoCaptureKind::WindowsDxgi);
        mgr.set_audio_kind(AudioCaptureKind::WindowsWasapiPreferNative);
    }
}

/// Media could not be started: a live session falls back to a mock desktop, another one is given
/// up.
pub fn start_fallback(mgr: &mut SessionManager, live: bool, error: &str) -> (r: Result<(), String>)
    ensures
        r is Ok <==> live,
        r matches Err(e) ==> e@ == "start_media: "@ + error@,
        final(mgr).deep_view() == (if live {
            ManagerView {
                setup: SetupView {
                    video_kind: Some(VideoCaptureKind::WindowsMock),
                    geometry: (1280, 720, 20),
                    ..old(mgr).deep_view().setup
                },
                ..old(mgr).deep_view()
            }
        } else {
            old(mgr).deep_view()
        }),
{
    if !live {
        return Err("start_media: ".to_string().concat(error));
    }
    mgr.set_video_kind(VideoCaptureKind::WindowsMock);
    mgr.set_synthetic_geometry(1280, 720, 20);
    Ok(())
}

/// The first offer among signals.
pub open spec fn first_offer(signals: Seq<SignalView>) -> Option<Seq<char>>
    decreases signals.len(),
{
    if signals.len() == 0 {
        None
    } else if signals[0].kind == signal_kind::SESSION_OFFER@ {
        Some(signals[0].payload)
    } else {
        first_offer(signals.skip(1))
    }
}

/// The payload of the offer among the manager's signals.
pub fn local_offer(signals: &Vec<SignalForward>) -> (r: Result<String, &'static str>)
    ensures
        match r {
            Ok(p) => first_offer(signals.deep_view()) == Some(p@),
            Err(e) => first_offer(signals.deep_view()) is None && e@
                == "no session_offer from SessionManager"@,
        },
{
    let ghost all = signals.deep_view();
    let mut i: usize = 0;
    assert(all.skip(0) == all);
    while i < signals.len()
        invariant
            i <= signals@.len(),
            all == signals.deep_view(),
            first_offer(all) == first_offer(all.skip(i as int)),
        decreases signals@.len() - i,
    {
        let s = &signals[i];
        assert(all.skip(i as int)[0] == s.deep_view());
        assert(all.skip(i as int).skip(1) == all.skip(i + 1));
        if same(&s.kind, signal_kind::SESSION_OFFER) {
            return Ok(s.payload.clone());
        }
        i += 1;
    }
    Err("no session_offer from SessionManager")
}

/// The payloads of signals that carry a candidate.
pub open spec fn signal_ice(signals: Seq<SignalView>) -> Seq<Seq<char>> {
    ice_payloads(signals.map_values(|s: SignalView| MessageView::SignalForward(s)))
}

/// The candidates among the manager's signals, in order: they are sent to the viewer.
pub fn local_ice(signals: &Vec<SignalForward>) -> (r: Vec<String>)
    ensures
        r.deep_view() == signal_ice(signals.deep_view()),
{
    let ghost all = signals.deep_view().map_values(
        |s: SignalView| MessageView::SignalForward(s),
    );
    let mut out: Vec<String> = Vec::new();
    assert(out.deep_view() =~= ice_payloads(all.take(0)));
    let mut i: usize = 0;
    while i < signals.len()
        invariant
            i <= signals@.len(),
            all == signals.deep_view().map_values(|s: SignalView| MessageView::SignalForward(s)),
            out.deep_view() == ice_payloads(all.take(i as int)),
        decreases signals@.len() - i,
    {
        let ghost before = out.deep_view();
        let s = &signals[i];
        assert(all[i as int] == MessageView::SignalForward(s.deep_view()));
        assert(all.take(i + 1).drop_last() == all.take(i as int));
        if same(&s.kind, signal_kind::ICE_CANDIDATE) {
            out.push(s.payload.clone());
            assert(out.deep_view() =~= before.push(s.payload@));
        }
        i += 1;
    }
    assert(all.take(all.len() as int) == all);
    out
}

/// A sum that stays at the largest number.
pub open spec fn capped_sum(a: u32, b: u32) -> u32 {
    if a + b <= u32::MAX {
        (a + b) as u32
    } else {
        u32::MAX
    }
}

/// Whether a pump failed: it was skipped, or frames were asked for and none went out.
pub open spec fn pump_failed(pump: PumpStats, video_frames: u32) -> bool {
    pump.skipped_not_connected || (video_frames > 0 && pump.video_sent == 0)
}

/// The error of a pump that failed.
pub fn pump_fault(pump: &PumpStats, video_frames: u32) -> (r: Option<String>)
    ensures
        r is Some <==> pump_failed(*pump, video_frames),
        r matches Some(e) ==> e@ == "pump failed (skipped="@ + bool_text(
            pump.skipped_not_connected,
        ) + " video_sent="@ + decimal(pump.video_sent as nat) + ")"@,
{
    if pump.skipped_not_connected || (video_frames > 0 && pump.video_sent == 0) {
        let mut s = "pump failed (skipped=".to_string();
        s.append(bool_str(pump.skipped_not_connected));
        s.append(" video_sent=");
        push_number(&mut s, pump.video_sent as u64);
        s.append(")");
        Some(s)
    } else {
        None
    }
}

/// The larger of two counts.
pub open spec fn larger(a: u64, b: u32) -> nat {
    if a < b {
        b as nat
    } else {
        a as nat
    }
}

fn larger_of(a: u64, b: u32) -> (r: u64)
    ensures
        r == larger(a, b),
{
    if a < b as u64 {
        b as u64
    } else {
        a
    }
}

/// One line about an in-process session that was served.
pub fn local_summary(
    public_id: &str,
    session_id: &str,
    mode: TransportMode,
    counters: (u64, u64),
    pump: &PumpStats,
    live: bool,
    end_reason: &str,
    fingerprint: &str,
) -> (r: String)
    ensures
        r@ == "ws-host ok public_id="@ + public_id@ + " session="@ + session_id@
            + " media=local transport="@ + mode.name() + " video_tx="@ + decimal(
            larger(counters.0, pump.video_sent),
        ) + " audio_tx="@ + decimal(larger(counters.1, pump.audio_sent)) + " live="@ + bool_text(
            live,
        ) + " reason="@ + end_reason@ + " fp="@ + fingerprint@,
{
    let mut s = "ws-host ok public_id=".to_string();
    s.append(public_id);
    s.append(" session=");
    s.append(session_id);
    s.append(" media=local transport=");
    s.append(mode.as_str());
    s.append(" video_tx=");
    push_number(&mut s, larger_of(counters.0, pump.video_sent));
    s.append(" audio_tx=");
    push_number(&mut s, larger_of(counters.1, pump.audio_sent));
    s.append(" live=");
    s.append(bool_str(live));
    s.append(" reason=");
    s.append(end_reason);
    s.append(" fp=");
    s.append(fingerprint);
    s
}

/// How the service goes on after a session.
#[derive(Debug)]
pub enum AfterSession {
    /// The session was served; mint a new code for the next viewer if asked to. Then the tray
    /// may ask to exit.
    Completed { remint: bool },
    /// The session was ended from the tray, which may also ask to exit.
    TrayEnded,
    /// Wait for the next session.
    Next,
    /// Close the connection, with this error.
    Leave(String),
}

/// What an `AfterSession` says.
pub enum AfterView {
    Completed { remint: bool },
    TrayEnded,
    Next,
    Leave(Seq<char>),
}

impl DeepView for AfterSession {
    type V = AfterView;

    open spec fn deep_view(&self) -> AfterView {
        match self {
            AfterSession::Completed { remint } => AfterView::Completed { remint: *remint },
            AfterSession::TrayEnded => AfterView::TrayEnded,
            AfterSession::Next => AfterView::Next,
            AfterSession::Leave(e) => AfterView::Leave(e@),
        }
    }
}

/// How the service goes on after a connection.
#[derive(Debug)]
pub enum AfterConnection {
    /// The service is done.
    Finish,
    /// The service fails with this error.
    Fail(String),
    /// Connect again after a wait.
    RetryAfter { ms: u64 },
}

/// What an `AfterConnection` says.
pub enum RetryView {
    Finish,
    Fail(Seq<char>),
    RetryAfter { ms: u64 },
}

impl DeepView for AfterConnection {
    type V = RetryView;

    open spec fn deep_view(&self) -> RetryView {
        match self {
            AfterConnection::Finish => RetryView::Finish,
            AfterConnection::Fail(e) => RetryView::Fail(e@),
            AfterConnection::RetryAfter { ms } => RetryView::RetryAfter { ms: *ms },
        }
    }
}

/// The service loop: sessions back to back, connections one after another.
#[derive(Debug)]
pub struct ServiceLoop {
    max_sessions: u32,
    reconnect: bool,
    remints: bool,
    completed: u32,
    last_summary: String,
    backoff_ms: u64,
}

/// What a `ServiceLoop` holds.
pub struct LoopView {
    /// Sessions to serve; none means any number.
    pub max_sessions: u32,
    /// Whether a lost connection is made again.
    pub reconnect: bool,
    /// Whether a new code is minted after each session.
    pub remints: bool,
    /// Sessions served.
    pub completed: u32,
    /// The line about the last session served.
    pub last_summary: Seq<char>,
    /// The wait before the next attempt to connect.
    pub backoff_ms: u64,
}

impl DeepView for ServiceLoop {
    type V = LoopView;

    closed spec fn deep_view(&self) -> LoopView {
        LoopView {
            max_sessions: self.max_sessions,
            reconnect: self.reconnect,
            remints: self.remints,
            completed: self.completed,
            last_summary: self.last_summary@,
            backoff_ms: self.backoff_ms,
        }
    }
}

/// Whether a session error means that the connection is of no more use.
pub open spec fn connection_lost(e: Seq<char>) -> bool {
    occurs_in("connection closed"@, e) || occurs_in("connect"@, e) || occurs_in("ws "@, e)
        || occurs_in("agent control"@, e)
}

/// Whether a session error means that nobody came.
pub open spec fn nobody_came(e: Seq<char>) -> bool {
    occurs_in("wait incoming"@, e) || occurs_in("timeout"@, e)
}

/// The wait after the next one.
pub open spec fn next_backoff(ms: u64) -> u64 {
    if 2 * ms <= MAX_BACKOFF_MS {
        (2 * ms) as u64
    } else {
        MAX_BACKOFF_MS
    }
}

impl LoopView {
    /// Whether there is a session left to serve.
    pub open spec fn may_serve(self) -> bool {
        self.max_sessions == 0 || self.completed < self.max_sessions
    }

    /// Whether the service outlives one session.
    pub open spec fn lasts(self) -> bool {
        self.reconnect || self.max_sessions == 0 || self.max_sessions > 1
    }

    /// The loop after a session, and how it goes on.
    pub open spec fn after_session(self, result: Result<Seq<char>, Seq<char>>) -> (
        LoopView,
        AfterView,
    ) {
        match result {
            Ok(summary) => (
                LoopView {
                    last_summary: summary,
                    completed: capped_sum(self.completed, 1),
                    ..self
                },
                AfterView::Completed { remint: self.remints },
            ),
            Err(e) => (
                self,
                if occurs_in("ended from tray"@, e) {
                    AfterView::TrayEnded
                } else if self.lasts() && !connection_lost(e) && nobody_came(e) {
                    AfterView::Next
                } else {
                    AfterView::Leave(e)
                },
            ),
        }
    }

    /// The loop after a connection, and how it goes on. Each wait is twice the last one, up to a
    /// minute.
    pub open spec fn after_connection(self, error: Option<Seq<char>>) -> (LoopView, RetryView) {
        match error {
            None => (self, RetryView::Finish),
            Some(e) => if self.reconnect {
                (
                    LoopView { backoff_ms: next_backoff(self.backoff_ms), ..self },
                    RetryView::RetryAfter { ms: self.backoff_ms },
                )
            } else {
                (self, RetryView::Fail(e))
            },
        }
    }

    /// The line about the whole run.
    pub open spec fn summary(self, public_id: Seq<char>) -> Seq<char> {
        if self.last_summary.len() == 0 {
            "ws-host service exit public_id="@ + public_id + " sessions="@ + decimal(
                self.completed as nat,
            )
        } else {
            self.last_summary + "; service sessions_completed="@ + decimal(self.completed as nat)
        }
    }
}

impl ServiceLoop {
    /// The loop of a configuration.
    pub fn start(cfg: &WsHostConfig) -> (r: Self)
        ensures
            r.deep_view() == (LoopView {
                max_sessions: cfg.max_sessions,
                reconnect: cfg.reconnect,
                remints: cfg.video_frames == 0 && cfg.mint_otp,
                completed: 0,
                last_summary: Seq::empty(),
                backoff_ms: cfg.reconnect_backoff_ms,
            }),
    {
        let last_summary = String::new();
        assert(last_summary@ =~= Seq::<char>::empty());
        ServiceLoop {
            max_sessions: cfg.max_sessions,
            reconnect: cfg.reconnect,
            remints: cfg.video_frames == 0 && cfg.mint_otp,
            completed: 0,
            last_summary,
            backoff_ms: cfg.reconnect_backoff_ms,
        }
    }

    /// Whether there is a session left to serve.
    pub fn may_serve(&self) -> (r: bool)
        ensures
            r == self.deep_view().may_serve(),
    {
        self.max_sessions == 0 || self.completed < self.max_sessions
    }

    /// Sessions served so far.
    pub fn completed(&self) -> (r: u32)
        ensures
            r == self.deep_view().completed,
    {
        self.completed
    }

    fn lasts(&self) -> (r: bool)
        ensures
            r == self.deep_view().lasts(),
    {
        self.reconnect || self.max_sessions == 0 || self.max_sessions > 1
    }

    /// A session was served or failed.
    pub fn session_ended(&mut self, result: Result<String, String>) -> (r: AfterSession)
        ensures
            (final(self).deep_view(), r.deep_view()) == old(self).deep_view().after_session(
                match result {
                    Ok(s) => Ok(s@),
                    Err(e) => Err(e@),
                },
            ),
    {
        match result {
            Ok(summary) => {
                self.last_summary = summary;
                self.completed = self.completed.saturating_add(1);
                AfterSession::Completed { remint: self.remints }
            },
            Err(e) => {
                let t = chars_of(&e);
                if contains_text(&t, "ended from tray") {
                    return AfterSession::TrayEnded;
                }
                let lost = contains_text(&t, "connection closed") || contains_text(&t, "connect")
                    || contains_text(&t, "ws ") || contains_text(&t, "agent control");
                let nobody = contains_text(&t, "wait incoming") || contains_text(&t, "timeout");
                if self.lasts() && !lost && nobody {
                    AfterSession::Next
                } else {
                    AfterSession::Leave(e)
                }
            },
        }
    }

    /// Whether the connection is kept after the tray ended a session; `exit` says whether it asked
    /// to exit as well.
    pub fn keeps_serving(&self, exit: bool) -> (r: bool)
        ensures
            r == (!exit && self.deep_view().lasts()),
    {
        !exit && self.lasts()
    }

    /// A connection came to its end, or could not be made.
    pub fn connection_ended(&mut self, error: Option<String>) -> (r: AfterConnection)
        ensures
            (final(self).deep_view(), r.deep_view()) == old(self).deep_view().after_connection(
                error.deep_view(),
            ),
    {
        match error {
            None => AfterConnection::Finish,
            Some(e) => {
                if !self.reconnect {
                    return AfterConnection::Fail(e);
                }
                let ms: u64 = self.backoff_ms;
                self.backoff_ms = if ms <= MAX_BACKOFF_MS / 2 {
                    2 * ms
                } else {
                    MAX_BACKOFF_MS
                };
                AfterConnection::RetryAfter { ms }
            },
        }
    }

    /// The line about the whole run.
    pub fn summary(&self, public_id: &str) -> (r: String)
        ensures
            r@ == self.deep_view().summary(public_id@),
    {
        if self.last_summary.as_str().unicode_len() == 0 {
            let mut s = "ws-host service exit public_id=".to_string();
            s.append(public_id);
            s.append(" sessions=");
            push_number(&mut s, self.completed as u64);
            s
        } else {
            let mut s = self.last_summary.clone();
            s.append("; service sessions_completed=");
            push_number(&mut s, self.completed as u64);
            s
        }
    }
}

/// A service with a limit never serves more sessions than it may, and a failed one does not count.
pub proof fn law_sessions_stay_within_limit(l: LoopView, result: Result<Seq<char>, Seq<char>>)
    requires
        l.max_sessions > 0,
        l.completed <= l.max_sessions,
        l.may_serve(),
    ensures
        l.after_session(result).0.completed <= l.max_sessions,
        result is Err ==> l.after_session(result).0 == l,
{
}

/// The loop after so many failed connections in a row.
pub open spec fn after_failures(l: LoopView, errors: Seq<Seq<char>>) -> LoopView
    decreases errors.len(),
{
    if errors.len() == 0 {
        l
    } else {
        after_failures(l, errors.drop_last()).after_connection(Some(errors.last())).0
    }
}

/// The wait doubles with each failed connection and never passes a minute, once it is below that;
/// nothing else changes.
pub proof fn law_backoff_doubles_up_to_a_minute(l: LoopView, errors: Seq<Seq<char>>)
    requires
        l.reconnect,
        l.backoff_ms <= MAX_BACKOFF_MS,
    ensures
        ({
            let after = after_failures(l, errors);
            &&& l.backoff_ms <= after.backoff_ms <= MAX_BACKOFF_MS
            &&& after == (LoopView { backoff_ms: after.backoff_ms, ..l })
            &&& after.after_connection(Some(Seq::empty())).0.backoff_ms == (if 2
                * after.backoff_ms <= MAX_BACKOFF_MS {
                2 * after.backoff_ms
            } else {
                MAX_BACKOFF_MS as int
            })
        }),
    decreases errors.len(),
{
    if errors.len() > 0 {
        law_backoff_doubles_up_to_a_minute(l, errors.drop_last());
    }
}

/// A served session counts once and is what the service speaks of last; whether a new code is
/// minted for the next viewer is settled for the whole run.
pub proof fn law_served_session_counts_once(l: LoopView, summary: Seq<char>)
    requires
        l.completed < u32::MAX,
    ensures
        ({
            let (after, step) = l.after_session(Ok(summary));
            &&& step matches AfterView::Completed { remint } && remint == l.remints
            &&& after.completed == l.completed + 1
            &&& after.last_summary == summary
            &&& after.max_sessions == l.max_sessions
            &&& after.reconnect == l.reconnect
            &&& after.remints == l.remints
            &&& after.backoff_ms == l.backoff_ms
        }),
{
}

/// The loop after so many sessions that were served.
pub open spec fn after_served(l: LoopView, summaries: Seq<Seq<char>>) -> LoopView
    decreases summaries.len(),
{
    if summaries.len() == 0 {
        l
    } else {
        after_served(l, summaries.drop_last()).after_session(Ok(summaries.last())).0
    }
}

/// A service with a limit serves exactly as many sessions as it may; one without serves any number.
pub proof fn law_limit_is_the_number_of_sessions(l: LoopView, summaries: Seq<Seq<char>>)
    requires
        l.completed == 0,
        summaries.len() <= u32::MAX,
    ensures
        ({
            let after = after_served(l, summaries);
            &&& after.completed == summaries.len()
            &&& l.max_sessions > 0 ==> (after.may_serve() <==> summaries.len() < l.max_sessions)
            &&& l.max_sessions == 0 ==> after.may_serve()
            &&& summaries.len() > 0 ==> after.last_summary == summaries.last()
        }),
    decreases summaries.len(),
{
    lemma_served(l, summaries);
}

proof fn lemma_served(l: LoopView, summaries: Seq<Seq<char>>)
    requires
        l.completed == 0,
        summaries.len() <= u32::MAX,
    ensures
        ({
            let after = after_served(l, summaries);
            &&& after.completed == summaries.len()
            &&& after.max_sessions == l.max_sessions
            &&& summaries.len() > 0 ==> after.last_summary == summaries.last()
        }),
    decreases summaries.len(),
{
    if summaries.len() > 0 {
        lemma_served(l, summaries.drop_last());
    }
}

/// What a failed session leads to. One that the tray ended is no failure of the connection. A viewer
/// that did not come in time is waited for again, unless the connection is gone or the program
/// serves one session only. Everything else gives up the connection, with the error it met.
pub proof fn law_failed_session_leads_on(l: LoopView, e: Seq<char>)
    ensures
        ({
            let (after, step) = l.after_session(Err(e));
            let once = !l.reconnect && l.max_sessions == 1;
            let gone = occurs_in("connect"@, e) || occurs_in("ws "@, e) || occurs_in(
                "agent control"@,
                e,
            );
            let late = occurs_in("timeout"@, e) || occurs_in("wait incoming"@, e);
            &&& after == l
            &&& occurs_in("ended from tray"@, e) <==> step is TrayEnded
            &&& !(step is Completed)
            &&& step matches AfterView::Leave(x) ==> x == e
            &&& step is Next ==> late && !gone && !once
            &&& late && !gone && !once && !occurs_in("ended from tray"@, e) ==> step is Next
        }),
{
    let m = "connection closed"@;
    reveal_strlit("connection closed");
    reveal_strlit("connect");
    if occurs_in(m, e) {
        let k = choose|k: int| 0 <= k <= e.len() - m.len() && #[trigger] e.subrange(
            k,
            k + m.len(),
        ) == m;
        assert(e.subrange(k, k + "connect"@.len()) =~= "connect"@) by {
            assert forall|i: int| 0 <= i < "connect"@.len() implies e.subrange(
                k,
                k + "connect"@.len(),
            )[i] == "connect"@[i] by {
                assert(e.subrange(k, k + m.len())[i] == m[i]);
            }
        }
        assert(occurs_in("connect"@, e));
    }
}

/// A connection that ended well ends the service. One that failed is made again after the wait that
/// was due, where the service reconnects, and otherwise fails the service with the same error.
pub proof fn law_lost_connection_is_made_again(l: LoopView, e: Seq<char>)
    ensures
        l.after_connection(None).0 == l,
        l.after_connection(None).1 is Finish,
        l.reconnect ==> l.after_connection(Some(e)).1 == (RetryView::RetryAfter {
            ms: l.backoff_ms,
        }),
        !l.reconnect ==> l.after_connection(Some(e)).1 == RetryView::Fail(e),
        l.after_connection(Some(e)).0.completed == l.completed,
        l.after_connection(Some(e)).0.last_summary == l.last_summary,
        l.reconnect && 0 < l.backoff_ms <= 30_000 ==> l.after_connection(Some(e)).0.backoff_ms == 2
            * l.backoff_ms,
        l.reconnect && l.backoff_ms > 30_000 ==> l.after_connection(Some(e)).0.backoff_ms == 60_000,
{
}

/// The line about a run ends with the number of sessions and begins with what was served last.
pub proof fn law_summary_tells_the_sessions(l: LoopView, public_id: Seq<char>)
    ensures
        ({
            let line = l.summary(public_id);
            let count = decimal(l.completed as nat);
            &&& line.len() >= count.len()
            &&& line.skip(line.len() - count.len()) == count
            &&& l.last_summary.len() > 0 ==> line.take(l.last_summary.len() as int)
                == l.last_summary
            &&& l.last_summary.len() == 0 ==> occurs_in(public_id, line)
        }),
{
    let line = l.summary(public_id);
    let count = decimal(l.completed as nat);
    assert(line.skip(line.len() - count.len()) =~= count);
    if l.last_summary.len() == 0 {
        let at = "ws-host service exit public_id="@.len() as int;
        assert(line.subrange(at, at + public_id.len()) =~= public_id);
    } else {
        assert(line.take(l.last_summary.len() as int) =~= l.last_summary);
    }
}

/// Candidates are relayed each once and in the order they came in, and nothing but candidates is.
pub proof fn law_candidates_are_relayed_in_order(
    a: Seq<MessageView>,
    b: Seq<MessageView>,
    s: SignalView,
    other: MessageView,
)
    requires
        !(other is SignalForward),
    ensures
        ice_payloads(a + b) == ice_payloads(a) + ice_payloads(b),
        ice_payloads(seq![other]).len() == 0,
        s.kind == "ice_candidate"@ ==> ice_payloads(seq![MessageView::SignalForward(s)])
            == seq![s.payload],
        s.kind != "ice_candidate"@ ==> ice_payloads(seq![MessageView::SignalForward(s)]).len() == 0,
    decreases b.len(),
{
    reveal_with_fuel(ice_payloads, 2);
    assert(seq![other].drop_last() =~= Seq::<MessageView>::empty());
    let one = seq![MessageView::SignalForward(s)];
    assert(one.drop_last() =~= Seq::<MessageView>::empty());
    if s.kind == "ice_candidate"@ {
        assert(ice_payloads(one) =~= seq![s.payload]);
    }
    if b.len() == 0 {
        assert(a + b =~= a);
        assert(ice_payloads(a) + ice_payloads(b) =~= ice_payloads(a));
    } else {
        law_candidates_are_relayed_in_order(a, b.drop_last(), s, other);
        assert((a + b).drop_last() =~= a + b.drop_last());
        assert(ice_payloads(a + b) =~= ice_payloads(a) + ice_payloads(b));
    }
}

/// Offers are found each once and in the order they came in, and nothing but offers is.
pub proof fn law_offers_are_found_in_order(
    a: Seq<MessageView>,
    b: Seq<MessageView>,
    s: SignalView,
    other: MessageView,
)
    requires
        !(other is SignalForward),
    ensures
        offer_payloads(a + b) == offer_payloads(a) + offer_payloads(b),
        offer_payloads(seq![other]).len() == 0,
        s.kind == "session_offer"@ ==> offer_payloads(seq![MessageView::SignalForward(s)])
            == seq![s.payload],
        s.kind != "session_offer"@ ==> offer_payloads(seq![MessageView::SignalForward(s)]).len()
            == 0,
    decreases b.len(),
{
    reveal_with_fuel(offer_payloads, 2);
    assert(seq![other].drop_last() =~= Seq::<MessageView>::empty());
    let one = seq![MessageView::SignalForward(s)];
    assert(one.drop_last() =~= Seq::<MessageView>::empty());
    if s.kind == "session_offer"@ {
        assert(offer_payloads(one) =~= seq![s.payload]);
    }
    if b.len() == 0 {
        assert(a + b =~= a);
        assert(offer_payloads(a) + offer_payloads(b) =~= offer_payloads(a));
    } else {
        law_offers_are_found_in_order(a, b.drop_last(), s, other);
        assert((a + b).drop_last() =~= a + b.drop_last());
        assert(offer_payloads(a + b) =~= offer_payloads(a) + offer_payloads(b));
    }
}

/// The offer of this process is the first one among its signals, and there is none only where no
/// signal is an offer.
pub proof fn law_first_offer_goes_out(signals: Seq<SignalView>)
    ensures
        match first_offer(signals) {
            Some(p) => exists|i: int|
                {
                    &&& 0 <= i < signals.len()
                    &&& (#[trigger] signals[i]).kind == "session_offer"@
                    &&& signals[i].payload == p
                    &&& forall|j: int|
                        0 <= j < i ==> (#[trigger] signals[j]).kind != "session_offer"@
                },
            None => forall|j: int|
                0 <= j < signals.len() ==> (#[trigger] signals[j]).kind != "session_offer"@,
        },
    decreases signals.len(),
{
    if signals.len() > 0 && signals[0].kind != "session_offer"@ {
        let rest = signals.skip(1);
        law_first_offer_goes_out(rest);
        match first_offer(signals) {
            Some(p) => {
                let i = choose|i: int|
                    {
                        &&& 0 <= i < rest.len()
                        &&& (#[trigger] rest[i]).kind == "session_offer"@
                        &&& rest[i].payload == p
                        &&& forall|j: int|
                            0 <= j < i ==> (#[trigger] rest[j]).kind != "session_offer"@
                    };
                assert(signals[i + 1] == rest[i]);
                assert forall|j: int| 0 <= j < i + 1 implies (#[trigger] signals[j]).kind
                    != "session_offer"@ by {
                    if j > 0 {
                        assert(signals[j] == rest[j - 1]);
                    }
                }
            },
            None => {
                assert forall|j: int| 0 <= j < signals.len() implies (#[trigger] signals[j]).kind
                    != "session_offer"@ by {
                    if j > 0 {
                        assert(signals[j] == rest[j - 1]);
                    }
                }
            },
        }
    }
}

/// The candidates of this process go out each once and in order.
pub proof fn law_own_candidates_go_out_in_order(a: Seq<SignalView>, s: SignalView)
    ensures
        signal_ice(Seq::empty()).len() == 0,
        signal_ice(a.push(s)) == (if s.kind == "ice_candidate"@ {
            signal_ice(a).push(s.payload)
        } else {
            signal_ice(a)
        }),
{
    let f = |s: SignalView| MessageView::SignalForward(s);
    assert(a.push(s).map_values(f).drop_last() =~= a.map_values(f));
    assert(a.push(s).map_values(f).last() == MessageView::SignalForward(s));
}

/// Tokens are refreshed at a server that is known, and a configured server of one's own is never
/// left for another.
pub proof fn law_tokens_go_to_a_known_server(configured: Seq<char>, of_file: Seq<char>)
    ensures
        refresh_server(configured, of_file) == configured || refresh_server(configured, of_file)
            == of_file,
        !lab_server(configured) ==> refresh_server(configured, of_file) == configured,
        configured.len() > 0 ==> refresh_server(configured, of_file).len() > 0,
        lab_server(configured) && of_file.len() > 0 ==> refresh_server(configured, of_file)
            == of_file,
        lab_server(DEFAULT_LAB_SERVER@),
{
}

/// An ended session always has a reason: the viewer's own, where it gave one.
pub proof fn law_viewer_end_has_a_reason(reason: Seq<char>)
    ensures
        viewer_reason(reason).len() > 0,
        reason.len() > 0 ==> viewer_reason(reason) == reason,
{
    reveal_strlit("viewer_session_end");
}

/// Only a live session changes how media is set up. It captures the desktop where there is a way
/// to, encodes in software, and leaves everything else as it was.
pub proof fn law_live_session_captures_the_desktop(setup: SetupView, platform: Platform)
    ensures
        live_setup(setup, false, platform) == setup,
        live_setup(setup, true, platform).force_software,
        live_setup(setup, true, Platform::Windows).video_kind == Some(
            VideoCaptureKind::WindowsDxgi,
        ),
        live_setup(setup, true, Platform::Windows).audio_kind == Some(
            AudioCaptureKind::WindowsWasapiPreferNative,
        ),
        platform != Platform::Windows ==> live_setup(setup, true, platform).video_kind
            == setup.video_kind && live_setup(setup, true, platform).audio_kind
            == setup.audio_kind,
        live_setup(live_setup(setup, true, platform), true, platform) == live_setup(
            setup,
            true,
            platform,
        ),
{
}

/// A pump that reached the viewer did not fail, one that was never connected did, and one that was
/// asked for frames has to have sent some.
pub proof fn law_pump_has_to_send(pump: PumpStats, video_frames: u32)
    ensures
        pump.skipped_not_connected ==> pump_failed(pump, video_frames),
        !pump.skipped_not_connected && pump.video_sent > 0 ==> !pump_failed(pump, video_frames),
        !pump.skipped_not_connected ==> !pump_failed(pump, 0),
        video_frames > 0 && pump.video_sent == 0 ==> pump_failed(pump, video_frames),
{
}

/// Counts add up as long as they fit and never fall; of two counts the larger is reported.
pub proof fn law_counts(a: u32, b: u32, n: u64)
    ensures
        capped_sum(a, b) >= a && capped_sum(a, b) >= b,
        capped_sum(a, b) == capped_sum(b, a),
        capped_sum(a, b) < u32::MAX ==> capped_sum(a, b) == a + b,
        larger(n, b) >= n && larger(n, b) >= b,
        larger(n, b) == n || larger(n, b) == b,
{
}

} // verus!
