//! Host-local session policy: OTP mint window + unattended Mode B gate.
//!
//! - **Mode A:** the host mints an OTP, keeps an active window, and shows the code. The server may
//!   store its hash for prefiltering.
//! - **Mode B:** host-only secret; rejected unless `unattended_enabled`.
//! - **Local confirm:** when `confirm_sessions` is set, incoming sessions need an explicit accept.
//!
//! Hashing, code generation and verification happen outside; what they gave is handed in.

use vstd::prelude::*;
use vstd::std_specs::cmp::PartialEqSpecImpl;
use crate::hex_text::{hex_encode, hex_of};
use crate::host::session::{
    opt_bytes, outcome, AuthError, AuthErrorView, ManagerView, IdentityView, SessionError,
    SessionErrorView, SessionManager,
};
use crate::text::{
    ascii, ascii_bytes, chars_of, is_white, lemma_trimmed_end, lemma_trimmed_start, string_of, trim,
    trimmed, trimmed_end, trimmed_start,
};

verus! {

/// Default OTP pepper when none is configured, as text. The server has to use the same one for
/// prefiltering.
pub const DEFAULT_HOST_OTP_PEPPER: &'static str = "remotelink-otp-server-pepper-v1!";

/// Default OTP TTL in seconds (15 minutes).
pub const DEFAULT_OTP_TTL_SECS: u64 = 900;

/// Default OTP length.
pub const OTP_DEFAULT_DIGITS: usize = 6;

/// Host-local configuration (tray / service).
#[derive(Debug, Clone, Copy, PartialEq, Eq, Structural)]
pub struct HostLocalConfig {
    /// When false, Mode B (unattended) session auth is rejected.
    pub unattended_enabled: bool,
    /// When true, require local accept before a session is accepted.
    pub confirm_sessions: bool,
    /// OTP digit length (6–8).
    pub otp_digits: usize,
    /// OTP window lifetime in seconds.
    pub otp_ttl_secs: u64,
}

impl HostLocalConfig {
    /// The default configuration.
    pub open spec fn standard() -> HostLocalConfig {
        HostLocalConfig {
            unattended_enabled: false,
            confirm_sessions: false,
            otp_digits: OTP_DEFAULT_DIGITS,
            otp_ttl_secs: DEFAULT_OTP_TTL_SECS,
        }
    }
}

impl Default for HostLocalConfig {
    fn default() -> (r: Self)
        ensures
            r == HostLocalConfig::standard(),
    {
        HostLocalConfig {
            unattended_enabled: false,
            confirm_sessions: false,
            otp_digits: OTP_DEFAULT_DIGITS,
            otp_ttl_secs: DEFAULT_OTP_TTL_SECS,
        }
    }
}

/// A salted hash of a code.
#[derive(Debug)]
pub struct OtpHash {
    pub digest: Vec<u8>,
    pub salt: Vec<u8>,
    pub keyed: bool,
}

/// What an `OtpHash` holds.
pub struct HashView {
    pub digest: Seq<u8>,
    pub salt: Seq<u8>,
    pub keyed: bool,
}

impl DeepView for OtpHash {
    type V = HashView;

    open spec fn deep_view(&self) -> HashView {
        HashView { digest: self.digest@, salt: self.salt@, keyed: self.keyed }
    }
}

impl OtpHash {
    /// The same hash again.
    pub fn copied(&self) -> (r: OtpHash)
        ensures
            r.deep_view() == self.deep_view(),
    {
        OtpHash {
            digest: vstd::slice::slice_to_vec(self.digest.as_slice()),
            salt: vstd::slice::slice_to_vec(self.salt.as_slice()),
            keyed: self.keyed,
        }
    }
}

/// Snapshot of the active OTP window (no plaintext after it was shown).
#[derive(Debug)]
pub struct ActiveOtpWindow {
    hash: OtpHash,
    expires_at_unix: u64,
}

/// What an `ActiveOtpWindow` holds.
pub struct WindowView {
    pub hash: HashView,
    pub expires_at_unix: u64,
}

impl DeepView for ActiveOtpWindow {
    type V = WindowView;

    closed spec fn deep_view(&self) -> WindowView {
        WindowView { hash: self.hash.deep_view(), expires_at_unix: self.expires_at_unix }
    }
}

impl ActiveOtpWindow {
    /// Stored hash (for the server).
    pub fn hash(&self) -> (r: &OtpHash)
        ensures
            r.deep_view() == self.deep_view().hash,
    {
        &self.hash
    }

    /// Absolute expiry as unix seconds.
    pub fn expires_at_unix(&self) -> (r: u64)
        ensures
            r == self.deep_view().expires_at_unix,
    {
        self.expires_at_unix
    }
}

/// Outcome of a local confirm decision.
#[derive(Debug, Clone, Copy, PartialEq, Eq, Structural)]
pub enum ConfirmDecision {
    /// Auto-accept (confirm_sessions = false).
    AutoAccept,
    /// User/tray accepted.
    Accepted,
    /// User/tray denied.
    Denied,
    /// Waiting for the user (confirm_sessions = true, not yet answered).
    Pending,
}

/// How a viewer wants to be authorized.
#[derive(Debug, Clone, Copy, PartialEq, Eq, Structural)]
pub enum SessionMode {
    /// One-time code (Mode A).
    Otp,
    /// Host-only secret (Mode B).
    Unattended,
    /// Account password.
    Password,
}

/// Why a session is rejected on the wire.
#[derive(Debug, Clone, Copy, PartialEq, Eq, Structural)]
pub enum RejectReason {
    Policy,
    Auth,
}

/// What the server's prefilter said of a code. It is advisory.
#[derive(Debug, Clone, Copy, PartialEq, Eq, Structural)]
pub enum OtpPrefilterStatus {
    Passed,
    Skipped,
    Absent,
}

/// Outcome of `HostAuthService::decide_session_accept`.
#[derive(Debug)]
pub enum SessionAcceptDecision {
    /// The host may accept the session (Mode A may give a bind key after consume).
    Allow { bind_key: Option<Vec<u8>> },
    /// Waiting for local confirm.
    NeedConfirm,
    /// Mode A needs the viewer's code for host re-validation.
    NeedOtpCode,
    /// The host must reject the session for this reason.
    Deny { reason: RejectReason },
}

/// What a `SessionAcceptDecision` says.
pub enum AcceptView {
    Allow { bind_key: Option<Seq<u8>> },
    NeedConfirm,
    NeedOtpCode,
    Deny { reason: RejectReason },
}

impl DeepView for SessionAcceptDecision {
    type V = AcceptView;

    open spec fn deep_view(&self) -> AcceptView {
        match self {
            SessionAcceptDecision::Allow { bind_key } => AcceptView::Allow {
                bind_key: opt_bytes(*bind_key),
            },
            SessionAcceptDecision::NeedConfirm => AcceptView::NeedConfirm,
            SessionAcceptDecision::NeedOtpCode => AcceptView::NeedOtpCode,
            SessionAcceptDecision::Deny { reason } => AcceptView::Deny { reason: *reason },
        }
    }
}

/// Two decisions are equal where they tell the service to do the same: bind keys are not compared,
/// only whether there is one.
impl PartialEq for SessionAcceptDecision {
    fn eq(&self, other: &Self) -> (r: bool) {
        match (self, other) {
            (SessionAcceptDecision::NeedConfirm, SessionAcceptDecision::NeedConfirm) => true,
            (SessionAcceptDecision::NeedOtpCode, SessionAcceptDecision::NeedOtpCode) => true,
            (
                SessionAcceptDecision::Allow { bind_key: a },
                SessionAcceptDecision::Allow { bind_key: b },
            ) => a.is_some() == b.is_some(),
            (
                SessionAcceptDecision::Deny { reason: a },
                SessionAcceptDecision::Deny { reason: b },
            ) => *a == *b,
            _ => false,
        }
    }
}

impl PartialEqSpecImpl for SessionAcceptDecision {
    open spec fn obeys_eq_spec() -> bool {
        true
    }

    open spec fn eq_spec(&self, other: &Self) -> bool {
        match (self.deep_view(), other.deep_view()) {
            (AcceptView::Allow { bind_key: a }, AcceptView::Allow { bind_key: b }) => a is Some
                == b is Some,
            (a, b) => a == b,
        }
    }
}

impl Eq for SessionAcceptDecision {

}

/// Policy / OTP errors.
#[derive(Debug, PartialEq, Eq)]
pub enum PolicyError {
    /// Mode B rejected because `unattended_enabled` is false.
    UnattendedDisabled,
    /// Mode B enabled but no host secret is installed.
    UnattendedSecretMissing,
    /// Mode A consume without a live mint window.
    NoActiveOtp,
    /// Verification, format or crypto failure.
    Auth(String),
}

/// What a `PolicyError` says.
pub enum PolicyErrorView {
    UnattendedDisabled,
    UnattendedSecretMissing,
    NoActiveOtp,
    Auth(Seq<char>),
}

impl DeepView for PolicyError {
    type V = PolicyErrorView;

    open spec fn deep_view(&self) -> PolicyErrorView {
        match self {
            PolicyError::UnattendedDisabled => PolicyErrorView::UnattendedDisabled,
            PolicyError::UnattendedSecretMissing => PolicyErrorView::UnattendedSecretMissing,
            PolicyError::NoActiveOtp => PolicyErrorView::NoActiveOtp,
            PolicyError::Auth(e) => PolicyErrorView::Auth(e@),
        }
    }
}

impl PolicyErrorView {
    /// The error as a message.
    pub open spec fn text(self) -> Seq<char> {
        match self {
            PolicyErrorView::UnattendedDisabled =>
                "unattended Mode B is disabled (set unattended_enabled)"@,
            PolicyErrorView::UnattendedSecretMissing =>
                "unattended enabled but host secret is not configured"@,
            PolicyErrorView::NoActiveOtp => "no active OTP window"@,
            PolicyErrorView::Auth(e) => "auth: "@ + e,
        }
    }
}

impl PolicyError {
    /// The error as a message.
    pub fn to_string(&self) -> (r: String)
        ensures
            r@ == self.deep_view().text(),
    {
        match self {
            PolicyError::UnattendedDisabled =>
                "unattended Mode B is disabled (set unattended_enabled)".to_string(),
            PolicyError::UnattendedSecretMissing =>
                "unattended enabled but host secret is not configured".to_string(),
            PolicyError::NoActiveOtp => "no active OTP window".to_string(),
            PolicyError::Auth(e) => "auth: ".to_string().concat(e),
        }
    }
}

/// The outcome of a policy operation, by its contents.
pub open spec fn policy_outcome<T>(r: Result<T, PolicyError>) -> Result<T, PolicyErrorView> {
    match r {
        Ok(v) => Ok(v),
        Err(e) => Err(e.deep_view()),
    }
}

/// A code that was minted, with its hash.
#[derive(Debug)]
pub struct FreshOtp {
    /// Plaintext, shown on the host only.
    pub code: String,
    pub hash: OtpHash,
}

/// Host-side auth + policy service.
#[derive(Debug)]
pub struct HostAuthService {
    config: HostLocalConfig,
    otp_pepper: Vec<u8>,
    host_secret: Option<Vec<u8>>,
    active_otp: Option<ActiveOtpWindow>,
    last_otp_code: Option<String>,
}

/// What a `HostAuthService` holds.
pub struct PolicyView {
    pub config: HostLocalConfig,
    /// Pepper for keyed OTP hashes (shared with the server for prefiltering).
    pub otp_pepper: Seq<u8>,
    /// Mode B host-only secret (never sent to the server).
    pub host_secret: Option<Seq<u8>>,
    /// Active Mode A OTP window.
    pub active_otp: Option<WindowView>,
    /// Last minted plaintext.
    pub last_otp_code: Option<Seq<char>>,
}

impl DeepView for HostAuthService {
    type V = PolicyView;

    closed spec fn deep_view(&self) -> PolicyView {
        PolicyView {
            config: self.config,
            otp_pepper: self.otp_pepper@,
            host_secret: opt_bytes(self.host_secret),
            active_otp: self.active_otp.deep_view(),
            last_otp_code: self.last_otp_code.deep_view(),
        }
    }
}

impl PolicyView {
    /// Whether a session mode is allowed by local policy.
    pub open spec fn allows(self, mode: SessionMode) -> Result<(), PolicyErrorView> {
        match mode {
            SessionMode::Otp => Ok(()),
            SessionMode::Password => Ok(()),
            SessionMode::Unattended => if !self.config.unattended_enabled {
                Err(PolicyErrorView::UnattendedDisabled)
            } else if self.host_secret is None {
                Err(PolicyErrorView::UnattendedSecretMissing)
            } else {
                Ok(())
            },
        }
    }

    /// The local confirm gate.
    pub open spec fn confirm(self, user_accepted: Option<bool>) -> ConfirmDecision {
        if !self.config.confirm_sessions {
            ConfirmDecision::AutoAccept
        } else {
            match user_accepted {
                Some(true) => ConfirmDecision::Accepted,
                Some(false) => ConfirmDecision::Denied,
                None => ConfirmDecision::Pending,
            }
        }
    }

    /// When a window that is minted at `now` expires.
    pub open spec fn expiry(self, now: u64) -> u64 {
        let ttl = if self.config.otp_ttl_secs < 1 {
            1
        } else {
            self.config.otp_ttl_secs
        };
        if now + ttl <= u64::MAX {
            (now + ttl) as u64
        } else {
            u64::MAX
        }
    }

    /// The service after its code was verified, and the key or the error.
    pub open spec fn consumed(self, verified: Result<Seq<u8>, AuthErrorView>) -> (
        PolicyView,
        Result<Seq<u8>, PolicyErrorView>,
    ) {
        if self.active_otp is None {
            (self, Err(PolicyErrorView::NoActiveOtp))
        } else {
            match verified {
                Ok(key) => (PolicyView { active_otp: None, ..self }, Ok(key)),
                Err(e) => (self, Err(PolicyErrorView::Auth(e.text()))),
            }
        }
    }

    /// The service after an incoming session was decided on, and the decision. `expired` says
    /// whether the active window is past its lifetime, `verified` what verifying the code gave.
    pub open spec fn decided(
        self,
        mode: SessionMode,
        otp_code: Option<Seq<char>>,
        user_accepted: Option<bool>,
        expired: bool,
        verified: Result<Seq<u8>, AuthErrorView>,
    ) -> (PolicyView, AcceptView) {
        match self.confirm(user_accepted) {
            ConfirmDecision::Denied => (self, AcceptView::Deny { reason: RejectReason::Policy }),
            ConfirmDecision::Pending => (self, AcceptView::NeedConfirm),
            _ => match mode {
                SessionMode::Unattended => (
                    self,
                    if self.allows(mode) is Ok {
                        AcceptView::Allow { bind_key: None }
                    } else {
                        AcceptView::Deny { reason: RejectReason::Policy }
                    },
                ),
                SessionMode::Password => (self, AcceptView::Allow { bind_key: None }),
                SessionMode::Otp => if has_code(otp_code) {
                    let (next, r) = self.consumed(verified);
                    (
                        next,
                        match r {
                            Ok(key) => AcceptView::Allow { bind_key: Some(key) },
                            Err(_) => AcceptView::Deny { reason: RejectReason::Auth },
                        },
                    )
                } else if self.active_otp is None || expired {
                    (self, AcceptView::Deny { reason: RejectReason::Auth })
                } else {
                    (self, AcceptView::NeedOtpCode)
                },
            },
        }
    }
}

/// Whether the viewer gave a code.
pub open spec fn has_code(otp_code: Option<Seq<char>>) -> bool {
    otp_code matches Some(c) && trimmed(c).len() > 0
}

/// What an optional text slice holds.
pub open spec fn opt_text(s: Option<&str>) -> Option<Seq<char>> {
    match s {
        Some(t) => Some(t@),
        None => None,
    }
}

/// What a verification gave, by its contents.
pub open spec fn verdict(v: Result<Vec<u8>, AuthError>) -> Result<Seq<u8>, AuthErrorView> {
    match v {
        Ok(key) => Ok(key@),
        Err(e) => Err(e.deep_view()),
    }
}

/// The default pepper in bytes.
pub open spec fn default_pepper() -> Seq<u8> {
    ascii(DEFAULT_HOST_OTP_PEPPER@)
}

impl Default for HostAuthService {
    fn default() -> (r: Self)
        ensures
            r.deep_view() == (PolicyView {
                config: HostLocalConfig::standard(),
                otp_pepper: default_pepper(),
                host_secret: None,
                active_otp: None,
                last_otp_code: None,
            }),
    {
        HostAuthService::new(HostLocalConfig::default(), ascii_bytes(DEFAULT_HOST_OTP_PEPPER))
    }
}

impl HostAuthService {
    /// Create with config and OTP pepper.
    pub fn new(config: HostLocalConfig, otp_pepper: Vec<u8>) -> (r: Self)
        ensures
            r.deep_view() == (PolicyView {
                config,
                otp_pepper: otp_pepper@,
                host_secret: None,
                active_otp: None,
                last_otp_code: None,
            }),
    {
        HostAuthService {
            config,
            otp_pepper,
            host_secret: None,
            active_otp: None,
            last_otp_code: None,
        }
    }

    /// Borrow local config.
    pub fn config(&self) -> (r: &HostLocalConfig)
        ensures
            *r == self.deep_view().config,
    {
        &self.config
    }

    /// Mutable config (tray settings).
    pub fn config_mut(&mut self) -> (r: &mut HostLocalConfig)
        ensures
            *r == old(self).deep_view().config,
            final(self).deep_view() == (PolicyView { config: *final(r), ..old(self).deep_view() }),
    {
        &mut self.config
    }

    /// Enable or disable Mode B unattended access.
    pub fn set_unattended_enabled(&mut self, enabled: bool)
        ensures
            final(self).deep_view() == (PolicyView {
                config: HostLocalConfig {
                    unattended_enabled: enabled,
                    ..old(self).deep_view().config
                },
                ..old(self).deep_view()
            }),
    {
        self.config.unattended_enabled = enabled;
    }

    /// Enable or disable the local accept requirement.
    pub fn set_confirm_sessions(&mut self, enabled: bool)
        ensures
            final(self).deep_view() == (PolicyView {
                config: HostLocalConfig {
                    confirm_sessions: enabled,
                    ..old(self).deep_view().config
                },
                ..old(self).deep_view()
            }),
    {
        self.config.confirm_sessions = enabled;
    }

    /// Install or replace the Mode B host secret.
    pub fn set_host_secret(&mut self, secret: Vec<u8>)
        ensures
            final(self).deep_view() == (PolicyView {
                host_secret: Some(secret@),
                ..old(self).deep_view()
            }),
    {
        self.host_secret = Some(secret);
    }

    /// Install a freshly generated Mode B secret and enable unattended.
    pub fn enable_unattended_with_generated_secret(&mut self, generated: Vec<u8>)
        ensures
            final(self).deep_view() == (PolicyView {
                config: HostLocalConfig {
                    unattended_enabled: true,
                    ..old(self).deep_view().config
                },
                host_secret: Some(generated@),
                ..old(self).deep_view()
            }),
    {
        self.host_secret = Some(generated);
        self.config.unattended_enabled = true;
    }

    /// Borrow the host-only Mode B secret, if configured.
    pub fn host_secret(&self) -> (r: Option<&Vec<u8>>)
        ensures
            match r {
                Some(s) => self.deep_view().host_secret == Some(s@),
                None => self.deep_view().host_secret is None,
            },
    {
        match &self.host_secret {
            Some(s) => Some(s),
            None => None,
        }
    }

    /// OTP pepper used for keyed hashing.
    pub fn otp_pepper(&self) -> (r: &Vec<u8>)
        ensures
            r@ == self.deep_view().otp_pepper,
    {
        &self.otp_pepper
    }

    /// Active Mode A OTP window, if any.
    pub fn active_otp(&self) -> (r: Option<&ActiveOtpWindow>)
        ensures
            match r {
                Some(w) => self.deep_view().active_otp == Some(w.deep_view()),
                None => self.deep_view().active_otp is None,
            },
    {
        match &self.active_otp {
            Some(w) => Some(w),
            None => None,
        }
    }

    /// Last minted OTP digits (plaintext shown on the host).
    pub fn last_otp_code(&self) -> (r: Option<&str>)
        ensures
            opt_text(r) == self.deep_view().last_otp_code,
    {
        match &self.last_otp_code {
            Some(s) => Some(s.as_str()),
            None => None,
        }
    }

    /// Whether the given session mode is allowed by local policy.
    pub fn policy_allows_mode(&self, mode: SessionMode) -> (r: Result<(), PolicyError>)
        ensures
            policy_outcome(r) == self.deep_view().allows(mode),
    {
        match mode {
            SessionMode::Otp | SessionMode::Password => Ok(()),
            SessionMode::Unattended => {
                if self.config.unattended_enabled {
                    if self.host_secret.is_some() {
                        Ok(())
                    } else {
                        Err(PolicyError::UnattendedSecretMissing)
                    }
                } else {
                    Err(PolicyError::UnattendedDisabled)
                }
            },
        }
    }

    /// Local confirm gate for an incoming session.
    ///
    /// When `confirm_sessions` is false, the session is accepted. When true, the user has to have
    /// answered.
    pub fn decide_confirm(&self, user_accepted: Option<bool>) -> (r: ConfirmDecision)
        ensures
            r == self.deep_view().confirm(user_accepted),
    {
        if !self.config.confirm_sessions {
            return ConfirmDecision::AutoAccept;
        }
        match user_accepted {
            Some(true) => ConfirmDecision::Accepted,
            Some(false) => ConfirmDecision::Denied,
            None => ConfirmDecision::Pending,
        }
    }

    /// When a window that is minted at `now` expires, in unix seconds.
    pub fn otp_expiry(&self, now: u64) -> (r: u64)
        ensures
            r == self.deep_view().expiry(now),
    {
        let ttl: u64 = if self.config.otp_ttl_secs < 1 {
            1
        } else {
            self.config.otp_ttl_secs
        };
        now.saturating_add(ttl)
    }

    /// Take over a Mode A OTP that was minted at `now`: store the active window, return the
    /// plaintext for display.
    pub fn mint_otp(&mut self, now: u64, minted: Result<FreshOtp, AuthError>) -> (r: Result<
        String,
        PolicyError,
    >)
        ensures
            match minted {
                Ok(otp) => (r matches Ok(code) && code@ == otp.code@) && final(self).deep_view()
                    == (PolicyView {
                    active_otp: Some(
                        WindowView {
                            hash: otp.hash.deep_view(),
                            expires_at_unix: old(self).deep_view().expiry(now),
                        },
                    ),
                    last_otp_code: Some(otp.code@),
                    ..old(self).deep_view()
                }),
                Err(e) => policy_outcome(r) == Err::<String, PolicyErrorView>(
                    PolicyErrorView::Auth(e.deep_view().text()),
                ) && final(self).deep_view() == old(self).deep_view(),
            },
    {
        match minted {
            Ok(otp) => {
                let expires: u64 = self.otp_expiry(now);
                self.last_otp_code = Some(otp.code.clone());
                self.active_otp = Some(
                    ActiveOtpWindow { hash: otp.hash, expires_at_unix: expires },
                );
                Ok(otp.code)
            },
            Err(e) => Err(PolicyError::Auth(e.to_string())),
        }
    }

    /// Hash material for a plaintext code, as hashing gave it.
    pub fn hash_otp_for_server(&self, hashed: Result<OtpHash, AuthError>) -> (r: Result<
        OtpHash,
        PolicyError,
    >)
        ensures
            match hashed {
                Ok(h) => r == Ok::<OtpHash, PolicyError>(h),
                Err(e) => policy_outcome(r) == Err::<OtpHash, PolicyErrorView>(
                    PolicyErrorView::Auth(e.deep_view().text()),
                ),
            },
    {
        match hashed {
            Ok(h) => Ok(h),
            Err(e) => Err(PolicyError::Auth(e.to_string())),
        }
    }

    /// Hex fields of a hash for the wire: digest and salt.
    pub fn otp_hash_wire(hash: &OtpHash) -> (r: (String, String))
        ensures
            r.0@ == hex_of(hash.deep_view().digest),
            r.1@ == hex_of(hash.deep_view().salt),
    {
        (hex_encode(hash.digest.as_slice()), hex_encode(hash.salt.as_slice()))
    }

    /// Take over what verifying and consuming the active OTP gave (Mode A). Clears the window on
    /// success.
    pub fn consume_otp(&mut self, verified: Result<Vec<u8>, AuthError>) -> (r: Result<
        Vec<u8>,
        PolicyError,
    >)
        ensures
            ({
                let (next, result) = old(self).deep_view().consumed(verdict(verified));
                &&& final(self).deep_view() == next
                &&& match r {
                    Ok(key) => result == Ok::<Seq<u8>, PolicyErrorView>(key@),
                    Err(e) => result == Err::<Seq<u8>, PolicyErrorView>(e.deep_view()),
                }
            }),
    {
        if self.active_otp.is_none() {
            return Err(PolicyError::NoActiveOtp);
        }
        match verified {
            Ok(key) => {
                self.active_otp = None;
                Ok(key)
            },
            Err(e) => Err(PolicyError::Auth(e.to_string())),
        }
    }

    /// Apply Mode A authorization on a session manager using the active window.
    pub fn authorize_session_mode_a(
        &mut self,
        mgr: &mut SessionManager,
        verified: Result<Vec<u8>, AuthError>,
    ) -> (r: Result<(), SessionError>)
        ensures
            if old(self).deep_view().active_otp is None {
                &&& outcome(r) == Err::<(), SessionErrorView>(
                    SessionErrorView::InvalidState("no active OTP window"@),
                )
                &&& final(self).deep_view() == old(self).deep_view()
                &&& final(mgr).deep_view() == old(mgr).deep_view()
            } else {
                match verified {
                    Ok(key) => {
                        &&& r is Ok
                        &&& final(self).deep_view() == (PolicyView {
                            active_otp: None,
                            ..old(self).deep_view()
                        })
                        &&& final(mgr).deep_view() == (ManagerView {
                            bind_key: Some(key@),
                            identity: IdentityView {
                                session_authorized: true,
                                ..old(mgr).deep_view().identity
                            },
                            ..old(mgr).deep_view()
                        })
                    },
                    Err(e) => {
                        &&& outcome(r) == Err::<(), SessionErrorView>(
                            SessionErrorView::Auth(e.deep_view()),
                        )
                        &&& final(self).deep_view() == old(self).deep_view()
                        &&& final(mgr).deep_view() == old(mgr).deep_view()
                    },
                }
            },
    {
        if self.active_otp.is_none() {
            return Err(SessionError::InvalidState("no active OTP window".to_string()));
        }
        match mgr.authorize_mode_a(verified) {
            Ok(()) => {
                self.active_otp = None;
                Ok(())
            },
            Err(e) => Err(e),
        }
    }

    /// Mode B: policy gate, then what verifying the challenge-response gave, on the session
    /// manager.
    pub fn authorize_session_mode_b(
        &self,
        mgr: &mut SessionManager,
        verified: Result<Vec<u8>, AuthError>,
    ) -> (r: Result<(), SessionError>)
        ensures
            match self.deep_view().allows(SessionMode::Unattended) {
                Err(e) => {
                    &&& outcome(r) == Err::<(), SessionErrorView>(
                        SessionErrorView::InvalidState(e.text()),
                    )
                    &&& final(mgr).deep_view() == old(mgr).deep_view()
                },
                Ok(()) => if old(mgr).deep_view().session_id is None {
                    &&& outcome(r) == Err::<(), SessionErrorView>(
                        SessionErrorView::InvalidState("no session attached"@),
                    )
                    &&& final(mgr).deep_view() == old(mgr).deep_view()
                } else {
                    match verified {
                        Ok(key) => {
                            &&& r is Ok
                            &&& final(mgr).deep_view() == (ManagerView {
                                bind_key: Some(key@),
                                identity: IdentityView {
                                    session_authorized: true,
                                    ..old(mgr).deep_view().identity
                                },
                                ..old(mgr).deep_view()
                            })
                        },
                        Err(e) => {
                            &&& outcome(r) == Err::<(), SessionErrorView>(
                                SessionErrorView::Auth(e.deep_view()),
                            )
                            &&& final(mgr).deep_view() == old(mgr).deep_view()
                        },
                    }
                },
            },
    {
        match self.policy_allows_mode(SessionMode::Unattended) {
            Err(e) => Err(SessionError::InvalidState(e.to_string())),
            Ok(()) => mgr.authorize_mode_b(verified),
        }
    }

    /// Mode B without a session manager: policy gate, then what verifying the MAC gave.
    pub fn verify_mode_b(&self, verified: Result<Vec<u8>, AuthError>) -> (r: Result<
        Vec<u8>,
        PolicyError,
    >)
        ensures
            match self.deep_view().allows(SessionMode::Unattended) {
                Err(e) => policy_outcome(r) == Err::<Vec<u8>, PolicyErrorView>(e),
                Ok(()) => match verified {
                    Ok(key) => r == Ok::<Vec<u8>, PolicyError>(key),
                    Err(e) => policy_outcome(r) == Err::<Vec<u8>, PolicyErrorView>(
                        PolicyErrorView::Auth(e.deep_view().text()),
                    ),
                },
            },
    {
        match self.policy_allows_mode(SessionMode::Unattended) {
            Err(e) => Err(e),
            Ok(()) => match verified {
                Ok(key) => Ok(key),
                Err(e) => Err(PolicyError::Auth(e.to_string())),
            },
        }
    }

    /// The code that has to be verified before an incoming session is decided on: the viewer's,
    /// trimmed, where the decision comes down to it.
    pub fn otp_to_verify(
        &self,
        mode: SessionMode,
        otp_code: Option<&str>,
        user_accepted: Option<bool>,
    ) -> (r: Option<String>)
        ensures
            ({
                let confirmed = self.deep_view().confirm(user_accepted);
                let asks = mode == SessionMode::Otp && has_code(opt_text(otp_code))
                    && self.deep_view().active_otp is Some && (confirmed
                    == ConfirmDecision::AutoAccept || confirmed == ConfirmDecision::Accepted);
                r.deep_view() == (if asks {
                    Some(trimmed(opt_text(otp_code)->0))
                } else {
                    None
                })
            }),
    {
        match self.decide_confirm(user_accepted) {
            ConfirmDecision::Denied | ConfirmDecision::Pending => {
                return None;
            },
            _ => {},
        }
        if mode == SessionMode::Otp && self.active_otp.is_some() {
            if let Some(code) = otp_code {
                let all = chars_of(code);
                let t = trim(&all);
                if t.len() > 0 {
                    return Some(string_of(t));
                }
            }
        }
        None
    }

    /// Host re-validation gate before a session is accepted.
    ///
    /// Mode A requires the viewer's code for the local consume-once check; Mode B requires
    /// `unattended_enabled` + secret. `expired` says whether the active window is past its
    /// lifetime, `verified` what verifying the code gave.
    pub fn decide_session_accept(
        &mut self,
        mode: SessionMode,
        otp_prefilter: OtpPrefilterStatus,
        otp_code: Option<&str>,
        user_accepted: Option<bool>,
        expired: bool,
        verified: Result<Vec<u8>, AuthError>,
    ) -> (r: SessionAcceptDecision)
        ensures
            (final(self).deep_view(), r.deep_view()) == old(self).deep_view().decided(
                mode,
                opt_text(otp_code),
                user_accepted,
                expired,
                verdict(verified),
            ),
    {
        match self.decide_confirm(user_accepted) {
            ConfirmDecision::Denied => {
                return SessionAcceptDecision::Deny { reason: RejectReason::Policy };
            },
            ConfirmDecision::Pending => {
                return SessionAcceptDecision::NeedConfirm;
            },
            ConfirmDecision::AutoAccept | ConfirmDecision::Accepted => {},
        }
        match mode {
            SessionMode::Unattended => match self.policy_allows_mode(SessionMode::Unattended) {
                Ok(()) => SessionAcceptDecision::Allow { bind_key: None },
                Err(_) => SessionAcceptDecision::Deny { reason: RejectReason::Policy },
            },
            SessionMode::Password => SessionAcceptDecision::Allow { bind_key: None },
            SessionMode::Otp => {
                // The server prefilter is advisory; the host re-validates its active window.
                let given = match otp_code {
                    Some(code) => {
                        let all = chars_of(code);
                        trim(&all).len() > 0
                    },
                    None => false,
                };
                if !given {
                    if self.active_otp.is_none() || expired {
                        return SessionAcceptDecision::Deny { reason: RejectReason::Auth };
                    }
                    return SessionAcceptDecision::NeedOtpCode;
                }
                match self.consume_otp(verified) {
                    Ok(key) => SessionAcceptDecision::Allow { bind_key: Some(key) },
                    Err(_) => SessionAcceptDecision::Deny { reason: RejectReason::Auth },
                }
            },
        }
    }
}

/// A code serves one session: once a session was allowed on it, no other is, whatever verifying
/// gives, until a new code is minted.
pub proof fn law_otp_serves_once(
    s: PolicyView,
    code: Option<Seq<char>>,
    user: Option<bool>,
    expired: bool,
    verified: Result<Seq<u8>, AuthErrorView>,
    later_code: Option<Seq<char>>,
    later_user: Option<bool>,
    later_expired: bool,
    later_verified: Result<Seq<u8>, AuthErrorView>,
)
    requires
        s.decided(SessionMode::Otp, code, user, expired, verified).1 is Allow,
    ensures
        ({
            let next = s.decided(SessionMode::Otp, code, user, expired, verified).0;
            let later = next.decided(
                SessionMode::Otp,
                later_code,
                later_user,
                later_expired,
                later_verified,
            );
            &&& next.active_otp is None
            &&& later.1 !is Allow
            &&& later.1 !is NeedOtpCode
            &&& later.0 == next
            &&& next.consumed(later_verified).1 == Err::<Seq<u8>, PolicyErrorView>(
                PolicyErrorView::NoActiveOtp,
            )
        }),
{
}

/// Unattended access needs both the local setting and a host secret, and never gives a key here.
pub proof fn law_unattended_needs_policy(
    s: PolicyView,
    code: Option<Seq<char>>,
    user: Option<bool>,
    expired: bool,
    verified: Result<Seq<u8>, AuthErrorView>,
)
    ensures
        ({
            let (next, d) = s.decided(SessionMode::Unattended, code, user, expired, verified);
            &&& next == s
            &&& d is Allow ==> s.config.unattended_enabled && s.host_secret is Some && d
                == (AcceptView::Allow { bind_key: None })
        }),
{
}

/// With local confirm switched on, no session of any mode is allowed that the user did not accept.
pub proof fn law_confirm_gates_every_mode(
    s: PolicyView,
    mode: SessionMode,
    code: Option<Seq<char>>,
    user: Option<bool>,
    expired: bool,
    verified: Result<Seq<u8>, AuthErrorView>,
)
    requires
        s.config.confirm_sessions,
        user != Some(true),
    ensures
        s.decided(mode, code, user, expired, verified).1 !is Allow,
        s.decided(mode, code, user, expired, verified).0 == s,
{
}

/// A text is blank exactly where it holds nothing but white space.
proof fn lemma_blank_text(s: Seq<char>)
    ensures
        trimmed(s).len() > 0 <==> exists|i: int| 0 <= i < s.len() && !is_white(#[trigger] s[i]),
{
    lemma_trimmed_start(s);
    let a = trimmed_start(s);
    lemma_trimmed_end(a);
    if a.len() > 0 {
        assert(a == s.subrange(s.len() - a.len(), s.len() as int));
        assert(a[0] == s[s.len() - a.len()]);
        assert(!is_white(s[s.len() - a.len()]));
        lemma_start_stays(a);
    } else {
        lemma_all_white(s);
    }
}

proof fn lemma_all_white(s: Seq<char>)
    requires
        trimmed_start(s).len() == 0,
    ensures
        forall|i: int| 0 <= i < s.len() ==> is_white(#[trigger] s[i]),
    decreases s.len(),
{
    if s.len() > 0 {
        lemma_all_white(s.skip(1));
        assert forall|i: int| 0 <= i < s.len() implies is_white(#[trigger] s[i]) by {
            if i > 0 {
                assert(s[i] == s.skip(1)[i - 1]);
            }
        }
    }
}

proof fn lemma_start_stays(s: Seq<char>)
    requires
        s.len() > 0,
        !is_white(s[0]),
    ensures
        trimmed_end(s).len() > 0,
    decreases s.len(),
{
    if is_white(s.last()) {
        assert(s.drop_last()[0] == s[0]);
        lemma_start_stays(s.drop_last());
    }
}

/// Whether the local confirm lets a session through: it is switched off, or the user accepted.
pub open spec fn gate_passed(s: PolicyView, user: Option<bool>) -> bool {
    !s.config.confirm_sessions || user == Some(true)
}

/// Whether a viewer gave a code that holds more than white space.
pub open spec fn gave_code(code: Option<Seq<char>>) -> bool {
    code matches Some(c) && exists|i: int| 0 <= i < c.len() && !is_white(#[trigger] c[i])
}

/// A one-time code decides: once the confirm gate is passed, a viewer who gave a code is let in with
/// the verified key exactly where there is a window and verification succeeded, and is turned away
/// for the code in every other case. Being let in uses the window up; being turned away changes
/// nothing.
pub proof fn law_code_decides(
    s: PolicyView,
    code: Option<Seq<char>>,
    user: Option<bool>,
    expired: bool,
    verified: Result<Seq<u8>, AuthErrorView>,
)
    requires
        gate_passed(s, user),
        gave_code(code),
    ensures
        ({
            let (next, d) = s.decided(SessionMode::Otp, code, user, expired, verified);
            let good = s.active_otp is Some && verified is Ok;
            &&& good ==> d == (AcceptView::Allow { bind_key: Some(verified->Ok_0) })
            &&& !good ==> d == (AcceptView::Deny { reason: RejectReason::Auth })
            &&& next == (if good {
                PolicyView { active_otp: None, ..s }
            } else {
                s
            })
        }),
{
    lemma_blank_text(code->0);
}

/// A code is asked for only where none was given: in that mode, past the confirm gate, and only
/// while a window is open and not expired. Without an open window the viewer is turned away.
pub proof fn law_code_is_asked_for_only_where_none_was_given(
    s: PolicyView,
    mode: SessionMode,
    code: Option<Seq<char>>,
    user: Option<bool>,
    expired: bool,
    verified: Result<Seq<u8>, AuthErrorView>,
)
    ensures
        ({
            let (next, d) = s.decided(mode, code, user, expired, verified);
            let open = s.active_otp is Some && !expired;
            let asks = mode == SessionMode::Otp && gate_passed(s, user) && !gave_code(code);
            &&& d is NeedOtpCode <==> asks && open
            &&& asks && !open ==> d == (AcceptView::Deny { reason: RejectReason::Auth })
            &&& asks ==> next == s
        }),
{
    if let Some(c) = code {
        lemma_blank_text(c);
    }
}

/// The user at the host is asked exactly where local confirm is on and they have not answered, and a
/// refusal of theirs is final. Neither changes anything, whatever the viewer gave.
pub proof fn law_user_is_asked_and_heard(
    s: PolicyView,
    mode: SessionMode,
    code: Option<Seq<char>>,
    user: Option<bool>,
    expired: bool,
    verified: Result<Seq<u8>, AuthErrorView>,
)
    ensures
        ({
            let (next, d) = s.decided(mode, code, user, expired, verified);
            &&& d is NeedConfirm <==> s.config.confirm_sessions && user is None
            &&& s.config.confirm_sessions && user == Some(false) ==> d == (AcceptView::Deny {
                reason: RejectReason::Policy,
            })
            &&& !gate_passed(s, user) ==> next == s
            &&& s.confirm(user) == ConfirmDecision::Pending <==> s.config.confirm_sessions && user
                is None
            &&& s.confirm(user) == ConfirmDecision::Denied <==> s.config.confirm_sessions && user
                == Some(false)
            &&& s.confirm(user) == ConfirmDecision::Accepted <==> s.config.confirm_sessions && user
                == Some(true)
            &&& s.confirm(user) == ConfirmDecision::AutoAccept <==> !s.config.confirm_sessions
        }),
{
}

/// Past the confirm gate a password session is let in, and an unattended one exactly where the host
/// allows it and has its secret; otherwise it is against policy. Neither gives a key, uses a code up
/// or is decided by one.
pub proof fn law_other_modes_need_no_code(
    s: PolicyView,
    code: Option<Seq<char>>,
    user: Option<bool>,
    expired: bool,
    verified: Result<Seq<u8>, AuthErrorView>,
)
    requires
        gate_passed(s, user),
    ensures
        s.decided(SessionMode::Password, code, user, expired, verified) == (s, AcceptView::Allow {
            bind_key: None,
        }),
        s.config.unattended_enabled && s.host_secret is Some ==> s.decided(
            SessionMode::Unattended,
            code,
            user,
            expired,
            verified,
        ) == (s, AcceptView::Allow { bind_key: None }),
        !(s.config.unattended_enabled && s.host_secret is Some) ==> s.decided(
            SessionMode::Unattended,
            code,
            user,
            expired,
            verified,
        ) == (s, AcceptView::Deny { reason: RejectReason::Policy }),
{
}

/// A rejection names its cause: the code only in the mode that has one, and policy only for the
/// user's refusal or for unattended access that the host does not allow.
pub proof fn law_rejection_names_its_cause(
    s: PolicyView,
    mode: SessionMode,
    code: Option<Seq<char>>,
    user: Option<bool>,
    expired: bool,
    verified: Result<Seq<u8>, AuthErrorView>,
)
    requires
        s.decided(mode, code, user, expired, verified).1 is Deny,
    ensures
        ({
            let reason = s.decided(mode, code, user, expired, verified).1->Deny_reason;
            &&& reason == RejectReason::Auth <==> mode == SessionMode::Otp && gate_passed(s, user)
            &&& reason == RejectReason::Policy <==> !gate_passed(s, user) || mode
                == SessionMode::Unattended
        }),
{
}

/// A code is used up by success and by nothing else: a failed attempt leaves the window open for the
/// right code, and without a window no verification helps.
pub proof fn law_only_success_uses_a_code_up(
    s: PolicyView,
    verified: Result<Seq<u8>, AuthErrorView>,
    later: Result<Seq<u8>, AuthErrorView>,
)
    ensures
        ({
            let (next, r) = s.consumed(verified);
            &&& r is Ok <==> s.active_otp is Some && verified is Ok
            &&& r is Ok ==> r->Ok_0 == verified->Ok_0
            &&& next.active_otp is Some <==> s.active_otp is Some && verified is Err
            &&& next == (PolicyView { active_otp: next.active_otp, ..s })
            &&& verified is Err ==> next == s && next.consumed(later) == s.consumed(later)
            &&& s.active_otp is None ==> r == Err::<Seq<u8>, PolicyErrorView>(
                PolicyErrorView::NoActiveOtp,
            )
        }),
{
}

/// Which modes policy allows: the ones with a code or a password always, unattended access exactly
/// where it is switched on and has its secret, and a refusal says which of the two is missing.
pub proof fn law_policy_allows_modes(s: PolicyView)
    ensures
        s.allows(SessionMode::Otp) is Ok,
        s.allows(SessionMode::Password) is Ok,
        s.allows(SessionMode::Unattended) is Ok <==> s.config.unattended_enabled && s.host_secret
            is Some,
        s.allows(SessionMode::Unattended) == Err::<(), PolicyErrorView>(
            PolicyErrorView::UnattendedDisabled,
        ) <==> !s.config.unattended_enabled,
        s.allows(SessionMode::Unattended) == Err::<(), PolicyErrorView>(
            PolicyErrorView::UnattendedSecretMissing,
        ) <==> s.config.unattended_enabled && s.host_secret is None,
{
}

/// A window is open for the configured time, at least for a second, and never expires before it was
/// minted; one that is minted later never expires earlier.
pub proof fn law_window_lasts_its_time(s: PolicyView, now: u64, later: u64)
    requires
        now <= later,
    ensures
        s.expiry(now) >= now,
        s.expiry(now) <= s.expiry(later),
        s.config.otp_ttl_secs >= 1 && now + s.config.otp_ttl_secs <= u64::MAX ==> s.expiry(now)
            == now + s.config.otp_ttl_secs,
        s.config.otp_ttl_secs == 0 && now < u64::MAX ==> s.expiry(now) == now + 1,
{
}

/// Left to itself a host lets nobody in unattended and asks for a code.
pub proof fn law_default_host_asks_for_a_code(pepper: Seq<u8>)
    ensures
        ({
            let s = PolicyView {
                config: HostLocalConfig::standard(),
                otp_pepper: pepper,
                host_secret: None,
                active_otp: None,
                last_otp_code: None,
            };
            &&& s.allows(SessionMode::Unattended) is Err
            &&& !HostLocalConfig::standard().unattended_enabled
            &&& !HostLocalConfig::standard().confirm_sessions
            &&& HostLocalConfig::standard().otp_ttl_secs == DEFAULT_OTP_TTL_SECS
            &&& HostLocalConfig::standard().otp_digits == OTP_DEFAULT_DIGITS
        }),
{
}

} // verus!
