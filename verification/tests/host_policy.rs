use remotelink::host::policy::{
    ConfirmDecision, FreshOtp, HostAuthService, HostLocalConfig, OtpHash, OtpPrefilterStatus,
    PolicyError, RejectReason, SessionAcceptDecision, SessionMode, DEFAULT_OTP_TTL_SECS,
    OTP_DEFAULT_DIGITS,
};
use remotelink::host::session::{AuthError, SessionManager};

fn fresh(code: &str) -> Result<FreshOtp, AuthError> {
    Ok(FreshOtp {
        code: code.into(),
        hash: OtpHash { digest: vec![0x0a, 0xff], salt: vec![0x00, 0x10], keyed: true },
    })
}

fn key() -> Result<Vec<u8>, AuthError> {
    Ok(vec![1, 2, 3])
}

fn wrong() -> Result<Vec<u8>, AuthError> {
    Err(AuthError::Other("otp mismatch".into()))
}

#[test]
fn mint_and_consume_once() {
    let mut svc = HostAuthService::default();
    let code = svc.mint_otp(100, fresh("123456")).unwrap();
    assert_eq!(code.len(), 6);
    assert_eq!(svc.config().otp_digits, OTP_DEFAULT_DIGITS);
    let got = svc.consume_otp(key()).unwrap();
    assert!(!got.is_empty());
    // Second consume: window cleared.
    assert!(matches!(svc.consume_otp(key()), Err(PolicyError::NoActiveOtp)));
}

#[test]
fn a_wrong_code_keeps_the_window() {
    let mut svc = HostAuthService::default();
    svc.mint_otp(100, fresh("123456")).unwrap();
    assert!(matches!(svc.consume_otp(wrong()), Err(PolicyError::Auth(_))));
    assert!(svc.active_otp().is_some());
}

#[test]
fn last_otp_code_tracks_mint() {
    let mut svc = HostAuthService::default();
    assert!(svc.last_otp_code().is_none());
    let code = svc.mint_otp(100, fresh("123456")).unwrap();
    assert_eq!(svc.last_otp_code(), Some(code.as_str()));
    assert!(svc.active_otp().is_some());
    assert_eq!(svc.active_otp().unwrap().expires_at_unix(), 100 + DEFAULT_OTP_TTL_SECS);
    assert_eq!(svc.otp_expiry(u64::MAX), u64::MAX);
}

#[test]
fn mode_b_rejected_when_disabled() {
    let mut svc = HostAuthService::default();
    assert!(!svc.config().unattended_enabled);
    svc.set_host_secret(b"host-local-secret!!".to_vec());
    // Still disabled.
    assert!(matches!(
        svc.policy_allows_mode(SessionMode::Unattended),
        Err(PolicyError::UnattendedDisabled)
    ));
    assert!(matches!(svc.verify_mode_b(key()), Err(PolicyError::UnattendedDisabled)));
}

#[test]
fn mode_b_ok_when_enabled() {
    let mut svc = HostAuthService::default();
    svc.set_unattended_enabled(true);
    assert!(matches!(
        svc.policy_allows_mode(SessionMode::Unattended),
        Err(PolicyError::UnattendedSecretMissing)
    ));
    svc.set_host_secret(b"host-local-secret!!".to_vec());
    svc.verify_mode_b(key()).unwrap();
}

#[test]
fn confirm_sessions_gate() {
    let mut svc = HostAuthService::default();
    assert_eq!(svc.decide_confirm(None), ConfirmDecision::AutoAccept);
    svc.set_confirm_sessions(true);
    assert_eq!(svc.decide_confirm(None), ConfirmDecision::Pending);
    assert_eq!(svc.decide_confirm(Some(true)), ConfirmDecision::Accepted);
    assert_eq!(svc.decide_confirm(Some(false)), ConfirmDecision::Denied);
}

#[test]
fn session_manager_mode_a_via_policy() {
    let mut svc = HostAuthService::default();
    svc.mint_otp(100, fresh("123456")).unwrap();
    let mut mgr = SessionManager::new();
    mgr.attach("sess-pol");
    svc.authorize_session_mode_a(&mut mgr, key()).unwrap();
    assert!(mgr.identity().session_authorized);
}

#[test]
fn session_manager_mode_b_policy_reject() {
    let mut svc = HostAuthService::default();
    svc.set_host_secret(b"host-local-secret!!".to_vec());
    // unattended disabled
    let mut mgr = SessionManager::new();
    mgr.attach("sess-b");
    assert!(svc.authorize_session_mode_b(&mut mgr, key()).is_err());
    assert!(!mgr.identity().session_authorized);

    svc.set_unattended_enabled(true);
    svc.authorize_session_mode_b(&mut mgr, key()).unwrap();
    assert!(mgr.identity().session_authorized);
}

#[test]
fn decide_accept_mode_a_requires_code_and_consumes() {
    let mut svc = HostAuthService::default();
    let code = svc.mint_otp(100, fresh("123456")).unwrap();
    assert!(matches!(
        svc.decide_session_accept(
            SessionMode::Otp,
            OtpPrefilterStatus::Passed,
            None,
            None,
            false,
            wrong()
        ),
        SessionAcceptDecision::NeedOtpCode
    ));
    assert!(matches!(
        svc.decide_session_accept(
            SessionMode::Otp,
            OtpPrefilterStatus::Passed,
            Some(code.as_str()),
            None,
            false,
            key()
        ),
        SessionAcceptDecision::Allow { bind_key: Some(_) }
    ));
    // Second accept: window gone.
    assert!(matches!(
        svc.decide_session_accept(
            SessionMode::Otp,
            OtpPrefilterStatus::Passed,
            Some(code.as_str()),
            None,
            false,
            key()
        ),
        SessionAcceptDecision::Deny { reason: RejectReason::Auth }
    ));
}

#[test]
fn decide_accept_mode_b_disabled_denies() {
    let mut svc = HostAuthService::default();
    svc.set_host_secret(b"host-local-secret!!".to_vec());
    assert!(matches!(
        svc.decide_session_accept(
            SessionMode::Unattended,
            OtpPrefilterStatus::Absent,
            None,
            None,
            false,
            wrong()
        ),
        SessionAcceptDecision::Deny { reason: RejectReason::Policy }
    ));
    svc.set_unattended_enabled(true);
    assert!(matches!(
        svc.decide_session_accept(
            SessionMode::Unattended,
            OtpPrefilterStatus::Absent,
            None,
            None,
            false,
            wrong()
        ),
        SessionAcceptDecision::Allow { bind_key: None }
    ));
}

#[test]
fn decide_accept_confirm_sessions() {
    let mut svc = HostAuthService::default();
    svc.set_confirm_sessions(true);
    let code = svc.mint_otp(100, fresh("123456")).unwrap();
    assert!(matches!(
        svc.decide_session_accept(
            SessionMode::Otp,
            OtpPrefilterStatus::Skipped,
            Some(code.as_str()),
            None,
            false,
            key()
        ),
        SessionAcceptDecision::NeedConfirm
    ));
    assert!(matches!(
        svc.decide_session_accept(
            SessionMode::Otp,
            OtpPrefilterStatus::Skipped,
            Some(code.as_str()),
            Some(true),
            false,
            key()
        ),
        SessionAcceptDecision::Allow { .. }
    ));
}

#[test]
fn wire_form_of_a_hash_is_hexadecimal() {
    let hash = OtpHash { digest: vec![0x0a, 0xff], salt: vec![0x00, 0x10], keyed: true };
    assert_eq!(
        HostAuthService::otp_hash_wire(&hash),
        ("0aff".to_string(), "0010".to_string())
    );
}

#[test]
fn unattended_starts_with_a_generated_secret() {
    let mut svc = HostAuthService::new(HostLocalConfig::default(), b"pepper".to_vec());
    assert_eq!(svc.otp_pepper(), b"pepper");
    svc.enable_unattended_with_generated_secret(vec![9; 32]);
    assert!(svc.config().unattended_enabled);
    assert_eq!(svc.host_secret(), Some(&vec![9; 32]));
    assert!(svc.policy_allows_mode(SessionMode::Unattended).is_ok());
    svc.config_mut().unattended_enabled = false;
    assert!(svc.policy_allows_mode(SessionMode::Unattended).is_err());
}

#[test]
fn decisions_compare_without_their_keys() {
    let with_key = |k: u8| SessionAcceptDecision::Allow { bind_key: Some(vec![k]) };
    assert_eq!(with_key(1), with_key(2));
    assert_ne!(with_key(1), SessionAcceptDecision::Allow { bind_key: None });
    assert_eq!(
        SessionAcceptDecision::Deny { reason: RejectReason::Auth },
        SessionAcceptDecision::Deny { reason: RejectReason::Auth }
    );
    assert_ne!(
        SessionAcceptDecision::Deny { reason: RejectReason::Auth },
        SessionAcceptDecision::Deny { reason: RejectReason::Policy }
    );
    assert_ne!(SessionAcceptDecision::NeedConfirm, SessionAcceptDecision::NeedOtpCode);
    assert_eq!(PolicyError::NoActiveOtp, PolicyError::NoActiveOtp);
    assert_ne!(PolicyError::Auth("a".into()), PolicyError::Auth("b".into()));
}

#[test]
fn a_code_is_verified_only_where_it_decides() {
    let mut svc = HostAuthService::default();
    assert_eq!(svc.otp_to_verify(SessionMode::Otp, Some("123456"), None), None);
    svc.mint_otp(100, fresh("123456")).unwrap();
    assert_eq!(
        svc.otp_to_verify(SessionMode::Otp, Some(" 123456 "), None).as_deref(),
        Some("123456")
    );
    assert_eq!(svc.otp_to_verify(SessionMode::Otp, Some("  "), None), None);
    assert_eq!(svc.otp_to_verify(SessionMode::Unattended, Some("123456"), None), None);
    svc.set_confirm_sessions(true);
    assert_eq!(svc.otp_to_verify(SessionMode::Otp, Some("123456"), None), None);
    assert!(svc.otp_to_verify(SessionMode::Otp, Some("123456"), Some(true)).is_some());
}

#[test]
fn hashing_errors_are_auth_errors() {
    let svc = HostAuthService::default();
    let hash = OtpHash { digest: vec![1], salt: vec![2], keyed: false };
    assert_eq!(svc.hash_otp_for_server(Ok(hash)).unwrap().digest, vec![1]);
    let failed = svc.hash_otp_for_server(Err(AuthError::Other("short".into())));
    assert!(matches!(failed, Err(PolicyError::Auth(_))));
}
