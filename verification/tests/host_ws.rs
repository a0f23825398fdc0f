use remotelink::host::control::{ControlMessage, SignalForward, SignalHop};
use remotelink::host::platform_capture::{AudioCaptureKind, Platform, VideoCaptureKind};
use remotelink::host::policy::{FreshOtp, OtpHash};
use remotelink::host::roles::TransportMode;
use remotelink::host::session::{
    AuthError, ConnectionState, DataMessage, PumpStats, SdpPayload, SessionManager,
};
use remotelink::host::ws_session::{
    agent_ice, agent_offers, choose_offer, coerce_transport, configure_session_media,
    enroll_start, enrolled_as, file_loaded, is_builtin_lab_server, local_ice, local_offer,
    offer_signature, otp_post, pump_fault, seq_after, settle_bind, start_fallback,
    tokens_refreshed, AfterConnection, AfterSession, BindStep, CredentialFile, EnrollStep,
    ExistingHostCreds, FreshTokens, LiveOtpHub, ServiceLoop, WsHostConfig, DEFAULT_LAB_SERVER,
};

fn config() -> WsHostConfig {
    WsHostConfig::standard(Platform::Linux)
}

#[test]
fn one_shot_serves_once() {
    let cfg = config().one_shot();
    assert_eq!(cfg.max_sessions, 1);
    assert!(!cfg.reconnect);
    assert!(!cfg.runs_as_service());
    let mut service = config();
    service.max_sessions = 0;
    assert!(service.runs_as_service());
    assert_eq!(service.one_shot().max_sessions, 1);
    assert_eq!(coerce_transport(TransportMode::Mock), TransportMode::Live);
    assert_eq!(coerce_transport(TransportMode::WebRtc), TransportMode::WebRtc);
    assert!(is_builtin_lab_server(DEFAULT_LAB_SERVER));
    assert!(!is_builtin_lab_server("https://example.test"));
}

fn file(server: &str) -> CredentialFile {
    CredentialFile {
        server: server.into(),
        public_id: "1234567890".into(),
        access_token: "a".into(),
        refresh_token: "r".into(),
        expires_at: None,
    }
}

#[test]
fn enrollment_prefers_given_then_saved_credentials() {
    let given = Some(ExistingHostCreds {
        public_id: "1".into(),
        access_token: "a".into(),
        refresh_token: None,
    });
    assert!(matches!(enroll_start(&given, true, true), EnrollStep::Use(h) if h.public_id == "1"));
    assert!(matches!(enroll_start(&None, true, true), EnrollStep::LoadFile));
    assert!(matches!(enroll_start(&None, true, false), EnrollStep::Register));
    assert!(matches!(enroll_start(&None, false, true), EnrollStep::Register));
    assert!(matches!(file_loaded("http://s", Err("gone".into())), EnrollStep::Register));
    match file_loaded("http://s", Ok(file("http://s"))) {
        EnrollStep::Refresh { server, file } => {
            assert_eq!(server, "http://s");
            assert_eq!(file.refresh_token, "r");
        },
        other => panic!("unexpected {other:?}"),
    }
    let fresh = FreshTokens {
        access_token: "a2".into(),
        refresh_token: "r2".into(),
        expires_at: "later".into(),
    };
    let saved = tokens_refreshed("http://s", file("http://s"), Ok(fresh)).unwrap();
    assert_eq!(saved.access_token, "a2");
    assert_eq!(enrolled_as(saved).access_token, "a2");
    assert!(tokens_refreshed("http://s", file("http://s"), Err("401".into())).is_none());
}

#[test]
fn otp_is_posted_as_a_keyed_hash() {
    let hash = OtpHash { digest: vec![0xde, 0xad], salt: vec![0x01], keyed: true };
    let post = otp_post(&hash);
    assert_eq!(post.digest_hex, "dead");
    assert_eq!(post.salt_hex, "01");
    assert!(post.keyed);
    let mut hub = LiveOtpHub::new();
    let (code, _) = hub
        .mint_local(10, Ok(FreshOtp { code: "123456".into(), hash }))
        .unwrap();
    assert_eq!(code, "123456");
    let mut mgr = SessionManager::new();
    mgr.attach("s");
    hub.authorize_live(&mut mgr, Ok(vec![1]), ConnectionState::Connected).unwrap();
    assert!(mgr.identity().session_authorized);
    assert!(hub
        .authorize_live(&mut mgr, Err(AuthError::Other("x".into())), ConnectionState::Connected)
        .is_err());
}

fn signal(kind: &str, payload: &str) -> SignalForward {
    SignalForward {
        session_id: "s".into(),
        kind: kind.into(),
        payload: payload.into(),
        from: SignalHop::Agent,
    }
}

#[test]
fn local_session_follows_relay_events() {
    let signals = vec![signal("ice_candidate", "c"), signal("session_offer", "o")];
    assert_eq!(local_offer(&signals).unwrap(), "o");
    assert!(local_offer(&vec![]).is_err());
    assert_eq!(local_ice(&signals), vec!["c"]);
    let sdp = SdpPayload { sdp: "v=0".into(), fingerprint_sig: Some("sig".into()) };
    assert_eq!(offer_signature(&sdp), "sig");
    assert_eq!(seq_after(4), 5);
    let outbound = vec![
        ControlMessage::SignalForward(signal("session_offer", "o")),
        ControlMessage::SignalForward(signal("ice_candidate", "h1")),
    ];
    assert_eq!(agent_ice(&outbound), vec!["h1"]);
}

#[test]
fn media_setup_depends_on_live_and_platform() {
    let mut mgr = SessionManager::new();
    configure_session_media(&mut mgr, false, Platform::Windows);
    assert_eq!(mgr.synthetic_geometry(), (64, 36, 30));
    assert!(!mgr.force_software());
    let kinds = (VideoCaptureKind::WindowsMock, AudioCaptureKind::WindowsWasapiStub);
    assert_eq!(mgr.capture_kinds(Platform::Windows), kinds);

    configure_session_media(&mut mgr, true, Platform::Linux);
    assert_eq!(mgr.synthetic_geometry(), (1280, 720, 20));
    assert!(mgr.force_software());
    let kinds = (VideoCaptureKind::LinuxMock, AudioCaptureKind::LinuxPreferNative);
    assert_eq!(mgr.capture_kinds(Platform::Linux), kinds);

    configure_session_media(&mut mgr, true, Platform::Windows);
    mgr.attach("s");
    let kinds = (VideoCaptureKind::WindowsDxgi, AudioCaptureKind::WindowsWasapiPreferNative);
    assert_eq!(mgr.capture_kinds(Platform::Windows), kinds);
    assert_eq!(start_fallback(&mut mgr, false, "dxgi").unwrap_err(), "start_media: dxgi");
    assert_eq!(mgr.capture_kinds(Platform::Windows), kinds);
    assert!(start_fallback(&mut mgr, true, "dxgi").is_ok());
    let kinds = (VideoCaptureKind::WindowsMock, AudioCaptureKind::WindowsWasapiPreferNative);
    assert_eq!(mgr.capture_kinds(Platform::Windows), kinds);
    let none = PumpStats { video_sent: 0, audio_sent: 0, skipped_not_connected: true };
    assert!(pump_fault(&none, 5).is_some());
    let full = PumpStats { video_sent: 5, audio_sent: 15, skipped_not_connected: false };
    assert!(pump_fault(&full, 5).is_none());
}

#[test]
fn served_sessions_stay_within_the_limit() {
    let mut cfg = config();
    cfg.max_sessions = 2;
    let mut lp = ServiceLoop::start(&cfg);
    let mut served = 0;
    while lp.may_serve() {
        assert!(matches!(lp.session_ended(Ok(format!("s{served}"))), AfterSession::Completed { .. }));
        served += 1;
    }
    assert_eq!(served, 2);
    assert_eq!(lp.completed(), 2);
    assert_eq!(lp.summary("id"), "s1; service sessions_completed=2");
    let fresh = ServiceLoop::start(&config());
    assert_eq!(fresh.summary("id"), "ws-host service exit public_id=id sessions=0");
}

#[test]
fn sessions_end_in_their_own_ways() {
    let mut cfg = config();
    cfg.max_sessions = 0;
    cfg.reconnect = true;
    let mut lp = ServiceLoop::start(&cfg);
    assert!(matches!(
        lp.session_ended(Err("session ended from tray".into())),
        AfterSession::TrayEnded
    ));
    assert!(lp.keeps_serving(false));
    assert!(!lp.keeps_serving(true));
    assert!(matches!(lp.session_ended(Err("wait incoming: timeout".into())), AfterSession::Next));
    assert!(matches!(
        lp.session_ended(Err("ws connection closed".into())),
        AfterSession::Leave(_)
    ));
}

#[test]
fn backoff_doubles_up_to_a_minute() {
    let mut cfg = config();
    cfg.reconnect = true;
    cfg.reconnect_backoff_ms = 20_000;
    let mut lp = ServiceLoop::start(&cfg);
    let mut waits = Vec::new();
    for _ in 0..4 {
        match lp.connection_ended(Some("reset".into())) {
            AfterConnection::RetryAfter { ms } => waits.push(ms),
            other => panic!("unexpected {other:?}"),
        }
    }
    assert_eq!(waits, vec![20_000, 40_000, 60_000, 60_000]);
    assert!(matches!(lp.connection_ended(None), AfterConnection::Finish));
    cfg.reconnect = false;
    let mut lp = ServiceLoop::start(&cfg);
    assert!(matches!(lp.connection_ended(Some("reset".into())), AfterConnection::Fail(_)));
}

fn sdp(text: &str) -> Result<SdpPayload, String> {
    Ok(SdpPayload { sdp: text.into(), fingerprint_sig: None })
}

#[test]
fn the_last_offer_of_the_agent_goes_out() {
    let messages = vec![
        ControlMessage::SignalForward(signal("session_offer", "first")),
        ControlMessage::SignalForward(signal("ice_candidate", "ice")),
        ControlMessage::ack("attach_session", None),
        ControlMessage::SignalForward(signal("session_offer", "second")),
    ];
    assert_eq!(agent_offers(&messages), vec!["first".to_string(), "second".to_string()]);
    assert!(agent_offers(&vec![ControlMessage::ack("attach_session", None)]).is_empty());
    assert_eq!(choose_offer(vec![sdp("first"), sdp("second")]).unwrap().sdp, "second");
    assert_eq!(choose_offer(vec![]).unwrap_err(), "agent did not emit session_offer");
    assert_eq!(
        choose_offer(vec![sdp("first"), Err("eof".into()), Err("other".into())]).unwrap_err(),
        "parse offer: eof"
    );
}

#[test]
fn a_failed_bind_leaves_input_closed() {
    let mut mgr = SessionManager::new();
    mgr.attach("s");
    mgr.authorize_mode_a(Ok(vec![1])).unwrap();
    mgr.set_input_policy_enabled(true);
    assert_eq!(settle_bind(&mut mgr, Ok(())), BindStep::AwaitBind);
    assert!(mgr.policy_input_enabled());
    assert_eq!(settle_bind(&mut mgr, Err("no challenge".into())), BindStep::Closed);
    assert!(!mgr.policy_input_enabled());
    assert!(mgr.identity().session_authorized);
    assert!(!mgr.identity().identity_bound);
    assert!(!mgr.input_allowed());
    let input = DataMessage { label: "input".into(), data: vec![], unordered: false };
    assert!(!mgr.try_accept_input(input));
    assert_eq!(mgr.rejected_input_count(), 1);
}
