use remotelink::host::agent::{local_confirm, AgentSession, PeerEffect};
use remotelink::host::agent_state::AgentSessionState;
use remotelink::host::chrome::{HostSessionUx, SessionChrome, SessionIndicator};
use remotelink::host::control::{
    Ack, AttachSession, ControlError, ControlMessage, DetachSession, ErrorCode, FeatureFlags,
    KillSwitch, KillSwitchSource, QueryStats, SetPolicy, ShowSessionChrome, ShutdownSession,
    SignalForward, SignalHop, StartMedia, StatsPush, StopMedia,
};
use remotelink::host::service::build_session_start_sequence;
use remotelink::host::session::{
    ConnectionState, DataMessage, PumpAction, SessionManager, SignalUse, INPUT_CHANNEL_LABEL,
};
use remotelink::host::synthetic::{
    agent_offer, leaked_method, live_summary, live_wait, signal_taken, synthetic_outcome,
    LiveWait, SyntheticSession,
};

fn attach_msg(id: &str) -> ControlMessage {
    ControlMessage::AttachSession(AttachSession {
        session_id: id.into(),
        viewer_label: None,
        feature_flags: FeatureFlags::default(),
        turn_uris: vec![],
        boot_secret: None,
    })
}

fn policy_msg(id: &str, enable_input: bool, unattended: bool) -> ControlMessage {
    ControlMessage::SetPolicy(SetPolicy {
        session_id: id.into(),
        enable_input,
        unattended,
        max_bitrate_bps: 0,
        disable_hw_encode: false,
    })
}

fn start_msg(id: &str) -> ControlMessage {
    ControlMessage::StartMedia(StartMedia { session_id: id.into(), display_id: None })
}

fn kill_msg(id: Option<&str>, source: KillSwitchSource) -> ControlMessage {
    ControlMessage::KillSwitch(KillSwitch {
        session_id: id.map(|s| s.to_string()),
        disable_unattended: true,
        source,
    })
}

fn chrome_msg(id: &str, visible: bool) -> ControlMessage {
    ControlMessage::ShowSessionChrome(ShowSessionChrome {
        session_id: id.into(),
        visible,
        label: None,
    })
}

fn signal_msg(id: &str, kind: &str, payload: &str) -> ControlMessage {
    ControlMessage::SignalForward(SignalForward {
        session_id: id.into(),
        kind: kind.into(),
        payload: payload.into(),
        from: SignalHop::Service,
    })
}

fn attach(state: &mut AgentSessionState, id: &str) {
    let r = state.handle(&attach_msg(id));
    assert!(matches!(r, ControlMessage::Ack(_)), "attach should ack, got {r:?}");
}

fn assert_error(msg: ControlMessage, code: ErrorCode) {
    match msg {
        ControlMessage::Error(e) => assert_eq!(e.code, code.as_str(), "error body {e:?}"),
        other => panic!("expected Error({code:?}), got {other:?}"),
    }
}

fn is_ack(r: &ControlMessage) -> bool {
    matches!(r, ControlMessage::Ack(_))
}

#[test]
fn attach_start_and_kill_switch() {
    let mut state = AgentSessionState::default();
    attach(&mut state, "s1");
    assert_eq!(state.session_id.as_deref(), Some("s1"));
    assert!(state.chrome_visible, "mandatory chrome on attach (G9)");

    let r = state.handle(&policy_msg("s1", true, false));
    assert!(is_ack(&r));
    assert!(state.enable_input);

    let r = state.handle(&start_msg("s1"));
    assert!(is_ack(&r));
    assert!(state.media_started);

    let r = state.handle(&kill_msg(None, KillSwitchSource::Hotkey));
    assert!(is_ack(&r));
    assert!(state.killed);
    assert!(!state.media_started);
    assert!(!state.enable_input);
    assert!(!state.chrome_visible);
    assert!(state.unattended_disabled);
}

#[test]
fn second_attach_rejected_while_session_active() {
    let mut state = AgentSessionState::default();
    attach(&mut state, "s1");
    assert_error(state.handle(&attach_msg("s2")), ErrorCode::Busy);
    assert_eq!(state.session_id.as_deref(), Some("s1"));

    // After kill, re-attach is allowed (clears latch).
    state.handle(&kill_msg(Some("s1"), KillSwitchSource::Tray));
    attach(&mut state, "s2");
    assert_eq!(state.session_id.as_deref(), Some("s2"));
    assert!(!state.killed);
    assert!(state.chrome_visible);
}

#[test]
fn chrome_cannot_be_remote_hidden_while_live() {
    let mut state = AgentSessionState::default();
    attach(&mut state, "s1");
    assert!(state.chrome_visible);

    // Hide refused with stable error (not Ack) so callers do not treat as success.
    assert_error(state.handle(&chrome_msg("s1", false)), ErrorCode::ChromeMandatory);
    assert!(state.chrome_visible, "remote hide must not disable mandatory chrome while live");

    // Show while live still acks.
    let r = state.handle(&ControlMessage::ShowSessionChrome(ShowSessionChrome {
        session_id: "s1".into(),
        visible: true,
        label: Some("v".into()),
    }));
    assert!(is_ack(&r));
    assert!(state.chrome_visible);
}

#[test]
fn chrome_commands_refused_after_kill() {
    let mut state = AgentSessionState::default();
    attach(&mut state, "s1");
    state.handle(&kill_msg(None, KillSwitchSource::Hotkey));
    assert!(state.killed);
    assert!(!state.chrome_visible);

    // Neither show nor hide may mutate chrome after kill.
    assert_error(state.handle(&chrome_msg("s1", true)), ErrorCode::Killed);
    assert!(!state.chrome_visible);
    assert_error(state.handle(&chrome_msg("s1", false)), ErrorCode::Killed);
    assert!(!state.chrome_visible);
}

#[test]
fn kill_switch_latches_unattended_disabled() {
    let mut state = AgentSessionState::default();
    attach(&mut state, "s1");
    assert!(is_ack(&state.handle(&policy_msg("s1", false, true))));
    assert!(state.unattended);

    state.handle(&kill_msg(Some("s1"), KillSwitchSource::Tray));
    assert!(state.unattended_disabled);
    assert!(!state.unattended);

    // Re-attach does not clear the host-local latch.
    attach(&mut state, "s2");
    assert!(state.unattended_disabled);
    assert_error(state.handle(&policy_msg("s2", false, true)), ErrorCode::UnattendedDisabled);
    assert!(!state.unattended);

    // Other policy (unattended:false) still applies.
    assert!(is_ack(&state.handle(&policy_msg("s2", true, false))));
    assert!(state.enable_input);
    assert!(!state.unattended);

    // Local re-enable only.
    state.reenable_unattended_local();
    assert!(!state.unattended_disabled);
    assert!(is_ack(&state.handle(&policy_msg("s2", false, true))));
    assert!(state.unattended);

    // Detach itself does not invent a latch.
    state.handle(&ControlMessage::DetachSession(DetachSession {
        session_id: "s2".into(),
        reason: None,
    }));
    assert!(!state.unattended_disabled);
    assert!(state.session_id.is_none());
}

#[test]
fn detach_preserves_unattended_disabled_latch() {
    let mut state = AgentSessionState::default();
    attach(&mut state, "s1");
    state.handle(&kill_msg(None, KillSwitchSource::Hotkey));
    assert!(state.unattended_disabled);
    // Detach after kill: session_id still matches.
    let r = state.handle(&ControlMessage::DetachSession(DetachSession {
        session_id: "s1".into(),
        reason: Some("post-kill".into()),
    }));
    assert!(is_ack(&r));
    assert!(state.session_id.is_none());
    assert!(state.unattended_disabled, "unattended_disabled must survive detach");
}

#[test]
fn agent_kill_switch_clears_media_session() {
    let mut agent = AgentSession::new();
    assert!(is_ack(&agent.handle(&attach_msg("kill-media"), ConnectionState::New).reply));
    let step = agent.handle(&start_msg("kill-media"), ConnectionState::New);
    assert!(is_ack(&step.reply));
    assert_eq!(step.effect, PeerEffect::CreateOffer);
    assert!(agent.state.media_started);
    assert!(agent.manager.session_id().is_some());

    let step = agent.handle(
        &kill_msg(Some("kill-media"), KillSwitchSource::Hotkey),
        ConnectionState::New,
    );
    assert!(is_ack(&step.reply));
    assert!(agent.state.killed);
    assert!(!agent.state.media_started);
    assert!(!agent.state.enable_input);
    assert!(agent.manager.session_id().is_none());
}

#[test]
fn session_mismatch_and_not_attached_errors() {
    let mut state = AgentSessionState::default();
    assert_error(state.handle(&start_msg("s1")), ErrorCode::NotAttached);

    attach(&mut state, "s1");
    assert_error(state.handle(&policy_msg("other", true, false)), ErrorCode::SessionMismatch);
    assert_error(
        state.handle(&ControlMessage::DetachSession(DetachSession {
            session_id: "other".into(),
            reason: None,
        })),
        ErrorCode::SessionMismatch,
    );
}

#[test]
fn killed_refuses_start_and_policy_and_signal() {
    let mut state = AgentSessionState::default();
    attach(&mut state, "s1");
    state.handle(&kill_msg(Some("s1"), KillSwitchSource::Tray));
    assert!(state.killed);

    assert_error(state.handle(&start_msg("s1")), ErrorCode::Killed);
    assert_error(state.handle(&policy_msg("s1", true, false)), ErrorCode::Killed);
    assert_error(state.handle(&signal_msg("s1", "ice", "{}")), ErrorCode::Killed);

    // Stop still works after kill.
    let r = state.handle(&ControlMessage::StopMedia(StopMedia { session_id: "s1".into() }));
    assert!(is_ack(&r));
}

#[test]
fn handle_every_control_variant_happy_or_expected() {
    let mut state = AgentSessionState::default();
    attach(&mut state, "s1");

    let expect_ack = |reply: &ControlMessage, name: &str| {
        assert!(is_ack(reply), "{name}: expected Ack, got {reply:?}");
    };

    let r = state.handle(&signal_msg("s1", "session_offer", r#"{"sdp":"v=0"}"#));
    expect_ack(&r, "signal_forward");

    let r = state.handle(&ControlMessage::SetPolicy(SetPolicy {
        session_id: "s1".into(),
        enable_input: false,
        unattended: false,
        max_bitrate_bps: 1_000_000,
        disable_hw_encode: true,
    }));
    expect_ack(&r, "set_policy");

    let r = state.handle(&ControlMessage::StartMedia(StartMedia {
        session_id: "s1".into(),
        display_id: Some("d0".into()),
    }));
    expect_ack(&r, "start_media");

    let stats =
        state.handle(&ControlMessage::QueryStats(QueryStats { session_id: Some("s1".into()) }));
    assert!(matches!(stats, ControlMessage::StatsPush(_)), "query_stats: {stats:?}");

    let r = state.handle(&ControlMessage::ShowSessionChrome(ShowSessionChrome {
        session_id: "s1".into(),
        visible: true,
        label: Some("v".into()),
    }));
    expect_ack(&r, "show_session_chrome");

    let r = state.handle(&ControlMessage::StopMedia(StopMedia { session_id: "s1".into() }));
    expect_ack(&r, "stop_media");

    let r = state.handle(&ControlMessage::ShutdownSession(ShutdownSession {
        session_id: "s1".into(),
        reason: Some("done".into()),
    }));
    expect_ack(&r, "shutdown_session");

    // Detach after re-attach.
    attach(&mut state, "s1");
    let r = state.handle(&ControlMessage::DetachSession(DetachSession {
        session_id: "s1".into(),
        reason: None,
    }));
    expect_ack(&r, "detach_session");
    assert!(state.session_id.is_none());

    // Global kill with no session still acks.
    let r = state.handle(&kill_msg(None, KillSwitchSource::Hotkey));
    expect_ack(&r, "kill_switch");
    assert!(state.killed);

    // Agent-originated types → unexpected.
    assert_error(
        state.handle(&ControlMessage::StatsPush(StatsPush {
            session_id: "s1".into(),
            rtt_ms: None,
            video_bitrate_bps: None,
            audio_bitrate_bps: None,
            ice_path: None,
            av_skew_ms: None,
            fps: None,
            loss: None,
        })),
        ErrorCode::Unexpected,
    );
    assert_error(
        state.handle(&ControlMessage::Ack(Ack { for_method: None, session_id: None })),
        ErrorCode::Unexpected,
    );
    assert_error(
        state.handle(&ControlMessage::Error(ControlError {
            code: "x".into(),
            message: "y".into(),
            session_id: None,
        })),
        ErrorCode::Unexpected,
    );
    assert_error(state.handle(&local_confirm("s1", true)), ErrorCode::Unexpected);
}

#[test]
fn refusals_change_nothing() {
    let mut state = AgentSessionState::default();
    attach(&mut state, "s1");
    state.handle(&policy_msg("s1", true, false));
    let before = format!("{state:?}");
    assert_error(state.handle(&attach_msg("s2")), ErrorCode::Busy);
    assert_error(state.handle(&start_msg("s2")), ErrorCode::SessionMismatch);
    assert_error(state.handle(&chrome_msg("s1", false)), ErrorCode::ChromeMandatory);
    assert_eq!(format!("{state:?}"), before);
}

fn media_methods() -> Vec<String> {
    vec!["video_nalu".into(), "audio_packet".into(), "input_event".into()]
}

#[test]
fn agent_messages_are_control_only() {
    let msg = local_confirm("s1", false);
    assert_eq!(msg.method_name(), "local_confirm_result");
    for forbidden in media_methods() {
        assert_ne!(msg.method_name(), forbidden);
    }
}

fn pump(mgr: &mut SessionManager, frames: u32) -> (u32, u32, Vec<bool>) {
    let mut run = mgr.pump_media(frames, ConnectionState::Connected).unwrap();
    assert!(!run.stats.skipped_not_connected);
    let mut keyframes = Vec::new();
    loop {
        match mgr.pump_next(&run) {
            PumpAction::SendAudio => {},
            PumpAction::SendVideo { keyframe } => keyframes.push(keyframe),
            PumpAction::Done => return (run.stats.video_sent, run.stats.audio_sent, keyframes),
        }
        mgr.pump_sent(&mut run);
    }
}

#[test]
fn agent_session_starts_media_mock_peer_receives_av_no_media_ipc() {
    let mut agent = AgentSession::new();
    let peer = ConnectionState::Connected;
    assert!(is_ack(&agent.handle(&attach_msg("s-media"), peer).reply));
    let start = start_msg("s-media");
    for forbidden in media_methods() {
        assert_ne!(start.method_name(), forbidden);
    }
    let step = agent.handle(&start, peer);
    assert!(is_ack(&step.reply));
    assert_eq!(step.effect, PeerEffect::DrainIce);
    assert!(agent.state.media_started);
    assert!(agent.manager.media_started());

    let (videos, audios, _) = pump(&mut agent.manager, 4);
    assert_eq!(videos, 4);
    assert!(audios >= 4);

    // SignalForward of a non-peer kind still acks (opaque).
    let step = agent.handle(&signal_msg("s-media", "auth_challenge", "{}"), peer);
    assert!(is_ack(&step.reply));
    assert_eq!(step.effect, PeerEffect::Nothing);
}

#[test]
fn agent_session_applies_signal_forward_sdp_ice() {
    let mut s = SyntheticSession::begin("s-signal").unwrap();
    assert!(s.agent.state.media_started);
    s.agent
        .manager
        .create_local_offer_and_queue("s-signal", Ok("offer-payload".into()), vec!["ice-1".into()])
        .unwrap();
    assert_eq!(s.take_offer().unwrap(), "offer-payload");
    assert_eq!(s.take_offer().unwrap_err(), "no session_offer from agent");
    let step = s.forward("session_answer", "answer-payload", ConnectionState::Connecting);
    assert_eq!(step.effect, PeerEffect::Apply(SignalUse::RemoteAnswer));
    assert!(signal_taken("session_answer", &step.reply, "").is_ok());
    s.agent.manager.queue_pending_ice("s-signal", vec!["ice-2".into()]);
    assert_eq!(s.take_ice(), vec!["ice-2"]);
    let step = s.forward("ice_candidate", "c", ConnectionState::Connecting);
    assert_eq!(step.effect, PeerEffect::Apply(SignalUse::RemoteCandidate));
    let refused = AgentSession::apply_failed("s-signal", "bad sdp");
    assert_eq!(
        signal_taken("session_answer", &refused, "shown").unwrap_err(),
        "session_answer failed: shown"
    );

    let (videos, audios, _) = pump(&mut s.agent.manager, 5);
    let summary =
        synthetic_outcome("s-signal", videos as u64, audios as u64, 5, 15).unwrap();
    assert!(summary.contains("viewer_video="));
    assert!(summary.contains("ipc_control_only=true"));
    assert_eq!(
        synthetic_outcome("s", 5, 15, 0, 15).unwrap_err(),
        "mock peer received video=0 audio=15 (expected both > 0)"
    );
}

#[test]
fn leaks_and_missing_offers_are_found() {
    assert_eq!(
        leaked_method("{\"method\":\"audio_packet\"}", &media_methods()),
        Some("audio_packet".to_string())
    );
    assert_eq!(leaked_method("{\"method\":\"attach_session\"}", &media_methods()), None);
    let messages = vec![signal_msg("s", "ice_candidate", "c"), signal_msg("s", "session_offer", "o")];
    assert_eq!(agent_offer(&messages).unwrap(), "o");
    assert!(agent_offer(&vec![]).is_err());
}

#[test]
fn live_loopback_waits_for_both_planes() {
    assert!(matches!(live_wait(2, 1, true), LiveWait::Ready));
    assert!(matches!(live_wait(1, 1, false), LiveWait::Again));
    match live_wait(1, 0, true) {
        LiveWait::TimedOut(e) => assert_eq!(e, "live demo timeout tracks=1 data=0"),
        other => panic!("unexpected {other:?}"),
    }
    assert_eq!(
        live_summary("s", "AB", 1, 2, 3),
        "live TCP session=s fp=AB video_rx=1 audio_rx=2 data_rx=3"
    );
}

#[test]
fn start_sequence_is_accepted_by_an_idle_agent() {
    let mut agent = AgentSession::new();
    let mut last = PeerEffect::Nothing;
    for msg in build_session_start_sequence("s", true) {
        let step = agent.handle(&msg, ConnectionState::New);
        assert!(is_ack(&step.reply));
        last = step.effect;
    }
    assert_eq!(last, PeerEffect::CreateOffer);
    assert!(agent.state.media_started && agent.state.enable_input);
}

#[test]
fn agent_session_new_mock_attach_via_control() {
    let mut agent = AgentSession::new();
    assert!(is_ack(&agent.handle(&attach_msg("m1"), ConnectionState::New).reply));
    assert_eq!(agent.manager.session_id(), Some("m1"));
    assert_eq!(agent.state.session_id.as_deref(), Some("m1"));
}

fn input(data: &str, unordered: bool) -> DataMessage {
    DataMessage {
        label: INPUT_CHANNEL_LABEL.into(),
        data: data.as_bytes().to_vec(),
        unordered,
    }
}

#[test]
fn agent_input_gate_rejects_before_bind_and_records_after() {
    let mut agent = AgentSession::new();
    assert!(is_ack(&agent.handle(&attach_msg("in-gate"), ConnectionState::New).reply));

    // Policy enables input, but identity not bound yet.
    let policy = ControlMessage::SetPolicy(SetPolicy {
        session_id: "in-gate".into(),
        enable_input: true,
        unattended: false,
        max_bitrate_bps: 0,
        disable_hw_encode: true,
    });
    let step = agent.handle(&policy, ConnectionState::New);
    assert!(is_ack(&step.reply));
    assert!(agent.state.enable_input);
    assert!(!agent.input_injection_allowed());
    agent.sync_input_policy();
    assert!(agent.manager.policy_input_enabled());
    assert!(!agent.manager.injection_allowed());

    assert!(!agent.manager.try_accept_input(input("{\"kind\":\"mouse_move\"}", true)));
    assert_eq!(agent.manager.rejected_input_count(), 1);
    assert!(agent.manager.input_stub().unwrap().is_empty());

    // After identity bind, stub records injects.
    agent.manager.force_identity_bound_for_tests();
    assert!(agent.input_injection_allowed());
    agent.sync_input_policy();

    assert!(agent.manager.try_accept_input(input("{\"kind\":\"key\"}", false)));
    assert_eq!(agent.manager.input_stub().unwrap().len(), 1);

    // Kill-switch must block further inject.
    let step =
        agent.handle(&kill_msg(Some("in-gate"), KillSwitchSource::Hotkey), ConnectionState::New);
    assert!(is_ack(&step.reply));
    assert!(agent.state.killed);
    assert!(!agent.input_injection_allowed());
}

#[test]
fn failed_start_is_undone() {
    let mut agent = AgentSession::new();
    agent.handle(&attach_msg("s"), ConnectionState::New);
    agent.handle(&start_msg("s"), ConnectionState::New);
    assert!(agent.state.media_started);
    let reply = agent.start_failed("no encoder");
    assert!(matches!(reply, ControlMessage::Error(_)));
    assert!(!agent.state.media_started);
}

#[test]
fn indicator_active_only_when_session_live() {
    let mut ind = SessionIndicator::new();
    assert!(!ind.is_active());
    assert!(!ind.is_connected());
    assert_eq!(SessionChrome::from_indicator(&ind), SessionChrome::Inactive);

    ind.begin_session("s1", Some("viewer-a".into())).unwrap();
    assert!(ind.is_connected());
    assert!(!ind.is_active(), "connected but not yet active");
    assert_eq!(SessionChrome::from_indicator(&ind), SessionChrome::Inactive);

    ind.mark_active();
    assert!(ind.is_active());
    assert_eq!(
        SessionChrome::from_indicator(&ind),
        SessionChrome::Active { session_id: "s1".into(), label: Some("viewer-a".into()) }
    );

    ind.apply_kill();
    assert!(!ind.is_active());
    assert!(!ind.is_connected());
    assert_eq!(SessionChrome::from_indicator(&ind), SessionChrome::Inactive);
}

#[test]
fn second_begin_rejected_while_connected() {
    let mut ind = SessionIndicator::new();
    ind.begin_session("s1", None).unwrap();
    let err = ind.begin_session("s2", None).unwrap_err();
    assert_eq!(err, "s1");
    assert_eq!(ind.session_id.as_deref(), Some("s1"));
}

#[test]
fn mark_active_no_op_when_idle() {
    let mut ind = SessionIndicator::new();
    ind.mark_active();
    assert!(!ind.is_active());
    assert!(!ind.connected);
}

#[test]
fn host_ux_status_and_kill() {
    let mut ux = HostSessionUx::new();
    assert!(!ux.chrome().is_active());
    ux.begin_session("sess", None).unwrap();
    ux.mark_active();
    assert!(ux.indicator().is_active());
    assert!(ux.chrome().is_active());
    let line = ux.status_line();
    assert!(line.contains("active=true"), "{line}");
    assert!(line.contains("chrome=Active"), "{line}");

    ux.apply_kill();
    assert!(!ux.indicator().is_active());
    assert!(!ux.chrome().is_active());
    let line = ux.status_line();
    assert!(line.contains("active=false"), "{line}");
    assert!(line.contains("chrome=Inactive"), "{line}");
}

#[test]
fn chrome_display_format() {
    let inactive = SessionChrome::Inactive;
    assert_eq!(inactive.to_string(), "SessionChrome::Inactive");
    let active = SessionChrome::Active { session_id: "s".into(), label: Some("v".into()) };
    assert!(active.to_string().contains("Active"));
    assert!(active.to_string().contains("session=s"));
}

#[test]
fn service_indicator_tracks_session_lifecycle() {
    let mut ux = HostSessionUx::new();
    assert!(!ux.indicator().is_active());
    assert_eq!(ux.chrome().status_label(), "Inactive");

    ux.begin_session("s-lifecycle", Some("v1".into())).unwrap();
    assert!(ux.indicator().is_connected());
    assert!(!ux.indicator().is_active());
    ux.mark_active();
    assert!(ux.indicator().is_active());
    assert_eq!(ux.chrome().status_label(), "Active");

    // Local kill only.
    ux.apply_kill();
    assert!(!ux.indicator().is_active());
    assert_eq!(ux.chrome().status_label(), "Inactive");
}

#[test]
fn a_rebuild_keeps_the_unattended_latch() {
    let mut agent = AgentSession::new();
    agent.manager.set_synthetic_geometry(32, 18, 15);
    agent.handle(&attach_msg("s1"), ConnectionState::New);
    agent.handle(&kill_msg(Some("s1"), KillSwitchSource::Tray), ConnectionState::New);
    assert!(agent.state.unattended_disabled);
    agent.rebuilt();
    assert!(agent.state.unattended_disabled);
    assert!(!agent.state.killed);
    assert!(agent.state.session_id.is_none());
    assert!(agent.manager.session_id().is_none());
    assert_eq!(agent.manager.synthetic_geometry(), (64, 36, 30));
    // The next session cannot switch unattended access on; the host can.
    agent.handle(&attach_msg("s2"), ConnectionState::New);
    let step = agent.handle(&policy_msg("s2", false, true), ConnectionState::New);
    assert_error(step.reply, ErrorCode::UnattendedDisabled);
    agent.state.reenable_unattended_local();
    agent.rebuilt();
    assert!(!agent.state.unattended_disabled);
}

#[test]
fn pumping_without_media_sends_nothing() {
    let mut agent = AgentSession::new();
    agent.handle(&attach_msg("s1"), ConnectionState::New);
    let run = agent.pump_media(4, ConnectionState::Connected).unwrap();
    assert_eq!(run.frames_left, 0);
    assert_eq!((run.stats.video_sent, run.stats.audio_sent), (0, 0));
    assert!(!run.stats.skipped_not_connected);
    assert!(agent.pump_media(4, ConnectionState::New).unwrap().stats.skipped_not_connected);

    agent.handle(&start_msg("s1"), ConnectionState::Connected);
    assert_eq!(agent.pump_media(4, ConnectionState::Connected).unwrap().frames_left, 4);
    let run = agent.pump_media(4, ConnectionState::Closed).unwrap();
    assert_eq!(run.frames_left, 0);
    assert!(run.stats.skipped_not_connected);
}
