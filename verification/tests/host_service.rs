use remotelink::host::agent::AgentSession;
use remotelink::host::control::{
    Ack, ControlMessage, DetachSession, SignalForward, SignalHop, StartMedia, StatsPush,
};
use remotelink::host::control_loop::{
    drain_complete, drain_step, forbidden_reply, format_endpoint, hung_up,
    parse_control_endpoint, polls_after_reply, pumps_after, rebuilds_after, serve_message,
    start_reply, ControlEndpoint, DrainStep, ReceiveFault,
};
use remotelink::host::platform_capture::{
    bytes_per_pixel, default_audio_kind, default_video_kind, duration_to_ms, fps_to_interval_ms,
    open_audio_source, open_default_sources, open_video_source, pack_frame, AudioCaptureKind,
    AudioOpen, OpenMode, PixelFormat, Platform, VideoCaptureKind, VideoOpen,
};
use remotelink::host::options::{host_plan, HostPlan};
use remotelink::host::roles::{
    parse_role, parse_transport, role_from_str, unknown_role, HostRole, TransportMode,
};
use remotelink::host::service::{
    build_session_start_sequence, colocate_outcome, gather_signals, ipc_outcome,
    run_kill_switch_demo, service_kill_switch, signal_to_agent, signals_for_viewer,
    smoke_encode_session_frames, smoke_messages, ReadSignal, SmokeFrame, ViewerSignal,
};
use remotelink::host::session::{ConnectionState, IceCandidate, SdpPayload};
use remotelink::host::signal_kind;
use remotelink::host::tray::{
    copy_wide, default_status_path, truncate_chars, HostTray, MenuCommand, TrayState,
};
use remotelink::json::Json;

#[test]
fn parse_tcp_endpoint() {
    for p in [Platform::Linux, Platform::Windows, Platform::Other] {
        assert_eq!(
            parse_control_endpoint("tcp:0", p).unwrap(),
            ControlEndpoint::tcp_localhost(0)
        );
        assert_eq!(
            parse_control_endpoint("7901", p).unwrap(),
            ControlEndpoint::tcp_localhost(7901)
        );
    }
    assert!(parse_control_endpoint("tcp:65536", Platform::Linux).is_err());
    assert!(parse_control_endpoint("pipe", Platform::Linux).is_err());
}

#[test]
fn parse_pipe_endpoint() {
    let read = |s: &str| parse_control_endpoint(s, Platform::Windows).unwrap();
    assert_eq!(read("pipe"), ControlEndpoint::default_named_pipe());
    assert_eq!(read("pipe:my-control"), ControlEndpoint::named_pipe("my-control"));
    assert_eq!(
        read(r"\\.\pipe\remotelink-host-control"),
        ControlEndpoint::default_named_pipe()
    );
    assert_eq!(
        format_endpoint(&ControlEndpoint::default_named_pipe()),
        "pipe:remotelink-host-control"
    );
}

#[test]
fn endpoints_read_back() {
    for e in [ControlEndpoint::tcp_localhost(7901), ControlEndpoint::named_pipe("x")] {
        let text = format_endpoint(&e);
        assert_eq!(parse_control_endpoint(&text, Platform::Windows).unwrap(), e);
    }
}

fn start(id: &str) -> ControlMessage {
    ControlMessage::StartMedia(StartMedia { session_id: id.into(), display_id: None })
}

fn ack() -> ControlMessage {
    ControlMessage::Ack(Ack { for_method: None, session_id: None })
}

fn signal(kind: &str, payload: &str) -> ControlMessage {
    ControlMessage::SignalForward(SignalForward {
        session_id: "s".into(),
        kind: kind.into(),
        payload: payload.into(),
        from: SignalHop::Agent,
    })
}

#[test]
fn a_reply_is_followed_by_signals_and_the_marker() {
    assert!(matches!(drain_step(drain_complete()), DrainStep::Complete));
    assert!(matches!(drain_step(signal("ice_candidate", "c")), DrainStep::Keep(_)));
    assert!(matches!(drain_step(start("s")), DrainStep::Unexpected(_)));
    assert!(start_reply(&start("s"), &ack(), "").is_ok());
    assert!(start_reply(&start("s"), &start("s"), "shown").is_err());
}

#[test]
fn agent_serves_control_messages_only() {
    let forbidden = vec!["start_media".to_string()];
    assert!(forbidden_reply(&start("s"), &forbidden).is_some());
    assert!(forbidden_reply(&start("s"), &vec![]).is_none());
    let mut agent = AgentSession::new();
    for msg in build_session_start_sequence("s", false) {
        let step = serve_message(&mut agent, &msg, &vec![], ConnectionState::New);
        assert!(matches!(step.reply, ControlMessage::Ack(_)));
    }
    assert!(agent.state.media_started);
    assert!(polls_after_reply(&agent));
    assert!(!pumps_after(&start("s"), &agent, ConnectionState::New));
    let end = serve_message(&mut agent, &service_kill_switch(None), &vec![], ConnectionState::New);
    assert!(!agent.state.media_started);
    assert!(!rebuilds_after(&service_kill_switch(None), &end.reply));
    let detach = ControlMessage::DetachSession(DetachSession {
        session_id: "s".into(),
        reason: None,
    });
    assert!(rebuilds_after(&detach, &ack()));
    assert!(!rebuilds_after(&detach, &start("s")));
}

#[test]
fn closed_pipes_are_hangups() {
    assert!(hung_up(ReceiveFault::Ended, ""));
    assert!(!hung_up(ReceiveFault::Codec, "bad frame"));
}

fn args(list: &[&str]) -> Vec<String> {
    list.iter().map(|s| s.to_string()).collect()
}

#[test]
fn default_role_is_service() {
    assert_eq!(parse_role(&[]), HostRole::Service);
}

#[test]
fn parses_role_equals() {
    assert_eq!(parse_role(&["--role=agent".into()]), HostRole::Agent);
}

#[test]
fn parses_role_space() {
    assert_eq!(parse_role(&["--role".into(), "agent".into()]), HostRole::Agent);
}

#[test]
fn parses_colocate_role() {
    assert_eq!(parse_role(&["--role=colocate".into()]), HostRole::Colocate);
    assert_eq!(parse_role(&["--role=synthetic".into()]), HostRole::Colocate);
}

#[test]
fn parses_kill_switch_flag_and_role() {
    assert_eq!(parse_role(&["--kill-switch".into()]), HostRole::KillSwitchDemo);
    assert_eq!(parse_role(&["--role=kill-switch".into()]), HostRole::KillSwitchDemo);
}

#[test]
fn unknown_roles_are_named() {
    assert_eq!(role_from_str("nope").unwrap_err(), "nope");
    assert!(unknown_role("nope").contains("nope"));
}

#[test]
fn parses_transport_flag() {
    assert_eq!(parse_transport(&args(&["--transport=live"]), None), TransportMode::Live);
    assert_eq!(parse_transport(&args(&["--transport", "auto"]), None), TransportMode::Auto);
    // without the variable → mock
    assert_eq!(parse_transport(&[], None), TransportMode::Mock);
    assert_eq!(parse_transport(&[], Some("live")), TransportMode::Live);
}

#[test]
fn transport_names_read_back() {
    for m in [
        TransportMode::Mock,
        TransportMode::Live,
        TransportMode::Auto,
        TransportMode::WebRtc,
    ] {
        assert_eq!(TransportMode::parse(m.as_str()), Some(m));
    }
}

#[test]
fn default_kinds_match_target() {
    assert_eq!(default_video_kind(Platform::Linux), VideoCaptureKind::LinuxMock);
    assert_eq!(default_audio_kind(Platform::Linux), AudioCaptureKind::LinuxPreferNative);
    assert_eq!(default_video_kind(Platform::Windows), VideoCaptureKind::WindowsMock);
    assert_eq!(default_audio_kind(Platform::Windows), AudioCaptureKind::WindowsWasapiStub);
    assert_eq!(default_video_kind(Platform::Other), VideoCaptureKind::Synthetic);
    assert_eq!(default_audio_kind(Platform::Other), AudioCaptureKind::Synthetic);
}

#[test]
fn sources_are_opened_with_their_settings() {
    assert_eq!(
        open_video_source(VideoCaptureKind::Synthetic, 16, 9, 30, 0),
        VideoOpen::Synthetic { width: 16, height: 9, fps: 30 }
    );
    assert_eq!(
        open_video_source(VideoCaptureKind::LinuxMock, 32, 18, 15, 10),
        VideoOpen::Linux {
            mock: true,
            width: 32,
            height: 18,
            frame_interval_ms: 66,
            start_pts_ms: 10
        }
    );
    match open_audio_source(AudioCaptureKind::WindowsWasapiStub, 5) {
        AudioOpen::Windows { mode, start_pts_ms, .. } => {
            assert_eq!((mode, start_pts_ms), (OpenMode::StubOnly, 5));
        },
        other => panic!("unexpected {other:?}"),
    }
    let (v, a) = open_default_sources(Platform::Other, 64, 36, 30, 0);
    assert_eq!(v, VideoOpen::Synthetic { width: 64, height: 36, fps: 30 });
    assert_eq!(a, AudioOpen::Synthetic);
    assert_eq!(fps_to_interval_ms(30), 33);
    assert_eq!(duration_to_ms(u128::MAX), u64::MAX);
}

#[test]
fn frames_are_packed_without_padding() {
    assert_eq!(bytes_per_pixel(PixelFormat::Bgra8), 4);
    let data: Vec<u8> = (0..24).collect();
    let packed = pack_frame(true, PixelFormat::Bgra8, 2, 2, 12, &data).unwrap();
    assert_eq!(packed, vec![0, 1, 2, 3, 4, 5, 6, 7, 12, 13, 14, 15, 16, 17, 18, 19]);
    assert!(pack_frame(false, PixelFormat::Bgra8, 2, 2, 12, &data).is_err());
}

#[test]
fn session_start_sequence_roundtrips() {
    let msgs = build_session_start_sequence("sess-xyz", false);
    assert_eq!(msgs.len(), 3);
    let names: Vec<&str> = msgs.iter().map(|m| m.method_name()).collect();
    assert_eq!(names, vec!["attach_session", "set_policy", "start_media"]);
}

#[test]
fn signal_forward_from_service() {
    let msg = signal_to_agent("s1", signal_kind::ICE_CANDIDATE, r#"{"c":1}"#);
    match msg {
        ControlMessage::SignalForward(s) => {
            assert_eq!(s.from, SignalHop::Service);
            assert_eq!(s.kind, signal_kind::ICE_CANDIDATE);
        },
        other => panic!("unexpected {other:?}"),
    }
}

#[test]
fn smoke_encode_ok() {
    let frames: Vec<SmokeFrame> = smoke_messages("s-test")
        .iter()
        .map(|m| SmokeFrame {
            method: m.method_name().to_string(),
            encoded: Ok(10),
            decoded: Some(Ok(m.method_name().to_string())),
        })
        .collect();
    let (count, bytes) = smoke_encode_session_frames(&frames).unwrap();
    assert_eq!(count, 5);
    assert!(bytes > 0);
    assert_eq!(bytes, 50);
    let broken = vec![SmokeFrame {
        method: "start_media".into(),
        encoded: Err("too long".into()),
        decoded: None,
    }];
    assert!(smoke_encode_session_frames(&broken).unwrap_err().contains("too long"));
    let changed = vec![SmokeFrame {
        method: "start_media".into(),
        encoded: Ok(1),
        decoded: Some(Ok("stop_media".into())),
    }];
    assert!(smoke_encode_session_frames(&changed).is_err());
}

#[test]
fn colocate_synthetic_session_delivers_av() {
    let summary = colocate_outcome("colocate-s1", 5, 15, 5, 15).unwrap();
    assert!(summary.contains("viewer_video="), "{summary}");
    assert!(summary.contains("colocate ok"), "{summary}");
    assert!(colocate_outcome("colocate-s1", 5, 15, 0, 15).is_err());
}

#[test]
fn ipc_colocate_demo_delivers_media() {
    let summary = ipc_outcome("ipc-demo-test", 7901, 3, 9).expect("ipc colocate");
    assert!(summary.contains("viewer_video_rx="), "summary={summary}");
    assert!(!summary.contains("viewer_video_rx=0"), "expected video frames: {summary}");
    assert!(ipc_outcome("ipc-demo-test", 7901, 0, 9).is_err());
}

#[test]
fn kill_switch_demo_ends_session_and_indicator() {
    let demo = run_kill_switch_demo("kill-demo-s1").unwrap();
    let summary = demo.summary;
    assert!(summary.contains("indicator_active_after=false"), "{summary}");
    assert!(summary.contains("chrome=Inactive"), "{summary}");
    assert!(summary.contains("kill-switch demo ok"), "{summary}");
    assert!(demo.live_status.contains("active=true"));
    assert!(demo.dead_status.contains("active=false"));
}

#[test]
fn signals_are_relayed_by_kind() {
    let out = signals_for_viewer(&vec![
        signal("session_offer", "o"),
        ack(),
        signal("ice_candidate", "c"),
        signal("auth_challenge", "x"),
    ]);
    assert_eq!(out.len(), 2);
    assert!(matches!(&out[0], ViewerSignal::Offer(p) if p == "o"));
    assert!(matches!(&out[1], ViewerSignal::Ice(p) if p == "c"));
    let ice = IceCandidate {
        candidate: "candidate:1".into(),
        sdp_mid: None,
        sdp_m_line_index: None,
        username_fragment: None,
    };
    let sdp = SdpPayload { sdp: "v=0".into(), fingerprint_sig: None };
    let got = gather_signals(vec![ReadSignal::Offer(sdp), ReadSignal::Ice(ice)]).unwrap();
    assert_eq!(got.offer.unwrap().sdp, "v=0");
    assert_eq!(got.ice.len(), 1);
    assert!(gather_signals(vec![ReadSignal::Malformed("bad".into())]).is_err());
}

fn text_in(j: &Json, key: &str) -> Option<String> {
    j.member(key).and_then(|v| v.text()).cloned()
}

#[test]
fn tray_otp_and_session_update_status_file() {
    let mut tray = HostTray::console_only("test-host", "status.json");
    assert_eq!(tray.status_path(), "status.json");
    tray.set_identity("1234567890", Some("test-host"));
    tray.set_otp("654321", "2099-01-01T00:00:00Z");
    let snap = tray.snapshot();
    assert_eq!(snap.public_id.as_deref(), Some("1234567890"));
    assert_eq!(snap.otp_code.as_deref(), Some("654321"));
    assert!(snap.tooltip().contains("654321"));
    assert!(snap.console_panel().contains("654321"));

    tray.begin_session("sess-1", Some("viewer".into()));
    tray.mark_session_active();
    let snap = tray.snapshot();
    assert!(snap.ux.chrome().is_active());
    assert!(snap.tooltip().contains("IN SESSION"));

    let body = snap.to_status_json();
    assert_eq!(text_in(&body, "otp_code").as_deref(), Some("654321"));
    assert_eq!(text_in(&body, "chrome").as_deref(), Some("Active"));
    assert_eq!(text_in(&body, "session_id").as_deref(), Some("sess-1"));

    tray.end_session();
    assert!(!tray.snapshot().ux.chrome().is_active());
}

#[test]
fn tooltip_truncated_to_127() {
    let s = TrayState {
        display_name: "x".into(),
        public_id: Some("1".into()),
        otp_code: Some("9".repeat(200)),
        ..TrayState::default()
    };
    assert!(s.tooltip().chars().count() <= 127);
    assert_eq!(truncate_chars("äöü", 2), "ä…");
    assert_eq!(truncate_chars("äöü", 3), "äöü");
}

#[test]
fn tray_commands_end_session_and_exit() {
    let mut tray = HostTray::console_only("cmd-host", "status.json");
    tray.set_otp("111222", "soon");
    assert_eq!(tray.otp_for_clipboard().as_deref(), Some("111222"));
    assert!(!tray.take_end_session());
    tray.request_end_session();
    assert!(tray.take_end_session());
    assert!(!tray.take_end_session());
    tray.commands_mut().request_exit();
    assert!(tray.take_exit());
}

#[test]
fn menu_offers_what_can_be_done() {
    let mut tray = HostTray::console_only("h", "status.json");
    assert!(!tray.menu().copy_otp && !tray.menu().end_session);
    tray.set_otp("111222", "soon");
    assert!(tray.menu().copy_otp);
    tray.handle_menu_command(MenuCommand::CopyOtp, true);
    assert_eq!(tray.commands().copy_otp_count(), 1);
    tray.clear_otp();
    assert!(!tray.menu().copy_otp);
    tray.begin_session("s", None);
    assert!(tray.menu().end_session);
    tray.handle_menu_command(MenuCommand::EndSession, false);
    assert!(tray.take_end_session());
    tray.handle_menu_command(MenuCommand::Exit, false);
    assert!(tray.take_exit());
}

#[test]
fn wide_texts_end_with_zero() {
    assert_eq!(copy_wide(&[1, 2, 3, 4], 3), vec![1, 2, 0]);
    assert_eq!(copy_wide(&[1], 3), vec![1, 0, 0]);
    let beside = |platform, creds: &str| default_status_path(platform, creds);
    assert_eq!(beside(Platform::Linux, "dir/creds.json"), "dir/.remotelink-host-status.json");
    assert_eq!(beside(Platform::Linux, "creds.json"), ".remotelink-host-status.json");
    assert_eq!(
        beside(Platform::Windows, "C:\\rl\\creds.json"),
        "C:\\rl\\.remotelink-host-status.json"
    );
    assert_eq!(beside(Platform::Windows, "C:creds.json"), "C:.remotelink-host-status.json");
}

#[test]
fn stats_are_no_signal() {
    let stats = ControlMessage::StatsPush(StatsPush {
        session_id: "s".into(),
        rtt_ms: None,
        video_bitrate_bps: None,
        audio_bitrate_bps: None,
        ice_path: None,
        av_skew_ms: None,
        fps: None,
        loss: None,
    });
    assert!(signals_for_viewer(&vec![stats]).is_empty());
}

fn plan(args: &[&str]) -> Result<HostPlan, String> {
    let args: Vec<String> = args.iter().map(|a| a.to_string()).collect();
    host_plan(&args, None, Platform::Windows)
}

#[test]
fn a_server_makes_the_service_persistent() {
    assert!(matches!(plan(&[]), Ok(HostPlan::ServiceSkeleton)));
    assert!(matches!(plan(&["--role=service"]), Ok(HostPlan::ServiceSkeleton)));
    match plan(&["--role=service", "--server=http://h:1", "--transport=live"]).unwrap() {
        HostPlan::Serve { config } => {
            assert_eq!(config.server, "http://h:1");
            assert_eq!(config.transport, TransportMode::Live);
            assert_eq!(config.max_sessions, 0);
            assert!(config.reconnect);
            assert!(config.agent_control.is_none());
            assert!(config.os_tray);
        },
        other => panic!("unexpected {other:?}"),
    }
    let args = ["--server", "u", "--agent-control=pipe", "--boot-secret=SECRET", "--sessions=3"];
    match plan(&args).unwrap() {
        HostPlan::Serve { config } => {
            assert_eq!(config.max_sessions, 3);
            assert_eq!(config.agent_control, Some(ControlEndpoint::default_named_pipe()));
            assert_eq!(config.boot_secret.as_deref(), Some("SECRET"));
        },
        other => panic!("unexpected {other:?}"),
    }
    match plan(&["--role=ws", "--sessions=3"]).unwrap() {
        HostPlan::Serve { config } => {
            assert_eq!(config.server, "http://127.0.0.1:18080");
            assert_eq!(config.max_sessions, 1);
            assert!(!config.reconnect);
        },
        other => panic!("unexpected {other:?}"),
    }
}

#[test]
fn an_endpoint_makes_the_agent_listen() {
    assert!(matches!(
        plan(&["--role=agent", "--transport=live"]),
        Ok(HostPlan::AgentSynthetic { transport: TransportMode::Live })
    ));
    match plan(&["--role=agent", "--control-listen=tcp:7900", "--boot-secret", "s"]).unwrap() {
        HostPlan::AgentControl { listen, boot_secret, transport } => {
            assert_eq!(listen, ControlEndpoint::tcp_localhost(7900));
            assert_eq!(boot_secret.as_deref(), Some("s"));
            assert_eq!(transport, TransportMode::Mock);
        },
        other => panic!("unexpected {other:?}"),
    }
    assert!(matches!(plan(&["--role=colocate"]), Ok(HostPlan::Colocate)));
    assert!(matches!(plan(&["--kill-switch"]), Ok(HostPlan::KillSwitchDemo)));
    assert!(matches!(plan(&["-h"]), Ok(HostPlan::Usage)));
}

#[test]
fn bad_arguments_are_named() {
    assert_eq!(
        plan(&["--role=nope"]).unwrap_err(),
        "unknown --role `nope` (expected service|agent|colocate|kill-switch)"
    );
    assert_eq!(
        plan(&["--server=u", "--sessions=many"]).unwrap_err(),
        "invalid --sessions `many`"
    );
    assert_eq!(
        plan(&["--role=agent", "--control-listen=elsewhere"]).unwrap_err(),
        "protocol: invalid control endpoint `elsewhere` (expected tcp:PORT or pipe[:name])"
    );
}
