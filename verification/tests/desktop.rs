use remotelink::desktop::config::{hostname_guess, AppConfig, MAX_RECENT};
use remotelink::desktop::input::{
    forwards_keys, modifier_mask, pointer_events, HeldModifiers, ModifierBits, PointerEvent,
    PointerFrame,
};
use remotelink::desktop::shell::{
    frame_ready, is_login_start, session_hud, Shell, ViewerReport, HOST_STOPPED,
};
use remotelink::desktop::startup::{
    add_outcome, apply, remove_outcome, run_command_line, StartupAction,
};
use remotelink::desktop::status::HostStatusSnapshot;
use remotelink::host::platform_capture::Platform;

#[test]
fn startup_run_command_quotes_exe_and_adds_flag() {
    assert_eq!(
        run_command_line(r"C:\Program Files\RemoteLink\remotelink-app.exe"),
        r#""C:\Program Files\RemoteLink\remotelink-app.exe" --autostart"#
    );
}

#[test]
fn run_command_quotes_exe_and_adds_flag() {
    let line = run_command_line(r"C:\Program Files\RemoteLink\remotelink-app.exe");
    assert_eq!(line, r#""C:\Program Files\RemoteLink\remotelink-app.exe" --autostart"#);
}

#[test]
fn startup_acts_on_windows_only() {
    match apply(true, Ok("C:\\a.exe"), Platform::Windows) {
        Ok(StartupAction::Add(line)) => assert_eq!(line, "\"C:\\a.exe\" --autostart"),
        other => panic!("unexpected {other:?}"),
    }
    assert!(matches!(apply(false, Ok("C:\\a.exe"), Platform::Windows), Ok(StartupAction::Remove)));
    assert!(matches!(apply(false, Ok("/a"), Platform::Linux), Ok(StartupAction::Nothing)));
    assert_eq!(
        apply(true, Ok("/a"), Platform::Linux).unwrap_err(),
        "Start with Windows is only available on Windows"
    );
    assert_eq!(
        apply(true, Err("gone"), Platform::Windows).unwrap_err(),
        "current exe: gone"
    );
    assert!(add_outcome(true, "").is_ok());
    assert!(add_outcome(false, "denied").is_err());
    assert!(remove_outcome(true, "").is_ok());
}

fn config() -> AppConfig {
    AppConfig::with_defaults(None, Some("DESK"), None)
}

#[test]
fn host_name_falls_back() {
    assert_eq!(hostname_guess(Some("A"), Some("b")), "A");
    assert_eq!(hostname_guess(None, Some("b")), "b");
    let d = AppConfig::data_dir(Platform::Linux, Some("/data"), None, None);
    assert_eq!(AppConfig::config_path(Platform::Linux, &d), "/data/config.json");
    let d = AppConfig::data_dir(Platform::Windows, None, Some("C:\\Users\\u"), None);
    assert_eq!(d, "C:\\Users\\u\\RemoteLink");
    let status = AppConfig::status_path(Platform::Windows, &d);
    assert_eq!(status, "C:\\Users\\u\\RemoteLink\\host-status.json");
    let creds = AppConfig::creds_path(Platform::Windows, &d);
    assert_eq!(creds, "C:\\Users\\u\\RemoteLink\\host-creds.json");
}

#[test]
fn recent_hosts_are_distinct_newest_first_and_bounded() {
    let mut c = config();
    for i in 0..20 {
        c.push_recent(&format!("h{i}"));
    }
    c.push_recent("h15");
    c.push_recent("  ");
    assert_eq!(c.recent_hosts.len(), MAX_RECENT);
    assert_eq!(c.recent_hosts[0], "h15");
    assert_eq!(c.recent_hosts.iter().filter(|h| h.as_str() == "h15").count(), 1);
    assert_eq!(c.recent_hosts[1], "h19");
}

#[test]
fn dead_host_is_reported() {
    let mut s = Shell::new(config(), false, "1.0");
    s.host_starting();
    s.host_started(Ok("/bin/host".into()));
    s.poll_host_status(None, Some((false, None)));
    assert_eq!(s.host_error.as_deref(), Some(HOST_STOPPED));
}

#[test]
fn only_sessions_without_error_are_remembered() {
    let mut s = Shell::new(config(), false, "1.0");
    s.remote_id = "RL-1".into();
    s.remote_secret = "123456".into();
    assert!(s.start_connect(true).is_none());
    let req = s.start_connect(false).expect("connects");
    assert_eq!(req.host, "RL-1");
    assert_eq!(req.otp, "123456");
    s.poll_viewer(ViewerReport {
        error: Some("refused".into()),
        status: "error".into(),
        finished: true,
    });
    assert!(s.config.recent_hosts.is_empty());
    s.poll_viewer(ViewerReport { error: None, status: "done".into(), finished: true });
    assert_eq!(s.config.recent_hosts, vec!["RL-1"]);
}

#[test]
fn snapshot_defaults_and_frames() {
    let snap = HostStatusSnapshot::default();
    assert!(!snap.connected && !snap.active);
    assert!(is_login_start(Some("1")));
    assert!(!is_login_start(None));
    assert!(frame_ready(2, 2, 16));
    assert!(!frame_ready(2, 2, 15));
    assert!(!frame_ready(0, 2, 0));
}

fn quiet() -> PointerFrame {
    PointerFrame {
        over: true,
        primary_pressed: false,
        primary_released: false,
        secondary_pressed: false,
        secondary_released: false,
        scrolled: false,
    }
}

#[test]
fn pointer_events_come_in_order() {
    assert_eq!(pointer_events(quiet()), vec![PointerEvent::Move]);
    let all = PointerFrame {
        over: true,
        primary_pressed: true,
        primary_released: true,
        secondary_pressed: true,
        secondary_released: true,
        scrolled: true,
    };
    assert_eq!(
        pointer_events(all),
        vec![
            PointerEvent::Move,
            PointerEvent::Left { pressed: true },
            PointerEvent::Left { pressed: false },
            PointerEvent::Right { pressed: true },
            PointerEvent::Right { pressed: false },
            PointerEvent::Wheel,
        ]
    );
    assert!(pointer_events(PointerFrame { over: false, ..all }).is_empty());
    assert_eq!(
        pointer_events(PointerFrame { secondary_released: true, ..quiet() }),
        vec![PointerEvent::Move, PointerEvent::Right { pressed: false }]
    );
}

#[test]
fn keys_go_with_their_modifiers() {
    let bits = ModifierBits { ctrl: 1, alt: 2, shift: 4, meta: 8 };
    let none = HeldModifiers { ctrl: false, alt: false, shift: false, command: false };
    assert_eq!(modifier_mask(none, bits), 0);
    assert_eq!(modifier_mask(HeldModifiers { ctrl: true, shift: true, ..none }, bits), 5);
    assert_eq!(modifier_mask(HeldModifiers { alt: true, command: true, ..none }, bits), 10);
    assert!(forwards_keys(true, false));
    assert!(forwards_keys(false, true));
    assert!(!forwards_keys(false, false));
}

#[test]
fn session_hud_shows_size_and_counts() {
    assert_eq!(
        session_hud("live", 1920, 1080, 42, 7, true),
        "live · 1920×1080 · video 42 · audio 7 · bind ready"
    );
    assert_eq!(session_hud("", 0, 0, 0, 0, false), " · 0×0 · video 0 · audio 0 · bind pending");
}
