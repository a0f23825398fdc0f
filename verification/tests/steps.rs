//! Steps that the library hands out: reconnect cycles, control exchanges, tray commands.

use remotelink::bug_hunt::protocol_fuzz::adversarial_inputs;
use remotelink::bug_hunt::reconnect::{CycleReport, CycleStep, ReconnectRun};
use remotelink::host::agent::AgentSession;
use remotelink::host::control::{ControlMessage, DetachSession, QueryStats};
use remotelink::host::control_loop::{exchange_step, serve_message, ExchangeStep};
use remotelink::host::roles::{agent_demo, AgentDemo, TransportMode};
use remotelink::host::service::build_session_start_sequence;
use remotelink::host::session::ConnectionState;
use remotelink::host::tray::TrayCommands;
use remotelink::host::ws_session::WsHostConfig;
use remotelink::platform::Platform;
use remotelink::unit_test_agent::inventory::parse_public_items;

/// The steps of a cycle, each reported by `report`.
fn steps_of(run: &ReconnectRun, mut report: impl FnMut(CycleStep, &mut CycleReport)) -> Vec<CycleStep> {
    let mut r = CycleReport::blank();
    let mut last = None;
    let mut out = Vec::new();
    loop {
        let step = run.next_step(last, &r);
        out.push(step);
        if step == CycleStep::Judge {
            return out;
        }
        report(step, &mut r);
        last = Some(step);
    }
}

fn in_order(step: CycleStep, r: &mut CycleReport) {
    match step {
        CycleStep::Handshake => {
            r.host_connected = ConnectionState::Connected;
            r.viewer_connected = ConnectionState::Connected;
        },
        CycleStep::Flush => {
            r.data_arrived = true;
            r.media_arrived = true;
        },
        CycleStep::CloseHost => r.host_closed = ConnectionState::Closed,
        CycleStep::PollViewer => r.viewer_closed = ConnectionState::Disconnected,
        _ => {},
    }
}

#[test]
fn reconnect_cycle_goes_through_all_steps_or_stops_at_a_fault() {
    let run = ReconnectRun::start(7, 2);
    let all = [
        CycleStep::Handshake,
        CycleStep::SendData,
        CycleStep::SendAudio,
        CycleStep::Flush,
        CycleStep::CloseHost,
        CycleStep::PollViewer,
        CycleStep::Judge,
    ];
    assert_eq!(steps_of(&run, in_order), all);
    let not_delivered = steps_of(&run, |step, r| {
        in_order(step, r);
        r.media_arrived = false;
    });
    assert_eq!(not_delivered[3..], [CycleStep::Flush, CycleStep::Judge]);
    let unsent = steps_of(&run, |step, r| {
        in_order(step, r);
        if step == CycleStep::SendAudio {
            r.send_audio = Err("closed".into());
        }
    });
    assert_eq!(unsent[2..], [CycleStep::SendAudio, CycleStep::Judge]);
    assert_eq!(steps_of(&run, |_, _| {}), [CycleStep::Handshake, CycleStep::Judge]);
    assert!(run.restarts_ice(&Ok(())) && !run.restarts_ice(&Err("closed".into())));
    assert_eq!(run.data_message(), "{\"cycle\":0}");
    let audio = run.audio_packet();
    assert_eq!((audio.at_ms, audio.rtp_time, audio.payload), (20, 960, vec![1, 2, 3, 4]));
}

#[test]
fn adversarial_inputs_are_fixed() {
    let all = adversarial_inputs();
    assert_eq!(all.len(), 9);
    assert_eq!(all[..5], ["", "{", "null", "[]", "\"str\""]);
    assert_eq!(all[5], "x".repeat(10_000));
    assert_eq!(all[6..8], ["{\"type\":null}", "\0\0\0"]);
    assert_eq!(all[8], "\u{FEFF}{\"type\":\"error\",\"code\":\"c\",\"message\":\"m\"}");
}

/// The steps of an exchange after its command was served.
fn exchange(
    agent: &AgentSession,
    msg: &ControlMessage,
    reply: &ControlMessage,
    connection: ConnectionState,
) -> Vec<ExchangeStep> {
    let mut out = Vec::new();
    let mut step = ExchangeStep::Serve;
    loop {
        step = exchange_step(step, msg, reply, agent, connection);
        out.push(step);
        if step == ExchangeStep::Receive {
            return out;
        }
    }
}

#[test]
fn exchange_replies_first_and_drains_after_the_signals() {
    let mut agent = AgentSession::new();
    let query = ControlMessage::QueryStats(QueryStats { session_id: None });
    let idle = serve_message(&mut agent, &query, &vec![], ConnectionState::New).reply;
    assert_eq!(exchange(&agent, &query, &idle, ConnectionState::New), [
        ExchangeStep::Reply,
        ExchangeStep::SendSignals,
        ExchangeStep::SendDrained,
        ExchangeStep::Receive,
    ]);
    for msg in build_session_start_sequence("s", false) {
        serve_message(&mut agent, &msg, &vec![], ConnectionState::New);
    }
    assert_eq!(exchange(&agent, &query, &idle, ConnectionState::Connected), [
        ExchangeStep::Reply,
        ExchangeStep::PollPeer,
        ExchangeStep::SendSignals,
        ExchangeStep::SendDrained,
        ExchangeStep::Pump { wait_ms: 200, frames: 3 },
        ExchangeStep::Receive,
    ]);
    let detach = ControlMessage::DetachSession(DetachSession {
        session_id: "s".into(),
        reason: None,
    });
    let ack = ControlMessage::ack("detach_session", None);
    assert_eq!(exchange(&agent, &detach, &ack, ConnectionState::New)[4..], [
        ExchangeStep::Rebuild,
        ExchangeStep::Receive,
    ]);
}

#[test]
fn end_request_is_taken_once_by_whoever_asks() {
    let mut commands = TrayCommands::default();
    assert!(!commands.take_end_session());
    commands.request_end_session();
    commands.request_end_session();
    commands.note_copy_otp_ok();
    assert!(!commands.take_exit());
    assert!(commands.take_end_session());
    assert!(!commands.take_end_session());
    assert!(!commands.take_exit());
    commands.request_end_session();
    assert!(commands.take_end_session());
    commands.request_exit();
    assert!(!commands.take_end_session());
    assert!(commands.take_exit());
    assert!(!commands.take_exit());
}

#[test]
fn agent_on_its_own_prefers_the_live_transport() {
    assert_eq!(agent_demo(TransportMode::Auto), (TransportMode::Live, AgentDemo::Live));
    assert_eq!(agent_demo(TransportMode::Live), (TransportMode::Live, AgentDemo::Live));
    assert_eq!(agent_demo(TransportMode::Mock), (TransportMode::Mock, AgentDemo::InProcess));
    assert_eq!(agent_demo(TransportMode::WebRtc), (TransportMode::WebRtc, AgentDemo::InProcess));
}

#[test]
fn desktop_service_serves_without_limit() {
    let cfg = WsHostConfig::desktop(
        Platform::Windows,
        "http://s".into(),
        "DESK".into(),
        TransportMode::WebRtc,
        "status.json".into(),
        "creds.json".into(),
    );
    assert!(cfg.runs_as_service());
    assert_eq!((cfg.max_sessions, cfg.reconnect), (0, true));
    assert_eq!((cfg.video_frames, cfg.wait_incoming_ms), (5, 300_000));
    assert_eq!(cfg.reconnect_backoff_ms, 2_000);
    assert!(cfg.tray && !cfg.os_tray && cfg.mint_otp);
    assert_eq!(cfg.status_path.as_deref(), Some("status.json"));
    assert_eq!((cfg.server.as_str(), cfg.creds_path.as_str()), ("http://s", "creds.json"));
}

#[test]
fn items_come_in_line_order() {
    let source = "pub fn a() {}\nimpl T {\n    pub fn b(&self) {}\n}\npub use x::{\n    c,\n    d,\n};\npub struct E;\n";
    let lines: Vec<u32> = parse_public_items(source, "demo", "src\\lib.rs")
        .iter()
        .map(|i| i.line.unwrap())
        .collect();
    assert!(lines.len() >= 4);
    assert!(lines.windows(2).all(|w| w[0] <= w[1]), "{lines:?}");
}
