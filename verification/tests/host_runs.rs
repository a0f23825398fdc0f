//! A served session from the offer to its end, on an agent and in process.

use remotelink::host::agent_run::{AgentFault, AgentRun, RunAction, RunEvent, RunPhase};
use remotelink::host::control::{ControlMessage, SignalForward, SignalHop, StatsPush};
use remotelink::host::local_run::{LocalAction, LocalEvent, LocalPhase, LocalRun};
use remotelink::host::roles::TransportMode;
use remotelink::host::session::{ConnectionState, PumpStats};
use remotelink::host::ws_session::{BindStep, IceFault, RelayEvent, SetUp};

fn signal(kind: &str, payload: &str) -> SignalForward {
    SignalForward {
        session_id: "s".into(),
        kind: kind.into(),
        payload: payload.into(),
        from: SignalHop::Agent,
    }
}

fn candidate(payload: &str) -> ControlMessage {
    ControlMessage::SignalForward(signal("ice_candidate", payload))
}

fn stats(ice_path: &str, bps: Option<u32>) -> ControlMessage {
    ControlMessage::StatsPush(StatsPush {
        session_id: "s".into(),
        rtt_ms: None,
        video_bitrate_bps: bps,
        audio_bitrate_bps: None,
        ice_path: Some(ice_path.into()),
        av_skew_ms: None,
        fps: None,
        loss: None,
    })
}

fn reply(msg: ControlMessage) -> RunEvent {
    RunEvent::Reply { msg, shown: "shown".into(), more: vec![] }
}

fn acked(more: Vec<ControlMessage>) -> RunEvent {
    RunEvent::Reply { msg: ControlMessage::ack("signal_forward", None), shown: String::new(), more }
}

/// One short word per action.
fn words(actions: &[RunAction]) -> Vec<String> {
    actions
        .iter()
        .map(|a| match a {
            RunAction::Poll { ms } => format!("poll {ms}"),
            RunAction::Sleep { ms } => format!("sleep {ms}"),
            RunAction::AskTray => "tray".to_string(),
            RunAction::Request(ControlMessage::SignalForward(s)) => {
                format!("forward {} {}", s.kind, s.payload)
            },
            RunAction::Request(ControlMessage::QueryStats(q)) => {
                format!("stats {}", q.session_id.as_deref().unwrap_or("-"))
            },
            RunAction::Request(m) => format!("request {m:?}"),
            RunAction::SendIce(p) => format!("ice {}", p.join(",")),
            RunAction::MarkActive => "active".to_string(),
            RunAction::Detach(ControlMessage::DetachSession(d)) => {
                format!("detach {} {}", d.session_id, d.reason.as_deref().unwrap_or("-"))
            },
            RunAction::Detach(m) => format!("detach {m:?}"),
            RunAction::EndTray => "end tray".to_string(),
            RunAction::KillTray => "kill tray".to_string(),
            RunAction::EndSession { reason } => format!("end {reason}"),
            RunAction::Finish(Ok(s)) => format!("ok {s}"),
            RunAction::Finish(Err(e)) => format!("err {e}"),
        })
        .collect()
}

fn agent_run(frames: u32) -> AgentRun {
    let outbound = vec![
        ControlMessage::SignalForward(signal("session_offer", "o")),
        candidate("h1"),
    ];
    AgentRun::start("1234567890", TransportMode::Live, "s", frames, &outbound)
}

/// A session that stands at the beginning of its first round.
fn agent_round(frames: u32) -> AgentRun {
    let mut run = agent_run(frames);
    run.step(0, RunEvent::OfferSent(Ok(())));
    run.step(0, RunEvent::Signal(RelayEvent::Answer("a".into())));
    run.step(0, acked(vec![]));
    run.step(0, RunEvent::IceSent(Ok(())));
    assert_eq!(run.phase(), RunPhase::Round);
    run
}

/// One round up to what follows the statistics.
fn round_with(run: &mut AgentRun, msg: ControlMessage) -> Vec<String> {
    run.step(0, RunEvent::Tray { end: false });
    run.step(0, RunEvent::Signal(RelayEvent::Quiet));
    run.step(0, reply(msg));
    words(&run.step(0, RunEvent::IceSent(Ok(()))))
}

#[test]
fn agent_session_runs_from_offer_to_video() {
    let mut run = agent_run(5);
    assert_eq!(words(&run.step(7, RunEvent::OfferSent(Ok(())))), ["poll 250"]);
    let early = RunEvent::Signal(RelayEvent::Ice("v1".into()));
    assert_eq!(words(&run.step(250, early)), ["poll 250"]);
    assert_eq!(words(&run.step(250, RunEvent::Signal(RelayEvent::Quiet))), ["poll 250"]);
    let answer = RunEvent::Signal(RelayEvent::Answer("a".into()));
    assert_eq!(words(&run.step(250, answer)), ["forward session_answer a"]);
    assert_eq!(words(&run.step(1, acked(vec![candidate("h2")]))), ["ice h1,h2"]);
    assert_eq!(words(&run.step(1, RunEvent::IceSent(Ok(())))), ["forward ice_candidate v1"]);
    assert_eq!(words(&run.step(1, acked(vec![candidate("h3")]))), ["ice h3"]);
    assert_eq!(words(&run.step(1, RunEvent::IceSent(Ok(())))), ["tray"]);
    assert_eq!(words(&run.step(1, RunEvent::Tray { end: false })), ["poll 40"]);
    let later = RunEvent::Signal(RelayEvent::Ice("v2".into()));
    assert_eq!(words(&run.step(40, later)), ["forward ice_candidate v2"]);
    assert_eq!(words(&run.step(1, acked(vec![]))), ["ice "]);
    assert_eq!(words(&run.step(1, RunEvent::IceSent(Ok(())))), ["stats s"]);
    assert_eq!(words(&run.step(1, reply(stats("checking", Some(0))))), ["ice "]);
    assert_eq!(words(&run.step(1, RunEvent::IceSent(Ok(())))), ["sleep 30"]);
    assert_eq!(words(&run.step(30, RunEvent::Rested)), ["tray"]);
    assert_eq!(round_with(&mut run, stats("connected", Some(1000))), [
        "active",
        "detach s host_media_complete",
        "end host_media_complete",
        "end tray",
        "ok ws-host ok public_id=1234567890 session=s media=agent transport=live video_tx>=3",
    ]);
    assert_eq!(run.phase(), RunPhase::Done);
    assert!(run.step(1, RunEvent::Rested).is_empty());
}

#[test]
fn unanswered_agent_session_is_given_up() {
    let mut run = agent_run(5);
    run.step(0, RunEvent::OfferSent(Ok(())));
    assert_eq!(words(&run.step(29_900, RunEvent::Signal(RelayEvent::Other))), ["poll 100"]);
    assert_eq!(words(&run.step(100, RunEvent::Signal(RelayEvent::Quiet))), [
        "detach s answer_timeout",
        "end tray",
        "err timeout waiting for session_answer",
    ]);
}

#[test]
fn no_candidate_leaves_before_the_answer_is_accepted() {
    let mut run = agent_run(5);
    assert_eq!(words(&run.step(0, RunEvent::OfferSent(Ok(())))), ["poll 250"]);
    run.step(0, RunEvent::Signal(RelayEvent::Answer("a".into())));
    assert_eq!(words(&run.step(0, reply(stats("new", None)))), ["err agent rejected answer: shown"]);
}

#[test]
fn agent_session_fails_where_a_link_fails() {
    let mut run = agent_run(1);
    let sent = RunEvent::OfferSent(Err("closed".into()));
    assert_eq!(words(&run.step(0, sent)), ["err send offer: closed"]);

    let mut run = agent_run(1);
    run.step(0, RunEvent::OfferSent(Ok(())));
    let lost = RunEvent::Signal(RelayEvent::Failed("reset".into()));
    assert_eq!(words(&run.step(0, lost)), ["err recv: reset"]);

    let mut run = agent_run(1);
    run.step(0, RunEvent::OfferSent(Ok(())));
    run.step(0, RunEvent::Signal(RelayEvent::Answer("a".into())));
    let gone = RunEvent::RequestFailed("pipe".into());
    assert_eq!(words(&run.step(0, gone)), ["err agent answer: pipe"]);

    let mut run = agent_run(1);
    run.step(0, RunEvent::OfferSent(Ok(())));
    run.step(0, RunEvent::Signal(RelayEvent::Answer("a".into())));
    run.step(0, acked(vec![]));
    let unsent = RunEvent::IceSent(Err(IceFault::Unsent("closed".into())));
    assert_eq!(words(&run.step(0, unsent)), ["err send host ice: closed"]);

    let mut run = agent_round(1);
    run.step(0, RunEvent::Tray { end: false });
    run.step(0, RunEvent::Signal(RelayEvent::Ice("v".into())));
    assert_eq!(words(&run.step(0, reply(stats("x", None)))), ["err agent rejected ice: shown"]);

    let mut run = agent_round(1);
    run.step(0, RunEvent::Tray { end: false });
    run.step(0, RunEvent::Signal(RelayEvent::Failed("ignored".into())));
    run.step(0, reply(stats("connected", Some(1))));
    let unread = RunEvent::IceSent(Err(IceFault::Unreadable("not json".into())));
    assert_eq!(words(&run.step(0, unread)), ["err not json"]);
}

#[test]
fn agent_session_without_connection_or_video_is_given_up() {
    let mut run = agent_round(5);
    assert_eq!(round_with(&mut run, stats("checking", None)), ["sleep 30"]);
    assert_eq!(words(&run.step(15_000, RunEvent::Rested)), [
        "detach s agent_not_connected",
        "end tray",
        "err agent media plane never reached Connected",
    ]);

    let mut run = agent_round(5);
    assert_eq!(round_with(&mut run, stats("connected", None)), ["sleep 30"]);
    assert_eq!(words(&run.step(15_000, RunEvent::Rested)), ["active", "sleep 100"]);
    assert_eq!(words(&run.step(100, RunEvent::Rested)), ["stats s"]);
    assert_eq!(words(&run.step(0, reply(stats("connected", Some(0))))), [
        "detach s agent_no_video",
        "end tray",
        "err agent connected but pumped no video",
    ]);

    let mut run = agent_round(0);
    round_with(&mut run, stats("connected", None));
    assert_eq!(words(&run.step(15_000, RunEvent::Rested)), [
        "active",
        "detach s agent_no_video",
        "end tray",
        "err agent connected but pumped no video",
    ]);

    let mut run = agent_round(2);
    round_with(&mut run, stats("connected", None));
    run.step(15_000, RunEvent::Rested);
    run.step(100, RunEvent::Rested);
    assert_eq!(words(&run.step(0, reply(stats("connected", Some(9))))).last().unwrap(),
        "ok ws-host ok public_id=1234567890 session=s media=agent transport=live video_tx>=2");
}

#[test]
fn tray_kills_the_setup_and_closes_a_live_agent_session() {
    let mut run = agent_round(5);
    assert_eq!(words(&run.step(0, RunEvent::Tray { end: true })), [
        "detach s tray_end_session",
        "kill tray",
        "err session ended from tray",
    ]);
    assert_eq!(AgentFault::TrayEnded.error(), "session ended from tray");
    assert_eq!(AgentFault::TrayEnded.detach_reason(), "tray_end_session");

    let mut run = agent_round(0);
    assert_eq!(round_with(&mut run, stats("connected", Some(1))), ["active", "tray"]);
    let closed = words(&run.step(0, RunEvent::Tray { end: true }));
    assert_eq!(closed[..3], ["detach s tray_end_session", "end tray_end_session", "end tray"]);
}

fn live_agent() -> AgentRun {
    let mut run = agent_round(0);
    round_with(&mut run, stats("connected", Some(1)));
    run.step(0, RunEvent::Tray { end: false });
    assert_eq!(run.phase(), RunPhase::LiveSignal);
    run
}

#[test]
fn live_agent_session_goes_on_until_somebody_ends_it() {
    let mut run = live_agent();
    assert_eq!(words(&run.step(40, RunEvent::Signal(RelayEvent::Quiet))), ["stats s"]);
    let gone = RunEvent::RequestFailed("ignored".into());
    assert_eq!(words(&run.step(0, gone)), ["sleep 32"]);
    assert_eq!(words(&run.step(32, RunEvent::Rested)), ["tray"]);
    run.step(0, RunEvent::Tray { end: false });
    let ice = RunEvent::Signal(RelayEvent::Ice("v".into()));
    assert_eq!(words(&run.step(0, ice)), ["forward ice_candidate v"]);
    assert_eq!(words(&run.step(0, acked(vec![candidate("h")]))), ["ice h"]);
    let unsent = RunEvent::IceSent(Err(IceFault::Unsent("ignored".into())));
    assert_eq!(words(&run.step(0, unsent)), ["stats s"]);

    let ends = [
        (RelayEvent::End("bye".into()), "bye"),
        (RelayEvent::End(String::new()), "viewer_session_end"),
        (RelayEvent::Failed("reset".into()), "signaling:reset"),
    ];
    for (event, reason) in ends {
        let mut run = live_agent();
        let closed = words(&run.step(0, RunEvent::Signal(event)));
        assert_eq!(closed[0], format!("detach s {reason}"));
        assert_eq!(closed[1], format!("end {reason}"));
        assert!(closed[3].starts_with("ok ws-host ok public_id=1234567890"));
    }

    let mut run = live_agent();
    run.step(0, RunEvent::Signal(RelayEvent::Ice("v".into())));
    let closed = words(&run.step(0, reply(stats("x", None))));
    assert_eq!(closed[0], "detach s agent_rejected_ice");
    let mut run = live_agent();
    run.step(0, RunEvent::Signal(RelayEvent::Ice("v".into())));
    let gone = RunEvent::RequestFailed("pipe".into());
    assert_eq!(words(&run.step(0, gone)), ["err agent ice: pipe"]);
}

#[test]
fn unasked_events_only_count_time() {
    let mut run = agent_run(5);
    run.step(0, RunEvent::OfferSent(Ok(())));
    assert!(run.step(29_999, RunEvent::Rested).is_empty());
    assert_eq!(run.phase(), RunPhase::AwaitAnswer);
    assert_eq!(words(&run.step(1, RunEvent::Signal(RelayEvent::Quiet))).len(), 3);
}

/// One short word per action.
fn local_words(actions: &[LocalAction]) -> Vec<String> {
    actions
        .iter()
        .map(|a| match a {
            LocalAction::Poll { ms } => format!("poll {ms}"),
            LocalAction::Sleep { ms } => format!("sleep {ms}"),
            LocalAction::AskTray => "tray".to_string(),
            LocalAction::PollPeer => "poll peer".to_string(),
            LocalAction::Gather => "gather".to_string(),
            LocalAction::SendIce(p) => format!("ice {}", p.join(",")),
            LocalAction::ApplyAnswer(p) => format!("answer {p}"),
            LocalAction::ApplyIce(p) => format!("apply {p}"),
            LocalAction::AskPeer => "peer".to_string(),
            LocalAction::WaitReady { ms } => format!("ready {ms}"),
            LocalAction::MarkActive => "active".to_string(),
            LocalAction::StartBind => "bind".to_string(),
            LocalAction::PollInbound => "inbound".to_string(),
            LocalAction::AskBound => "bound".to_string(),
            LocalAction::Pump { frames } => format!("pump {frames}"),
            LocalAction::AskReport => "report".to_string(),
            LocalAction::EndSession { reason } => format!("end {reason}"),
            LocalAction::Shutdown => "shutdown".to_string(),
            LocalAction::EndTray => "end tray".to_string(),
            LocalAction::KillTray => "kill tray".to_string(),
            LocalAction::Finish(Ok(s)) => format!("ok {s}"),
            LocalAction::Finish(Err(e)) => format!("err {e}"),
        })
        .collect()
}

fn local_run(frames: u32) -> LocalRun {
    let outbound = vec![signal("session_offer", "o"), signal("ice_candidate", "h1")];
    LocalRun::start("1234567890", TransportMode::Live, "s", frames, &outbound)
}

fn local_round(frames: u32) -> LocalRun {
    let mut run = local_run(frames);
    run.step(0, LocalEvent::OfferSent(Ok(())));
    run.step(0, LocalEvent::Signal(RelayEvent::Answer("a".into())));
    run.step(0, LocalEvent::Applied(Ok(())));
    run.step(0, LocalEvent::Gathered(vec![]));
    run.step(0, LocalEvent::IceSent(Ok(())));
    assert_eq!(run.phase(), LocalPhase::Round);
    run
}

fn local_ready(frames: u32) -> LocalRun {
    let mut run = local_round(frames);
    run.step(0, LocalEvent::Tray { end: false });
    run.step(0, LocalEvent::Gathered(vec![]));
    run.step(0, LocalEvent::IceSent(Ok(())));
    run.step(0, LocalEvent::Signal(RelayEvent::Quiet));
    assert_eq!(
        local_words(&run.step(0, LocalEvent::Peer(ConnectionState::Connected))),
        ["ready 10000"]
    );
    run
}

fn sent(video_sent: u32, audio_sent: u32, skipped_not_connected: bool) -> PumpStats {
    PumpStats { video_sent, audio_sent, skipped_not_connected }
}

#[test]
fn local_session_runs_from_offer_to_report() {
    let mut run = local_run(5);
    assert_eq!(local_words(&run.step(3, LocalEvent::OfferSent(Ok(())))), ["poll 250"]);
    let early = LocalEvent::Signal(RelayEvent::Ice("v1".into()));
    assert_eq!(local_words(&run.step(9, early)), ["apply v1"]);
    assert_eq!(local_words(&run.step(1, LocalEvent::Applied(Ok(())))), ["poll 250"]);
    let answer = LocalEvent::Signal(RelayEvent::Answer("a".into()));
    assert_eq!(local_words(&run.step(9, answer)), ["answer a"]);
    assert_eq!(local_words(&run.step(1, LocalEvent::Applied(Ok(())))), ["poll peer", "gather"]);
    let gathered = vec![signal("ice_candidate", "h2"), signal("other", "x")];
    assert_eq!(local_words(&run.step(1, LocalEvent::Gathered(gathered))), ["ice h1,h2"]);
    assert_eq!(local_words(&run.step(1, LocalEvent::IceSent(Ok(())))), ["tray"]);
    let going = LocalEvent::Tray { end: false };
    assert_eq!(local_words(&run.step(1, going)), ["poll peer", "gather"]);
    let gathered = vec![signal("ice_candidate", "h3")];
    assert_eq!(local_words(&run.step(1, LocalEvent::Gathered(gathered))), ["ice h3"]);
    assert_eq!(local_words(&run.step(1, LocalEvent::IceSent(Ok(())))), ["poll 50"]);
    let ice = LocalEvent::Signal(RelayEvent::Ice("v2".into()));
    assert_eq!(local_words(&run.step(1, ice)), ["apply v2"]);
    assert_eq!(local_words(&run.step(1, LocalEvent::Applied(Ok(())))), ["peer"]);
    let state = LocalEvent::Peer(ConnectionState::Connecting);
    assert_eq!(local_words(&run.step(1, state)), ["sleep 20"]);
    assert_eq!(local_words(&run.step(20, LocalEvent::Rested)), ["tray"]);

    let mut run = local_ready(5);
    assert_eq!(local_words(&run.step(9, LocalEvent::Ready(Ok(())))), ["active", "pump 5"]);
    let pumped = LocalEvent::Pumped(Ok(sent(5, 15, false)));
    assert_eq!(local_words(&run.step(9, pumped)), ["report"]);
    let report = LocalEvent::Report { video_tx: 4, audio_tx: 16, fingerprint: Ok("sha".into()) };
    assert_eq!(local_words(&run.step(0, report)), [
        "end host_media_complete",
        "shutdown",
        "end tray",
        "ok ws-host ok public_id=1234567890 session=s media=local transport=live video_tx=5 \
         audio_tx=16 live=false reason=host_media_complete fp=sha",
    ]);
    assert_eq!(run.phase(), LocalPhase::Done);
}

#[test]
fn local_setup_failures_end_or_kill_the_tray() {
    let mut run = local_run(1);
    let failed = LocalEvent::OfferSent(Err("closed".into()));
    assert_eq!(local_words(&run.step(0, failed)), ["end tray", "err send offer: closed"]);

    let mut run = local_run(1);
    run.step(0, LocalEvent::OfferSent(Ok(())));
    let lost = LocalEvent::Signal(RelayEvent::Failed("reset".into()));
    assert_eq!(local_words(&run.step(0, lost)), ["end tray", "err recv: reset"]);

    let mut run = local_run(1);
    run.step(0, LocalEvent::OfferSent(Ok(())));
    assert_eq!(local_words(&run.step(30_000, LocalEvent::Signal(RelayEvent::Quiet))), [
        "end tray",
        "err timeout waiting for session_answer",
    ]);

    let mut run = local_run(1);
    run.step(0, LocalEvent::OfferSent(Ok(())));
    run.step(0, LocalEvent::Signal(RelayEvent::Answer("a".into())));
    let bad = LocalEvent::Applied(Err("sdp".into()));
    assert_eq!(local_words(&run.step(0, bad)), ["end tray", "err apply answer: sdp"]);

    let mut run = local_round(1);
    assert_eq!(local_words(&run.step(0, LocalEvent::Tray { end: true })), [
        "kill tray",
        "err session ended from tray",
    ]);

    let mut run = local_ready(1);
    let late = LocalEvent::Ready(Err("timeout".into()));
    assert_eq!(local_words(&run.step(0, late)), ["end tray", "err wait_ready: timeout"]);

    let mut run = local_ready(1);
    run.step(0, LocalEvent::Ready(Ok(())));
    let broken = LocalEvent::Pumped(Err("encoder".into()));
    assert_eq!(local_words(&run.step(0, broken)), ["err pump: encoder"]);

    let mut run = local_ready(1);
    run.step(0, LocalEvent::Ready(Ok(())));
    assert_eq!(local_words(&run.step(0, LocalEvent::Pumped(Ok(sent(0, 2, false))))), [
        "shutdown",
        "end tray",
        "err pump failed (skipped=false video_sent=0)",
    ]);
}

#[test]
fn local_rounds_end_without_a_connection() {
    let mut run = local_round(1);
    run.step(0, LocalEvent::Tray { end: false });
    run.step(0, LocalEvent::Gathered(vec![]));
    run.step(0, LocalEvent::IceSent(Ok(())));
    run.step(0, LocalEvent::Signal(RelayEvent::Failed("ignored".into())));
    run.step(0, LocalEvent::Peer(ConnectionState::Failed));
    assert_eq!(local_words(&run.step(15_000, LocalEvent::Rested)), ["ready 10000"]);
}

#[test]
fn bind_is_awaited_forty_times() {
    let mut run = local_ready(0);
    assert_eq!(local_words(&run.step(0, LocalEvent::Ready(Ok(())))), ["active", "bind"]);
    let mut looks = 0;
    let mut actions = local_words(&run.step(0, LocalEvent::Bind(BindStep::AwaitBind)));
    while actions == ["inbound", "bound"] {
        looks += 1;
        assert_eq!(local_words(&run.step(0, LocalEvent::Bound(false))), ["sleep 25"]);
        actions = local_words(&run.step(25, LocalEvent::Rested));
    }
    assert_eq!(looks, 40);
    assert_eq!(actions, ["tray"]);

    let mut run = local_ready(0);
    run.step(0, LocalEvent::Ready(Ok(())));
    assert_eq!(local_words(&run.step(0, LocalEvent::Bind(BindStep::Closed))), ["tray"]);
    let mut run = local_ready(0);
    run.step(0, LocalEvent::Ready(Ok(())));
    run.step(0, LocalEvent::Bind(BindStep::AwaitBind));
    assert_eq!(local_words(&run.step(0, LocalEvent::Bound(true))), ["tray"]);
}

fn live_local() -> LocalRun {
    let mut run = local_ready(0);
    run.step(0, LocalEvent::Ready(Ok(())));
    run.step(0, LocalEvent::Bind(BindStep::Closed));
    assert_eq!(local_words(&run.step(0, LocalEvent::Tray { end: false })), ["peer"]);
    run
}

#[test]
fn live_local_session_pumps_until_somebody_ends_it() {
    let connected = || LocalEvent::Peer(ConnectionState::Connected);
    let mut run = live_local();
    assert_eq!(local_words(&run.step(0, connected())), ["poll 5"]);
    let ice = LocalEvent::Signal(RelayEvent::Ice("v".into()));
    assert_eq!(local_words(&run.step(0, ice)), ["apply v"]);
    let ignored = LocalEvent::Applied(Err("ignored".into()));
    assert_eq!(local_words(&run.step(0, ignored)), ["inbound", "pump 1"]);
    assert_eq!(local_words(&run.step(0, LocalEvent::Pumped(Ok(sent(1, 3, false))))), ["sleep 32"]);
    assert_eq!(local_words(&run.step(32, LocalEvent::Rested)), ["tray"]);
    run.step(0, LocalEvent::Tray { end: false });
    run.step(0, connected());
    let quiet = LocalEvent::Signal(RelayEvent::Quiet);
    assert_eq!(local_words(&run.step(0, quiet)), ["inbound", "pump 1"]);
    let idle = LocalEvent::Pumped(Err("source idle".into()));
    assert_eq!(local_words(&run.step(0, idle)), ["sleep 16"]);
    run.step(16, LocalEvent::Rested);
    assert_eq!(local_words(&run.step(0, LocalEvent::Tray { end: true })), ["report"]);
    let report = LocalEvent::Report { video_tx: 1, audio_tx: 3, fingerprint: Ok("f".into()) };
    assert_eq!(local_words(&run.step(0, report)), [
        "end tray_end_session",
        "shutdown",
        "end tray",
        "ok ws-host ok public_id=1234567890 session=s media=local transport=live video_tx=1 \
         audio_tx=3 live=true reason=tray_end_session fp=f",
    ]);

    let mut run = live_local();
    assert_eq!(
        local_words(&run.step(0, LocalEvent::Peer(ConnectionState::Disconnected))),
        ["report"]
    );
    let report = LocalEvent::Report { video_tx: 0, audio_tx: 0, fingerprint: Err("gone".into()) };
    assert_eq!(local_words(&run.step(0, report)), ["err gone"]);

    let mut run = live_local();
    run.step(0, connected());
    run.step(0, LocalEvent::Signal(RelayEvent::Other));
    assert_eq!(local_words(&run.step(0, LocalEvent::Pumped(Err("encoder".into())))), ["report"]);
    let report = LocalEvent::Report { video_tx: 0, audio_tx: 0, fingerprint: Ok("f".into()) };
    assert_eq!(local_words(&run.step(0, report))[0], "end pump:encoder");
}

#[test]
fn setup_errors_name_what_is_missing() {
    assert_eq!(SetUp::Incoming.error("e"), "wait incoming: e");
    assert_eq!(SetUp::Accept.error("e"), "accept: e");
    assert_eq!(SetUp::Agent.error("e"), "agent start_session: e");
    assert_eq!(SetUp::Peer.error("e"), "create offerer: e");
    assert_eq!(SetUp::Fallback.error("e"), "start_media (mock fallback): e");
}
