//! Host **service** role: what it sends to the session agent and what it concludes.
//!
//! The service does not own capture, encode, peer transport or input. Signaling from the server is
//! forwarded into the agent as control messages.

use vstd::prelude::*;
use crate::host::agent::AgentSession;
use crate::host::chrome::{status_text, ChromeView, HostSessionUx, IndicatorView};
use crate::host::control::{
    AttachSession, ControlMessage, ErrorCode, FeatureFlags, KillSwitch, KillSwitchSource,
    MessageView, SetPolicy, SignalForward, SignalHop, SignalView, StartMedia,
};
use crate::host::session::{ConnectionState, IceCandidate, SdpPayload};
use crate::host::signal_kind;
use crate::text::{decimal, push_number, same};

verus! {

/// The session-start sequence: attach, policy, start.
pub open spec fn start_sequence(session_id: Seq<char>, enable_input: bool) -> Seq<MessageView> {
    seq![
        MessageView::AttachSession {
            session_id,
            viewer_label: None,
            feature_flags: FeatureFlags { bits: 0 },
            turn_uris: Seq::empty(),
            boot_secret: None,
        },
        MessageView::SetPolicy {
            session_id,
            enable_input,
            unattended: false,
            max_bitrate_bps: 0,
            disable_hw_encode: false,
        },
        MessageView::StartMedia { session_id, display_id: None },
    ]
}

/// Build the standard attach + policy + start sequence.
pub fn build_session_start_sequence(session_id: &str, enable_input: bool) -> (r: Vec<
    ControlMessage,
>)
    ensures
        r.deep_view() == start_sequence(session_id@, enable_input),
{
    let turn_uris: Vec<String> = Vec::new();
    assert(turn_uris.deep_view() =~= Seq::<Seq<char>>::empty());
    let mut out: Vec<ControlMessage> = Vec::new();
    out.push(
        ControlMessage::AttachSession(
            AttachSession {
                session_id: session_id.to_string(),
                viewer_label: None,
                feature_flags: FeatureFlags::default(),
                turn_uris,
                boot_secret: None,
            },
        ),
    );
    out.push(
        ControlMessage::SetPolicy(
            SetPolicy {
                session_id: session_id.to_string(),
                enable_input,
                unattended: false,
                max_bitrate_bps: 0,
                disable_hw_encode: false,
            },
        ),
    );
    out.push(
        ControlMessage::StartMedia(
            StartMedia { session_id: session_id.to_string(), display_id: None },
        ),
    );
    assert(out.deep_view() =~= start_sequence(session_id@, enable_input));
    out
}

/// Forward an opaque signaling payload toward the agent.
///
/// Used for SDP and candidates from the server; the service does not interpret media.
pub fn signal_to_agent(session_id: &str, kind: &str, payload: &str) -> (r: ControlMessage)
    ensures
        r.deep_view() == MessageView::SignalForward(
            (SignalView {
                session_id: session_id@,
                kind: kind@,
                payload: payload@,
                from: SignalHop::Service,
            }),
        ),
{
    ControlMessage::SignalForward(
        SignalForward {
            session_id: session_id.to_string(),
            kind: kind.to_string(),
            payload: payload.to_string(),
            from: SignalHop::Service,
        },
    )
}

/// Construct a service-originated kill-switch message.
pub fn service_kill_switch(session_id: Option<&str>) -> (r: ControlMessage)
    ensures
        r.deep_view() == (MessageView::KillSwitch {
            session_id: match session_id {
                Some(s) => Some(s@),
                None => None,
            },
            disable_unattended: true,
            source: KillSwitchSource::Tray,
        }),
{
    let session_id = match session_id {
        Some(s) => Some(s.to_string()),
        None => None,
    };
    ControlMessage::KillSwitch(
        KillSwitch { session_id, disable_unattended: true, source: KillSwitchSource::Tray },
    )
}

/// The messages that are encoded on trial: the start sequence, an offer and a kill-switch.
pub fn smoke_messages(session_id: &str) -> (r: Vec<ControlMessage>)
    ensures
        r.deep_view() == start_sequence(session_id@, false) + seq![
            MessageView::SignalForward(
                SignalView {
                    session_id: session_id@,
                    kind: signal_kind::SESSION_OFFER@,
                    payload: "{\"sdp\":\"v=0\"}"@,
                    from: SignalHop::Service,
                },
            ),
            MessageView::KillSwitch {
                session_id: Some(session_id@),
                disable_unattended: true,
                source: KillSwitchSource::Tray,
            },
        ],
{
    let mut out = build_session_start_sequence(session_id, false);
    let ghost head = out.deep_view();
    let signal = signal_to_agent(session_id, signal_kind::SESSION_OFFER, "{\"sdp\":\"v=0\"}");
    let ghost signal_view = signal.deep_view();
    out.push(signal);
    assert(out.deep_view() =~= head.push(signal_view));
    let kill = service_kill_switch(Some(session_id));
    let ghost kill_view = kill.deep_view();
    out.push(kill);
    assert(out.deep_view() =~= head.push(signal_view).push(kill_view));
    assert(out.deep_view() =~= head + seq![signal_view, kill_view]);
    out
}

/// One frame that was encoded on trial.
#[derive(Debug)]
pub struct SmokeFrame {
    /// The method of the message.
    pub method: String,
    /// How many bytes the frame has, or why it could not be encoded.
    pub encoded: Result<usize, String>,
    /// The method that decoding found, or why it failed; nothing where it was not tried.
    pub decoded: Option<Result<String, String>>,
}

/// What a `SmokeFrame` holds.
pub struct SmokeView {
    pub method: Seq<char>,
    pub encoded: Result<usize, Seq<char>>,
    pub decoded: Option<Result<Seq<char>, Seq<char>>>,
}

impl DeepView for SmokeFrame {
    type V = SmokeView;

    open spec fn deep_view(&self) -> SmokeView {
        SmokeView {
            method: self.method@,
            encoded: match self.encoded {
                Ok(n) => Ok(n),
                Err(e) => Err(e@),
            },
            decoded: match self.decoded {
                Some(Ok(m)) => Some(Ok(m@)),
                Some(Err(e)) => Some(Err(e@)),
                None => None,
            },
        }
    }
}

impl SmokeView {
    /// What is wrong with a frame.
    pub open spec fn fault(self) -> Option<Seq<char>> {
        match self.encoded {
            Err(e) => Some("encode "@ + self.method + ": "@ + e),
            Ok(_) => match self.decoded {
                Some(Err(e)) => Some("decode "@ + self.method + ": "@ + e),
                Some(Ok(m)) => if m != self.method {
                    Some("method mismatch: encoded "@ + self.method + " decoded "@ + m)
                } else {
                    None
                },
                None => None,
            },
        }
    }

    /// The bytes of a frame.
    pub open spec fn bytes(self) -> nat {
        match self.encoded {
            Ok(n) => n as nat,
            Err(_) => 0,
        }
    }
}

/// The bytes of all frames.
pub open spec fn smoke_bytes(frames: Seq<SmokeView>) -> nat
    decreases frames.len(),
{
    if frames.len() == 0 {
        0
    } else {
        smoke_bytes(frames.drop_last()) + frames.last().bytes()
    }
}

/// The first fault among frames.
pub open spec fn smoke_fault(frames: Seq<SmokeView>) -> Option<Seq<char>>
    decreases frames.len(),
{
    if frames.len() == 0 {
        None
    } else {
        match smoke_fault(frames.drop_last()) {
            Some(e) => Some(e),
            None => frames.last().fault(),
        }
    }
}

proof fn lemma_smoke_prefix(frames: Seq<SmokeView>, n: int)
    requires
        0 <= n <= frames.len(),
    ensures
        smoke_bytes(frames.take(n)) <= smoke_bytes(frames),
        smoke_fault(frames.take(n)) is Some ==> smoke_fault(frames) == smoke_fault(frames.take(n)),
    decreases frames.len(),
{
    if n == frames.len() {
        assert(frames.take(n) == frames);
    } else {
        assert(frames.drop_last().take(n) == frames.take(n));
        lemma_smoke_prefix(frames.drop_last(), n);
    }
}

fn frame_fault(f: &SmokeFrame) -> (r: Option<String>)
    ensures
        r.deep_view() == f.deep_view().fault(),
{
    match &f.encoded {
        Err(e) => {
            let mut s = "encode ".to_string();
            s.append(&f.method);
            s.append(": ");
            s.append(e);
            Some(s)
        },
        Ok(_) => match &f.decoded {
            Some(Err(e)) => {
                let mut s = "decode ".to_string();
                s.append(&f.method);
                s.append(": ");
                s.append(e);
                Some(s)
            },
            Some(Ok(m)) => if !same(m, &f.method) {
                let mut s = "method mismatch: encoded ".to_string();
                s.append(&f.method);
                s.append(" decoded ");
                s.append(m);
                Some(s)
            } else {
                None
            },
            None => None,
        },
    }
}

/// How many frames there are and how many bytes they have, or the first fault among them.
pub fn smoke_encode_session_frames(frames: &Vec<SmokeFrame>) -> (r: Result<(usize, usize), String>)
    requires
        smoke_bytes(frames.deep_view()) <= usize::MAX,
    ensures
        match r {
            Ok((count, bytes)) => smoke_fault(frames.deep_view()) is None && count
                == frames@.len() && bytes == smoke_bytes(frames.deep_view()),
            Err(e) => smoke_fault(frames.deep_view()) == Some(e@),
        },
{
    let ghost all = frames.deep_view();
    let mut total: usize = 0;
    let mut i: usize = 0;
    while i < frames.len()
        invariant
            i <= frames@.len(),
            all == frames.deep_view(),
            smoke_bytes(all) <= usize::MAX,
            smoke_fault(all.take(i as int)) is None,
            total == smoke_bytes(all.take(i as int)),
        decreases frames@.len() - i,
    {
        let f = &frames[i];
        proof {
            assert(all[i as int] == f.deep_view());
            assert(all.take(i + 1).drop_last() == all.take(i as int));
            lemma_smoke_prefix(all, i + 1);
        }
        if let Some(e) = frame_fault(f) {
            return Err(e);
        }
        match &f.encoded {
            Ok(n) => {
                total += *n;
            },
            Err(_) => {},
        }
        i += 1;
    }
    assert(all.take(all.len() as int) == all);
    Ok((i, total))
}

/// What the kill-switch demo showed.
#[derive(Debug)]
pub struct KillSwitchDemo {
    /// Status line while the session was live.
    pub live_status: String,
    /// Tray chrome while the session was live.
    pub live_tray: String,
    /// Status line after the kill-switch.
    pub dead_status: String,
    /// Tray chrome after the kill-switch.
    pub dead_tray: String,
    /// One line about the outcome.
    pub summary: String,
}

fn is_ack(msg: &ControlMessage) -> (r: bool)
    ensures
        r == (msg.deep_view() is Ack),
{
    match msg {
        ControlMessage::Ack(_) => true,
        _ => false,
    }
}

fn rejected(method: &str) -> String {
    "agent rejected ".to_string().concat(method)
}

/// Attach a session, mark the indicator active, and end it by the local kill-switch. The peer
/// transport is taken to do what it is asked.
///
/// The indicator is active only while the session is live; the kill-switch clears media and input
/// on the agent and returns chrome to inactive.
pub fn run_kill_switch_demo(session_id: &str) -> (r: Result<KillSwitchDemo, String>)
    ensures
        r matches Ok(demo) && ({
            let live = IndicatorView::begun(session_id@, Some("kill-demo-viewer"@)).activated();
            &&& demo.live_status@ == status_text(live)
            &&& demo.live_tray@ == ChromeView::of(live).text()
            &&& demo.dead_status@ == status_text(IndicatorView::idle())
            &&& demo.dead_tray@ == ChromeView::Inactive.text()
            &&& demo.summary@ == "kill-switch demo ok session="@ + session_id@
                + " indicator_active_after=false chrome=Inactive"@
        }),
{
    let mut ux = HostSessionUx::new();
    let mut agent = AgentSession::new();

    // Begin the session: the service owns the indicator.
    if let Err(busy) = ux.begin_session(session_id, Some("kill-demo-viewer".to_string())) {
        return Err("begin_session busy with ".to_string().concat(&busy));
    }
    let sequence = build_session_start_sequence(session_id, true);
    assert(sequence.deep_view().len() == 3);
    assert(sequence.deep_view()[0] == start_sequence(session_id@, true)[0]);
    assert(sequence.deep_view()[1] == start_sequence(session_id@, true)[1]);
    assert(sequence.deep_view()[2] == start_sequence(session_id@, true)[2]);
    let attached = agent.handle(&sequence[0], ConnectionState::New);
    if !is_ack(&attached.reply) {
        return Err(rejected(sequence[0].method_name()));
    }
    let policy = agent.handle(&sequence[1], ConnectionState::New);
    if !is_ack(&policy.reply) {
        return Err(rejected(sequence[1].method_name()));
    }
    let started = agent.handle(&sequence[2], ConnectionState::New);
    if !is_ack(&started.reply) {
        return Err(rejected(sequence[2].method_name()));
    }
    ux.mark_active();
    if !ux.indicator().is_active() {
        return Err("indicator should be active after attach+start".to_string());
    }
    if !ux.chrome().is_active() {
        return Err("chrome should be Active while session live".to_string());
    }
    if !agent.state.chrome_visible {
        return Err("agent mandatory chrome should be visible".to_string());
    }
    if !agent.state.media_started {
        return Err("media should be started before kill".to_string());
    }
    let live_status = ux.status_line();
    let live_tray = ux.chrome().to_string();

    // A second session is refused while one is active.
    let others = build_session_start_sequence("other-session", false);
    assert(others.deep_view().len() == 3);
    assert(others.deep_view()[0] == start_sequence("other-session"@, false)[0]);
    let busy = agent.handle(&others[0], ConnectionState::New);
    let refused = match &busy.reply {
        ControlMessage::Error(e) => same(&e.code, ErrorCode::Busy.as_str()),
        _ => false,
    };
    if !refused {
        return Err("expected busy reject".to_string());
    }
    if let Ok(()) = ux.begin_session("other-session", None) {
        return Err("service indicator must reject second begin_session".to_string());
    }

    // Local kill-switch.
    let kill = ControlMessage::KillSwitch(
        KillSwitch {
            session_id: Some(session_id.to_string()),
            disable_unattended: true,
            source: KillSwitchSource::Hotkey,
        },
    );
    let killed = agent.handle(&kill, ConnectionState::New);
    if !is_ack(&killed.reply) {
        return Err(rejected(kill.method_name()));
    }
    ux.apply_kill();
    if agent.state.media_started {
        return Err("kill-switch must clear media".to_string());
    }
    if agent.state.enable_input {
        return Err("kill-switch must disable input".to_string());
    }
    if !agent.state.killed {
        return Err("kill-switch must latch killed".to_string());
    }
    if agent.state.chrome_visible {
        return Err("kill-switch must clear agent chrome".to_string());
    }
    if agent.manager.session_id().is_some() {
        return Err("kill-switch must detach media session manager".to_string());
    }
    if ux.indicator().is_active() {
        return Err("indicator must not be active after kill".to_string());
    }
    if ux.chrome().is_active() {
        return Err("chrome must be Inactive after kill".to_string());
    }
    let mut summary = "kill-switch demo ok session=".to_string();
    summary.append(session_id);
    summary.append(" indicator_active_after=false chrome=Inactive");
    Ok(
        KillSwitchDemo {
            live_status,
            live_tray,
            dead_status: ux.status_line(),
            dead_tray: ux.chrome().to_string(),
            summary,
        },
    )
}

/// A signal of the agent that the viewer is handed, with its payload.
#[derive(Debug)]
pub enum ViewerSignal {
    Offer(String),
    Ice(String),
}

/// What a `ViewerSignal` holds.
pub enum ViewerSignalView {
    Offer(Seq<char>),
    Ice(Seq<char>),
}

impl DeepView for ViewerSignal {
    type V = ViewerSignalView;

    open spec fn deep_view(&self) -> ViewerSignalView {
        match self {
            ViewerSignal::Offer(p) => ViewerSignalView::Offer(p@),
            ViewerSignal::Ice(p) => ViewerSignalView::Ice(p@),
        }
    }
}

/// What the viewer is handed of a message.
pub open spec fn viewer_signal(msg: MessageView) -> Seq<ViewerSignalView> {
    match msg {
        MessageView::SignalForward(s) => if s.kind == signal_kind::SESSION_OFFER@ {
            seq![ViewerSignalView::Offer(s.payload)]
        } else if s.kind == signal_kind::ICE_CANDIDATE@ {
            seq![ViewerSignalView::Ice(s.payload)]
        } else {
            Seq::empty()
        },
        _ => Seq::empty(),
    }
}

/// What the viewer is handed of the agent's messages, in order.
pub open spec fn viewer_signals(msgs: Seq<MessageView>) -> Seq<ViewerSignalView>
    decreases msgs.len(),
{
    if msgs.len() == 0 {
        Seq::empty()
    } else {
        viewer_signals(msgs.drop_last()) + viewer_signal(msgs.last())
    }
}

/// What the viewer is handed of the agent's messages, in order: offers and candidates.
pub fn signals_for_viewer(outbound: &Vec<ControlMessage>) -> (r: Vec<ViewerSignal>)
    ensures
        r.deep_view() == viewer_signals(outbound.deep_view()),
{
    let ghost all = outbound.deep_view();
    let mut out: Vec<ViewerSignal> = Vec::new();
    assert(out.deep_view() =~= viewer_signals(all.take(0)));
    let mut i: usize = 0;
    while i < outbound.len()
        invariant
            i <= outbound@.len(),
            all == outbound.deep_view(),
            out.deep_view() == viewer_signals(all.take(i as int)),
        decreases outbound@.len() - i,
    {
        let ghost before = out.deep_view();
        assert(all[i as int] == outbound@[i as int].deep_view());
        assert(all.take(i + 1).drop_last() == all.take(i as int));
        if let ControlMessage::SignalForward(s) = &outbound[i] {
            if same(&s.kind, signal_kind::SESSION_OFFER) {
                out.push(ViewerSignal::Offer(s.payload.clone()));
                assert(out.deep_view() =~= before + seq![ViewerSignalView::Offer(s.payload@)]);
            } else if same(&s.kind, signal_kind::ICE_CANDIDATE) {
                out.push(ViewerSignal::Ice(s.payload.clone()));
                assert(out.deep_view() =~= before + seq![ViewerSignalView::Ice(s.payload@)]);
            } else {
                assert(before + Seq::<ViewerSignalView>::empty() =~= before);
            }
        } else {
            assert(before + Seq::<ViewerSignalView>::empty() =~= before);
        }
        i += 1;
    }
    assert(all.take(all.len() as int) == all);
    out
}

/// What the viewer side has read out of the agent's signals.
#[derive(Debug)]
pub struct HostSignals {
    /// The last offer.
    pub offer: Option<SdpPayload>,
    /// All candidates, in order.
    pub ice: Vec<IceCandidate>,
}

/// A signal as it was read.
#[derive(Debug)]
pub enum ReadSignal {
    Offer(SdpPayload),
    Ice(IceCandidate),
    /// Why it could not be read.
    Malformed(String),
}

/// The first signal that could not be read.
pub open spec fn first_malformed(signals: Seq<ReadSignal>) -> Option<Seq<char>>
    decreases signals.len(),
{
    if signals.len() == 0 {
        None
    } else {
        match first_malformed(signals.drop_last()) {
            Some(e) => Some(e),
            None => match signals.last() {
                ReadSignal::Malformed(e) => Some(e@),
                _ => None,
            },
        }
    }
}

/// The last offer among signals.
pub open spec fn last_offer(signals: Seq<ReadSignal>) -> Option<SdpPayload>
    decreases signals.len(),
{
    if signals.len() == 0 {
        None
    } else {
        match signals.last() {
            ReadSignal::Offer(o) => Some(o),
            _ => last_offer(signals.drop_last()),
        }
    }
}

/// The candidates among signals.
pub open spec fn candidates(signals: Seq<ReadSignal>) -> Seq<IceCandidate>
    decreases signals.len(),
{
    if signals.len() == 0 {
        Seq::empty()
    } else {
        match signals.last() {
            ReadSignal::Ice(c) => candidates(signals.drop_last()).push(c),
            _ => candidates(signals.drop_last()),
        }
    }
}

proof fn lemma_malformed_prefix(signals: Seq<ReadSignal>, n: int)
    requires
        0 <= n <= signals.len(),
        first_malformed(signals.take(n)) is Some,
    ensures
        first_malformed(signals) == first_malformed(signals.take(n)),
    decreases signals.len(),
{
    if n == signals.len() {
        assert(signals.take(n) == signals);
    } else {
        assert(signals.drop_last().take(n) == signals.take(n));
        lemma_malformed_prefix(signals.drop_last(), n);
    }
}

/// Take stock of the signals that were read: the last offer and all candidates. The first signal
/// that could not be read ends it.
pub fn gather_signals(read: Vec<ReadSignal>) -> (r: Result<HostSignals, String>)
    ensures
        match r {
            Ok(h) => first_malformed(read@) is None && h.offer == last_offer(read@) && h.ice@
                == candidates(read@),
            Err(e) => first_malformed(read@) == Some(e@),
        },
{
    let ghost all = read@;
    let mut rest = read;
    let mut reversed: Vec<ReadSignal> = Vec::new();
    while rest.len() > 0
        invariant
            rest@.len() + reversed@.len() == all.len(),
            forall|i: int| 0 <= i < rest@.len() ==> #[trigger] rest@[i] == all[i],
            forall|i: int|
                0 <= i < reversed@.len() ==> #[trigger] reversed@[i] == all[all.len() - 1 - i],
        decreases rest@.len(),
    {
        match rest.pop() {
            Some(s) => reversed.push(s),
            None => {},
        }
    }
    let mut offer: Option<SdpPayload> = None;
    let mut ice: Vec<IceCandidate> = Vec::new();
    let ghost mut n: int = 0;
    while reversed.len() > 0
        invariant
            0 <= n,
            all == read@,
            n + reversed@.len() == all.len(),
            forall|i: int|
                0 <= i < reversed@.len() ==> #[trigger] reversed@[i] == all[all.len() - 1 - i],
            first_malformed(all.take(n)) is None,
            offer == last_offer(all.take(n)),
            ice@ == candidates(all.take(n)),
        decreases reversed@.len(),
    {
        proof {
            assert(all.take(n + 1).drop_last() == all.take(n));
            assert(all.take(n + 1).last() == all[n]);
            assert(reversed@[reversed@.len() - 1] == all[n]);
        }
        match reversed.pop() {
            Some(ReadSignal::Offer(o)) => {
                offer = Some(o);
            },
            Some(ReadSignal::Ice(c)) => {
                ice.push(c);
            },
            Some(ReadSignal::Malformed(e)) => {
                proof {
                    assert(all[n] == ReadSignal::Malformed(e));
                    assert(first_malformed(all.take(n + 1)) == Some(e@));
                    lemma_malformed_prefix(all, n + 1);
                }
                return Err(e);
            },
            None => {},
        }
        proof {
            n = n + 1;
        }
    }
    assert(all.take(n) == all);
    Ok(HostSignals { offer, ice })
}

/// The outcome of an in-process session: the viewer has to have received both video and audio.
pub fn colocate_outcome(
    session_id: &str,
    video_sent: u64,
    audio_sent: u64,
    videos: u64,
    audios: u64,
) -> (r: Result<String, String>)
    ensures
        match r {
            Ok(s) => videos > 0 && audios > 0 && s@ == "colocate ok session="@ + session_id@
                + " video_sent="@ + decimal(video_sent as nat) + " audio_sent="@ + decimal(
                audio_sent as nat,
            ) + " viewer_video="@ + decimal(videos as nat) + " viewer_audio="@ + decimal(
                audios as nat,
            ),
            Err(e) => (videos == 0 || audios == 0) && e@ == "colocate: viewer got video="@
                + decimal(videos as nat) + " audio="@ + decimal(audios as nat),
        },
{
    if videos == 0 || audios == 0 {
        let mut e = "colocate: viewer got video=".to_string();
        push_number(&mut e, videos);
        e.append(" audio=");
        push_number(&mut e, audios);
        return Err(e);
    }
    let mut s = "colocate ok session=".to_string();
    s.append(session_id);
    s.append(" video_sent=");
    push_number(&mut s, video_sent);
    s.append(" audio_sent=");
    push_number(&mut s, audio_sent);
    s.append(" viewer_video=");
    push_number(&mut s, videos);
    s.append(" viewer_audio=");
    push_number(&mut s, audios);
    Ok(s)
}

/// The outcome of a session over the control channel: the viewer has to have received video.
pub fn ipc_outcome(session_id: &str, port: u16, videos: u64, audios: u64) -> (r: Result<
    String,
    String,
>)
    ensures
        match r {
            Ok(s) => videos > 0 && s@ == "ipc-colocate ok session="@ + session_id@
                + " control=tcp:"@ + decimal(port as nat) + " offer_ok=true viewer_video_rx="@
                + decimal(videos as nat) + " viewer_audio_rx="@ + decimal(audios as nat),
            Err(e) => videos == 0 && e@ == "ipc-colocate: no video over mock peer (audio="@
                + decimal(audios as nat) + ")"@,
        },
{
    if videos == 0 {
        let mut e = "ipc-colocate: no video over mock peer (audio=".to_string();
        push_number(&mut e, audios);
        e.append(")");
        return Err(e);
    }
    let mut s = "ipc-colocate ok session=".to_string();
    s.append(session_id);
    s.append(" control=tcp:");
    push_number(&mut s, port as u64);
    s.append(" offer_ok=true viewer_video_rx=");
    push_number(&mut s, videos);
    s.append(" viewer_audio_rx=");
    push_number(&mut s, audios);
    Ok(s)
}

/// A session is started in this order: it is attached, its policy set, its media started. All of
/// it names the same session, input is what was asked for, and nobody is let in unattended.
pub proof fn law_session_is_started_in_order(session_id: Seq<char>, enable_input: bool)
    ensures
        ({
            let s = start_sequence(session_id, enable_input);
            &&& s.len() == 3
            &&& s[0] matches MessageView::AttachSession { session_id: id, .. } && id == session_id
            &&& s[1] matches MessageView::SetPolicy {
                session_id: id,
                enable_input: input,
                unattended,
                ..
            } && id == session_id && input == enable_input && !unattended
            &&& s[2] matches MessageView::StartMedia { session_id: id, .. } && id == session_id
        }),
{
}

/// A trial frame is good exactly where it could be encoded and was decoded to the method it has, if
/// it was decoded at all.
pub proof fn law_frame_survives_its_trial(f: SmokeView)
    ensures
        f.fault() is None <==> f.encoded is Ok && (f.decoded matches Some(d) ==> d == Ok::<
            Seq<char>,
            Seq<char>,
        >(f.method)),
{
}

/// A trial is good exactly where each frame is; else the first bad frame is what is told.
pub proof fn law_trial_tells_the_first_fault(frames: Seq<SmokeView>)
    ensures
        match smoke_fault(frames) {
            None => forall|i: int| 0 <= i < frames.len() ==> (#[trigger] frames[i]).fault() is None,
            Some(e) => exists|i: int|
                {
                    &&& 0 <= i < frames.len()
                    &&& (#[trigger] frames[i]).fault() == Some(e)
                    &&& forall|j: int| 0 <= j < i ==> (#[trigger] frames[j]).fault() is None
                },
        },
    decreases frames.len(),
{
    if frames.len() > 0 {
        let head = frames.drop_last();
        law_trial_tells_the_first_fault(head);
        assert(forall|j: int| 0 <= j < head.len() ==> #[trigger] frames[j] == head[j]);
        match smoke_fault(head) {
            Some(e) => {
                let i = choose|i: int|
                    {
                        &&& 0 <= i < head.len()
                        &&& (#[trigger] head[i]).fault() == Some(e)
                        &&& forall|j: int| 0 <= j < i ==> (#[trigger] head[j]).fault() is None
                    };
                assert(frames[i].fault() == Some(e));
            },
            None => {
                assert(frames[frames.len() - 1] == frames.last());
            },
        }
    }
}

/// The bytes of two trials are the bytes of both, and those of one frame are what it was encoded to.
pub proof fn law_trial_bytes_add_up(a: Seq<SmokeView>, b: Seq<SmokeView>, f: SmokeView)
    ensures
        smoke_bytes(a + b) == smoke_bytes(a) + smoke_bytes(b),
        f.encoded matches Ok(n) ==> smoke_bytes(seq![f]) == n,
    decreases b.len(),
{
    reveal_with_fuel(smoke_bytes, 2);
    assert(seq![f].drop_last() =~= Seq::<SmokeView>::empty());
    if b.len() == 0 {
        assert(a + b =~= a);
    } else {
        law_trial_bytes_add_up(a, b.drop_last(), f);
        assert((a + b).drop_last() =~= a + b.drop_last());
    }
}

/// The viewer is handed every offer and every candidate once, in the order of the agent's messages,
/// and nothing else.
pub proof fn law_viewer_is_handed_its_signals(
    a: Seq<MessageView>,
    b: Seq<MessageView>,
    s: SignalView,
    other: MessageView,
)
    requires
        !(other is SignalForward),
    ensures
        viewer_signals(a + b) == viewer_signals(a) + viewer_signals(b),
        viewer_signals(seq![other]).len() == 0,
        s.kind == "session_offer"@ ==> viewer_signals(seq![MessageView::SignalForward(s)])
            == seq![ViewerSignalView::Offer(s.payload)],
        s.kind == "ice_candidate"@ ==> viewer_signals(seq![MessageView::SignalForward(s)])
            == seq![ViewerSignalView::Ice(s.payload)],
        s.kind != "session_offer"@ && s.kind != "ice_candidate"@ ==> viewer_signals(
            seq![MessageView::SignalForward(s)],
        ).len() == 0,
    decreases b.len(),
{
    reveal_with_fuel(viewer_signals, 2);
    reveal_strlit("session_offer");
    reveal_strlit("ice_candidate");
    assert("session_offer"@[0] != "ice_candidate"@[0]);
    let none = Seq::<MessageView>::empty();
    let one = MessageView::SignalForward(s);
    assert(seq![other].drop_last() =~= none);
    assert(seq![one].drop_last() =~= none);
    assert(viewer_signals(seq![other]) =~= viewer_signal(other));
    assert(viewer_signals(seq![one]) =~= viewer_signal(one));
    if b.len() == 0 {
        assert(a + b =~= a);
        assert(viewer_signals(a) + viewer_signals(b) =~= viewer_signals(a));
    } else {
        law_viewer_is_handed_its_signals(a, b.drop_last(), s, other);
        assert((a + b).drop_last() =~= a + b.drop_last());
        assert(viewer_signals(a + b) =~= viewer_signals(a) + viewer_signals(b));
    }
}

/// Signals can be taken stock of exactly where all of them could be read; else the first that could
/// not is told.
pub proof fn law_unreadable_signal_is_told(signals: Seq<ReadSignal>)
    ensures
        match first_malformed(signals) {
            None => forall|i: int|
                0 <= i < signals.len() ==> !((#[trigger] signals[i]) is Malformed),
            Some(e) => exists|i: int|
                {
                    &&& 0 <= i < signals.len()
                    &&& (#[trigger] signals[i]) matches ReadSignal::Malformed(t) && t@ == e
                    &&& forall|j: int| 0 <= j < i ==> !((#[trigger] signals[j]) is Malformed)
                },
        },
    decreases signals.len(),
{
    if signals.len() > 0 {
        let head = signals.drop_last();
        law_unreadable_signal_is_told(head);
        assert(forall|j: int| 0 <= j < head.len() ==> #[trigger] signals[j] == head[j]);
        match first_malformed(head) {
            Some(e) => {
                let i = choose|i: int|
                    {
                        &&& 0 <= i < head.len()
                        &&& (#[trigger] head[i]) matches ReadSignal::Malformed(t) && t@ == e
                        &&& forall|j: int| 0 <= j < i ==> !((#[trigger] head[j]) is Malformed)
                    };
                assert(signals[i] == head[i]);
            },
            None => {
                assert(signals[signals.len() - 1] == signals.last());
            },
        }
    }
}

/// Of several offers the last one counts, and without an offer there is none.
pub proof fn law_last_offer_counts(signals: Seq<ReadSignal>)
    ensures
        match last_offer(signals) {
            Some(o) => exists|i: int|
                {
                    &&& 0 <= i < signals.len()
                    &&& (#[trigger] signals[i]) == ReadSignal::Offer(o)
                    &&& forall|j: int|
                        i < j < signals.len() ==> !((#[trigger] signals[j]) is Offer)
                },
            None => forall|j: int| 0 <= j < signals.len() ==> !((#[trigger] signals[j]) is Offer),
        },
    decreases signals.len(),
{
    if signals.len() > 0 {
        let head = signals.drop_last();
        law_last_offer_counts(head);
        assert(signals[signals.len() - 1] == signals.last());
        if !(signals.last() is Offer) {
            assert(forall|j: int| 0 <= j < head.len() ==> #[trigger] signals[j] == head[j]);
            if let Some(o) = last_offer(head) {
                let i = choose|i: int|
                    {
                        &&& 0 <= i < head.len()
                        &&& (#[trigger] head[i]) == ReadSignal::Offer(o)
                        &&& forall|j: int|
                            i < j < head.len() ==> !((#[trigger] head[j]) is Offer)
                    };
                assert(signals[i] == ReadSignal::Offer(o));
            }
        }
    }
}

/// All candidates are kept, in order, and nothing else is taken for one.
pub proof fn law_all_candidates_are_kept(
    a: Seq<ReadSignal>,
    b: Seq<ReadSignal>,
    c: IceCandidate,
    other: ReadSignal,
)
    requires
        !(other is Ice),
    ensures
        candidates(a + b) == candidates(a) + candidates(b),
        candidates(seq![ReadSignal::Ice(c)]) == seq![c],
        candidates(seq![other]).len() == 0,
    decreases b.len(),
{
    reveal_with_fuel(candidates, 2);
    let none = Seq::<ReadSignal>::empty();
    assert(seq![ReadSignal::Ice(c)].drop_last() =~= none);
    assert(seq![other].drop_last() =~= none);
    assert(candidates(seq![ReadSignal::Ice(c)]) =~= seq![c]);
    if b.len() == 0 {
        assert(a + b =~= a);
        assert(candidates(a) + candidates(b) =~= candidates(a));
    } else {
        law_all_candidates_are_kept(a, b.drop_last(), c, other);
        assert((a + b).drop_last() =~= a + b.drop_last());
        assert(candidates(a + b) =~= candidates(a) + candidates(b));
    }
}

} // verus!
