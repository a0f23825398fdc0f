//! In-process synthetic sessions: an agent and a stand-in for the viewer, no real display.

use vstd::prelude::*;
use crate::host::agent::{AgentSession, AgentStep, PeerEffect, SessionView};
use crate::host::agent_state::AgentView;
use crate::host::control::{
    AttachSession, ControlMessage, FeatureFlags, MessageView, SetPolicy, SignalHop, SignalView,
    StartMedia,
};
use crate::host::service::{signal_to_agent, start_sequence};
use crate::host::session::{ConnectionState, ManagerView, MediaPlane, SetupView};
use crate::host::signal_kind;
use crate::host::ws_session::{
    agent_ice, ice_payloads, law_offers_are_found_in_order, offer_payloads,
};
use crate::text::{chars_of, contains_text, decimal, occurs_in, push_number, same};

verus! {

/// An agent that runs media for a session whose viewer is not bound.
pub open spec fn running(session_id: Seq<char>, enable_input: bool) -> SessionView {
    SessionView {
        state: AgentView {
            session_id: Some(session_id),
            media_started: true,
            enable_input,
            unattended: false,
            chrome_visible: true,
            killed: false,
            unattended_disabled: false,
        },
        manager: ManagerView {
            media: Some(MediaPlane { video_frames_sent: 0, audio_packets_sent: 0 }),
            policy_input: enable_input,
            ..ManagerView::bound(SetupView::standard(), session_id)
        },
    }
}

/// The first method of a list that a frame mentions: media must not be on the control channel.
pub fn leaked_method(frame: &str, forbidden: &Vec<String>) -> (r: Option<String>)
    ensures
        match r {
            Some(m) => exists|k: int|
                0 <= k < forbidden@.len() && #[trigger] forbidden.deep_view()[k] == m@ && occurs_in(
                    m@,
                    frame@,
                ) && (forall|j: int|
                    0 <= j < k ==> !occurs_in(#[trigger] forbidden.deep_view()[j], frame@)),
            None => forall|k: int|
                0 <= k < forbidden@.len() ==> !occurs_in(#[trigger] forbidden.deep_view()[k], frame@),
        },
{
    let text = chars_of(frame);
    let mut i: usize = 0;
    while i < forbidden.len()
        invariant
            i <= forbidden@.len(),
            text@ == frame@,
            forall|k: int|
                0 <= k < i ==> !occurs_in(#[trigger] forbidden.deep_view()[k], frame@),
        decreases forbidden@.len() - i,
    {
        assert(forbidden.deep_view()[i as int] == forbidden@[i as int]@);
        if contains_text(&text, &forbidden[i]) {
            return Some(forbidden[i].clone());
        }
        i += 1;
    }
    None
}

/// The first offer among the agent's messages.
pub open spec fn first_agent_offer(msgs: Seq<MessageView>) -> Option<Seq<char>>
    decreases msgs.len(),
{
    if msgs.len() == 0 {
        None
    } else {
        match msgs[0] {
            MessageView::SignalForward(s) => if s.kind == signal_kind::SESSION_OFFER@ {
                Some(s.payload)
            } else {
                first_agent_offer(msgs.skip(1))
            },
            _ => first_agent_offer(msgs.skip(1)),
        }
    }
}

/// The payload of the offer among the agent's messages.
pub fn agent_offer(messages: &Vec<ControlMessage>) -> (r: Result<String, &'static str>)
    ensures
        match r {
            Ok(p) => first_agent_offer(messages.deep_view()) == Some(p@),
            Err(e) => first_agent_offer(messages.deep_view()) is None && e@
                == "no session_offer from agent"@,
        },
{
    let ghost all = messages.deep_view();
    let mut i: usize = 0;
    assert(all.skip(0) == all);
    while i < messages.len()
        invariant
            i <= messages@.len(),
            all == messages.deep_view(),
            first_agent_offer(all) == first_agent_offer(all.skip(i as int)),
        decreases messages@.len() - i,
    {
        assert(all.skip(i as int)[0] == messages@[i as int].deep_view());
        assert(all.skip(i as int).skip(1) == all.skip(i + 1));
        if let ControlMessage::SignalForward(s) = &messages[i] {
            if same(&s.kind, signal_kind::SESSION_OFFER) {
                return Ok(s.payload.clone());
            }
        }
        i += 1;
    }
    Err("no session_offer from agent")
}

/// A synthetic session under way.
#[derive(Debug)]
pub struct SyntheticSession {
    pub agent: AgentSession,
    pub session_id: String,
}

fn is_ack(msg: &ControlMessage) -> (r: bool)
    ensures
        r == (msg.deep_view() is Ack),
{
    match msg {
        ControlMessage::Ack(_) => true,
        _ => false,
    }
}

impl SyntheticSession {
    /// Attach, set policy and start media on a fresh agent. Its peer has then to create an offer.
    pub fn begin(session_id: &str) -> (r: Result<SyntheticSession, String>)
        ensures
            r matches Ok(s) && s.session_id@ == session_id@ && s.agent.deep_view() == running(
                session_id@,
                false,
            ),
    {
        let mut agent = AgentSession::new();
        let turn_uris: Vec<String> = Vec::new();
        assert(turn_uris.deep_view() =~= Seq::<Seq<char>>::empty());
        let attach = ControlMessage::AttachSession(
            AttachSession {
                session_id: session_id.to_string(),
                viewer_label: Some("synthetic".to_string()),
                feature_flags: FeatureFlags::default(),
                turn_uris,
                boot_secret: None,
            },
        );
        if !is_ack(&agent.handle(&attach, ConnectionState::New).reply) {
            return Err("attach failed".to_string());
        }
        let policy = ControlMessage::SetPolicy(
            SetPolicy {
                session_id: session_id.to_string(),
                enable_input: false,
                unattended: false,
                max_bitrate_bps: 0,
                disable_hw_encode: true,
            },
        );
        if !is_ack(&agent.handle(&policy, ConnectionState::New).reply) {
            return Err("set_policy failed".to_string());
        }
        let start = ControlMessage::StartMedia(
            StartMedia { session_id: session_id.to_string(), display_id: None },
        );
        if !is_ack(&agent.handle(&start, ConnectionState::New).reply) {
            return Err("start_media failed".to_string());
        }
        Ok(SyntheticSession { agent, session_id: session_id.to_string() })
    }

    /// The offer that the agent's peer has created and queued.
    pub fn take_offer(&mut self) -> (r: Result<String, &'static str>)
        ensures
            match r {
                Ok(p) => first_agent_offer(
                    old(self).agent.deep_view().manager.outbound.map_values(
                        |s: SignalView| MessageView::SignalForward(s),
                    ),
                ) == Some(p@),
                Err(e) => first_agent_offer(
                    old(self).agent.deep_view().manager.outbound.map_values(
                        |s: SignalView| MessageView::SignalForward(s),
                    ),
                ) is None && e@ == "no session_offer from agent"@,
            },
            final(self).session_id == old(self).session_id,
            final(self).agent.deep_view() == (SessionView {
                manager: ManagerView {
                    outbound: Seq::empty(),
                    ..old(self).agent.deep_view().manager
                },
                ..old(self).agent.deep_view()
            }),
    {
        let messages = self.agent.take_outbound_signals();
        agent_offer(&messages)
    }

    /// The candidates that the agent's peer has queued.
    pub fn take_ice(&mut self) -> (r: Vec<String>)
        ensures
            r.deep_view() == ice_payloads(
                old(self).agent.deep_view().manager.outbound.map_values(
                    |s: SignalView| MessageView::SignalForward(s),
                ),
            ),
            final(self).session_id == old(self).session_id,
            final(self).agent.deep_view() == (SessionView {
                manager: ManagerView {
                    outbound: Seq::empty(),
                    ..old(self).agent.deep_view().manager
                },
                ..old(self).agent.deep_view()
            }),
    {
        let messages = self.agent.take_outbound_signals();
        agent_ice(&messages)
    }

    /// Hand a signal of the viewer to the agent.
    pub fn forward(&mut self, kind: &str, payload: &str, connection: ConnectionState) -> (r:
        AgentStep)
        ensures
            final(self).session_id == old(self).session_id,
            (final(self).agent.deep_view(), r.reply.deep_view(), r.effect)
                == old(self).agent.deep_view().step(
                MessageView::SignalForward(
                    SignalView {
                        session_id: old(self).session_id@,
                        kind: kind@,
                        payload: payload@,
                        from: SignalHop::Service,
                    },
                ),
                connection,
            ),
    {
        let msg = signal_to_agent(&self.session_id, kind, payload);
        self.agent.handle(&msg, connection)
    }
}

/// Whether the agent took a signal; `shown` is its reply as it is logged.
pub fn signal_taken(kind: &str, reply: &ControlMessage, shown: &str) -> (r: Result<(), String>)
    ensures
        r is Ok <==> reply.deep_view() is Ack,
        r matches Err(e) ==> e@ == kind@ + " failed: "@ + shown@,
{
    if is_ack(reply) {
        return Ok(());
    }
    let mut s = kind.to_string();
    s.append(" failed: ");
    s.append(shown);
    Err(s)
}

/// The outcome of a synthetic session: the viewer has to have received both video and audio.
pub fn synthetic_outcome(
    session_id: &str,
    video_sent: u64,
    audio_sent: u64,
    videos: u64,
    audios: u64,
) -> (r: Result<String, String>)
    ensures
        match r {
            Ok(s) => videos > 0 && audios > 0 && s@ == "synthetic ok session="@ + session_id@
                + " video_sent="@ + decimal(video_sent as nat) + " audio_sent="@ + decimal(
                audio_sent as nat,
            ) + " viewer_video="@ + decimal(videos as nat) + " viewer_audio="@ + decimal(
                audios as nat,
            ) + " ipc_control_only=true"@,
            Err(e) => (videos == 0 || audios == 0) && e@ == "mock peer received video="@ + decimal(
                videos as nat,
            ) + " audio="@ + decimal(audios as nat) + " (expected both > 0)"@,
        },
{
    if videos == 0 || audios == 0 {
        let mut e = "mock peer received video=".to_string();
        push_number(&mut e, videos);
        e.append(" audio=");
        push_number(&mut e, audios);
        e.append(" (expected both > 0)");
        return Err(e);
    }
    let mut s = "synthetic ok session=".to_string();
    s.append(session_id);
    s.append(" video_sent=");
    push_number(&mut s, video_sent);
    s.append(" audio_sent=");
    push_number(&mut s, audio_sent);
    s.append(" viewer_video=");
    push_number(&mut s, videos);
    s.append(" viewer_audio=");
    push_number(&mut s, audios);
    s.append(" ipc_control_only=true");
    Ok(s)
}

/// How a live loopback goes on while the viewer's side is polled.
#[derive(Debug)]
pub enum LiveWait {
    /// Everything arrived.
    Ready,
    /// Too late.
    TimedOut(String),
    /// Poll again.
    Again,
}

/// How a live loopback goes on: two media frames and one data message have to arrive in time.
pub fn live_wait(tracks: u64, data: u64, expired: bool) -> (r: LiveWait)
    ensures
        if tracks >= 2 && data > 0 {
            r is Ready
        } else if expired {
            r matches LiveWait::TimedOut(e) && e@ == "live demo timeout tracks="@ + decimal(
                tracks as nat,
            ) + " data="@ + decimal(data as nat)
        } else {
            r is Again
        },
{
    if tracks >= 2 && data > 0 {
        return LiveWait::Ready;
    }
    if !expired {
        return LiveWait::Again;
    }
    let mut e = "live demo timeout tracks=".to_string();
    push_number(&mut e, tracks);
    e.append(" data=");
    push_number(&mut e, data);
    LiveWait::TimedOut(e)
}

/// One line about a live loopback.
pub fn live_summary(session_id: &str, fingerprint: &str, videos: u64, audios: u64, data: u64) -> (r:
    String)
    ensures
        r@ == "live TCP session="@ + session_id@ + " fp="@ + fingerprint@ + " video_rx="@ + decimal(
            videos as nat,
        ) + " audio_rx="@ + decimal(audios as nat) + " data_rx="@ + decimal(data as nat),
{
    let mut s = "live TCP session=".to_string();
    s.append(session_id);
    s.append(" fp=");
    s.append(fingerprint);
    s.append(" video_rx=");
    push_number(&mut s, videos);
    s.append(" audio_rx=");
    push_number(&mut s, audios);
    s.append(" data_rx=");
    push_number(&mut s, data);
    s
}

/// The agent after messages, with a peer that has not been used, and what the last one asked of it.
pub open spec fn driven(s: SessionView, msgs: Seq<MessageView>) -> (SessionView, bool, PeerEffect)
    decreases msgs.len(),
{
    if msgs.len() == 0 {
        (s, true, PeerEffect::Nothing)
    } else {
        let (before, acked, _) = driven(s, msgs.drop_last());
        let (after, reply, effect) = before.step(msgs.last(), ConnectionState::New);
        (after, acked && reply is Ack, effect)
    }
}

/// The standard start sequence is acknowledged step by step by an idle agent, leaves media running
/// for that session with the input policy as asked, and ends by asking the peer for an offer.
pub proof fn law_start_sequence_is_accepted(session_id: Seq<char>, enable_input: bool)
    ensures
        driven(
            SessionView {
                state: AgentView::idle(false),
                manager: ManagerView::unbound(SetupView::standard()),
            },
            start_sequence(session_id, enable_input),
        ) == (running(session_id, enable_input), true, PeerEffect::CreateOffer),
{
    let s = SessionView {
        state: AgentView::idle(false),
        manager: ManagerView::unbound(SetupView::standard()),
    };
    let msgs = start_sequence(session_id, enable_input);
    let two = msgs.drop_last();
    let one = two.drop_last();
    assert(one.drop_last() =~= Seq::<MessageView>::empty());
    assert(driven(s, one.drop_last()) == (s, true, PeerEffect::Nothing));
    assert(one.last() == msgs[0]);
    assert(two.last() == msgs[1]);
    assert(msgs.last() == msgs[2]);
    assert(driven(s, one).1);
    assert(driven(s, two).1);
}

/// The offer of an agent is the first one among its messages, and it is missing only where none of
/// them is an offer.
pub proof fn law_first_offer_of_the_agent(msgs: Seq<MessageView>)
    ensures
        first_agent_offer(msgs) == (if offer_payloads(msgs).len() == 0 {
            None
        } else {
            Some(offer_payloads(msgs)[0])
        }),
    decreases msgs.len(),
{
    if msgs.len() > 0 {
        let rest = msgs.skip(1);
        law_first_offer_of_the_agent(rest);
        let one = seq![msgs[0]];
        assert(msgs =~= one + rest);
        let s = match msgs[0] {
            MessageView::SignalForward(s) => s,
            _ => SignalView {
                session_id: Seq::empty(),
                kind: Seq::empty(),
                payload: Seq::empty(),
                from: SignalHop::Agent,
            },
        };
        let other = if msgs[0] is SignalForward {
            MessageView::StopMedia { session_id: Seq::empty() }
        } else {
            msgs[0]
        };
        law_offers_are_found_in_order(one, rest, s, other);
    }
}

} // verus!
