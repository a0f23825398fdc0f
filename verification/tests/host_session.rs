use ed25519_dalek::SigningKey;

use remotelink::host::session::{
    apply_signal, mock_encode_video_nalu, parse_ice_payload, parse_sdp_payload, AuthError,
    ConnectionState, DataMessage, IceCandidate, IdentityMessage, InboundMessage, MediaStart, OfferSteps,
    PumpAction, SdpPayload, SessionError, SessionManager, SignalUse, IDENTITY_CHANNEL_LABEL,
    INPUT_CHANNEL_LABEL,
};

fn pump(mgr: &mut SessionManager, frames: u32) -> (u32, u32, Vec<bool>) {
    let mut run = mgr.pump_media(frames, ConnectionState::Connected).unwrap();
    assert!(!run.stats.skipped_not_connected);
    let mut keyframes = Vec::new();
    loop {
        match mgr.pump_next(&run) {
            PumpAction::SendAudio => {},
            PumpAction::SendVideo { keyframe } => keyframes.push(keyframe),
            PumpAction::Done => return (run.stats.video_sent, run.stats.audio_sent, keyframes),
        }
        mgr.pump_sent(&mut run);
    }
}

fn on(label: &str, data: &str, identity: IdentityMessage) -> InboundMessage {
    InboundMessage {
        message: DataMessage {
            label: label.into(),
            data: data.as_bytes().to_vec(),
            unordered: false,
        },
        identity,
    }
}

fn malformed() -> IdentityMessage {
    IdentityMessage::Malformed(AuthError::IdentityBind("not identity".into()))
}

#[test]
fn start_media_offer_and_pump_to_mock_viewer() {
    let mut mgr = SessionManager::new();
    mgr.attach("sess-av");
    assert_eq!(mgr.start_media(ConnectionState::New).unwrap(), MediaStart::CreateOffer);
    mgr.create_local_offer_and_queue("sess-av", Ok("offer".into()), vec!["c".into()]).unwrap();
    let out = mgr.take_outbound_signals();
    let offer = out.iter().find(|s| s.kind == "session_offer").expect("session_offer");
    assert_eq!(offer.payload, "offer");
    assert_eq!(out.iter().filter(|s| s.kind == "ice_candidate").count(), 1);
    assert!(mgr.take_outbound_signals().is_empty());

    let (videos, audios, keyframes) = pump(&mut mgr, 3);
    assert_eq!(videos, 3, "viewer should receive synthetic video");
    assert_eq!(audios, 9, "viewer should receive synthetic audio");
    assert!(keyframes[0]);
    assert_eq!(mgr.media_counters(), (3, 9));
}

#[test]
fn preconnected_pair_pumps_without_offer() {
    let mut mgr = SessionManager::new();
    mgr.attach("s1");
    assert_eq!(mgr.start_media(ConnectionState::Connected).unwrap(), MediaStart::DrainIce);
    assert_eq!(
        mgr.start_media(ConnectionState::Connected).unwrap(),
        MediaStart::AlreadyRunning
    );
    let (videos, _, _) = pump(&mut mgr, 2);
    assert_eq!(videos, 2);
}

#[test]
fn nothing_is_pumped_before_media_or_connection() {
    let mut mgr = SessionManager::new();
    assert!(mgr.start_media(ConnectionState::New).is_err());
    assert_eq!(
        mgr.pump_media(1, ConnectionState::Connected).unwrap_err().to_string(),
        "invalid state: media not started"
    );
    mgr.attach("s1");
    mgr.start_media(ConnectionState::New).unwrap();
    let run = mgr.pump_media(1, ConnectionState::Connecting).unwrap();
    assert!(run.stats.skipped_not_connected);
    assert_eq!(mgr.pump_next(&run), PumpAction::Done);
}

fn read_sdp(payload: &str) -> Result<SdpPayload, SessionError> {
    let json: Result<serde_json::Value, String> =
        serde_json::from_str(payload).map_err(|e: serde_json::Error| e.to_string());
    let json = json.map(|v| SdpPayload {
        sdp: v["sdp"].as_str().unwrap().to_string(),
        fingerprint_sig: v["fingerprint_sig"].as_str().map(|s| s.to_string()),
    });
    parse_sdp_payload(payload, json)
}

fn read_ice(payload: &str) -> Result<IceCandidate, SessionError> {
    let json: Result<serde_json::Value, serde_json::Error> = serde_json::from_str(payload);
    let direct = json.ok().map(|v| IceCandidate {
        candidate: v["candidate"].as_str().unwrap().to_string(),
        sdp_mid: v["sdp_mid"].as_str().map(|s| s.to_string()),
        sdp_m_line_index: v["sdp_m_line_index"].as_u64().map(|n| n as u16),
        username_fragment: None,
    });
    parse_ice_payload(payload, direct, None)
}

#[test]
fn sdp_and_ice_payload_parsers() {
    let p = read_sdp(r#"{"sdp":"v=0\r\n"}"#).unwrap();
    assert_eq!(p.sdp, "v=0\r\n");
    let p2 = read_sdp("v=0\r\no=- 0 0\r\n").unwrap();
    assert!(p2.sdp.starts_with("v=0"));

    let ice = read_ice(
        r#"{"candidate":"candidate:1 1 UDP 1 127.0.0.1 9 typ host","sdp_mid":"0","sdp_m_line_index":0}"#,
    )
    .unwrap();
    assert!(ice.candidate.starts_with("candidate:"));
}

#[test]
fn bad_payloads_are_signaling_errors() {
    assert!(matches!(read_sdp("  \n"), Err(SessionError::Signaling(_))));
    assert!(matches!(read_sdp("{oops"), Err(SessionError::Signaling(_))));
    assert!(matches!(read_ice("nonsense"), Err(SessionError::Signaling(_))));
    let bare = read_ice(" candidate:1 1 UDP 1 127.0.0.1 9 typ host ").unwrap();
    assert_eq!(bare.candidate, "candidate:1 1 UDP 1 127.0.0.1 9 typ host");
    assert!(matches!(apply_signal("session_answer"), Ok(SignalUse::RemoteAnswer)));
    assert!(matches!(apply_signal("session_offer"), Ok(SignalUse::RemoteOffer)));
    assert!(matches!(apply_signal("ice_candidate"), Ok(SignalUse::RemoteCandidate)));
    assert!(apply_signal("chat").is_err());
}

#[test]
fn new_mock_attach_geometry_and_shutdown() {
    let mut mgr = SessionManager::new();
    mgr.set_synthetic_geometry(32, 18, 15);
    assert_eq!(mgr.synthetic_geometry(), (32, 18, 15));
    mgr.attach("geo");
    assert_eq!(mgr.session_id(), Some("geo"));
    mgr.shutdown(Ok(())).unwrap();
    assert!(!mgr.media_started());
    assert_eq!(mgr.synthetic_geometry(), (32, 18, 15));
}

#[test]
fn bind_success_accepts_input() {
    let mut mgr = SessionManager::new();
    mgr.attach("sess-bind-ok");
    mgr.authorize_mode_a(Ok(b"bind-key".to_vec())).unwrap();
    assert!(mgr.identity().session_authorized);
    assert!(!mgr.input_allowed());

    mgr.start_identity_challenge(ConnectionState::Connected).unwrap();
    mgr.challenge_sent(b"nonce".to_vec());
    let (challenge, key) = mgr.bind_material().expect("key and challenge");
    assert_eq!(key, b"bind-key");
    assert_eq!(challenge, b"nonce");
    let stats = mgr
        .poll_inbound(vec![on(IDENTITY_CHANNEL_LABEL, "resp", IdentityMessage::Response(Ok(())))])
        .unwrap();
    assert_eq!(stats.identity_messages, 1);
    assert!(mgr.input_allowed());
    assert!(mgr.bind_material().is_none(), "a challenge serves once");

    // Input accepted after bind.
    let mut moved = on(INPUT_CHANNEL_LABEL, "{\"type\":\"mouse_move\"}", malformed());
    moved.message.unordered = true;
    let stats = mgr.poll_inbound(vec![moved]).unwrap();
    assert_eq!(stats.input_accepted, 1);
    assert_eq!(stats.input_rejected, 0);
    let accepted = mgr.take_accepted_input();
    assert_eq!(accepted.len(), 1);
    assert!(accepted[0].unordered);
}

#[test]
fn no_input_before_bind() {
    let mut mgr = SessionManager::new();
    mgr.attach("sess-early");
    assert!(!mgr.input_allowed());
    mgr.ensure_input_allowed().unwrap_err();

    let stats = mgr.poll_inbound(vec![on(INPUT_CHANNEL_LABEL, "{}", malformed())]).unwrap();
    assert_eq!(stats.input_rejected, 1);
    assert_eq!(stats.input_accepted, 0);
    assert_eq!(mgr.rejected_input_count(), 1);
    assert!(mgr.take_accepted_input().is_empty());
}

#[test]
fn bind_fail_rejects_input() {
    let mut mgr = SessionManager::new();
    mgr.attach("sess-fail");
    mgr.authorize_mode_a(Ok(b"bind-key".to_vec())).unwrap();
    mgr.start_identity_challenge(ConnectionState::Connected).unwrap();
    mgr.challenge_sent(b"nonce".to_vec());
    let wrong = SessionError::Auth(AuthError::IdentityBind("mac mismatch".into()));
    let err = mgr
        .poll_inbound(vec![on(IDENTITY_CHANNEL_LABEL, "resp", IdentityMessage::Response(Err(wrong)))])
        .unwrap_err();
    assert!(matches!(err, SessionError::Auth(_)));
    assert!(!mgr.input_allowed());

    let stats = mgr.poll_inbound(vec![on(INPUT_CHANNEL_LABEL, "{}", malformed())]).unwrap();
    assert_eq!(stats.input_rejected, 1);
}

#[test]
fn mode_b_mac_verify_on_host() {
    let mut mgr = SessionManager::new();
    mgr.attach("sess-mode-b");
    mgr.authorize_mode_b(Ok(b"key".to_vec())).unwrap();
    assert!(mgr.identity().session_authorized);
    assert!(!mgr.identity().identity_bound);

    // Wrong MAC rejected.
    let mut mgr2 = SessionManager::new();
    mgr2.attach("sess-mode-b");
    assert!(mgr2.authorize_mode_b(Err(AuthError::Other("bad mac".into()))).is_err());
    assert!(!mgr2.identity().session_authorized);
}

#[test]
fn attach_forgets_the_earlier_viewer() {
    let mut mgr = SessionManager::new();
    mgr.attach("a");
    mgr.force_identity_bound_for_tests();
    assert!(mgr.input_allowed());
    mgr.attach("b");
    assert!(!mgr.input_allowed());
    assert!(!mgr.identity().session_authorized);
}

#[test]
fn challenge_needs_authorization_and_connection() {
    let mut mgr = SessionManager::new();
    assert!(mgr.start_identity_challenge(ConnectionState::Connected).is_err());
    mgr.attach("s");
    mgr.authorize_mode_a(Ok(b"k".to_vec())).unwrap();
    assert!(mgr.start_identity_challenge(ConnectionState::Connecting).is_err());
    assert!(mgr.start_identity_challenge(ConnectionState::Connected).is_ok());
}

#[test]
fn mock_nalus_tell_keyframes_apart() {
    let a = mock_encode_video_nalu(64, 36, &[1, 2, 3, 4], true);
    let b = mock_encode_video_nalu(64, 36, &[1, 2, 3, 4], false);
    assert_eq!(&a[..4], &[0, 0, 0, 1]);
    assert_eq!(&b[..4], &[0, 0, 0, 1]);
    assert_eq!(a[4], 0x65);
    assert_eq!(b[4], 0x41);
}

fn offer_steps() -> OfferSteps {
    OfferSteps { offer: Ok("v=0".into()), local_set: Ok(()), signature: Ok("5160".into()) }
}

#[test]
fn offers_are_signed_with_the_device_key() {
    let mut mgr = SessionManager::new();
    mgr.attach("s");
    assert!(mgr.device_signing_key().is_none());
    let unsigned = mgr.local_offer(OfferSteps { signature: Err("x".into()), ..offer_steps() });
    assert_eq!(unsigned.unwrap().fingerprint_sig.as_deref(), Some(""));

    let key = SigningKey::from_bytes(&[7; 32]);
    mgr.set_device_signing_key(key.clone());
    let signed = mgr.local_offer(offer_steps()).unwrap();
    assert_eq!(signed.sdp, "v=0");
    assert_eq!(signed.fingerprint_sig.as_deref(), Some("5160"));
    // The key stays from session to session.
    mgr.detach();
    mgr.attach("t");
    assert_eq!(mgr.device_signing_key().unwrap().to_bytes(), key.to_bytes());

    let failed = |steps: OfferSteps| mgr.local_offer(steps).unwrap_err().to_string();
    assert_eq!(
        failed(OfferSteps { signature: Err("no fp".into()), ..offer_steps() }),
        "transport: no fp"
    );
    assert_eq!(
        failed(OfferSteps { local_set: Err("state".into()), ..offer_steps() }),
        "transport: state"
    );
    assert_eq!(
        failed(OfferSteps {
            offer: Err("closed".into()),
            local_set: Err("state".into()),
            ..offer_steps()
        }),
        "transport: closed"
    );
}

#[test]
fn an_unwritten_offer_queues_nothing() {
    let mut mgr = SessionManager::new();
    mgr.attach("s");
    let r = mgr.create_local_offer_and_queue("s", Err("json".into()), vec!["c".into()]);
    assert_eq!(r.unwrap_err().to_string(), "signaling: json");
    assert!(mgr.take_outbound_signals().is_empty());
    mgr.start_media(ConnectionState::Connected).unwrap();
    assert!(mgr.shutdown(Ok(())).is_ok());
    assert!(!mgr.media_started());
    assert_eq!(mgr.shutdown(Err("gone".into())).unwrap_err().to_string(), "transport: gone");
}
