use rand::rngs::StdRng;
use rand::{Rng, RngCore, SeedableRng};
use remotelink::bug_hunt::artifact::{render_markdown, ArtifactPaths, ProfileArtifact};
use remotelink::bug_hunt::audio_desync::{judge_desync, skew_fault, Fraction, SkewReport};
use remotelink::bug_hunt::cli::{config_file, out_dir, parse_seed_flag, requested_profiles};
use remotelink::bug_hunt::config::{
    default_config, is_json_config, strip_bom, BugHuntConfig, ChaosProfileConfig, ProfileName,
    Severity,
};
use remotelink::bug_hunt::drop_packets::{drop_setup_failed, DropRate, DropRun, Fate, Packet};
use remotelink::bug_hunt::profiles::{
    panicked_outcome, MetricValue, ProfileOutcome, ProfileStatus,
};
use remotelink::bug_hunt::protocol_fuzz::{
    fuzz_input, hex_preview, mutate_seed, seed_message, Decoded, FuzzRun, SEED_MESSAGES,
};
use remotelink::bug_hunt::reconnect::{CycleReport, IceRestartReport, ReconnectRun};
use remotelink::bug_hunt::rng::ChaosRng;
use remotelink::bug_hunt::runner::{
    build_report, derive_seed, nightly_options, plan_nightly, plan_runs, resolve_effective_seed,
    resolve_profiles, RunOptions,
};
use remotelink::host::session::ConnectionState;
use remotelink::platform::Platform;

fn metric(o: &ProfileOutcome, name: &str) -> Option<MetricValue> {
    o.metrics.iter().find(|m| m.name == name).map(|m| m.value)
}

fn args(list: &[&str]) -> Vec<String> {
    list.iter().map(|s| s.to_string()).collect()
}

#[test]
fn profile_name_roundtrip() {
    for p in ProfileName::all() {
        assert_eq!(ProfileName::parse(p.as_str()), Some(p));
    }
    assert_eq!(ProfileName::parse("Reconnect"), None);
}

#[test]
fn resolve_profiles_from_config() {
    let cfg = BugHuntConfig {
        enabled_profiles: vec!["reconnect".into(), "audio_desync".into()],
        ..Default::default()
    };
    let p = resolve_profiles(&[], &cfg);
    assert_eq!(p, vec![ProfileName::Reconnect, ProfileName::AudioDesync]);
}

#[test]
fn requested_profiles_win_over_config() {
    let cfg = BugHuntConfig {
        enabled_profiles: vec!["reconnect".into(), "nonsense".into()],
        ..Default::default()
    };
    assert_eq!(
        resolve_profiles(&[ProfileName::DropPackets], &cfg),
        vec![ProfileName::DropPackets]
    );
    assert_eq!(resolve_profiles(&[], &cfg), vec![ProfileName::Reconnect]);
    assert_eq!(resolve_profiles(&[], &default_config()), ProfileName::all());
}

#[test]
fn multi_profile_derives_single_does_not() {
    let root = 184853989u64;
    let multi = resolve_effective_seed(root, ProfileName::ProtocolFuzz, 4, None);
    assert_ne!(multi, root);
    assert_eq!(multi, derive_seed(root, ProfileName::ProtocolFuzz));

    let single = resolve_effective_seed(root, ProfileName::ProtocolFuzz, 1, None);
    assert_eq!(single, root);

    // Explicit --seed never derives even in multi context.
    let explicit = resolve_effective_seed(root, ProfileName::ProtocolFuzz, 4, Some(0xDEAD_BEEF));
    assert_eq!(explicit, 0xDEAD_BEEF);
}

#[test]
fn double_derive_would_break_repro_documented() {
    let root = 184853989u64;
    let once = derive_seed(root, ProfileName::ProtocolFuzz);
    let twice = derive_seed(once, ProfileName::ProtocolFuzz);
    assert_ne!(once, twice);
    assert_eq!(resolve_effective_seed(once, ProfileName::ProtocolFuzz, 1, None), once);
    assert_eq!(resolve_effective_seed(root, ProfileName::ProtocolFuzz, 4, Some(once)), once);
}

#[test]
fn derived_seed_has_an_exact_value() {
    assert_eq!(derive_seed(184853989, ProfileName::ProtocolFuzz), 1889791562546165087);
}

#[test]
fn derived_seeds_of_a_root_differ() {
    for root in [0u64, 1, 184853989, u64::MAX] {
        let all = ProfileName::all();
        for a in &all {
            for b in &all {
                assert_eq!(a == b, derive_seed(root, *a) == derive_seed(root, *b));
            }
        }
    }
}

/// Runs the fuzz profile; a JSON parse stands in for the decoder.
fn run_protocol_fuzz(seed: u64, iterations: u32) -> ProfileOutcome {
    let mut rng = ChaosRng::seeded(seed);
    let mut run = FuzzRun::start(seed, iterations);
    while run.done < run.iterations {
        let input = run.next_input(&mut rng);
        let text = String::from_utf8_lossy(&input).to_string();
        let parsed: Result<serde_json::Value, serde_json::Error> = serde_json::from_str(&text);
        let result = if parsed.is_ok() { Decoded::Accepted } else { Decoded::Refused };
        if let Some(o) = run.decoded(&input, result) {
            return o;
        }
    }
    run.finish()
}

#[test]
fn protocol_fuzz_never_panics() {
    let o = run_protocol_fuzz(12345, 128);
    assert_eq!(o.status, ProfileStatus::Pass, "{}", o.summary);
    assert_eq!(metric(&o, "iterations"), Some(MetricValue::Count(128)));
    assert_eq!(metric(&o, "pure_random"), Some(MetricValue::Count(43)));
    assert_eq!(metric(&o, "mutated"), Some(MetricValue::Count(85)));
    assert_eq!(o.repro.as_deref(), Some("seed=12345 iterations=128"));
}

#[test]
fn deterministic_metrics() {
    let a = run_protocol_fuzz(42, 40);
    let b = run_protocol_fuzz(42, 40);
    assert_eq!(a.metrics, b.metrics);
}

#[test]
fn artifact_effective_seed_repros_without_double_derive() {
    let root = 184853989u64;
    let mut config = BugHuntConfig::default();
    config.chaos.seed = root;
    config.chaos.iterations = 64;
    config.chaos.reconnect_cycles = 1;

    // Multi-profile nightly derives per profile.
    let plan = plan_nightly(&nightly_options("out", config.clone()));
    assert_eq!(plan.len(), 4);
    let fuzz = plan.iter().find(|r| r.profile == ProfileName::ProtocolFuzz).unwrap();
    let effective = fuzz.seed;
    assert_eq!(effective, derive_seed(root, ProfileName::ProtocolFuzz));
    assert_ne!(effective, root, "nightly must derive so multi-profile streams differ");
    let first = run_protocol_fuzz(effective, 64).with_seeds(root, effective);
    assert_eq!(first.root_seed, Some(root));
    assert_eq!(first.seed, effective);

    // Repro path: single profile + --seed effective (or config seed = effective).
    let mut repro_cfg = config.clone();
    repro_cfg.chaos.seed = effective;
    let opts = RunOptions {
        out_dir: "out2".into(),
        profiles: vec![ProfileName::ProtocolFuzz],
        config: repro_cfg,
        effective_seed: Some(effective),
    };
    let plan2 = plan_runs(&opts);
    assert_eq!(plan2[0].seed, effective, "must not double-derive");
    assert_eq!(run_protocol_fuzz(plan2[0].seed, 64).metrics, first.metrics);

    // Also: single profile with config.seed = effective and no --seed.
    let opts3 = RunOptions {
        out_dir: "out3".into(),
        profiles: vec![ProfileName::ProtocolFuzz],
        config: BugHuntConfig {
            chaos: ChaosProfileConfig {
                seed: effective,
                iterations: 64,
                ..ChaosProfileConfig::default()
            },
            ..Default::default()
        },
        effective_seed: None,
    };
    let plan3 = plan_runs(&opts3);
    assert_eq!(plan3[0].seed, effective);
    assert_eq!(run_protocol_fuzz(plan3[0].seed, 64).metrics, first.metrics);
}

#[test]
fn panicking_decoder_is_a_failure() {
    let mut rng = ChaosRng::seeded(5);
    let mut run = FuzzRun::start(5, 3);
    let input = run.next_input(&mut rng);
    let o = run.decoded(&input, Decoded::Panicked).unwrap();
    assert_eq!(o.status, ProfileStatus::Fail);
    assert_eq!(o.severity, Some(Severity::High));
    assert_eq!(o.summary, format!("decoder panicked on iteration 0 (len={})", input.len()));
    assert_eq!(
        o.repro,
        Some(format!("seed=5 iteration=0 hex={}", hex_preview(&input, 64)))
    );
    let adv = run.adversarial_panic(10_000);
    assert_eq!(adv.summary, "decoder panicked on adversarial input len=10000");
    assert_eq!(metric(&adv, "adversarial"), Some(MetricValue::Flag(true)));
}

fn expected_mutation(rng: &mut StdRng) -> Vec<u8> {
    let n = SEED_MESSAGES as usize;
    let mut bytes = seed_message(rng.gen_range(0..n) as u64).as_bytes().to_vec();
    let mutations = rng.gen_range(1..=8);
    for _ in 0..mutations {
        match rng.gen_range(0..4) {
            0 => {
                let i = rng.gen_range(0..bytes.len());
                bytes[i] ^= 1u8 << rng.gen_range(0..8u8);
            },
            1 => {
                let i = rng.gen_range(0..=bytes.len());
                bytes.insert(i, rng.gen());
            },
            2 => {
                if !bytes.is_empty() {
                    let i = rng.gen_range(0..bytes.len());
                    bytes.remove(i);
                }
            },
            _ => {
                let i = rng.gen_range(0..=bytes.len());
                let len = rng.gen_range(1..=16);
                let mut chunk = vec![0u8; len];
                rng.fill_bytes(&mut chunk);
                for (off, b) in chunk.into_iter().enumerate() {
                    bytes.insert(i + off, b);
                }
            },
        }
    }
    bytes
}

#[test]
fn mutations_follow_the_seeded_stream() {
    for seed in 0..40u64 {
        let mut ours = ChaosRng::seeded(seed);
        let mut theirs = StdRng::seed_from_u64(seed);
        for _ in 0..10 {
            assert_eq!(mutate_seed(&mut ours), expected_mutation(&mut theirs), "seed {seed}");
        }
    }
}

#[test]
fn every_third_input_is_random() {
    let mut ours = ChaosRng::seeded(9);
    let mut theirs = StdRng::seed_from_u64(9);
    let len: usize = theirs.gen_range(0..=512);
    let mut buf = vec![0u8; len];
    theirs.fill_bytes(&mut buf);
    assert_eq!(fuzz_input(0, &mut ours), buf);
    assert_eq!(fuzz_input(1, &mut ours), expected_mutation(&mut theirs));
    assert_eq!(fuzz_input(2, &mut ours), expected_mutation(&mut theirs));
}

#[test]
fn draws_come_from_the_outside_generator() {
    let mut ours = ChaosRng::seeded(77);
    let mut theirs = StdRng::seed_from_u64(77);
    assert_eq!(ours.index(0, 100), theirs.gen_range(0..=100u64));
    assert_eq!(ours.choice(1, 8), theirs.gen_range(1..=8u32));
    assert_eq!(ours.bit(), theirs.gen_range(0..8u8));
    assert_eq!(ours.byte(), theirs.gen::<u8>());
    let mut buf = vec![0u8; 33];
    theirs.fill_bytes(&mut buf);
    assert_eq!(ours.bytes(33), buf);
}

#[test]
fn hex_preview_is_cut() {
    assert_eq!(hex_preview(&[0x00, 0xab, 0x7f], 64), "00ab7f");
    assert_eq!(hex_preview(&[0x00, 0xab, 0x7f], 2), "00ab");
    assert_eq!(hex_preview(&[], 64), "");
}

/// Runs the drop profile; what is sent arrives.
fn run_drop_packets(seed: u64, iterations: u32, drop_rate: f64) -> ProfileOutcome {
    let mut rng = StdRng::seed_from_u64(seed);
    let mut run = DropRun::start(seed, iterations);
    let mut arrived: Vec<Packet> = Vec::new();
    while run.goes_on() {
        if rng.gen::<f64>() < drop_rate {
            run.count(Fate::Dropped);
        } else {
            arrived.push(run.next_packet());
            run.count(Fate::Sent);
        }
    }
    let rate = DropRate {
        target_bits: drop_rate.to_bits(),
        target_text: format!("{drop_rate}"),
        actual_bits: (f64::from(run.dropped) / f64::from(run.attempted)).to_bits(),
    };
    run.finish(arrived.len() as u32, &rate)
}

#[test]
fn drop_packets_is_deterministic() {
    let a = run_drop_packets(99, 64, 0.3);
    let b = run_drop_packets(99, 64, 0.3);
    assert_eq!(a.status, ProfileStatus::Pass);
    assert_eq!(a.metrics, b.metrics);
    assert_eq!(a.summary, b.summary);
}

#[test]
fn zero_drop_delivers_all() {
    let o = run_drop_packets(1, 32, 0.0);
    assert_eq!(o.status, ProfileStatus::Pass);
    assert_eq!(metric(&o, "dropped"), Some(MetricValue::Count(0)));
    assert_eq!(metric(&o, "sent"), Some(MetricValue::Count(32)));
    assert_eq!(metric(&o, "received"), Some(MetricValue::Count(32)));
    assert_eq!(o.summary, "flaky send: dropped 0/32, delivered 32/32");
    assert_eq!(o.repro.as_deref(), Some("seed=1 drop_rate=0 iterations=32"));
}

#[test]
fn lost_packets_break_the_run() {
    let mut run = DropRun::start(1, 2);
    assert_eq!(
        run.next_packet(),
        Packet::Video { pts_ms: 0, rtp_ts: 0, keyframe: true, tail: 0 }
    );
    run.count(Fate::Sent);
    assert_eq!(run.next_packet(), Packet::Audio { pts_ms: 20, rtp_ts: 960, mark: 1 });
    run.count(Fate::Failed);
    let rate = DropRate { target_bits: 0, target_text: "0".into(), actual_bits: 0 };
    let o = run.finish(1, &rate);
    assert_eq!(o.status, ProfileStatus::Fail);
    assert_eq!(o.severity, Some(Severity::High));
    assert_eq!(o.summary, "invariant broken: sent=1 received=1 errors=1 dropped=0");
    let o = drop_setup_failed(4, "handshake failed: x".into());
    assert_eq!(o.summary, "handshake failed: x");
    assert_eq!(o.repro.as_deref(), Some("seed=4"));
}

#[test]
fn packets_end_with_their_timestamps() {
    let mut run = DropRun::start(1, u32::MAX);
    run.attempted = 1_431_654;
    assert!(run.has_packet());
    assert_eq!(
        run.next_packet(),
        Packet::Video { pts_ms: 47_244_582, rtp_ts: 4_294_962_000, keyframe: false, tail: 102 }
    );
    run.attempted = 1_431_655;
    assert!(run.has_packet());
    run.attempted = 1_431_656;
    assert!(!run.has_packet());
    run.attempted = 4_473_923;
    assert!(run.has_packet());
    run.attempted = 4_473_925;
    assert!(!run.has_packet());
}

fn good_cycle() -> CycleReport {
    CycleReport {
        handshake: Ok(()),
        host_connected: ConnectionState::Connected,
        viewer_connected: ConnectionState::Connected,
        send_data: Ok(()),
        send_audio: Ok(()),
        flush: Ok(()),
        data_arrived: true,
        media_arrived: true,
        close: Ok(()),
        host_closed: ConnectionState::Closed,
        viewer_closed: ConnectionState::Disconnected,
        viewer_shown: "Disconnected".into(),
    }
}

fn good_restart() -> IceRestartReport {
    IceRestartReport {
        handshake: Ok(()),
        restart: Ok(()),
        restarts: 1,
        host_state: ConnectionState::Connected,
    }
}

#[test]
fn reconnect_cycles_pass() {
    let mut run = ReconnectRun::start(7, 2);
    while run.goes_on() {
        assert!(run.cycle_done(&good_cycle()).is_none());
    }
    let o = run.finish(&good_restart());
    assert_eq!(o.status, ProfileStatus::Pass, "{}", o.summary);
    assert_eq!(metric(&o, "completed"), Some(MetricValue::Count(2)));
    assert_eq!(
        o.summary,
        "completed 2 teardown/restart cycles; media_ok=2; ice restart ok"
    );
}

fn broken(change: fn(&mut CycleReport)) -> String {
    let mut run = ReconnectRun::start(7, 2);
    assert!(run.cycle_done(&good_cycle()).is_none());
    let mut report = good_cycle();
    change(&mut report);
    let o = run.cycle_done(&report).unwrap();
    assert_eq!(o.status, ProfileStatus::Fail);
    assert_eq!(metric(&o, "completed"), Some(MetricValue::Count(1)));
    o.summary
}

#[test]
fn reconnect_reports_each_fault() {
    assert_eq!(
        broken(|r| r.handshake = Err("x".into())),
        "cycle 1: handshake failed: x"
    );
    assert_eq!(
        broken(|r| r.viewer_connected = ConnectionState::New),
        "cycle 1: not connected after handshake"
    );
    assert_eq!(broken(|r| r.send_data = Err("x".into())), "cycle 1: send_data: x");
    assert_eq!(broken(|r| r.send_audio = Err("x".into())), "cycle 1: send_audio: x");
    assert_eq!(broken(|r| r.flush = Err("x".into())), "cycle 1: flush: x");
    assert_eq!(
        broken(|r| r.media_arrived = false),
        "cycle 1: media not delivered before teardown"
    );
    assert_eq!(broken(|r| r.close = Err("x".into())), "cycle 1: close host: x");
    assert_eq!(
        broken(|r| r.host_closed = ConnectionState::Connected),
        "cycle 1: host not Closed after close()"
    );
    assert_eq!(
        broken(|r| {
            r.viewer_closed = ConnectionState::Connected;
            r.viewer_shown = "Connected".into();
        }),
        "cycle 1: viewer expected Disconnected/Closed, got Connected"
    );
}

#[test]
fn ice_restart_reports_each_fault() {
    let run = ReconnectRun { seed: 1, cycles: 1, completed: 1, media_ok: 1 };
    let said = |r: IceRestartReport| run.finish(&r).summary;
    assert_eq!(
        said(IceRestartReport { handshake: Err("x".into()), ..good_restart() }),
        "ice-restart setup handshake: x"
    );
    assert_eq!(
        said(IceRestartReport { restart: Err("x".into()), ..good_restart() }),
        "restart_ice: x"
    );
    assert_eq!(
        said(IceRestartReport { restarts: 2, ..good_restart() }),
        "ice_restart_count=2, expected 1"
    );
    assert_eq!(
        said(IceRestartReport { host_state: ConnectionState::Closed, ..good_restart() }),
        "host not Connected after ICE restart"
    );
}

fn fraction(x: f64) -> Fraction {
    Fraction { bits: x.to_bits(), text: format!("{x}") }
}

fn good_skew(inject: f64) -> SkewReport {
    SkewReport {
        inject: fraction(inject),
        deadband: fraction(20.0),
        max_stretch: fraction(0.02),
        inside_in_deadband: true,
        inside_delay: fraction(0.0),
        inside_delay_is_zero: true,
        ahead_in_deadband: false,
        ahead_skew: fraction(inject),
        ahead_skew_positive: true,
        ahead_delay: fraction(5.0),
        ahead_delay_positive: true,
        ahead_ratio: fraction(1.02),
        ahead_ratio_above_one: true,
        ahead_ratio_within_stretch: true,
        ahead_ratio_short: "1.0200".into(),
        offset_after_ahead: fraction(5.0),
        behind_skew: fraction(-inject),
        behind_skew_negative: true,
        behind_delay: fraction(-5.0),
        behind_delay_negative: true,
        behind_ratio: fraction(0.98),
        behind_ratio_below_one: true,
        behind_ratio_short: "0.9800".into(),
        reset_offset: fraction(0.0),
        reset_is_zero: true,
    }
}

#[test]
fn audio_desync_pass() {
    let o = judge_desync(3, &good_skew(80.0));
    assert_eq!(o.status, ProfileStatus::Pass, "{}", o.summary);
    assert_eq!(
        o.summary,
        "skew inject ±80 ms: ahead delay=5, ratio=1.0200; behind delay=-5, ratio=0.9800"
    );
    assert_eq!(
        metric(&o, "ahead_resample_ratio"),
        Some(MetricValue::Real { bits: 1.02f64.to_bits() })
    );
    assert_eq!(o.repro.as_deref(), Some("seed=3 skew_inject_ms=80"));
}

fn skewed(change: fn(&mut SkewReport)) -> String {
    let mut r = good_skew(80.0);
    change(&mut r);
    assert_eq!(judge_desync(1, &r).severity, Some(Severity::Medium));
    skew_fault(&r).unwrap()
}

#[test]
fn audio_desync_reports_each_fault() {
    assert!(skew_fault(&good_skew(80.0)).is_none());
    assert_eq!(
        skewed(|r| r.inside_in_deadband = false),
        "deadband violated: in_deadband=false delay=0"
    );
    assert_eq!(
        skewed(|r| r.ahead_in_deadband = true),
        "expected leave deadband on audio-ahead inject"
    );
    assert_eq!(skewed(|r| r.ahead_skew_positive = false), "expected positive skew, got 80");
    assert_eq!(
        skewed(|r| r.ahead_delay_positive = false),
        "expected positive delay step on audio-ahead, got 5"
    );
    assert_eq!(
        skewed(|r| r.ahead_ratio_above_one = false),
        "expected resample_ratio > 1 (slow audio), got 1.02"
    );
    assert_eq!(
        skewed(|r| r.ahead_ratio_within_stretch = false),
        "resample_ratio 1.02 exceeds max_stretch 0.02"
    );
    assert_eq!(skewed(|r| r.behind_skew_negative = false), "expected negative skew, got -80");
    assert_eq!(
        skewed(|r| r.behind_delay_negative = false),
        "expected negative delay step on audio-behind, got -5"
    );
    assert_eq!(
        skewed(|r| r.behind_ratio_below_one = false),
        "expected resample_ratio < 1 (speed audio), got 0.98"
    );
    assert_eq!(skewed(|r| r.reset_is_zero = false), "reset left delay_offset_ms=0");
}

#[test]
fn report_counts_and_renders_outcomes() {
    let pass = run_drop_packets(1, 4, 0.0).with_seeds(10, 1);
    let fail = panicked_outcome(ProfileName::Reconnect, 2, "boom").with_seeds(10, 2);
    assert_eq!(fail.summary, "profile panicked: boom");
    assert_eq!(metric(&fail, "panic"), Some(MetricValue::Flag(true)));
    assert_eq!(
        fail.repro.as_deref(),
        Some("root_seed=10 effective_seed=2 profile=reconnect; effective_seed=2 profile=reconnect")
    );
    let report = build_report("out", 10, 1_700_000_000, vec![pass, fail]);
    assert_eq!((report.total, report.passed, report.failed, report.skipped), (2, 1, 1, 0));
    let md = render_markdown(&report);
    assert!(md.contains("drop_packets"), "{md}");
    assert!(md.contains("profile panicked: boom"), "{md}");
    assert!(md.contains("--seed <effective_seed>"), "{md}");
}

#[test]
fn artifacts_record_the_effective_seed() {
    let o = run_drop_packets(1, 4, 0.0).with_seeds(10, 1);
    let a = ProfileArtifact::from_outcome(&o, 5);
    assert_eq!((a.seed, a.effective_seed, a.root_seed), (1, 1, Some(10)));
    assert_eq!(a.profile, "drop_packets");
    assert_eq!(a.status, "pass");
    let paths = ArtifactPaths { root: "out".into(), platform: Platform::Linux };
    assert_eq!(paths.profile_json(ProfileName::Reconnect), "out/reconnect.json");
    assert_eq!(paths.summary_json(), "out/summary.json");
    assert_eq!(paths.report_md(), "out/nightly-report.md");
    let paths = ArtifactPaths { root: "C:\\out".into(), platform: Platform::Windows };
    assert_eq!(paths.summary_json(), "C:\\out\\summary.json");
}

#[test]
fn config_texts_and_kinds() {
    assert_eq!(strip_bom("\u{feff}[chaos]\nseed = 7\n"), "[chaos]\nseed = 7\n");
    assert_eq!(strip_bom("[chaos]"), "[chaos]");
    assert!(is_json_config(Platform::Linux, "a/b.json"));
    assert!(!is_json_config(Platform::Linux, "a/b.toml"));
    assert!(is_json_config(Platform::Windows, "C:\\rl.d\\b.JSON"));
    assert!(!is_json_config(Platform::Linux, "rl.json/b"));
    assert!(!is_json_config(Platform::Windows, "a.json\\b"));
}

#[test]
fn command_line_is_read() {
    assert_eq!(
        requested_profiles(&args(&["run", "--profile", "reconnect"])),
        Ok(vec![ProfileName::Reconnect])
    );
    assert_eq!(requested_profiles(&args(&["run", "--profile", "all"])), Ok(ProfileName::all()));
    assert_eq!(
        requested_profiles(&args(&["run", "--profile", "x"])),
        Err("unknown profile: x".to_string())
    );
    assert!(requested_profiles(&args(&["run"])).unwrap_err().starts_with("missing --profile"));
    assert_eq!(parse_seed_flag(&args(&["--seed", "42"])), Ok(Some(42)));
    assert_eq!(parse_seed_flag(&args(&["run"])), Ok(None));
    assert_eq!(parse_seed_flag(&args(&["--seed", "4x"])), Err("4x".to_string()));
    assert_eq!(out_dir(&args(&["--out", "o"]), true), "o");
    assert_eq!(out_dir(&args(&[]), false), "target/chaos");
    assert_eq!(config_file(&args(&[]), false), None);
    assert_eq!(config_file(&args(&["--config", "c.toml"]), false), Some("c.toml".to_string()));
}

#[test]
fn nightly_derives_for_a_single_profile_too() {
    let config = BugHuntConfig {
        enabled_profiles: vec!["reconnect".into()],
        ..BugHuntConfig::default()
    };
    let root = config.chaos.seed;
    let opts = nightly_options("out", config);
    let nightly = plan_nightly(&opts);
    assert_eq!(nightly.len(), 1);
    assert_eq!(nightly[0].seed, derive_seed(root, ProfileName::Reconnect));
    assert_eq!(plan_runs(&opts)[0].seed, root);
    let explicit = RunOptions { effective_seed: Some(7), ..opts };
    assert_eq!(plan_nightly(&explicit)[0].seed, 7);
}
