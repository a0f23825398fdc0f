//! Configuration for chaos profiles and severity rubric.

use vstd::prelude::*;
use crate::paths::{file_name, last_component};
use crate::platform::Platform;
use crate::text::{
    chars_of, find_last_char, last_index, law_last_index, lowercase, lowered, same, slice_is,
    string_of,
};

verus! {

/// Named chaos / fuzz profile.
#[derive(Debug, Clone, Copy, PartialEq, Eq, Structural)]
pub enum ProfileName {
    /// Simulate packet loss via random skip on mock peer sends.
    DropPackets,
    /// Session teardown + restart on mock peer pair.
    Reconnect,
    /// Force A/V skew injection.
    AudioDesync,
    /// Hand-fuzz protocol decode with random bytes (never panic).
    ProtocolFuzz,
}

impl ProfileName {
    /// Stable wire / CLI / filename id.
    pub open spec fn name(self) -> Seq<char> {
        match self {
            ProfileName::DropPackets => "drop_packets"@,
            ProfileName::Reconnect => "reconnect"@,
            ProfileName::AudioDesync => "audio_desync"@,
            ProfileName::ProtocolFuzz => "protocol_fuzz"@,
        }
    }

    /// The profile of an id.
    pub open spec fn of(s: Seq<char>) -> Option<ProfileName> {
        if s == "drop_packets"@ {
            Some(ProfileName::DropPackets)
        } else if s == "reconnect"@ {
            Some(ProfileName::Reconnect)
        } else if s == "audio_desync"@ {
            Some(ProfileName::AudioDesync)
        } else if s == "protocol_fuzz"@ {
            Some(ProfileName::ProtocolFuzz)
        } else {
            None
        }
    }

    /// All built-in profiles, in order.
    pub open spec fn every() -> Seq<ProfileName> {
        seq![
            ProfileName::DropPackets,
            ProfileName::Reconnect,
            ProfileName::AudioDesync,
            ProfileName::ProtocolFuzz,
        ]
    }

    /// Stable wire / CLI / filename id.
    pub fn as_str(self) -> (r: &'static str)
        ensures
            r@ == self.name(),
    {
        match self {
            ProfileName::DropPackets => "drop_packets",
            ProfileName::Reconnect => "reconnect",
            ProfileName::AudioDesync => "audio_desync",
            ProfileName::ProtocolFuzz => "protocol_fuzz",
        }
    }

    /// Stable wire / CLI / filename id.
    pub fn to_string(&self) -> (r: String)
        ensures
            r@ == self.name(),
    {
        self.as_str().to_string()
    }

    /// Parse from CLI / config string.
    pub fn parse(s: &str) -> (r: Option<Self>)
        ensures
            r == ProfileName::of(s@),
    {
        if same(s, "drop_packets") {
            Some(ProfileName::DropPackets)
        } else if same(s, "reconnect") {
            Some(ProfileName::Reconnect)
        } else if same(s, "audio_desync") {
            Some(ProfileName::AudioDesync)
        } else if same(s, "protocol_fuzz") {
            Some(ProfileName::ProtocolFuzz)
        } else {
            None
        }
    }

    /// All built-in profiles, in the order of a nightly run.
    pub fn all() -> (r: Vec<ProfileName>)
        ensures
            r@ == ProfileName::every(),
    {
        let r = vec![
            ProfileName::DropPackets,
            ProfileName::Reconnect,
            ProfileName::AudioDesync,
            ProfileName::ProtocolFuzz,
        ];
        assert(r@ =~= ProfileName::every());
        r
    }

    /// What a profile does, in a few words.
    pub fn description(self) -> (r: &'static str)
        ensures
            r@ == match self {
                ProfileName::DropPackets => "simulate loss via random skip on mock peer sends"@,
                ProfileName::Reconnect => "session teardown + restart unit harness (mock pair)"@,
                ProfileName::AudioDesync => "force A/V skew injection through SkewController"@,
                ProfileName::ProtocolFuzz =>
                    "hand-fuzz protocol decode with random/mutated bytes"@,
            },
    {
        match self {
            ProfileName::DropPackets => "simulate loss via random skip on mock peer sends",
            ProfileName::Reconnect => "session teardown + restart unit harness (mock pair)",
            ProfileName::AudioDesync => "force A/V skew injection through SkewController",
            ProfileName::ProtocolFuzz => "hand-fuzz protocol decode with random/mutated bytes",
        }
    }
}

/// Severity rubric.
#[derive(Debug, Clone, Copy, PartialEq, Eq, Structural)]
pub enum Severity {
    /// Auth bypass.
    Critical,
    /// Crash / remote inject without auth.
    High,
    /// Desync / media quality.
    Medium,
    /// Cosmetic.
    Low,
    /// Informational (profile completed, no defect).
    Info,
}

impl Severity {
    /// Wire name.
    pub open spec fn name(self) -> Seq<char> {
        match self {
            Severity::Critical => "critical"@,
            Severity::High => "high"@,
            Severity::Medium => "medium"@,
            Severity::Low => "low"@,
            Severity::Info => "info"@,
        }
    }

    /// Wire name.
    pub fn as_str(self) -> (r: &'static str)
        ensures
            r@ == self.name(),
    {
        match self {
            Severity::Critical => "critical",
            Severity::High => "high",
            Severity::Medium => "medium",
            Severity::Low => "low",
            Severity::Info => "info",
        }
    }
}

/// Per-profile knobs. Fractions are carried as the bits of their 64-bit floating-point numbers.
#[derive(Debug, Clone, Copy, PartialEq, Eq, Structural)]
pub struct ChaosProfileConfig {
    /// Root seed.
    pub seed: u64,
    /// Packets / iterations for drop and fuzz profiles.
    pub iterations: u32,
    /// Target drop rate for `drop_packets` (0 to 1), as bits.
    pub drop_rate_bits: u64,
    /// Forced skew magnitude (ms) for `audio_desync`, as bits.
    pub skew_inject_ms_bits: u64,
    /// Reconnect cycles for `reconnect`.
    pub reconnect_cycles: u32,
}

impl ChaosProfileConfig {
    /// The default knobs: a quarter of the packets dropped, 80 ms of skew.
    pub open spec fn standard() -> ChaosProfileConfig {
        ChaosProfileConfig {
            seed: 0xB_00B_1E5,
            iterations: 256,
            drop_rate_bits: 0x3FD0_0000_0000_0000,
            skew_inject_ms_bits: 0x4054_0000_0000_0000,
            reconnect_cycles: 3,
        }
    }
}

impl Default for ChaosProfileConfig {
    fn default() -> (r: Self)
        ensures
            r == ChaosProfileConfig::standard(),
    {
        ChaosProfileConfig {
            seed: 0xB_00B_1E5,
            iterations: 256,
            drop_rate_bits: 0x3FD0_0000_0000_0000,
            skew_inject_ms_bits: 0x4054_0000_0000_0000,
            reconnect_cycles: 3,
        }
    }
}

/// Top-level bug-hunt config.
#[derive(Debug, Clone)]
pub struct BugHuntConfig {
    /// Default profile parameters.
    pub chaos: ChaosProfileConfig,
    /// Profiles enabled for a nightly run (empty = all).
    pub enabled_profiles: Vec<String>,
}

impl Default for BugHuntConfig {
    fn default() -> (r: Self)
        ensures
            r.chaos == ChaosProfileConfig::standard(),
            r.enabled_profiles@.len() == 0,
    {
        BugHuntConfig { chaos: ChaosProfileConfig::default(), enabled_profiles: Vec::new() }
    }
}

/// Built-in defaults (no file required).
pub fn default_config() -> (r: BugHuntConfig)
    ensures
        r.chaos == ChaosProfileConfig::standard(),
        r.enabled_profiles@.len() == 0,
{
    BugHuntConfig::default()
}

/// A text without a leading byte-order mark.
pub open spec fn without_bom(text: Seq<char>) -> Seq<char> {
    if text.len() > 0 && text[0] == '\u{feff}' {
        text.skip(1)
    } else {
        text
    }
}

/// A text without a leading byte-order mark.
pub fn strip_bom(text: &str) -> (r: String)
    ensures
        r@ == without_bom(text@),
{
    let all = chars_of(text);
    if all.len() > 0 && all[0] == '\u{feff}' {
        let n: usize = all.len();
        let rest = &all.as_slice()[1..n];
        assert(rest@ == text@.skip(1));
        string_of(rest)
    } else {
        text.to_string()
    }
}

/// Whether a path has the extension `json`, in any case of letters. A name that only begins with a
/// dot has no extension.
pub open spec fn json_path(platform: Platform, path: Seq<char>) -> bool {
    let name = file_name(platform, path);
    let i = last_index(name, '.');
    0 < i && i < name.len() && lowered(name.skip(i as int + 1)) == "json"@
}

/// Whether a config file is read as JSON; any other is read as TOML.
pub fn is_json_config(platform: Platform, path: &str) -> (r: bool)
    ensures
        r == json_path(platform, path@),
{
    let name = chars_of(&last_component(platform, path));
    let len: usize = name.len();
    let dot: usize = find_last_char(&name, '.');
    if dot == 0 || dot >= len {
        return false;
    }
    let ext = &name.as_slice()[dot + 1..len];
    assert(ext@ == name@.skip(dot as int + 1));
    slice_is(&lowercase(ext), "json")
}

/// Every profile is found again under its name, and no two share one.
pub proof fn law_profile_name_roundtrip(p: ProfileName)
    ensures
        ProfileName::of(p.name()) == Some(p),
        ProfileName::every().contains(p),
        ProfileName::of("all"@) is None,
{
    reveal_strlit("drop_packets");
    reveal_strlit("reconnect");
    reveal_strlit("audio_desync");
    reveal_strlit("protocol_fuzz");
    reveal_strlit("all");
    assert("drop_packets"@.len() == 12);
    assert("reconnect"@.len() == 9);
    assert("audio_desync"@.len() == 12);
    assert("protocol_fuzz"@.len() == 13);
    assert("all"@.len() == 3);
    assert("drop_packets"@[0] == 'd');
    assert("audio_desync"@[0] == 'a');
    let e = ProfileName::every();
    assert(e[0] == ProfileName::DropPackets);
    assert(e[1] == ProfileName::Reconnect);
    assert(e[2] == ProfileName::AudioDesync);
    assert(e[3] == ProfileName::ProtocolFuzz);
}

/// A byte-order mark is dropped once, and only at the start.
pub proof fn law_mark_is_dropped_once(text: Seq<char>)
    ensures
        without_bom(seq!['\u{feff}'] + text) == text,
        text.len() == 0 || text[0] != '\u{feff}' ==> without_bom(text) == text,
{
    assert((seq!['\u{feff}'] + text).skip(1) =~= text);
}

/// A file is read as JSON exactly by what follows the last dot of its name, in any case of letters;
/// a name without a dot, or with one only at its start, has no such thing.
pub proof fn law_extension_decides(
    platform: Platform,
    path: Seq<char>,
    stem: Seq<char>,
    ext: Seq<char>,
)
    requires
        !ext.contains('.'),
    ensures
        stem.len() > 0 && file_name(platform, path) == stem + seq!['.'] + ext ==> (json_path(
            platform,
            path,
        ) <==> lowered(ext) == "json"@),
        file_name(platform, path) == seq!['.'] + ext ==> !json_path(platform, path),
        file_name(platform, path) == ext ==> !json_path(platform, path),
{
    let name = file_name(platform, path);
    law_last_index(name, '.');
    let i = last_index(name, '.') as int;
    if name == stem + seq!['.'] + ext {
        let at = stem.len() as int;
        assert(name[at] == '.');
        assert(name.contains('.'));
        if i > at {
            assert(ext[i - at - 1] == '.');
            assert(ext.contains('.'));
        }
        assert(i == at);
        assert(name.skip(at + 1) =~= ext);
    }
    if name == seq!['.'] + ext {
        assert(name[0] == '.');
        assert(name.contains('.'));
        if i > 0 {
            assert(ext[i - 1] == '.');
            assert(ext.contains('.'));
        }
    }
}

/// The levels of severity have names of their own.
pub proof fn law_levels_are_told_apart(a: Severity, b: Severity)
    ensures
        a.name() == b.name() <==> a == b,
{
    reveal_strlit("critical");
    reveal_strlit("high");
    reveal_strlit("medium");
    reveal_strlit("low");
    reveal_strlit("info");
    assert("critical"@.len() == 8 && "high"@.len() == 4 && "medium"@.len() == 6 && "low"@.len()
        == 3 && "info"@.len() == 4);
    assert("high"@[0] == 'h' && "info"@[0] == 'i');
}

} // verus!
