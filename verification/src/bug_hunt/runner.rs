//! Which profiles run, with which seeds, and the nightly report.
//!
//! # Seed model (repro contract)
//!
//! - **root seed**: the seed of the configuration, recorded with every artifact.
//! - **effective seed**: what the profile's generator is fed with, recorded as `seed`.
//!
//! An explicit seed is used as it is, for every profile. Else a run of several profiles, and every
//! nightly run, derives one seed for each, so that their streams stay independent. A single named
//! profile uses the root seed as it is, so that an artifact's seed replays it.

use vstd::prelude::*;
use crate::bug_hunt::config::{law_profile_name_roundtrip, BugHuntConfig, ProfileName};
use crate::bug_hunt::profiles::{OutcomeView, ProfileOutcome, ProfileStatus};
use crate::text::{ascii_byte, chars_of};

verus! {

/// Options for a single agent invocation.
#[derive(Debug, Clone)]
pub struct RunOptions {
    /// Output directory for artifacts.
    pub out_dir: String,
    /// Profiles to run (empty = all, or config-enabled).
    pub profiles: Vec<ProfileName>,
    /// Config (seed, iterations, …).
    pub config: BugHuntConfig,
    /// When set, the **effective** seed of every profile, without derivation.
    pub effective_seed: Option<u64>,
}

impl Default for RunOptions {
    fn default() -> (r: Self)
        ensures
            r.out_dir@ == "target/chaos"@,
            r.profiles@ == ProfileName::every(),
            r.config.chaos == crate::bug_hunt::config::ChaosProfileConfig::standard(),
            r.config.enabled_profiles@.len() == 0,
            r.effective_seed is None,
    {
        RunOptions {
            out_dir: "target/chaos".to_string(),
            profiles: ProfileName::all(),
            config: BugHuntConfig::default(),
            effective_seed: None,
        }
    }
}

/// Aggregate nightly report.
#[derive(Debug, Clone)]
pub struct NightlyReport {
    /// Unix seconds.
    pub generated_at_unix: u64,
    /// Root seed from config.
    pub seed: u64,
    /// Output directory.
    pub out_dir: String,
    /// Total profiles attempted.
    pub total: u32,
    /// Pass count.
    pub passed: u32,
    /// Fail count.
    pub failed: u32,
    /// Skip count.
    pub skipped: u32,
    /// Per-profile outcomes.
    pub outcomes: Vec<ProfileOutcome>,
}

/// What a `NightlyReport` holds.
pub struct ReportView {
    pub generated_at_unix: u64,
    pub seed: u64,
    pub out_dir: Seq<char>,
    pub total: u32,
    pub passed: u32,
    pub failed: u32,
    pub skipped: u32,
    pub outcomes: Seq<OutcomeView>,
}

impl DeepView for NightlyReport {
    type V = ReportView;

    open spec fn deep_view(&self) -> ReportView {
        ReportView {
            generated_at_unix: self.generated_at_unix,
            seed: self.seed,
            out_dir: self.out_dir@,
            total: self.total,
            passed: self.passed,
            failed: self.failed,
            skipped: self.skipped,
            outcomes: self.outcomes.deep_view(),
        }
    }
}

/// The profiles that names stand for; unknown names are passed over.
pub open spec fn named_profiles(names: Seq<Seq<char>>) -> Seq<ProfileName>
    decreases names.len(),
{
    if names.len() == 0 {
        Seq::empty()
    } else {
        match ProfileName::of(names.last()) {
            Some(p) => named_profiles(names.drop_last()).push(p),
            None => named_profiles(names.drop_last()),
        }
    }
}

/// Which profiles run: those that are asked for, else those that the config enables, else all.
pub open spec fn chosen_profiles(
    requested: Seq<ProfileName>,
    enabled: Seq<Seq<char>>,
) -> Seq<ProfileName> {
    if requested.len() > 0 {
        requested
    } else if enabled.len() > 0 {
        named_profiles(enabled)
    } else {
        ProfileName::every()
    }
}

/// Resolve which profiles to run from CLI list + config.
pub fn resolve_profiles(requested: &[ProfileName], config: &BugHuntConfig) -> (r: Vec<ProfileName>)
    ensures
        r@ == chosen_profiles(requested@, config.enabled_profiles.deep_view()),
{
    if requested.len() > 0 {
        return vstd::slice::slice_to_vec(requested);
    }
    if config.enabled_profiles.len() == 0 {
        return ProfileName::all();
    }
    let ghost all = config.enabled_profiles.deep_view();
    let mut out: Vec<ProfileName> = Vec::new();
    let mut i: usize = 0;
    assert(out@ =~= named_profiles(all.take(0)));
    while i < config.enabled_profiles.len()
        invariant
            i <= config.enabled_profiles@.len(),
            all == config.enabled_profiles.deep_view(),
            out@ == named_profiles(all.take(i as int)),
        decreases config.enabled_profiles@.len() - i,
    {
        assert(all[i as int] == config.enabled_profiles@[i as int]@);
        assert(all.take(i + 1).drop_last() == all.take(i as int));
        if let Some(p) = ProfileName::parse(&config.enabled_profiles[i]) {
            out.push(p);
        }
        i += 1;
    }
    assert(all.take(all.len() as int) == all);
    out
}

/// A number modulo 2^64.
pub open spec fn wrapped(n: int) -> int {
    n % 0x1_0000_0000_0000_0000
}

/// The characters of a name folded into a number, each step multiplied by 31, modulo 2^64.
pub open spec fn name_tag(name: Seq<char>) -> int
    decreases name.len(),
{
    if name.len() == 0 {
        0
    } else {
        wrapped(wrapped(name_tag(name.drop_last()) * 31) + (name.last() as u8) as int)
    }
}

/// The seed of a profile in a run of several.
pub open spec fn derived(root: u64, profile: ProfileName) -> u64 {
    wrapped(wrapped(root * 0x9E37_79B9_7F4A_7C15) + name_tag(profile.name())) as u64
}

/// The effective seed of a profile.
pub open spec fn effective(
    root: u64,
    profile: ProfileName,
    profile_count: int,
    explicit: Option<u64>,
) -> u64 {
    match explicit {
        Some(s) => s,
        None => if profile_count > 1 {
            derived(root, profile)
        } else {
            root
        },
    }
}

/// Resolve the effective seed for one profile under the run options: explicit as it is, else
/// derived in a run of several, else the root.
pub fn resolve_effective_seed(
    root_seed: u64,
    profile: ProfileName,
    profile_count: usize,
    explicit_effective: Option<u64>,
) -> (r: u64)
    ensures
        r == effective(root_seed, profile, profile_count as int, explicit_effective),
{
    match explicit_effective {
        Some(s) => s,
        None => if profile_count > 1 {
            derive_seed(root_seed, profile)
        } else {
            root_seed
        },
    }
}

/// Stable per-profile mix of a root seed (runs of several profiles only).
pub fn derive_seed(root: u64, name: ProfileName) -> (r: u64)
    ensures
        r == derived(root, name),
{
    let chars = chars_of(name.as_str());
    let ghost all = chars@;
    let mut tag: u64 = 0;
    let mut i: usize = 0;
    assert(all.take(0) =~= Seq::<char>::empty());
    while i < chars.len()
        invariant
            i <= chars@.len(),
            all == chars@,
            tag == name_tag(all.take(i as int)),
        decreases chars@.len() - i,
    {
        assert(all.take(i + 1).drop_last() == all.take(i as int));
        tag = tag.wrapping_mul(31).wrapping_add(ascii_byte(chars[i]) as u64);
        i += 1;
    }
    assert(all.take(all.len() as int) == all);
    root.wrapping_mul(0x9E37_79B9_7F4A_7C15).wrapping_add(tag)
}

/// A profile that is to run, and its effective seed.
#[derive(Debug, Clone, Copy, PartialEq, Eq, Structural)]
pub struct PlannedRun {
    pub profile: ProfileName,
    pub seed: u64,
}

/// What is to run, in order: each chosen profile with its effective seed, which is settled as in a
/// run of `count` profiles.
pub open spec fn planned(opts: RunOptions, count: int) -> Seq<PlannedRun> {
    chosen_profiles(opts.profiles@, opts.config.enabled_profiles.deep_view()).map_values(
        |p: ProfileName|
            PlannedRun {
                profile: p,
                seed: effective(opts.config.chaos.seed, p, count, opts.effective_seed),
            },
    )
}

/// How many profiles options choose.
pub open spec fn chosen_count(opts: RunOptions) -> int {
    chosen_profiles(opts.profiles@, opts.config.enabled_profiles.deep_view()).len() as int
}

fn plan_as_of(opts: &RunOptions, profiles: &Vec<ProfileName>, count: usize) -> (r: Vec<PlannedRun>)
    requires
        profiles@ == chosen_profiles(opts.profiles@, opts.config.enabled_profiles.deep_view()),
    ensures
        r@ == planned(*opts, count as int),
{
    let mut out: Vec<PlannedRun> = Vec::new();
    let mut i: usize = 0;
    while i < profiles.len()
        invariant
            i <= profiles@.len(),
            out@.len() == i,
            forall|k: int|
                0 <= k < i ==> #[trigger] out@[k] == (PlannedRun {
                    profile: profiles@[k],
                    seed: effective(
                        opts.config.chaos.seed,
                        profiles@[k],
                        count as int,
                        opts.effective_seed,
                    ),
                }),
        decreases profiles@.len() - i,
    {
        let profile = profiles[i];
        let seed: u64 = resolve_effective_seed(
            opts.config.chaos.seed,
            profile,
            count,
            opts.effective_seed,
        );
        out.push(PlannedRun { profile, seed });
        i += 1;
    }
    assert(out@ =~= planned(*opts, count as int));
    out
}

/// What is to run, in order: each profile with its effective seed.
pub fn plan_runs(opts: &RunOptions) -> (r: Vec<PlannedRun>)
    ensures
        r@ == planned(*opts, chosen_count(*opts)),
{
    let profiles = resolve_profiles(opts.profiles.as_slice(), &opts.config);
    let count: usize = profiles.len();
    plan_as_of(opts, &profiles, count)
}

/// What a nightly run is made of. It derives its seeds as a run of several profiles does, even
/// where a single profile is enabled.
pub fn plan_nightly(opts: &RunOptions) -> (r: Vec<PlannedRun>)
    ensures
        r@ == planned(
            *opts,
            if chosen_count(*opts) < 2 {
                2
            } else {
                chosen_count(*opts)
            },
        ),
{
    let profiles = resolve_profiles(opts.profiles.as_slice(), &opts.config);
    let count: usize = if profiles.len() < 2 {
        2
    } else {
        profiles.len()
    };
    plan_as_of(opts, &profiles, count)
}

/// Options of a nightly run: all enabled profiles, with derived seeds.
pub fn nightly_options(out_dir: &str, config: BugHuntConfig) -> (r: RunOptions)
    ensures
        r.out_dir@ == out_dir@,
        r.profiles@ == chosen_profiles(Seq::empty(), config.enabled_profiles.deep_view()),
        r.config == config,
        r.effective_seed is None,
{
    let nothing: Vec<ProfileName> = Vec::new();
    assert(nothing@ =~= Seq::<ProfileName>::empty());
    let profiles = resolve_profiles(nothing.as_slice(), &config);
    RunOptions { out_dir: out_dir.to_string(), profiles, config, effective_seed: None }
}

/// How many outcomes have a status.
pub open spec fn with_status(outcomes: Seq<OutcomeView>, status: ProfileStatus) -> nat
    decreases outcomes.len(),
{
    if outcomes.len() == 0 {
        0
    } else {
        with_status(outcomes.drop_last(), status) + (if outcomes.last().status == status {
            1nat
        } else {
            0
        })
    }
}

/// Build the report on a run: what came of each profile, and how many passed, failed or were
/// skipped.
pub fn build_report(
    out_dir: &str,
    seed: u64,
    generated_at_unix: u64,
    outcomes: Vec<ProfileOutcome>,
) -> (r: NightlyReport)
    requires
        outcomes@.len() <= u32::MAX,
    ensures
        r.deep_view() == (ReportView {
            generated_at_unix,
            seed,
            out_dir: out_dir@,
            total: outcomes@.len() as u32,
            passed: with_status(outcomes.deep_view(), ProfileStatus::Pass) as u32,
            failed: with_status(outcomes.deep_view(), ProfileStatus::Fail) as u32,
            skipped: with_status(outcomes.deep_view(), ProfileStatus::Skip) as u32,
            outcomes: outcomes.deep_view(),
        }),
        r.passed + r.failed + r.skipped == r.total,
{
    let ghost all = outcomes.deep_view();
    let mut passed: u32 = 0;
    let mut failed: u32 = 0;
    let mut skipped: u32 = 0;
    let mut i: usize = 0;
    while i < outcomes.len()
        invariant
            i <= outcomes@.len() <= u32::MAX,
            all == outcomes.deep_view(),
            passed == with_status(all.take(i as int), ProfileStatus::Pass),
            failed == with_status(all.take(i as int), ProfileStatus::Fail),
            skipped == with_status(all.take(i as int), ProfileStatus::Skip),
            passed + failed + skipped == i,
        decreases outcomes@.len() - i,
    {
        assert(all[i as int] == outcomes@[i as int].deep_view());
        assert(all.take(i + 1).drop_last() == all.take(i as int));
        match outcomes[i].status {
            ProfileStatus::Pass => {
                passed += 1;
            },
            ProfileStatus::Fail => {
                failed += 1;
            },
            ProfileStatus::Skip => {
                skipped += 1;
            },
        }
        i += 1;
    }
    assert(all.take(all.len() as int) == all);
    NightlyReport {
        generated_at_unix,
        seed,
        out_dir: out_dir.to_string(),
        total: outcomes.len() as u32,
        passed,
        failed,
        skipped,
        outcomes,
    }
}

/// The repro contract: whatever seed an artifact records as effective, putting it on the command
/// line replays it in any run, and so does putting it into the config of a single-profile run.
/// It is never derived again.
pub proof fn law_effective_seed_replays(
    root: u64,
    other_root: u64,
    profile: ProfileName,
    count: int,
    other_count: int,
    explicit: Option<u64>,
)
    ensures
        ({
            let recorded = effective(root, profile, count, explicit);
            &&& effective(other_root, profile, other_count, Some(recorded)) == recorded
            &&& effective(recorded, profile, 1, None) == recorded
        }),
{
}

/// Every outcome is counted once: the three counts add up to the number of outcomes.
pub proof fn law_counts_add_up(outcomes: Seq<OutcomeView>)
    ensures
        with_status(outcomes, ProfileStatus::Pass) + with_status(outcomes, ProfileStatus::Fail)
            + with_status(outcomes, ProfileStatus::Skip) == outcomes.len(),
    decreases outcomes.len(),
{
    if outcomes.len() > 0 {
        law_counts_add_up(outcomes.drop_last());
    }
}

/// The streams of a nightly run are independent: two profiles never derive the same seed from one
/// root.
pub proof fn law_derived_seeds_differ(root: u64, a: ProfileName, b: ProfileName)
    requires
        a != b,
    ensures
        derived(root, a) != derived(root, b),
{
    lemma_tag_drop_packets();
    lemma_tag_reconnect();
    lemma_tag_audio_desync();
    lemma_tag_protocol_fuzz();
    let x = wrapped(root * 0x9E37_79B9_7F4A_7C15);
    let ta = name_tag(a.name());
    let tb = name_tag(b.name());
    assert(ta != tb);
    assert(0 <= ta < 0x1_0000_0000_0000_0000);
    assert(0 <= tb < 0x1_0000_0000_0000_0000);
    if wrapped(x + ta) == wrapped(x + tb) {
        assert((x + ta) % 0x1_0000_0000_0000_0000 == (x + tb) % 0x1_0000_0000_0000_0000);
        assert(ta == tb);
    }
}

proof fn lemma_tag_step(s: Seq<char>, k: int)
    requires
        0 <= k < s.len(),
    ensures
        name_tag(s.take(k + 1)) == wrapped(
            wrapped(name_tag(s.take(k)) * 31) + (s[k] as u8) as int,
        ),
{
    assert(s.take(k + 1).drop_last() == s.take(k));
}

proof fn lemma_tag_drop_packets()
    ensures
        name_tag("drop_packets"@) == 2637318352182819739int,
{
    reveal_strlit("drop_packets");
    let s = "drop_packets"@;
    assert(s.len() == 12);
    assert(s.take(0) =~= Seq::<char>::empty());
    lemma_tag_step(s, 0);
    assert(s[0] == 'd');
    assert(name_tag(s.take(1)) == 100int);
    lemma_tag_step(s, 1);
    assert(s[1] == 'r');
    assert(name_tag(s.take(2)) == 3214int);
    lemma_tag_step(s, 2);
    assert(s[2] == 'o');
    assert(name_tag(s.take(3)) == 99745int);
    lemma_tag_step(s, 3);
    assert(s[3] == 'p');
    assert(name_tag(s.take(4)) == 3092207int);
    lemma_tag_step(s, 4);
    assert(s[4] == '_');
    assert(name_tag(s.take(5)) == 95858512int);
    lemma_tag_step(s, 5);
    assert(s[5] == 'p');
    assert(name_tag(s.take(6)) == 2971613984int);
    lemma_tag_step(s, 6);
    assert(s[6] == 'a');
    assert(name_tag(s.take(7)) == 92120033601int);
    lemma_tag_step(s, 7);
    assert(s[7] == 'c');
    assert(name_tag(s.take(8)) == 2855721041730int);
    lemma_tag_step(s, 8);
    assert(s[8] == 'k');
    assert(name_tag(s.take(9)) == 88527352293737int);
    lemma_tag_step(s, 9);
    assert(s[9] == 'e');
    assert(name_tag(s.take(10)) == 2744347921105948int);
    lemma_tag_step(s, 10);
    assert(s[10] == 't');
    assert(name_tag(s.take(11)) == 85074785554284504int);
    lemma_tag_step(s, 11);
    assert(s[11] == 's');
    assert(name_tag(s.take(12)) == 2637318352182819739int);
    assert(s.take(12) =~= s);
}

proof fn lemma_tag_reconnect()
    ensures
        name_tag("reconnect"@) == 100099497958231int,
{
    reveal_strlit("reconnect");
    let s = "reconnect"@;
    assert(s.len() == 9);
    assert(s.take(0) =~= Seq::<char>::empty());
    lemma_tag_step(s, 0);
    assert(s[0] == 'r');
    assert(name_tag(s.take(1)) == 114int);
    lemma_tag_step(s, 1);
    assert(s[1] == 'e');
    assert(name_tag(s.take(2)) == 3635int);
    lemma_tag_step(s, 2);
    assert(s[2] == 'c');
    assert(name_tag(s.take(3)) == 112784int);
    lemma_tag_step(s, 3);
    assert(s[3] == 'o');
    assert(name_tag(s.take(4)) == 3496415int);
    lemma_tag_step(s, 4);
    assert(s[4] == 'n');
    assert(name_tag(s.take(5)) == 108388975int);
    lemma_tag_step(s, 5);
    assert(s[5] == 'n');
    assert(name_tag(s.take(6)) == 3360058335int);
    lemma_tag_step(s, 6);
    assert(s[6] == 'e');
    assert(name_tag(s.take(7)) == 104161808486int);
    lemma_tag_step(s, 7);
    assert(s[7] == 'c');
    assert(name_tag(s.take(8)) == 3229016063165int);
    lemma_tag_step(s, 8);
    assert(s[8] == 't');
    assert(name_tag(s.take(9)) == 100099497958231int);
    assert(s.take(9) =~= s);
}

proof fn lemma_tag_audio_desync()
    ensures
        name_tag("audio_desync"@) == 2563255425475773221int,
{
    reveal_strlit("audio_desync");
    let s = "audio_desync"@;
    assert(s.len() == 12);
    assert(s.take(0) =~= Seq::<char>::empty());
    lemma_tag_step(s, 0);
    assert(s[0] == 'a');
    assert(name_tag(s.take(1)) == 97int);
    lemma_tag_step(s, 1);
    assert(s[1] == 'u');
    assert(name_tag(s.take(2)) == 3124int);
    lemma_tag_step(s, 2);
    assert(s[2] == 'd');
    assert(name_tag(s.take(3)) == 96944int);
    lemma_tag_step(s, 3);
    assert(s[3] == 'i');
    assert(name_tag(s.take(4)) == 3005369int);
    lemma_tag_step(s, 4);
    assert(s[4] == 'o');
    assert(name_tag(s.take(5)) == 93166550int);
    lemma_tag_step(s, 5);
    assert(s[5] == '_');
    assert(name_tag(s.take(6)) == 2888163145int);
    lemma_tag_step(s, 6);
    assert(s[6] == 'd');
    assert(name_tag(s.take(7)) == 89533057595int);
    lemma_tag_step(s, 7);
    assert(s[7] == 'e');
    assert(name_tag(s.take(8)) == 2775524785546int);
    lemma_tag_step(s, 8);
    assert(s[8] == 's');
    assert(name_tag(s.take(9)) == 86041268352041int);
    lemma_tag_step(s, 9);
    assert(s[9] == 'y');
    assert(name_tag(s.take(10)) == 2667279318913392int);
    lemma_tag_step(s, 10);
    assert(s[10] == 'n');
    assert(name_tag(s.take(11)) == 82685658886315262int);
    lemma_tag_step(s, 11);
    assert(s[11] == 'c');
    assert(name_tag(s.take(12)) == 2563255425475773221int);
    assert(s.take(12) =~= s);
}

proof fn lemma_tag_protocol_fuzz()
    ensures
        name_tag("protocol_fuzz"@) == 17421965088044723606int,
{
    reveal_strlit("protocol_fuzz");
    let s = "protocol_fuzz"@;
    assert(s.len() == 13);
    assert(s.take(0) =~= Seq::<char>::empty());
    lemma_tag_step(s, 0);
    assert(s[0] == 'p');
    assert(name_tag(s.take(1)) == 112int);
    lemma_tag_step(s, 1);
    assert(s[1] == 'r');
    assert(name_tag(s.take(2)) == 3586int);
    lemma_tag_step(s, 2);
    assert(s[2] == 'o');
    assert(name_tag(s.take(3)) == 111277int);
    lemma_tag_step(s, 3);
    assert(s[3] == 't');
    assert(name_tag(s.take(4)) == 3449703int);
    lemma_tag_step(s, 4);
    assert(s[4] == 'o');
    assert(name_tag(s.take(5)) == 106940904int);
    lemma_tag_step(s, 5);
    assert(s[5] == 'c');
    assert(name_tag(s.take(6)) == 3315168123int);
    lemma_tag_step(s, 6);
    assert(s[6] == 'o');
    assert(name_tag(s.take(7)) == 102770211924int);
    lemma_tag_step(s, 7);
    assert(s[7] == 'l');
    assert(name_tag(s.take(8)) == 3185876569752int);
    lemma_tag_step(s, 8);
    assert(s[8] == '_');
    assert(name_tag(s.take(9)) == 98762173662407int);
    lemma_tag_step(s, 9);
    assert(s[9] == 'f');
    assert(name_tag(s.take(10)) == 3061627383534719int);
    lemma_tag_step(s, 10);
    assert(s[10] == 'u');
    assert(name_tag(s.take(11)) == 94910448889576406int);
    lemma_tag_step(s, 11);
    assert(s[11] == 'z');
    assert(name_tag(s.take(12)) == 2942223915576868708int);
    lemma_tag_step(s, 12);
    assert(s[12] == 'z');
    assert(name_tag(s.take(13)) == 17421965088044723606int);
    assert(s.take(13) =~= s);
}

/// Names stand for profiles one by one, in their order; one that is none stands for nothing.
pub proof fn law_names_stand_for_profiles(a: Seq<Seq<char>>, b: Seq<Seq<char>>, p: ProfileName, s:
    Seq<char>)
    requires
        forall|q: ProfileName| s != #[trigger] q.name(),
    ensures
        named_profiles(a + b) == named_profiles(a) + named_profiles(b),
        named_profiles(seq![p.name()]) == seq![p],
        named_profiles(seq![s]).len() == 0,
    decreases b.len(),
{
    reveal_with_fuel(named_profiles, 2);
    law_profile_name_roundtrip(p);
    assert(seq![p.name()].drop_last() =~= Seq::<Seq<char>>::empty());
    assert(named_profiles(seq![p.name()]) =~= seq![p]);
    assert(seq![s].drop_last() =~= Seq::<Seq<char>>::empty());
    assert(s != ProfileName::DropPackets.name());
    assert(s != ProfileName::Reconnect.name());
    assert(s != ProfileName::AudioDesync.name());
    assert(s != ProfileName::ProtocolFuzz.name());
    if b.len() == 0 {
        assert(a + b =~= a);
        assert(named_profiles(a) + named_profiles(b) =~= named_profiles(a));
    } else {
        law_names_stand_for_profiles(a, b.drop_last(), p, s);
        assert((a + b).drop_last() =~= a + b.drop_last());
        assert(named_profiles(a + b) =~= named_profiles(a) + named_profiles(b));
    }
}

/// What is asked for goes before what is enabled, and that before everything there is.
pub proof fn law_requests_go_first(requested: Seq<ProfileName>, enabled: Seq<Seq<char>>)
    ensures
        requested.len() > 0 ==> chosen_profiles(requested, enabled) == requested,
        requested.len() == 0 && enabled.len() > 0 ==> chosen_profiles(requested, enabled)
            == named_profiles(enabled),
        forall|p: ProfileName| #[trigger]
            chosen_profiles(Seq::empty(), Seq::empty()).contains(p),
        chosen_profiles(Seq::empty(), Seq::empty()).no_duplicates(),
{
    assert forall|p: ProfileName| #[trigger]
        chosen_profiles(Seq::empty(), Seq::empty()).contains(p) by {
        law_profile_name_roundtrip(p);
    }
}

/// The plan runs the chosen profiles in their order, each once, and what is given as a seed is used
/// for each of them.
pub proof fn law_plan_runs_the_chosen_profiles(opts: RunOptions, count: int)
    ensures
        planned(opts, count).len() == chosen_count(opts),
        planned(opts, count).map_values(|r: PlannedRun| r.profile) == chosen_profiles(
            opts.profiles@,
            opts.config.enabled_profiles.deep_view(),
        ),
        opts.effective_seed matches Some(seed) ==> forall|i: int|
            0 <= i < planned(opts, count).len() ==> (#[trigger] planned(opts, count)[i]).seed
                == seed,
        opts.effective_seed is None && count <= 1 ==> forall|i: int|
            0 <= i < planned(opts, count).len() ==> (#[trigger] planned(opts, count)[i]).seed
                == opts.config.chaos.seed,
{
    assert(planned(opts, count).map_values(|r: PlannedRun| r.profile) =~= chosen_profiles(
        opts.profiles@,
        opts.config.enabled_profiles.deep_view(),
    ));
}

/// In a run of several profiles, runs of one profile with different roots have different seeds: a
/// root that is one more moves the seed on by the same odd step.
pub proof fn law_roots_move_the_seed(root: u64, profile: ProfileName, count: int)
    requires
        count > 1,
        root < u64::MAX,
    ensures
        wrapped(derived(root, profile) + 0x9E37_79B9_7F4A_7C15) == derived(
            (root + 1) as u64,
            profile,
        ),
        effective(root, profile, count, None) == derived(root, profile),
{
    let g: int = 0x9E37_79B9_7F4A_7C15;
    let t = name_tag(profile.name());
    let a = root as int * g;
    assert((root + 1) * g == a + g) by (nonlinear_arith)
        requires
            a == root as int * g,
    ;
    lemma_wrapped_sum(t, a);
    lemma_wrapped_sum(g, t + a);
    lemma_wrapped_sum(t, a + g);
    assert(wrapped(wrapped(a) + t) == wrapped(t + a));
    assert(wrapped(wrapped(a + g) + t) == wrapped(t + (a + g)));
}

proof fn lemma_wrapped_sum(x: int, y: int)
    ensures
        wrapped(x + wrapped(y)) == wrapped(x + y),
        0 <= wrapped(x) < 0x1_0000_0000_0000_0000,
        0 <= wrapped(x + y) < 0x1_0000_0000_0000_0000,
{
    vstd::arithmetic::div_mod::lemma_add_mod_noop_right(x, y, 0x1_0000_0000_0000_0000);
}

/// The counts of a report are those of its outcomes.
pub proof fn law_status_is_counted(outcomes: Seq<OutcomeView>, status: ProfileStatus)
    ensures
        with_status(outcomes, status) == outcomes.filter(|o: OutcomeView| o.status == status).len(),
    decreases outcomes.len(),
{
    reveal(Seq::filter);
    if outcomes.len() > 0 {
        law_status_is_counted(outcomes.drop_last(), status);
    }
}

} // verus!
