//! `protocol_fuzz`: hand-fuzz protocol decode with random / mutated bytes.
//!
//! Decoders must not panic on arbitrary input. Inputs come from a seeded generator.

use vstd::prelude::*;
use crate::bug_hunt::config::{ProfileName, Severity};
use crate::bug_hunt::profiles::{
    labelled, no_metrics, push_metric, MetricValue, OutcomeView, ProfileOutcome, ProfileStatus,
};
use crate::bug_hunt::rng::{ChaosRng, Stream};
use crate::hex_text::{hex_encode, hex_of};
use crate::text::{ascii, ascii_bytes, decimal, push_number};

verus! {

/// How many messages there are to mutate.
pub const SEED_MESSAGES: u64 = 7;

/// Well-formed messages that are mutated (increases the chance of near-valid inputs).
pub open spec fn seed_text(k: int) -> Seq<char> {
    if k == 0 {
        "{\"type\":\"hello\",\"role\":\"host\",\"protocol_version\":1,\"auth\":{\"device_token\":\"t\"}}"@
    } else if k == 1 {
        "{\"type\":\"session_accept\",\"session_id\":\"s\",\"signal_seq\":1}"@
    } else if k == 2 {
        "{\"type\":\"session_offer\",\"session_id\":\"s\",\"signal_seq\":1,\"sdp\":\"v=0\",\"fingerprint_sig\":\"sig\"}"@
    } else if k == 3 {
        "{\"type\":\"ice_candidate\",\"session_id\":\"s\",\"signal_seq\":1,\"candidate\":{\"candidate\":\"c\"}}"@
    } else if k == 4 {
        "{\"type\":\"error\",\"code\":\"x\",\"message\":\"y\"}"@
    } else if k == 5 {
        "{\"client_ts_us\":1,\"seq\":1,\"payload\":{\"kind\":\"mouse_move\",\"x\":0.5,\"y\":0.5,\"display_id\":0}}"@
    } else {
        "{\"client_ts_us\":1,\"seq\":1,\"payload\":{\"kind\":\"key\",\"scancode\":28,\"extended\":false,\"pressed\":true,\"modifiers\":0}}"@
    }
}

/// A well-formed message.
pub fn seed_message(k: u64) -> (r: &'static str)
    ensures
        r@ == seed_text(k as int),
        r@.len() >= 40,
{
    proof {
        lemma_seed_len(k as int);
    }
    match k {
        0 => "{\"type\":\"hello\",\"role\":\"host\",\"protocol_version\":1,\"auth\":{\"device_token\":\"t\"}}",
        1 => "{\"type\":\"session_accept\",\"session_id\":\"s\",\"signal_seq\":1}",
        2 => "{\"type\":\"session_offer\",\"session_id\":\"s\",\"signal_seq\":1,\"sdp\":\"v=0\",\"fingerprint_sig\":\"sig\"}",
        3 => "{\"type\":\"ice_candidate\",\"session_id\":\"s\",\"signal_seq\":1,\"candidate\":{\"candidate\":\"c\"}}",
        4 => "{\"type\":\"error\",\"code\":\"x\",\"message\":\"y\"}",
        5 => "{\"client_ts_us\":1,\"seq\":1,\"payload\":{\"kind\":\"mouse_move\",\"x\":0.5,\"y\":0.5,\"display_id\":0}}",
        _ => "{\"client_ts_us\":1,\"seq\":1,\"payload\":{\"kind\":\"key\",\"scancode\":28,\"extended\":false,\"pressed\":true,\"modifiers\":0}}",
    }
}

/// Bytes after one mutation, and the stream after it: a bit flipped, a byte inserted, a byte
/// deleted or a chunk spliced in.
pub open spec fn mutated_once(bytes: Seq<u8>, s: Stream) -> (Seq<u8>, Stream) {
    let (kind, s1) = s.range(32, 0, 3);
    if kind == 0 {
        let (i, s2) = s1.range(64, 0, bytes.len() - 1);
        let (bit, s3) = s2.range(8, 0, 7);
        (bytes.update(i, bytes[i] ^ (1u8 << (bit as u8))), s3)
    } else if kind == 1 {
        let (i, s2) = s1.range(64, 0, bytes.len() as int);
        let (b, s3) = s2.byte();
        (bytes.insert(i, b), s3)
    } else if kind == 2 {
        let (i, s2) = s1.range(64, 0, bytes.len() - 1);
        (bytes.remove(i), s2)
    } else {
        let (i, s2) = s1.range(64, 0, bytes.len() as int);
        let (n, s3) = s2.range(64, 1, 16);
        let (chunk, s4) = s3.run(n);
        (bytes.take(i) + chunk + bytes.skip(i), s4)
    }
}

/// Bytes after so many mutations, and the stream after them.
pub open spec fn mutated_times(bytes: Seq<u8>, n: int, s: Stream) -> (Seq<u8>, Stream)
    decreases n,
{
    if n <= 0 {
        (bytes, s)
    } else {
        let (b, t) = mutated_once(bytes, s);
        mutated_times(b, n - 1, t)
    }
}

/// A mutated message, and the stream after it.
pub open spec fn mutant(s: Stream) -> (Seq<u8>, Stream) {
    let (k, s1) = s.range(64, 0, SEED_MESSAGES - 1);
    let (n, s2) = s1.range(32, 1, 8);
    mutated_times(ascii(seed_text(k)), n, s2)
}

/// The input of an iteration, and the stream after it: every third is random throughout.
pub open spec fn fuzz_bytes(i: int, s: Stream) -> (Seq<u8>, Stream) {
    if i % 3 == 0 {
        let (n, s1) = s.range(64, 0, 512);
        s1.run(n)
    } else {
        mutant(s)
    }
}

/// Random bytes.
pub fn random_bytes(rng: &mut ChaosRng, len: usize) -> (r: Vec<u8>)
    ensures
        r@.len() == len,
        (r@, final(rng)@) == old(rng)@.run(len as int),
{
    rng.bytes(len)
}

fn splice(bytes: &mut Vec<u8>, at: usize, chunk: &Vec<u8>)
    requires
        at <= old(bytes)@.len(),
        old(bytes)@.len() + chunk@.len() <= usize::MAX,
    ensures
        final(bytes)@ == old(bytes)@.take(at as int) + chunk@ + old(bytes)@.skip(at as int),
{
    let ghost base = bytes@;
    let mut off: usize = 0;
    assert(base =~= base.take(at as int) + chunk@.take(0) + base.skip(at as int));
    while off < chunk.len()
        invariant
            off <= chunk@.len(),
            at <= base.len(),
            base.len() + chunk@.len() <= usize::MAX,
            bytes@ == base.take(at as int) + chunk@.take(off as int) + base.skip(at as int),
        decreases chunk@.len() - off,
    {
        bytes.insert(at + off, chunk[off]);
        assert(bytes@ =~= base.take(at as int) + chunk@.take(off + 1) + base.skip(at as int));
        off += 1;
    }
    assert(chunk@.take(chunk@.len() as int) == chunk@);
}

fn mutate_once(rng: &mut ChaosRng, bytes: &mut Vec<u8>)
    requires
        0 < old(bytes)@.len() <= 1000,
    ensures
        (final(bytes)@, final(rng)@) == mutated_once(old(bytes)@, old(rng)@),
        old(bytes)@.len() - 1 <= final(bytes)@.len() <= old(bytes)@.len() + 16,
{
    let len: usize = bytes.len();
    let ghost before = bytes@;
    let kind: u32 = rng.choice(0, 3);
    if kind == 0 {
        let i: usize = rng.index(0, (len - 1) as u64) as usize;
        let bit: u8 = rng.bit();
        let b: u8 = bytes[i] ^ (1u8 << bit);
        bytes.set(i, b);
    } else if kind == 1 {
        let i: usize = rng.index(0, len as u64) as usize;
        let b: u8 = rng.byte();
        bytes.insert(i, b);
    } else if kind == 2 {
        let i: usize = rng.index(0, (len - 1) as u64) as usize;
        bytes.remove(i);
        assert(bytes@ == before.remove(i as int));
    } else {
        let i: usize = rng.index(0, len as u64) as usize;
        let n: usize = rng.index(1, 16) as usize;
        let chunk = random_bytes(rng, n);
        splice(bytes, i, &chunk);
    }
}

/// A mutated message.
pub fn mutate_seed(rng: &mut ChaosRng) -> (r: Vec<u8>)
    ensures
        (r@, final(rng)@) == mutant(old(rng)@),
{
    let k: u64 = rng.index(0, SEED_MESSAGES - 1);
    let base = seed_message(k);
    let mut bytes = ascii_bytes(base);
    assert(bytes@.len() <= 200) by {
        lemma_seed_len(k as int);
    }
    let mutations: u32 = rng.choice(1, 8);
    let ghost whole = mutated_times(bytes@, mutations as int, rng@);
    let mut done: u32 = 0;
    while done < mutations
        invariant
            done <= mutations <= 8,
            whole == mutant(old(rng)@),
            whole == mutated_times(bytes@, mutations - done, rng@),
            40 - done <= bytes@.len() <= 200 + 16 * done,
        decreases mutations - done,
    {
        mutate_once(rng, &mut bytes);
        done += 1;
    }
    bytes
}

proof fn lemma_seed_len(k: int)
    ensures
        40 <= seed_text(k).len() <= 200,
{
    reveal_strlit("{\"type\":\"hello\",\"role\":\"host\",\"protocol_version\":1,\"auth\":{\"device_token\":\"t\"}}");
    reveal_strlit("{\"type\":\"session_accept\",\"session_id\":\"s\",\"signal_seq\":1}");
    reveal_strlit("{\"type\":\"session_offer\",\"session_id\":\"s\",\"signal_seq\":1,\"sdp\":\"v=0\",\"fingerprint_sig\":\"sig\"}");
    reveal_strlit("{\"type\":\"ice_candidate\",\"session_id\":\"s\",\"signal_seq\":1,\"candidate\":{\"candidate\":\"c\"}}");
    reveal_strlit("{\"type\":\"error\",\"code\":\"x\",\"message\":\"y\"}");
    reveal_strlit("{\"client_ts_us\":1,\"seq\":1,\"payload\":{\"kind\":\"mouse_move\",\"x\":0.5,\"y\":0.5,\"display_id\":0}}");
    reveal_strlit("{\"client_ts_us\":1,\"seq\":1,\"payload\":{\"kind\":\"key\",\"scancode\":28,\"extended\":false,\"pressed\":true,\"modifiers\":0}}");
}

/// The input of an iteration: every third is random throughout, the others are mutated messages.
pub fn fuzz_input(i: u32, rng: &mut ChaosRng) -> (r: Vec<u8>)
    ensures
        (r@, final(rng)@) == fuzz_bytes(i as int, old(rng)@),
{
    if i % 3 == 0 {
        let len: usize = rng.index(0, 512) as usize;
        random_bytes(rng, len)
    } else {
        mutate_seed(rng)
    }
}

/// The beginning of bytes in hexadecimal.
pub fn hex_preview(bytes: &[u8], max: usize) -> (r: String)
    ensures
        r@ == hex_of(
            if bytes@.len() <= max {
                bytes@
            } else {
                bytes@.take(max as int)
            },
        ),
{
    if bytes.len() <= max {
        hex_encode(bytes)
    } else {
        let head = &bytes[0..max];
        assert(head@ == bytes@.take(max as int));
        hex_encode(head)
    }
}

/// What the decoders made of an input.
#[derive(Debug, Clone, Copy, PartialEq, Eq, Structural)]
pub enum Decoded {
    /// The message was accepted.
    Accepted,
    /// The message was refused.
    Refused,
    /// A decoder panicked.
    Panicked,
}

/// A fuzz run.
#[derive(Debug, Clone, Copy, PartialEq, Eq, Structural)]
pub struct FuzzRun {
    /// Effective seed.
    pub seed: u64,
    /// Iterations in all.
    pub iterations: u32,
    /// Iterations done.
    pub done: u32,
    /// Inputs that were random throughout.
    pub pure_random: u32,
    /// Inputs that were mutated messages.
    pub mutated: u32,
    /// Inputs that were accepted.
    pub decoded_ok: u32,
    /// Inputs that were refused.
    pub decoded_err: u32,
}

impl FuzzRun {
    /// Every input is of one kind and had one result.
    pub open spec fn accounted(self) -> bool {
        &&& self.done <= self.iterations
        &&& self.pure_random + self.mutated == self.done
        &&& self.decoded_ok + self.decoded_err == self.done
        &&& self.pure_random == (self.done + 2) / 3
    }

    /// A run at its start.
    pub fn start(seed: u64, iterations: u32) -> (r: Self)
        ensures
            r == (FuzzRun {
                seed,
                iterations: if iterations < 1 {
                    1
                } else {
                    iterations
                },
                done: 0,
                pure_random: 0,
                mutated: 0,
                decoded_ok: 0,
                decoded_err: 0,
            }),
            r.accounted(),
    {
        FuzzRun {
            seed,
            iterations: if iterations < 1 {
                1
            } else {
                iterations
            },
            done: 0,
            pure_random: 0,
            mutated: 0,
            decoded_ok: 0,
            decoded_err: 0,
        }
    }

    /// The run after an iteration whose input did not make a decoder panic.
    pub open spec fn after(self, accepted: bool) -> FuzzRun {
        FuzzRun {
            done: (self.done + 1) as u32,
            pure_random: if self.done % 3 == 0 {
                (self.pure_random + 1) as u32
            } else {
                self.pure_random
            },
            mutated: if self.done % 3 == 0 {
                self.mutated
            } else {
                (self.mutated + 1) as u32
            },
            decoded_ok: if accepted {
                (self.decoded_ok + 1) as u32
            } else {
                self.decoded_ok
            },
            decoded_err: if accepted {
                self.decoded_err
            } else {
                (self.decoded_err + 1) as u32
            },
            ..self
        }
    }

    /// The outcome of a run in which a decoder panicked on the input of the iteration in hand.
    pub open spec fn panic_outcome(self, input: Seq<u8>) -> OutcomeView {
        let counted = self.after(true);
        OutcomeView {
            profile: ProfileName::ProtocolFuzz,
            root_seed: None,
            seed: self.seed,
            status: ProfileStatus::Fail,
            severity: Some(Severity::High),
            summary: "decoder panicked on iteration "@ + decimal(self.done as nat) + " (len="@
                + decimal(input.len()) + ")"@,
            metrics: seq![
                ("iteration"@, MetricValue::Count(self.done as u64)),
                ("input_len"@, MetricValue::Count(input.len() as u64)),
                ("pure_random"@, MetricValue::Count(counted.pure_random as u64)),
                ("mutated"@, MetricValue::Count(counted.mutated as u64)),
            ],
            repro: Some(
                "seed="@ + decimal(self.seed as nat) + " iteration="@ + decimal(self.done as nat)
                    + " hex="@ + hex_of(
                    if input.len() <= 64 {
                        input
                    } else {
                        input.take(64)
                    },
                ),
            ),
        }
    }

    /// The outcome of a complete run.
    pub open spec fn pass_outcome(self) -> OutcomeView {
        OutcomeView {
            profile: ProfileName::ProtocolFuzz,
            root_seed: None,
            seed: self.seed,
            status: ProfileStatus::Pass,
            severity: None,
            summary: "no panics over "@ + decimal(self.iterations as nat)
                + " random/mutated inputs (+adversarial); ok="@ + decimal(self.decoded_ok as nat)
                + " err="@ + decimal(self.decoded_err as nat),
            metrics: seq![
                ("iterations"@, MetricValue::Count(self.iterations as u64)),
                ("pure_random"@, MetricValue::Count(self.pure_random as u64)),
                ("mutated"@, MetricValue::Count(self.mutated as u64)),
                ("decoded_ok"@, MetricValue::Count(self.decoded_ok as u64)),
                ("decoded_err"@, MetricValue::Count(self.decoded_err as u64)),
            ],
            repro: Some(
                "seed="@ + decimal(self.seed as nat) + " iterations="@ + decimal(
                    self.iterations as nat,
                ),
            ),
        }
    }

    /// The input of the next iteration.
    pub fn next_input(&self, rng: &mut ChaosRng) -> (r: Vec<u8>)
        ensures
            (r@, final(rng)@) == fuzz_bytes(self.done as int, old(rng)@),
    {
        fuzz_input(self.done, rng)
    }

    /// Count an iteration; a panic ends the run with its outcome.
    pub fn decoded(&mut self, input: &[u8], result: Decoded) -> (r: Option<ProfileOutcome>)
        requires
            old(self).accounted(),
            old(self).done < old(self).iterations,
        ensures
            match result {
                Decoded::Panicked => {
                    &&& r matches Some(o) && o.deep_view() == old(self).panic_outcome(input@)
                    &&& *final(self) == *old(self)
                },
                _ => {
                    &&& r is None
                    &&& *final(self) == old(self).after(result == Decoded::Accepted)
                    &&& final(self).accounted()
                },
            },
    {
        let random = self.done % 3 == 0;
        if result == Decoded::Panicked {
            let mut summary = labelled("decoder panicked on iteration ", self.done as u64);
            summary.append(" (len=");
            push_number(&mut summary, input.len() as u64);
            summary.append(")");
            let mut metrics = no_metrics();
            push_metric(&mut metrics, "iteration", MetricValue::Count(self.done as u64));
            push_metric(&mut metrics, "input_len", MetricValue::Count(input.len() as u64));
            let pure_random: u32 = if random {
                self.pure_random + 1
            } else {
                self.pure_random
            };
            let mutated: u32 = if random {
                self.mutated
            } else {
                self.mutated + 1
            };
            push_metric(&mut metrics, "pure_random", MetricValue::Count(pure_random as u64));
            push_metric(&mut metrics, "mutated", MetricValue::Count(mutated as u64));
            assert(metrics.deep_view() =~= self.panic_outcome(input@).metrics);
            let mut repro = labelled("seed=", self.seed);
            repro.append(" iteration=");
            push_number(&mut repro, self.done as u64);
            repro.append(" hex=");
            repro.append(&hex_preview(input, 64));
            return Some(
                ProfileOutcome {
                    profile: ProfileName::ProtocolFuzz,
                    root_seed: None,
                    seed: self.seed,
                    status: ProfileStatus::Fail,
                    severity: Some(Severity::High),
                    summary,
                    metrics,
                    repro: Some(repro),
                },
            );
        }
        if random {
            self.pure_random = self.pure_random + 1;
        } else {
            self.mutated = self.mutated + 1;
        }
        if result == Decoded::Accepted {
            self.decoded_ok = self.decoded_ok + 1;
        } else {
            self.decoded_err = self.decoded_err + 1;
        }
        self.done = self.done + 1;
        None
    }

    /// The outcome of a run in which a decoder panicked on a fixed input of so many bytes.
    pub fn adversarial_panic(&self, len: u64) -> (r: ProfileOutcome)
        ensures
            r.deep_view() == (OutcomeView {
                profile: ProfileName::ProtocolFuzz,
                root_seed: None,
                seed: self.seed,
                status: ProfileStatus::Fail,
                severity: Some(Severity::High),
                summary: "decoder panicked on adversarial input len="@ + decimal(len as nat),
                metrics: seq![("adversarial"@, MetricValue::Flag(true))],
                repro: Some("adversarial len="@ + decimal(len as nat)),
            }),
    {
        let mut metrics = no_metrics();
        push_metric(&mut metrics, "adversarial", MetricValue::Flag(true));
        assert(metrics.deep_view() =~= seq![("adversarial"@, MetricValue::Flag(true))]);
        ProfileOutcome {
            profile: ProfileName::ProtocolFuzz,
            root_seed: None,
            seed: self.seed,
            status: ProfileStatus::Fail,
            severity: Some(Severity::High),
            summary: labelled("decoder panicked on adversarial input len=", len),
            metrics,
            repro: Some(labelled("adversarial len=", len)),
        }
    }

    /// The outcome of a complete run.
    pub fn finish(&self) -> (r: ProfileOutcome)
        ensures
            r.deep_view() == self.pass_outcome(),
    {
        let mut summary = labelled("no panics over ", self.iterations as u64);
        summary.append(" random/mutated inputs (+adversarial); ok=");
        push_number(&mut summary, self.decoded_ok as u64);
        summary.append(" err=");
        push_number(&mut summary, self.decoded_err as u64);
        let mut metrics = no_metrics();
        push_metric(&mut metrics, "iterations", MetricValue::Count(self.iterations as u64));
        push_metric(&mut metrics, "pure_random", MetricValue::Count(self.pure_random as u64));
        push_metric(&mut metrics, "mutated", MetricValue::Count(self.mutated as u64));
        push_metric(&mut metrics, "decoded_ok", MetricValue::Count(self.decoded_ok as u64));
        push_metric(&mut metrics, "decoded_err", MetricValue::Count(self.decoded_err as u64));
        assert(metrics.deep_view() =~= self.pass_outcome().metrics);
        let mut repro = labelled("seed=", self.seed);
        repro.append(" iterations=");
        push_number(&mut repro, self.iterations as u64);
        ProfileOutcome {
            profile: ProfileName::ProtocolFuzz,
            root_seed: None,
            seed: self.seed,
            status: ProfileStatus::Pass,
            severity: None,
            summary,
            metrics,
            repro: Some(repro),
        }
    }
}

/// How long the long input is.
pub const LONG_INPUT: usize = 10_000;

/// The fixed inputs that are put to the decoders after the drawn ones.
pub open spec fn adversarial_texts() -> Seq<Seq<char>> {
    seq![
        ""@,
        "{"@,
        "null"@,
        "[]"@,
        "\"str\""@,
        Seq::new(LONG_INPUT as nat, |i: int| 'x'),
        "{\"type\":null}"@,
        "\0\0\0"@,
        "\u{FEFF}{\"type\":\"error\",\"code\":\"c\",\"message\":\"m\"}"@,
    ]
}

/// The fixed inputs that are put to the decoders after the drawn ones.
pub fn adversarial_inputs() -> (r: Vec<String>)
    ensures
        r.deep_view() == adversarial_texts(),
{
    let mut long = String::new();
    let mut i: usize = 0;
    assert(long@ =~= Seq::new(0, |i: int| 'x'));
    while i < LONG_INPUT
        invariant
            i <= LONG_INPUT,
            long@ == Seq::new(i as nat, |i: int| 'x'),
        decreases LONG_INPUT - i,
    {
        long.push('x');
        assert(long@ =~= Seq::new((i + 1) as nat, |i: int| 'x'));
        i += 1;
    }
    let mut out: Vec<String> = Vec::new();
    out.push("".to_string());
    out.push("{".to_string());
    out.push("null".to_string());
    out.push("[]".to_string());
    out.push("\"str\"".to_string());
    out.push(long);
    out.push("{\"type\":null}".to_string());
    out.push("\0\0\0".to_string());
    out.push("\u{FEFF}{\"type\":\"error\",\"code\":\"c\",\"message\":\"m\"}".to_string());
    assert(out.deep_view() =~= adversarial_texts());
    out
}

/// The inputs of a run, in order, and the stream after them.
pub open spec fn fuzz_inputs(n: nat, seed: u64) -> (Seq<Seq<u8>>, Stream)
    decreases n,
{
    if n == 0 {
        (Seq::empty(), Stream::of(seed))
    } else {
        let (before, s) = fuzz_inputs((n - 1) as nat, seed);
        let (bytes, t) = fuzz_bytes(n - 1, s);
        (before.push(bytes), t)
    }
}

/// The seed decides: two runs with one seed put the same inputs to the decoders, as far as both go.
pub proof fn law_seed_decides_inputs(n: nat, m: nat, seed: u64)
    requires
        n <= m,
    ensures
        fuzz_inputs(n, seed).0.len() == n,
        fuzz_inputs(m, seed).0.take(n as int) == fuzz_inputs(n, seed).0,
    decreases m,
{
    if n < m {
        law_seed_decides_inputs(n, (m - 1) as nat, seed);
        lemma_inputs_len(m, seed);
        lemma_inputs_len((m - 1) as nat, seed);
        assert(fuzz_inputs(m, seed).0.take(n as int) =~= fuzz_inputs(
            (m - 1) as nat,
            seed,
        ).0.take(n as int));
    } else {
        lemma_inputs_len(m, seed);
        assert(fuzz_inputs(m, seed).0.take(n as int) =~= fuzz_inputs(m, seed).0);
    }
}

proof fn lemma_inputs_len(n: nat, seed: u64)
    ensures
        fuzz_inputs(n, seed).0.len() == n,
    decreases n,
{
    if n > 0 {
        lemma_inputs_len((n - 1) as nat, seed);
    }
}

/// One mutation changes one thing: a single bit of one byte, one byte more, one byte less, or a chunk
/// of up to sixteen bytes more. All other bytes stay as they are and in order.
pub proof fn law_mutation_changes_one_thing(bytes: Seq<u8>, s: Stream)
    requires
        bytes.len() > 0,
        ({
            let (kind, s1) = s.range(32, 0, 3);
            let n = bytes.len() as int;
            &&& 0 <= kind <= 3
            &&& 0 <= s1.range(64, 0, n - 1).0 <= n - 1
            &&& 0 <= s1.range(64, 0, n).0 <= n
            &&& 0 <= s1.range(64, 0, n - 1).1.range(8, 0, 7).0 <= 7
            &&& 1 <= s1.range(64, 0, n).1.range(64, 1, 16).0 <= 16
            &&& s1.range(64, 0, n).1.range(64, 1, 16).1.run(
                s1.range(64, 0, n).1.range(64, 1, 16).0,
            ).0.len() == s1.range(64, 0, n).1.range(64, 1, 16).0
        }),
    ensures
        ({
            let (kind, s1) = s.range(32, 0, 3);
            let out = mutated_once(bytes, s).0;
            let at = s1.range(64, 0, bytes.len() - 1).0;
            let gap = s1.range(64, 0, bytes.len() as int).0;
            &&& kind == 0 ==> out.len() == bytes.len() && out[at] != bytes[at] && forall|j: int|
                0 <= j < bytes.len() && j != at ==> #[trigger] out[j] == bytes[j]
            &&& kind == 1 ==> out.len() == bytes.len() + 1 && out.take(gap) == bytes.take(gap)
                && out.skip(gap + 1) == bytes.skip(gap)
            &&& kind == 2 ==> out.len() == bytes.len() - 1 && out.take(at) == bytes.take(at)
                && out.skip(at) == bytes.skip(at + 1)
            &&& kind == 3 ==> bytes.len() < out.len() <= bytes.len() + 16 && out.take(gap)
                == bytes.take(gap) && out.skip(out.len() - (bytes.len() - gap)) == bytes.skip(gap)
        }),
{
    let (kind, s1) = s.range(32, 0, 3);
    let out = mutated_once(bytes, s).0;
    let at = s1.range(64, 0, bytes.len() - 1).0;
    let gap = s1.range(64, 0, bytes.len() as int).0;
    if kind == 0 {
        let bit = s1.range(64, 0, bytes.len() - 1).1.range(8, 0, 7).0 as u8;
        let b = bytes[at];
        assert(bit < 8 ==> b ^ (1u8 << bit) != b) by (bit_vector);
    } else if kind == 1 {
        assert(out.take(gap) =~= bytes.take(gap));
        assert(out.skip(gap + 1) =~= bytes.skip(gap));
    } else if kind == 2 {
        assert(out.take(at) =~= bytes.take(at));
        assert(out.skip(at) =~= bytes.skip(at + 1));
    } else {
        assert(out.take(gap) =~= bytes.take(gap));
        assert(out.skip(out.len() - (bytes.len() - gap)) =~= bytes.skip(gap));
    }
}

/// Mutations follow one another: so many and then so many more are both together.
pub proof fn law_mutations_follow_one_another(bytes: Seq<u8>, m: int, n: int, s: Stream)
    requires
        m >= 0,
        n >= 0,
    ensures
        ({
            let (b, t) = mutated_times(bytes, m, s);
            mutated_times(b, n, t) == mutated_times(bytes, m + n, s)
        }),
        mutated_times(bytes, 0, s) == (bytes, s),
        mutated_times(bytes, 1, s) == mutated_once(bytes, s),
    decreases m,
{
    let (first, after) = mutated_once(bytes, s);
    assert(mutated_times(first, 0, after) == (first, after));
    if m > 0 {
        law_mutations_follow_one_another(first, m - 1, n, after);
    }
}

/// Every third input is drawn byte by byte, as long as it was drawn to be; the two between are
/// mutated messages.
pub proof fn law_every_third_input_is_random(i: int, s: Stream)
    requires
        i >= 0,
    ensures
        i % 3 == 0 ==> fuzz_bytes(i, s) == s.range(64, 0, 512).1.run(s.range(64, 0, 512).0),
        i % 3 != 0 ==> fuzz_bytes(i, s) == mutant(s),
        fuzz_bytes(i + 3, s) == fuzz_bytes(i, s),
{
}

/// An iteration is counted once by its kind and once by its result.
pub proof fn law_fuzz_iteration_is_counted(run: FuzzRun, accepted: bool)
    requires
        run.accounted(),
        run.done < run.iterations,
    ensures
        ({
            let next = run.after(accepted);
            &&& next.accounted()
            &&& next.done == run.done + 1
            &&& accepted ==> next.decoded_ok == run.decoded_ok + 1 && next.decoded_err
                == run.decoded_err
            &&& !accepted ==> next.decoded_ok == run.decoded_ok && next.decoded_err
                == run.decoded_err + 1
            &&& run.done % 3 == 0 <==> next.pure_random == run.pure_random + 1
            &&& run.done % 3 == 0 <==> next.mutated == run.mutated
            &&& next.seed == run.seed && next.iterations == run.iterations
        }),
{
}

/// A panic is a grave failure that tells the iteration and the input it came from; a run without one
/// passes and tells its counts.
pub proof fn law_panic_is_a_failure(run: FuzzRun, input: Seq<u8>)
    requires
        input.len() <= u64::MAX,
    ensures
        run.panic_outcome(input).status == ProfileStatus::Fail,
        run.panic_outcome(input).severity == Some(Severity::High),
        run.panic_outcome(input).seed == run.seed && run.pass_outcome().seed == run.seed,
        run.panic_outcome(input).metrics.contains(
            ("iteration"@, MetricValue::Count(run.done as u64)),
        ),
        run.panic_outcome(input).metrics.contains(
            ("input_len"@, MetricValue::Count(input.len() as u64)),
        ),
        run.pass_outcome().status == ProfileStatus::Pass,
        run.pass_outcome().severity is None,
        run.pass_outcome().metrics.contains(
            ("iterations"@, MetricValue::Count(run.iterations as u64)),
        ),
        run.pass_outcome().metrics.contains(
            ("decoded_ok"@, MetricValue::Count(run.decoded_ok as u64)),
        ),
        run.pass_outcome().metrics.contains(
            ("decoded_err"@, MetricValue::Count(run.decoded_err as u64)),
        ),
        run.pass_outcome().metrics.contains(
            ("pure_random"@, MetricValue::Count(run.pure_random as u64)),
        ),
        run.pass_outcome().metrics.contains(("mutated"@, MetricValue::Count(run.mutated as u64))),
{
    let m = run.panic_outcome(input).metrics;
    assert(m[0].0 == "iteration"@);
    assert(m[1].0 == "input_len"@);
    let p = run.pass_outcome().metrics;
    assert(p[0].0 == "iterations"@);
    assert(p[1].0 == "pure_random"@);
    assert(p[2].0 == "mutated"@);
    assert(p[3].0 == "decoded_ok"@);
    assert(p[4].0 == "decoded_err"@);
}

} // verus!
