//! Seeded random numbers.
//!
//! A generator is described by its seed and by what was drawn from it so far: the same seed and the
//! same draws give the same numbers.

use vstd::prelude::*;
use rand::rngs::StdRng;
use rand::{Rng, RngCore, SeedableRng};

verus! {

/// `rand::rngs::StdRng`, the generator behind a `ChaosRng`.
#[verifier::external_type_specification]
#[verifier::external_body]
pub struct ExStdRng(StdRng);

/// A seeded generator.
pub struct ChaosRng {
    inner: StdRng,
    seed: Ghost<u64>,
    history: Ghost<Seq<(int, int, int)>>,
}

/// A point in the stream of a seed: what was drawn before it, as (width, least, greatest) for a
/// number from a range, (1, 0, 0) for a byte and (2, 0, length) for a run of bytes.
pub struct Stream {
    pub seed: u64,
    pub history: Seq<(int, int, int)>,
}

impl View for ChaosRng {
    type V = Stream;

    closed spec fn view(&self) -> Stream {
        Stream { seed: self.seed@, history: self.history@ }
    }
}

/// What `rand::Rng::gen_range` draws from an inclusive range of unsigned integers that are `width`
/// bits wide, on a `StdRng` of that seed from which `history` was drawn before.
pub uninterp spec fn ranged_draw(
    seed: u64,
    history: Seq<(int, int, int)>,
    width: int,
    least: int,
    greatest: int,
) -> int;

/// What `rand::Rng::gen` draws as a byte, on a `StdRng` of that seed from which `history` was drawn
/// before.
pub uninterp spec fn byte_draw(seed: u64, history: Seq<(int, int, int)>) -> u8;

/// What `rand::RngCore::fill_bytes` writes into a buffer of that length, on a `StdRng` of that seed
/// from which `history` was drawn before.
pub uninterp spec fn filled(seed: u64, history: Seq<(int, int, int)>, len: int) -> Seq<u8>;

impl Stream {
    /// The stream of a seed at its start.
    pub open spec fn of(seed: u64) -> Stream {
        Stream { seed, history: Seq::empty() }
    }

    /// The stream after a draw.
    pub open spec fn after(self, draw: (int, int, int)) -> Stream {
        Stream { history: self.history.push(draw), ..self }
    }

    /// A number from a range, and the stream after it.
    pub open spec fn range(self, width: int, least: int, greatest: int) -> (int, Stream) {
        (
            ranged_draw(self.seed, self.history, width, least, greatest),
            self.after((width, least, greatest)),
        )
    }

    /// A byte, and the stream after it.
    pub open spec fn byte(self) -> (u8, Stream) {
        (
            byte_draw(self.seed, self.history),
            self.after((1, 0, 0)),
        )
    }

    /// A run of bytes, and the stream after it.
    pub open spec fn run(self, len: int) -> (Seq<u8>, Stream) {
        (
            filled(self.seed, self.history, len),
            self.after((2, 0, len)),
        )
    }
}

/// Calls `StdRng::seed_from_u64`: the generator stands at the start of the stream of that seed.
/// No other function makes a `ChaosRng`, and every draw below notes itself in the history.
#[verifier::external_body]
fn seed_rng(seed: u64) -> (r: ChaosRng)
    ensures
        r@ == Stream::of(seed),
{
    ChaosRng {
        inner: StdRng::seed_from_u64(seed),
        seed: Ghost(seed),
        history: Ghost(Seq::empty()),
    }
}

/// Calls `rand::Rng::gen_range` on an inclusive range of 64-bit numbers: the number lies in the
/// range and depends on the seed, on what was drawn before and on the range alone.
#[verifier::external_body]
fn range_u64(rng: &mut ChaosRng, least: u64, greatest: u64) -> (r: u64)
    requires
        least <= greatest,
    ensures
        least <= r <= greatest,
        r == ranged_draw(
            old(rng)@.seed,
            old(rng)@.history,
            64,
            least as int,
            greatest as int,
        ),
        final(rng)@ == old(rng)@.after((64int, least as int, greatest as int)),
{
    rng.inner.gen_range(least..=greatest)
}

/// Calls `rand::Rng::gen_range` on an inclusive range of 32-bit numbers: the number lies in the
/// range and depends on the seed, on what was drawn before and on the range alone.
#[verifier::external_body]
fn range_u32(rng: &mut ChaosRng, least: u32, greatest: u32) -> (r: u32)
    requires
        least <= greatest,
    ensures
        least <= r <= greatest,
        r == ranged_draw(
            old(rng)@.seed,
            old(rng)@.history,
            32,
            least as int,
            greatest as int,
        ),
        final(rng)@ == old(rng)@.after((32int, least as int, greatest as int)),
{
    rng.inner.gen_range(least..=greatest)
}

/// Calls `rand::Rng::gen_range` on an inclusive range of bytes: the number lies in the range and
/// depends on the seed, on what was drawn before and on the range alone.
#[verifier::external_body]
fn range_u8(rng: &mut ChaosRng, least: u8, greatest: u8) -> (r: u8)
    requires
        least <= greatest,
    ensures
        least <= r <= greatest,
        r == ranged_draw(
            old(rng)@.seed,
            old(rng)@.history,
            8,
            least as int,
            greatest as int,
        ),
        final(rng)@ == old(rng)@.after((8int, least as int, greatest as int)),
{
    rng.inner.gen_range(least..=greatest)
}

/// Calls `rand::Rng::gen` for a byte, which depends on the seed and on what was drawn before alone.
#[verifier::external_body]
fn any_byte(rng: &mut ChaosRng) -> (r: u8)
    ensures
        r == byte_draw(old(rng)@.seed, old(rng)@.history),
        final(rng)@ == old(rng)@.after((1int, 0int, 0int)),
{
    rng.inner.gen()
}

/// Calls `rand::RngCore::fill_bytes`, which writes the whole buffer; the bytes depend on the seed,
/// on what was drawn before and on the length alone.
#[verifier::external_body]
fn fill(rng: &mut ChaosRng, buf: &mut [u8])
    ensures
        final(buf)@ == filled(old(rng)@.seed, old(rng)@.history, old(buf)@.len() as int),
        final(buf)@.len() == old(buf)@.len(),
        final(rng)@ == old(rng)@.after((2int, 0int, old(buf)@.len() as int)),
{
    rng.inner.fill_bytes(buf)
}

impl ChaosRng {
    /// A generator with a seed.
    pub fn seeded(seed: u64) -> (r: Self)
        ensures
            r@ == Stream::of(seed),
    {
        seed_rng(seed)
    }

    /// An index from `least` to `greatest`.
    pub fn index(&mut self, least: u64, greatest: u64) -> (r: u64)
        requires
            least <= greatest,
        ensures
            least <= r <= greatest,
            (r as int, final(self)@) == old(self)@.range(64, least as int, greatest as int),
    {
        range_u64(self, least, greatest)
    }

    /// A choice from `least` to `greatest`.
    pub fn choice(&mut self, least: u32, greatest: u32) -> (r: u32)
        requires
            least <= greatest,
        ensures
            least <= r <= greatest,
            (r as int, final(self)@) == old(self)@.range(32, least as int, greatest as int),
    {
        range_u32(self, least, greatest)
    }

    /// The number of a bit in a byte.
    pub fn bit(&mut self) -> (r: u8)
        ensures
            r < 8,
            (r as int, final(self)@) == old(self)@.range(8, 0, 7),
    {
        range_u8(self, 0, 7)
    }

    /// A byte.
    pub fn byte(&mut self) -> (r: u8)
        ensures
            (r, final(self)@) == old(self)@.byte(),
    {
        any_byte(self)
    }

    /// `len` bytes.
    pub fn bytes(&mut self, len: usize) -> (r: Vec<u8>)
        ensures
            r@.len() == len,
            (r@, final(self)@) == old(self)@.run(len as int),
    {
        let mut buf: Vec<u8> = Vec::new();
        while buf.len() < len
            invariant
                buf@.len() <= len,
            decreases len - buf@.len(),
        {
            buf.push(0);
        }
        fill(self, buf.as_mut_slice());
        buf
    }
}

} // verus!
