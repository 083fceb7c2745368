//! Trusted access to the `rand` crate.
//!
//! Everything the library wants from `rand` passes through the items in
//! this module. The rewriter draws its per-edge constants from
//! [`EdgeStream`], whose draws from a fixed seed are deterministic and are
//! therefore given a name ([`edge_constant`]); the mutator draws plain
//! values through the `&mut StdRng` wrappers, of which nothing is promised
//! beyond their range.

use vstd::prelude::*;
use rand::Rng;
use rand::RngCore;
use rand::SeedableRng;

verus! {

#[verifier::external_type_specification]
#[verifier::external_body]
pub struct ExStdRng(rand::rngs::StdRng);

/// The value of the `index`-th draw of a uniform `i32` in `[0, bound)`
/// from a `StdRng` seeded with `seed`, when every draw of the stream uses
/// that same `bound`. `StdRng` is documented as a deterministic generator:
/// from a fixed seed the stream depends on these arguments alone.
pub uninterp spec fn edge_constant(seed: u64, bound: i32, index: nat) -> i32;

/// A seeded stream of uniform draws in `[0, bound)`, positioned after
/// `drawn()` draws. The fields are private: the only way to advance the
/// stream is [`EdgeStream::next_value`], which keeps the recorded seed
/// and position in step with the generator's true state, so that each
/// draw can be related to [`edge_constant`].
pub struct EdgeStream {
    rng: rand::rngs::StdRng,
    bound: i32,
    seed: u64,
    drawn: u64,
}

/// Relies on `rand::Rng::random_range` over `0..bound` and on `StdRng`'s
/// documented determinism: when `rng` is the generator seeded with `seed`
/// and advanced by exactly `index` draws with this same `bound`, the next
/// draw is uniform in `[0, bound)` and depends on `seed`, `bound` and
/// `index` alone. Only [`EdgeStream::next_value`] calls this, and it
/// maintains that correspondence.
#[verifier::external_body]
fn edge_draw(rng: &mut rand::rngs::StdRng, bound: i32, seed: u64, index: u64) -> (r: i32)
    requires
        1 <= bound,
    ensures
        0 <= r < bound,
        r == edge_constant(seed, bound, index as nat),
{
    rng.random_range(0..bound)
}

impl EdgeStream {
    /// The seed this stream was created from.
    pub closed spec fn seed(self) -> u64 {
        self.seed
    }

    /// The exclusive upper bound of every draw.
    pub closed spec fn bound(self) -> i32 {
        self.bound
    }

    /// How many values have been drawn so far.
    pub closed spec fn drawn(self) -> u64 {
        self.drawn
    }

    /// Opens a fresh stream at position zero.
    pub fn new(seed: u64, bound: i32) -> (r: EdgeStream)
        requires
            1 <= bound,
        ensures
            r.seed() == seed,
            r.bound() == bound,
            r.drawn() == 0,
    {
        EdgeStream { rng: rng_from_seed(seed), bound, seed, drawn: 0 }
    }

    /// Draws the next value of the stream.
    pub fn next_value(&mut self) -> (r: i32)
        requires
            1 <= old(self).bound(),
            old(self).drawn() < u64::MAX,
        ensures
            final(self).seed() == old(self).seed(),
            final(self).bound() == old(self).bound(),
            final(self).drawn() == old(self).drawn() + 1,
            0 <= r < old(self).bound(),
            r == edge_constant(old(self).seed(), old(self).bound(), old(self).drawn() as nat),
    {
        let v = edge_draw(&mut self.rng, self.bound, self.seed, self.drawn);
        self.drawn = self.drawn + 1;
        v
    }
}

/// Relies on `rand::rng` and `RngCore::next_u32`: a seed drawn from the
/// operating system's entropy. Nothing is promised of the value.
#[verifier::external_body]
pub fn os_random_seed() -> (r: u32) {
    rand::rng().next_u32()
}

/// Relies on `rand::rngs::StdRng::seed_from_u64` (`SeedableRng`).
#[verifier::external_body]
pub fn rng_from_seed(seed: u64) -> (r: rand::rngs::StdRng) {
    rand::rngs::StdRng::seed_from_u64(seed)
}

/// Relies on `rand::Rng::random::<u8>`.
#[verifier::external_body]
pub fn rand_u8(rng: &mut rand::rngs::StdRng) -> (r: u8) {
    rng.random::<u8>()
}

/// Relies on `rand::Rng::random::<u16>`.
#[verifier::external_body]
pub fn rand_u16(rng: &mut rand::rngs::StdRng) -> (r: u16) {
    rng.random::<u16>()
}

/// Relies on `rand::Rng::random::<u32>`.
#[verifier::external_body]
pub fn rand_u32(rng: &mut rand::rngs::StdRng) -> (r: u32) {
    rng.random::<u32>()
}

/// Relies on `rand::Rng::random::<u64>`.
#[verifier::external_body]
pub fn rand_u64(rng: &mut rand::rngs::StdRng) -> (r: u64) {
    rng.random::<u64>()
}

/// Relies on `rand::Rng::random::<u128>`.
#[verifier::external_body]
pub fn rand_u128(rng: &mut rand::rngs::StdRng) -> (r: u128) {
    rng.random::<u128>()
}

/// Relies on `rand::Rng::random::<i8>`.
#[verifier::external_body]
pub fn rand_i8(rng: &mut rand::rngs::StdRng) -> (r: i8) {
    rng.random::<i8>()
}

/// Relies on `rand::Rng::random::<i16>`.
#[verifier::external_body]
pub fn rand_i16(rng: &mut rand::rngs::StdRng) -> (r: i16) {
    rng.random::<i16>()
}

/// Relies on `rand::Rng::random::<i32>`.
#[verifier::external_body]
pub fn rand_i32(rng: &mut rand::rngs::StdRng) -> (r: i32) {
    rng.random::<i32>()
}

/// Relies on `rand::Rng::random::<i64>`.
#[verifier::external_body]
pub fn rand_i64(rng: &mut rand::rngs::StdRng) -> (r: i64) {
    rng.random::<i64>()
}

/// Relies on `rand::Rng::random::<i128>`.
#[verifier::external_body]
pub fn rand_i128(rng: &mut rand::rngs::StdRng) -> (r: i128) {
    rng.random::<i128>()
}

/// Relies on `rand::Rng::random_range` over `0..n` for `i32`: the result
/// is uniform in `[0, n)`.
#[verifier::external_body]
pub fn rand_below_i32(rng: &mut rand::rngs::StdRng, n: i32) -> (r: i32)
    requires
        1 <= n,
    ensures
        0 <= r < n,
{
    rng.random_range(0..n)
}

/// Relies on `rand::Rng::random_range` over `0..n` for `usize`: the
/// result is uniform in `[0, n)`.
#[verifier::external_body]
pub fn rand_below_usize(rng: &mut rand::rngs::StdRng, n: usize) -> (r: usize)
    requires
        1 <= n,
    ensures
        r < n,
{
    rng.random_range(0..n)
}

/// Relies on `rand::Rng::random_range` over `lo..=hi` for `usize`: the
/// result is uniform in `[lo, hi]`.
#[verifier::external_body]
pub fn rand_between_usize(rng: &mut rand::rngs::StdRng, lo: usize, hi: usize) -> (r: usize)
    requires
        lo <= hi,
    ensures
        lo <= r <= hi,
{
    rng.random_range(lo..=hi)
}

/// Relies on `rand::Rng::random_ratio`: true with probability
/// `numerator / denominator`.
#[verifier::external_body]
pub fn rand_ratio(rng: &mut rand::rngs::StdRng, numerator: u32, denominator: u32) -> (r: bool)
    requires
        1 <= denominator,
        numerator <= denominator,
{
    rng.random_ratio(numerator, denominator)
}

/// Relies on `rand::RngCore::fill_bytes`: fills the buffer in place with
/// random bytes; the length does not change.
#[verifier::external_body]
pub fn rand_fill_bytes(rng: &mut rand::rngs::StdRng, buf: &mut Vec<u8>) -> (r: ())
    ensures
        final(buf)@.len() == old(buf)@.len(),
{
    rng.fill_bytes(buf.as_mut_slice())
}

} // verus!
