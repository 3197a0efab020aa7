//! Random words for the simulation.
//!
//! Two kinds of randomness are used.  Reproducible streams: a seed determines
//! a fixed prefix of `StdRng`'s output, named by `word_stream`, which drives
//! material generation, blend jitter and name generation.  Ambient draws: an
//! owned `StdRng` threaded through the update calls hands out words about
//! which nothing is assumed.

use vstd::prelude::*;

use rand::Rng;
use rand::SeedableRng;
use rand::rngs::StdRng;

verus! {

use crate::fixed::SCALE;

#[verifier::external_type_specification]
#[verifier::external_body]
pub struct ExStdRng(StdRng);

/// How many words of a seeded generator's output the library draws on.
pub const STREAM_LEN: usize = 16;

/// The first `STREAM_LEN` words that `StdRng` yields for a seed.
pub uninterp spec fn word_stream(seed: u64) -> Seq<u64>;

/// Relies on rand's `StdRng`: `SeedableRng::seed_from_u64` and
/// `Rng::next_u64` reproduce the same output sequence for a given seed on
/// every run (rand_core documents seeded generators as reproducible).
#[verifier::external_body]
pub fn seed_words(seed: u64) -> (words: Vec<u64>)
    ensures
        words@ == word_stream(seed),
        words@.len() == STREAM_LEN as nat,
{
    let mut rng = StdRng::seed_from_u64(seed);
    let mut w = [0u64; STREAM_LEN];
    for x in w.iter_mut() {
        *x = rng.next_u64();
    }
    w.to_vec()
}

/// Relies on rand's `SeedableRng::seed_from_u64` to build an owned generator;
/// nothing is assumed about its output.
#[verifier::external_body]
pub fn rng_from_seed(seed: u64) -> StdRng {
    StdRng::seed_from_u64(seed)
}

/// Relies on rand's `Rng::next_u64`; any word may come back, and two calls on
/// equal states may differ.
#[verifier::external_body]
pub fn next_word(rng: &mut StdRng) -> u64 {
    rng.next_u64()
}

/// A word reduced to a fixed-point fraction in `[0, SCALE)`.
pub open spec fn spec_frac(w: u64) -> int {
    (w as int) % (SCALE as int)
}

pub fn word_frac(w: u64) -> (r: i64)
    ensures
        r == spec_frac(w),
        0 <= r < SCALE,
{
    (w % (SCALE as u64)) as i64
}

/// A word reduced to a positive fraction in `[1, SCALE]`.
pub fn word_frac_pos(w: u64) -> (r: i64)
    ensures
        r == spec_frac(w) + 1,
        1 <= r <= SCALE,
{
    (w % (SCALE as u64)) as i64 + 1
}

/// A word reduced to `[0, n)`.
pub fn word_in(w: u64, n: u64) -> (r: u64)
    requires
        1 <= n,
    ensures
        r == (w as int) % (n as int),
        r < n,
{
    w % n
}

/// A word reduced to a signed value in `[-range, range]`.
pub open spec fn spec_signed_in(w: u64, range: int) -> int {
    (w as int) % (2 * range + 1) - range
}

pub fn word_signed_in(w: u64, range: i64) -> (r: i64)
    requires
        0 <= range <= 0x1000_0000,
    ensures
        r == spec_signed_in(w, range as int),
        -range <= r <= range,
{
    (w % (2 * (range as u64) + 1)) as i64 - range
}

/// Whether a word lands inside a chance of `p` out of `SCALE`.
pub open spec fn spec_chance(w: u64, p: int) -> bool {
    spec_frac(w) < p
}

pub fn word_chance(w: u64, p: i64) -> (r: bool)
    ensures
        r == spec_chance(w, p as int),
{
    word_frac(w) < p
}

} // verus!
