//! Seeded random draws.
//!
//! All randomness in this crate comes from `rand`'s standard generator,
//! started from a 64-bit seed. In the version of `rand` that this crate is
//! built with, that generator is ChaCha with twelve rounds; neither it nor
//! its seeding reads anything but the seed, and the draws made here are of
//! fixed width, so the same seed gives the same draws on every machine.
//!
//! The generator's algorithm is not verified here. Its state and what each
//! draw gives are named, and the four functions that call into `rand` say
//! only that a draw is a function of that state, and that a draw from a
//! range lies in the range. Everything else in this crate is proved from
//! that.

use rand::rngs::StdRng;
use rand::Rng;
use rand::RngCore;
use rand::SeedableRng;
use vstd::prelude::*;

verus! {

/// `rand::rngs::StdRng`, carried through verified code as an opaque value.
#[verifier::external_type_specification]
#[verifier::external_body]
pub struct ExStdRng(StdRng);

/// The whole internal state of a generator, as a sequence of 32-bit words.
pub uninterp spec fn rng_state(rng: StdRng) -> Seq<u32>;

/// The state of the generator that `seed_from_u64` builds from a seed.
pub uninterp spec fn seeded_state(seed: u64) -> Seq<u32>;

/// What `next_u64` gives in a state, and the state it leaves.
pub uninterp spec fn word_step(state: Seq<u32>) -> (u64, Seq<u32>);

/// What `gen_range(low..=high)` gives for `u64` bounds in a state, and the
/// state it leaves.
pub uninterp spec fn range_step(state: Seq<u32>, low: u64, high: u64) -> (u64, Seq<u32>);

/// What `gen_range(low..=high)` gives for `u32` bounds in a state, and the
/// state it leaves.
pub uninterp spec fn small_range_step(state: Seq<u32>, low: u32, high: u32) -> (u32, Seq<u32>);

/// Calls `StdRng::seed_from_u64`. Claims that the generator built depends on
/// the seed alone.
#[verifier::external_body]
pub(crate) fn seed_rng(seed: u64) -> (rng: StdRng)
    ensures
        rng_state(rng) == seeded_state(seed),
{
    StdRng::seed_from_u64(seed)
}

/// Calls `RngCore::next_u64` on the generator. Claims that the word given
/// and the state left depend on the state before alone.
#[verifier::external_body]
pub(crate) fn next_word(rng: &mut StdRng) -> (word: u64)
    ensures
        (word, rng_state(*final(rng))) == word_step(rng_state(*old(rng))),
{
    rng.next_u64()
}

/// Calls `Rng::gen_range` with the inclusive range `low..=high` of `u64`.
/// Claims that the value lies in the range, and that value and state left
/// depend on the state before and the bounds alone. The call panics on an
/// empty range, which `requires` leaves out.
#[verifier::external_body]
pub(crate) fn next_in_range(rng: &mut StdRng, low: u64, high: u64) -> (value: u64)
    requires
        low <= high,
    ensures
        low <= value <= high,
        (value, rng_state(*final(rng))) == range_step(rng_state(*old(rng)), low, high),
{
    rng.gen_range(low..=high)
}

/// Calls `Rng::gen_range` with the inclusive range `low..=high` of `u32`.
/// Claims that the value lies in the range, and that value and state left
/// depend on the state before and the bounds alone. The call panics on an
/// empty range, which `requires` leaves out.
#[verifier::external_body]
pub(crate) fn next_in_small_range(rng: &mut StdRng, low: u32, high: u32) -> (value: u32)
    requires
        low <= high,
    ensures
        low <= value <= high,
        (value, rng_state(*final(rng))) == small_range_step(rng_state(*old(rng)), low, high),
{
    rng.gen_range(low..=high)
}

/// The first word of the generator seeded with `seed`.
pub open spec fn first_word(seed: u64) -> u64 {
    word_step(seeded_state(seed)).0
}

/// The second word of the generator seeded with `seed`.
pub open spec fn second_word(seed: u64) -> u64 {
    word_step(word_step(seeded_state(seed)).1).0
}

/// The first two words of the generator seeded with `seed`.
pub fn first_two_words(seed: u64) -> (words: (u64, u64))
    ensures
        words.0 == first_word(seed),
        words.1 == second_word(seed),
{
    let mut rng = seed_rng(seed);
    let a = next_word(&mut rng);
    let b = next_word(&mut rng);
    (a, b)
}

/// The first word of the generator seeded with `seed`.
pub fn first_word_of(seed: u64) -> (word: u64)
    ensures
        word == first_word(seed),
{
    let mut rng = seed_rng(seed);
    next_word(&mut rng)
}

/// Two to the power 53: a roll `r` stands for the fraction `r / UNIT`.
pub const UNIT: u64 = 9007199254740992;

/// The roll that a 64-bit word gives: its upper 53 bits.
pub open spec fn unit_roll(word: u64) -> u64 {
    word / 2048
}

/// True when the fraction `roll / UNIT` is below `percent / 100`.
pub open spec fn below_percent(roll: u64, percent: nat) -> bool {
    roll * 100 < percent * UNIT
}

/// True when the fraction `roll / UNIT` is below `bps / 10000`.
pub open spec fn below_basis_points(roll: u64, bps: nat) -> bool {
    roll * 10000 < bps * UNIT
}

/// Compares a roll with a share in percent.
pub fn is_below_percent(roll: u64, percent: u64) -> (below: bool)
    ensures
        below == below_percent(roll, percent as nat),
{
    assert(percent * UNIT <= u64::MAX * UNIT) by (nonlinear_arith)
        requires
            percent <= u64::MAX,
    ;
    (roll as u128) * 100 < (percent as u128) * (UNIT as u128)
}

/// Compares a roll with a share in basis points.
pub fn is_below_basis_points(roll: u64, bps: u32) -> (below: bool)
    ensures
        below == below_basis_points(roll, bps as nat),
{
    assert(bps * UNIT <= u32::MAX * UNIT) by (nonlinear_arith)
        requires
            bps <= u32::MAX,
    ;
    (roll as u128) * 10000 < (bps as u128) * (UNIT as u128)
}

/// Turns a 64-bit word into a roll.
pub fn roll_of(word: u64) -> (roll: u64)
    ensures
        roll == unit_roll(word),
        roll < UNIT,
{
    word / 2048
}

} // verus!
