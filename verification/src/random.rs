use rand::rngs::StdRng;
use rand::Rng;
use rand::RngCore;
use rand::SeedableRng;
use vstd::arithmetic::power2::pow2;
use vstd::prelude::*;
use crate::scalar::Real;
use crate::scalar::HALF_BITS;
use crate::scalar::HIDDEN_BIT;
use crate::scalar::ONE_BITS;
use crate::scalar::SIGN_BIT;

verus! {

/// The generator `rand::rngs::StdRng`. Nothing is known of its state.
#[verifier::external_type_specification]
#[verifier::external_body]
pub struct ExStdRng(StdRng);

/// `SeedableRng::seed_from_u64` of `StdRng`: a generator made from a seed.
/// Nothing is claimed of it.
#[verifier::external_body]
fn seeded(seed: u64) -> (rng: StdRng) {
    StdRng::seed_from_u64(seed)
}

/// `RngCore::next_u64` of `StdRng`: the next 64 bits. Nothing is claimed of
/// them.
#[verifier::external_body]
fn next_word(rng: &mut StdRng) -> (word: u64) {
    rng.next_u64()
}

/// `Rng::gen_range` of `StdRng` over `min ..= max`, which panics on an
/// empty range: the result lies in the range.
#[verifier::external_body]
fn next_in_range(rng: &mut StdRng, min: i32, max: i32) -> (r: i32)
    requires
        min <= max,
    ensures
        min <= r <= max,
{
    rng.gen_range(min..=max)
}

/// `r` is the number in `[0, 1)` that the 64 bits `word` stand for: their
/// upper 53 bits, as a multiple of `2^-53`.
pub open spec fn stands_for(word: u64, r: Real) -> bool {
    &&& r.finite()
    &&& !r.negative()
    &&& r.bits < ONE_BITS
    &&& r.scaled() == (word / 2048) * pow2(1021)
}

/// The number in `[0, 1)` that 64 random bits stand for: their upper 53
/// bits, as a multiple of `2^-53`.
pub fn unit_double(word: u64) -> (r: Real)
    ensures
        stands_for(word, r),
        r.finite(),
        !r.negative(),
        r.bits < ONE_BITS,
        r.scaled() == (word / 2048) * pow2(1021),
        r.lt_spec(Real { bits: HALF_BITS }) <==> word < SIGN_BIT,
{
    let k = word / 2048;
    assert(k < 2 * HIDDEN_BIT);
    Real::from_unit_fraction(k)
}

/// A stream of random numbers that starts from a seed: two streams made
/// from the same seed are meant to give the same numbers.
pub struct RandomStream {
    rng: StdRng,
}

impl RandomStream {
    /// The stream that starts from `seed`.
    pub fn new(seed: u64) -> (r: RandomStream) {
        RandomStream { rng: seeded(seed) }
    }

    /// The next number from `[0, 1)`: the number that the next 64 bits of
    /// the stream stand for.
    pub fn double(&mut self) -> (r: Real)
        ensures
            r.finite(),
            !r.negative(),
            r.bits < ONE_BITS,
            exists|word: u64| stands_for(word, r),
    {
        let word = next_word(&mut self.rng);
        let r = unit_double(word);
        assert(stands_for(word, r));
        r
    }

    /// The next integer between two bounds, both included. Bounds given in
    /// descending order stand for the range from one above the lower to the
    /// higher.
    pub fn int_range(&mut self, min: i32, max: i32) -> (r: i32)
        ensures
            min <= max ==> min <= r <= max,
            max < min ==> max < r <= min,
    {
        if min <= max {
            next_in_range(&mut self.rng, min, max)
        } else {
            next_in_range(&mut self.rng, max + 1, min)
        }
    }
}

/// The next integer of a stream between two bounds, both included.
pub fn random_int_range(rng: &mut RandomStream, min: i32, max: i32) -> (r: i32)
    ensures
        min <= max ==> min <= r <= max,
        max < min ==> max < r <= min,
{
    rng.int_range(min, max)
}

/// The next number of a stream from `[0, 1)`: the number that the next 64
/// bits of the stream stand for.
pub fn random_double(rng: &mut RandomStream) -> (r: Real)
    ensures
        r.finite(),
        !r.negative(),
        r.bits < ONE_BITS,
        exists|word: u64| stands_for(word, r),
{
    rng.double()
}

} // verus!
