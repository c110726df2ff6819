//! The source of chance.
//!
//! Nothing here is proved: each item states what the generator's own
//! source shows of it, and the rest of the library is verified for every
//! value that may come back.  A draw that finds the operating system out
//! of entropy panics; the library's promise not to panic does not reach
//! that far.

use vstd::prelude::*;

verus! {

/// The generator that each thread owns.  Its state is hidden.
#[verifier::external_type_specification]
#[verifier::external_body]
pub struct ExThreadRng(rand::rngs::ThreadRng);

/// `rand::thread_rng` hands out the calling thread's generator, which the
/// operating system seeds.  Nothing is claimed of it.  The call panics if
/// the operating system yields no entropy when a thread first uses its
/// generator; no argument decides that, and no precondition can exclude it.
pub assume_specification[ rand::thread_rng ]() -> (rng: rand::rngs::ThreadRng);

/// Calls `rand::Rng::gen_range` on the half-open range `low..high`.  The
/// call panics on an empty range, which the precondition excludes; the
/// value drawn lies in the range.  Like every draw, the call also panics
/// if the generator, which seeds itself anew from time to time and after
/// a fork, gets no entropy from the operating system; that, too, is beyond
/// any precondition.
#[verifier::external_body]
pub(crate) fn uniform(rng: &mut rand::rngs::ThreadRng, low: i64, high: i64) -> (r: i64)
    requires
        low < high,
    ensures
        low <= r < high,
{
    rand::Rng::gen_range(rng, low..high)
}

/// Calls `rand::Rng::gen_ratio`, which gives `true` with the odds of
/// `numerator` in `denominator`.  The call panics if the denominator is
/// zero or less than the numerator, which the precondition excludes, and,
/// like every draw, if the operating system yields no entropy.  Nothing is
/// claimed of the outcome.
#[verifier::external_body]
pub(crate) fn chance(rng: &mut rand::rngs::ThreadRng, numerator: u32, denominator: u32) -> (hit:
    bool)
    requires
        denominator > 0,
        numerator <= denominator,
{
    rand::Rng::gen_ratio(rng, numerator, denominator)
}

} // verus!
