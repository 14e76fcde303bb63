//! The dice: the only place where chance enters the library.
//!
//! Both throws use the generator that `rand::thread_rng` keeps for each
//! thread. It is seeded from the operating system at a thread's first throw,
//! and the thread panics there if the system has no entropy to give; nothing
//! a caller passes can bring that about or prevent it.

use rand::Rng;
use vstd::prelude::*;

verus! {

/// Calls `rand::Rng::gen_ratio` on the thread's generator, which answers
/// `true` with probability `numerator / denominator`. Of the answer only what
/// holds of every throw is claimed: a certain event happens, an impossible one
/// does not. The generator refuses a zero denominator and a numerator above
/// the denominator, so callers must not pass them.
#[verifier::external_body]
pub(crate) fn roll_ratio(numerator: u32, denominator: u32) -> (r: bool)
    requires
        0 < denominator,
        numerator <= denominator,
    ensures
        numerator == denominator ==> r,
        numerator == 0 ==> !r,
{
    rand::thread_rng().gen_ratio(numerator, denominator)
}

/// Calls `rand::Rng::gen_range` on the thread's generator with the half-open
/// range from `low` to `high`. Of the number drawn only its range is claimed.
/// The generator refuses an empty range, so callers must not pass one.
#[verifier::external_body]
pub(crate) fn roll_range(low: i64, high: i64) -> (r: i64)
    requires
        low < high,
    ensures
        low <= r < high,
{
    rand::thread_rng().gen_range(low..high)
}

} // verus!
