//! The random source that plucks draw from.

use crate::guitar_string::is_excitation;
use crate::sample::HALF;
use rand::rngs::ThreadRng;
use rand::Rng;
use vstd::prelude::*;

verus! {

/// The handle of `rand`'s generator of the current thread. Nothing of its
/// state is visible here.
#[verifier::external_type_specification]
#[verifier::external_body]
pub struct ExThreadRng(ThreadRng);

/// `rand::thread_rng` hands out the handle of the current thread's generator,
/// which the system seeds on first use. Nothing is claimed of the handle.
pub assume_specification[ rand::thread_rng ]() -> (rng: ThreadRng);

/// Calls `rand::Rng::gen_range` with the inclusive range from `low` to `high`.
/// The call panics on an empty range, which is left out; otherwise it returns
/// some member of the range, and which one is not stated.
#[verifier::external_body]
fn draw_between(rng: &mut ThreadRng, low: i64, high: i64) -> (value: i64)
    requires
        low <= high,
    ensures
        low <= value <= high,
{
    rng.gen_range(low..=high)
}

/// Draws `count` samples, each on its own and from the whole range from minus
/// one half to one half.
pub fn draw_excitation(count: usize) -> (values: Vec<i64>)
    ensures
        values@.len() == count,
        is_excitation(values@),
{
    let mut rng = rand::thread_rng();
    let mut values: Vec<i64> = Vec::new();
    for drawn in 0..count
        invariant
            values@.len() == drawn,
            is_excitation(values@),
    {
        let value: i64 = draw_between(&mut rng, -HALF, HALF);
        values.push(value);
    }
    values
}

} // verus!
