use vstd::prelude::*;
use rand::Rng;
use rand::rngs::ThreadRng;

verus! {

/// `rand::rngs::ThreadRng`, the handle to the thread's random number
/// generator. Nothing is known of what it holds.
#[verifier::external_type_specification]
#[verifier::external_body]
pub struct ExThreadRng(ThreadRng);

/// `rand::thread_rng`: hands out the handle. Nothing is claimed of it.
pub assume_specification[ rand::thread_rng ]() -> (rng: ThreadRng);

/// `Rng::gen_range` on the half-open range `low..high` of `i32`. It panics on
/// an empty range, so `low < high` is asked for; what comes back lies in the
/// range, and nothing else is claimed of it.
#[verifier::external_body]
pub(crate) fn uniform_below(rng: &mut ThreadRng, low: i32, high: i32) -> (r: i32)
    requires
        low < high,
    ensures
        low <= r < high,
{
    rng.gen_range(low..high)
}

/// `Rng::gen_ratio`: true with `numerator` chances in `denominator`. It
/// panics where the denominator is zero or below the numerator, so neither is
/// admitted. With all chances it is true and with none it is false; in
/// between nothing is claimed of it.
#[verifier::external_body]
pub(crate) fn chance(rng: &mut ThreadRng, numerator: u32, denominator: u32) -> (hit: bool)
    requires
        denominator > 0,
        numerator <= denominator,
    ensures
        numerator == denominator ==> hit,
        numerator == 0 ==> !hit,
{
    rng.gen_ratio(numerator, denominator)
}

} // verus!
