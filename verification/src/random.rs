//! The source of chance.

use rand::Rng;
use vstd::prelude::*;

verus! {

/// Draws a whole number from the half-open range `low..high` with
/// `rand::Rng::gen_range` on the generator of `rand::thread_rng`.
///
/// Believed, not proved: the draw lies in the range. Nothing is claimed of
/// how the draws are spread. An empty range is left out, since `gen_range`
/// panics on one. `thread_rng` itself panics where the system gives it no
/// seed, which no contract here can rule out.
#[verifier::external_body]
pub(crate) fn draw(low: i64, high: i64) -> (n: i64)
    requires
        low < high,
    ensures
        low <= n < high,
{
    rand::thread_rng().gen_range(low..high)
}

} // verus!
