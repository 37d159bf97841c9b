use vstd::prelude::*;
use rand::Rng;

verus! {

/// Relies on rand's `Rng::gen_range` over an inclusive `i64` range, drawn from
/// the thread-local generator: the value lies in `low..=high`, and the call
/// panics only when `low > high`.
#[verifier::external_body]
pub(crate) fn uniform_inclusive(low: i64, high: i64) -> (r: i64)
    requires
        low <= high,
    ensures
        low <= r <= high,
{
    rand::thread_rng().gen_range(low..=high)
}

} // verus!
