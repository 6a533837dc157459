//! The draws the animation makes from the thread-local random generator.
//!
//! Nothing here is proved: each function is a call into the `rand` crate, and
//! its contract records only what holds of every outcome.

use rand::seq::SliceRandom;
use rand::Rng;
use vstd::prelude::*;

verus! {

/// `Rng::gen_range` on `rand::thread_rng()`: some integer in `low..high`.
/// The call panics when the range is empty, hence the precondition.
#[verifier::external_body]
pub(crate) fn random_in_range(low: i32, high: i32) -> (n: i32)
    requires
        low < high,
    ensures
        low <= n < high,
{
    rand::thread_rng().gen_range(low, high)
}

/// `rand::random::<bool>()`: a coin flip, of which nothing is promised.
#[verifier::external_body]
pub(crate) fn random_bool() -> (coin: bool) {
    rand::random()
}

/// `SliceRandom::choose` on `rand::thread_rng()`: a reference to one element
/// of `items`, or `None` exactly when `items` is empty.
#[verifier::external_body]
pub(crate) fn choose_one<T>(items: &Vec<T>) -> (picked: Option<&T>)
    ensures
        items@.len() == 0 <==> picked is None,
        picked matches Some(item) ==> items@.contains(*item),
{
    items.choose(&mut rand::thread_rng())
}

} // verus!
