//! The trusted boundary: every call into an outside crate, and into the two
//! std clock functions vstd gives no specification for, goes through one of
//! the wrappers below.  Their contracts state only what holds of every
//! outcome — a draw is below its bound, a shuffle keeps the elements — and
//! nothing about which outcome comes back.

use vstd::prelude::*;
use rand::Rng;
use rand::seq::SliceRandom;
use crate::SCALE;

verus! {

/// Relies on rand's `Rng::gen_range` (through `thread_rng`): a draw from the
/// non-empty range `0 .. n` is below `n`; on a non-empty range the call does
/// not panic.
#[verifier::external_body]
pub(crate) fn rand_below(n: u64) -> (r: u64)
    requires
        n > 0,
    ensures
        r < n,
{
    rand::thread_rng().gen_range(0..n)
}

/// Relies on rand's `SliceRandom::shuffle` (through `thread_rng`): a
/// Fisher–Yates pass that only exchanges elements in place, so the multiset
/// of elements — and with it the length — is unchanged.
#[verifier::external_body]
pub(crate) fn shuffle(v: &mut Vec<usize>)
    ensures
        final(v)@.to_multiset() == old(v)@.to_multiset(),
{
    v.shuffle(&mut rand::thread_rng());
}

/// `std::time::Instant`, opaque to the verifier; carried only to measure a
/// solve's wall-clock run time.
#[verifier::external_type_specification]
#[verifier::external_body]
pub struct ExInstant(std::time::Instant);

/// Relies on `std::time::Instant::now`: an opaque reading of the monotonic
/// clock; nothing is assumed of its value.
#[verifier::external_body]
pub(crate) fn instant_now() -> std::time::Instant {
    std::time::Instant::now()
}

/// Relies on `std::time::Instant::elapsed` and `Duration::as_millis`: the
/// wall-clock milliseconds since `start`; nothing is assumed of the value.
#[verifier::external_body]
pub(crate) fn elapsed_millis(start: &std::time::Instant) -> u64 {
    start.elapsed().as_millis() as u64
}

/// A uniform draw from `0 .. n`, as an index.
pub(crate) fn rand_index(n: usize) -> (r: usize)
    requires
        n > 0,
    ensures
        r < n,
{
    let d = rand_below(n as u64);
    d as usize
}

/// A coin that lands heads with probability `p / SCALE` (always, once
/// `p >= SCALE`; never, once `p == 0`).
pub(crate) fn coin(p: u64) -> (heads: bool)
    ensures
        p == 0 ==> !heads,
        p >= SCALE ==> heads,
{
    rand_below(SCALE) < p
}

} // verus!
