//! Reporting helpers over a finished solve.

use vstd::prelude::*;
use crate::sa::SimulatedAnnealing;

verus! {

/// The recorded best-so-far distances of an annealing run, in recording
/// order.
pub fn get_history_distances(sa: SimulatedAnnealing) -> (d: Vec<u64>)
    ensures
        d@.len() == sa.history@.len(),
        forall|k: int| 0 <= k < d@.len() ==> d@[k] == (#[trigger] sa.history@[k]).distance,
{
    let mut d: Vec<u64> = Vec::new();
    let n = sa.history.len();
    for i in 0..n
        invariant
            n == sa.history@.len(),
            d@.len() == i,
            forall|k: int| 0 <= k < i ==> d@[k] == (#[trigger] sa.history@[k]).distance,
    {
        d.push(sa.history[i].distance);
    }
    d
}

} // verus!
