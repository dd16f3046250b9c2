//! Data binding for the chart display: turns a history snapshot into
//! indexed (x, y) points, x being the sample's position in the ring (oldest
//! is 0). Scaling, styling and drawing belong to the terminal layer outside
//! the library.

use vstd::prelude::*;

verus! {

/// The point sequence for a series snapshot: one (index, sample) pair per
/// retained sample, in order.
pub fn indexed_points(samples: &Vec<i64>) -> (points: Vec<(usize, i64)>)
    ensures
        points@.len() == samples@.len(),
        forall|i: int|
            0 <= i < samples@.len() ==> #[trigger] points@[i] == (i as usize, samples@[i]),
{
    let mut points: Vec<(usize, i64)> = Vec::new();
    let mut i: usize = 0;
    while i < samples.len()
        invariant
            i <= samples@.len(),
            points@.len() == i,
            forall|j: int| 0 <= j < i ==> #[trigger] points@[j] == (j as usize, samples@[j]),
        decreases samples@.len() - i,
    {
        points.push((i, samples[i]));
        i = i + 1;
    }
    points
}

} // verus!
