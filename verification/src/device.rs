//! Device selection by fuzzy-match score.
//!
//! When a target name is given on the command line, each connected device
//! or simulator is scored against it by a fuzzy matcher, and the
//! best-scoring one is chosen if its score clears a minimum. Computing the
//! scores is the matcher's work; deciding which device wins is this
//! function's.

use vstd::prelude::*;

verus! {

/// Picks the device to use from the matcher's scores: the earliest device
/// with the highest score, provided that score exceeds the minimum; when no
/// score does, no device matches.
pub fn pick_best_match(scores: &Vec<i64>, min_score: i64) -> (r: Option<usize>)
    ensures
        match r {
            Some(i) => i < scores@.len() && scores@[i as int] > min_score && (forall|j: int|
                0 <= j < scores@.len() ==> scores@[j] <= scores@[i as int]) && (forall|j: int|
                0 <= j < i ==> scores@[j] < scores@[i as int]),
            None => forall|j: int| 0 <= j < scores@.len() ==> scores@[j] <= min_score,
        },
{
    if scores.len() == 0 {
        return None;
    }
    let mut best: usize = 0;
    let mut i: usize = 1;
    while i < scores.len()
        invariant
            best < i,
            i <= scores@.len(),
            forall|j: int| 0 <= j < i ==> scores@[j] <= scores@[best as int],
            forall|j: int| 0 <= j < best ==> scores@[j] < scores@[best as int],
        decreases scores@.len() - i,
    {
        if scores[i] > scores[best] {
            best = i;
        }
        i = i + 1;
    }
    if scores[best] > min_score {
        Some(best)
    } else {
        None
    }
}

} // verus!
