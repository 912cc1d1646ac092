use vstd::prelude::*;

use crate::config::SCALE;
use crate::instance::TspInstance;
use crate::matrix::{matrix_max, matrix_wf};

verus! {

/// Largest desirability value: the reciprocal of the smallest positive
/// distance the fixed-point grid can hold, and the value a zero distance
/// falls back to.
pub const HEUR_MAX: u64 = SCALE * SCALE;

/// Desirability of an edge of distance `d`: the fixed-point reciprocal of
/// `d`, except that a vanishing distance (coincident points) takes the
/// largest value instead of blowing up.
pub open spec fn heuristic_value(d: u64) -> u64 {
    if d == 0 {
        HEUR_MAX
    } else {
        (HEUR_MAX as int / d as int) as u64
    }
}

/// Derives the desirability table from the distance table: entry `(i, j)`,
/// `i != j`, is the fixed-point reciprocal of the distance, with the
/// zero-distance fallback; self entries are unused and left at zero.
pub fn build_heuristic_matrix(inst: &TspInstance) -> (h: Vec<Vec<u64>>)
    requires
        inst.wf(),
    ensures
        matrix_wf(h@, inst.dimension as nat),
        matrix_max(h@, inst.dimension as nat, HEUR_MAX),
        forall|i: int, j: int|
            0 <= i < inst.dimension && 0 <= j < inst.dimension && i != j
                ==> (#[trigger] h@[i]@[j]) == heuristic_value(inst.dist_matrix@[i]@[j]),
        forall|i: int| 0 <= i < inst.dimension ==> (#[trigger] h@[i]@[i]) == 0,
{
    let n = inst.dimension;
    let mut h: Vec<Vec<u64>> = Vec::new();
    let mut i: usize = 0;
    while i < n
        invariant
            inst.wf(),
            n == inst.dimension,
            i <= n,
            h@.len() == i,
            forall|p: int| 0 <= p < i ==> (#[trigger] h@[p])@.len() == n,
            forall|p: int, q: int|
                0 <= p < i && 0 <= q < n ==> (#[trigger] h@[p]@[q]) <= HEUR_MAX,
            forall|p: int, q: int|
                0 <= p < i && 0 <= q < n && p != q
                    ==> (#[trigger] h@[p]@[q]) == heuristic_value(inst.dist_matrix@[p]@[q]),
            forall|p: int| 0 <= p < i ==> (#[trigger] h@[p]@[p]) == 0,
        decreases n - i,
    {
        let mut row: Vec<u64> = Vec::new();
        let mut j: usize = 0;
        while j < n
            invariant
                inst.wf(),
                n == inst.dimension,
                i < n,
                j <= n,
                row@.len() == j,
                forall|q: int| 0 <= q < j ==> (#[trigger] row@[q]) <= HEUR_MAX,
                forall|q: int|
                    0 <= q < j && q != i
                        ==> (#[trigger] row@[q]) == heuristic_value(inst.dist_matrix@[i as int]@[q]),
                i < j ==> row@[i as int] == 0,
            decreases n - j,
        {
            let v: u64 = if i == j {
                0
            } else {
                let d = inst.dist_matrix[i][j];
                if d > 0 {
                    HEUR_MAX / d
                } else {
                    HEUR_MAX
                }
            };
            row.push(v);
            j = j + 1;
        }
        h.push(row);
        i = i + 1;
    }
    h
}

} // verus!
