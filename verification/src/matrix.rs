use vstd::prelude::*;

verus! {

/// An `n` by `n` table held as a vector of row vectors.
pub open spec fn matrix_wf(m: Seq<Vec<u64>>, n: nat) -> bool {
    &&& m.len() == n
    &&& forall|i: int| 0 <= i < n ==> (#[trigger] m[i])@.len() == n
}

/// Every entry of the table is at most `bound`.
pub open spec fn matrix_max(m: Seq<Vec<u64>>, n: nat, bound: u64) -> bool {
    forall|i: int, j: int| 0 <= i < n && 0 <= j < n ==> (#[trigger] m[i]@[j]) <= bound
}

/// Every entry of the table is at least `bound`.
pub open spec fn matrix_min(m: Seq<Vec<u64>>, n: nat, bound: u64) -> bool {
    forall|i: int, j: int| 0 <= i < n && 0 <= j < n ==> bound <= (#[trigger] m[i]@[j])
}

/// Allocates an `n` by `n` table with every entry set to `fill`.
pub fn new_square_matrix(n: usize, fill: u64) -> (m: Vec<Vec<u64>>)
    ensures
        matrix_wf(m@, n as nat),
        forall|i: int, j: int| 0 <= i < n && 0 <= j < n ==> (#[trigger] m@[i]@[j]) == fill,
{
    let mut m: Vec<Vec<u64>> = Vec::new();
    let mut i: usize = 0;
    while i < n
        invariant
            i <= n,
            m@.len() == i,
            forall|p: int| 0 <= p < i ==> (#[trigger] m@[p])@.len() == n,
            forall|p: int, q: int| 0 <= p < i && 0 <= q < n ==> (#[trigger] m@[p]@[q]) == fill,
        decreases n - i,
    {
        let mut row: Vec<u64> = Vec::new();
        let mut j: usize = 0;
        while j < n
            invariant
                j <= n,
                row@.len() == j,
                forall|q: int| 0 <= q < j ==> (#[trigger] row@[q]) == fill,
            decreases n - j,
        {
            row.push(fill);
            j = j + 1;
        }
        m.push(row);
        i = i + 1;
    }
    m
}

} // verus!
