use vstd::prelude::*;

use crate::config::SCALE;
use crate::fixed::{lemma_mul_div_le, sat_add, sat_add_spec};
use crate::matrix::{matrix_min, matrix_wf};

use rayon::iter::{IndexedParallelIterator, IntoParallelRefMutIterator, ParallelIterator};

verus! {

/// What one evaporation step leaves of a pheromone entry: the entry scaled
/// by the kept fraction `(SCALE - rate) / SCALE`, then clamped up to `floor`.
pub open spec fn evaporate_entry(v: u64, rate: u64, floor: u64) -> u64
    recommends
        rate <= SCALE,
{
    let kept = v as int * (SCALE as int - rate as int) / (SCALE as int);
    if kept < floor {
        floor
    } else {
        kept as u64
    }
}

/// An evaporated entry sits between the floor and the larger of the floor
/// and the old entry: evaporation never drops below the floor and never
/// grows an entry past it.
pub proof fn lemma_evaporate_entry_bounds(v: u64, rate: u64, floor: u64)
    requires
        rate <= SCALE,
    ensures
        floor <= evaporate_entry(v, rate, floor),
        evaporate_entry(v, rate, floor) <= if floor > v { floor } else { v },
{
    let f = SCALE as int - rate as int;
    vstd::arithmetic::mul::lemma_mul_nonnegative(v as int, f);
    vstd::arithmetic::div_mod::lemma_div_is_ordered(0, v as int * f, SCALE as int);
    lemma_mul_div_le(v as int, f, SCALE as int);
}

/// `new` is `old` with every entry evaporated.
pub open spec fn evaporated_row(old_row: Seq<u64>, new_row: Seq<u64>, rate: u64, floor: u64) -> bool {
    &&& new_row.len() == old_row.len()
    &&& forall|j: int|
        0 <= j < old_row.len() ==> (#[trigger] new_row[j]) == evaporate_entry(old_row[j], rate, floor)
}

/// Evaporates every entry of one row in place.
fn evaporate_row(row: &mut Vec<u64>, rate: u64, floor: u64)
    requires
        rate <= SCALE,
    ensures
        evaporated_row(old(row)@, final(row)@, rate, floor),
{
    let factor: u64 = SCALE - rate;
    let len = row.len();
    let mut j: usize = 0;
    while j < len
        invariant
            rate <= SCALE,
            factor == SCALE - rate,
            len == old(row)@.len(),
            row@.len() == len,
            forall|q: int| 0 <= q < j ==> (#[trigger] row@[q]) == evaporate_entry(old(row)@[q], rate, floor),
            forall|q: int| j <= q < len ==> (#[trigger] row@[q]) == old(row)@[q],
        decreases len - j,
    {
        let v = row[j];
        proof {
            crate::fixed::lemma_u64_mul_fits(v, factor);
        }
        let kept128: u128 = (v as u128) * (factor as u128) / (SCALE as u128);
        proof {
            lemma_mul_div_le(v as int, factor as int, SCALE as int);
        }
        let kept: u64 = kept128 as u64;
        let e: u64 = if kept < floor {
            floor
        } else {
            kept
        };
        row.set(j, e);
        j = j + 1;
    }
}

/// Relies on rayon's `par_iter_mut().for_each(..)`: it applies the given
/// closure, here a call of the verified `evaporate_row`, to every row
/// exactly once, in place.
#[verifier::external_body]
fn evaporate_rows_parallel(m: &mut Vec<Vec<u64>>, rate: u64, floor: u64)
    requires
        rate <= SCALE,
    ensures
        final(m)@.len() == old(m)@.len(),
        forall|i: int|
            0 <= i < old(m)@.len()
                ==> evaporated_row(old(m)@[i]@, (#[trigger] final(m)@[i])@, rate, floor),
{
    m.par_iter_mut().for_each(|row| evaporate_row(row, rate, floor));
}

/// The evaporation phase of a round: every entry of the field is scaled by
/// the kept fraction and clamped up to `floor`, so afterwards no entry is
/// below the floor.
pub fn evaporate(m: &mut Vec<Vec<u64>>, n: usize, rate: u64, floor: u64)
    requires
        matrix_wf(old(m)@, n as nat),
        rate <= SCALE,
    ensures
        matrix_wf(final(m)@, n as nat),
        matrix_min(final(m)@, n as nat, floor),
        forall|i: int, j: int|
            0 <= i < n && 0 <= j < n
                ==> (#[trigger] final(m)@[i]@[j]) == evaporate_entry(old(m)@[i]@[j], rate, floor),
{
    evaporate_rows_parallel(m, rate, floor);
    proof {
        assert forall|i: int, j: int| 0 <= i < n && 0 <= j < n implies floor <= (#[trigger] m@[i]@[j])
            && m@[i]@[j] == evaporate_entry(old(m)@[i]@[j], rate, floor) by {
            assert(evaporated_row(old(m)@[i]@, m@[i]@, rate, floor));
            lemma_evaporate_entry_bounds(old(m)@[i]@[j], rate, floor);
        }
    }
}

/// The table as a sequence of rows of plain values.
pub open spec fn matrix_view(m: Seq<Vec<u64>>) -> Seq<Seq<u64>> {
    m.map_values(|row: Vec<u64>| row@)
}

/// What one symmetric deposit does to the table: both ordered entries of
/// the edge rise by `amount`, saturating; everything else stays.
pub open spec fn deposit_sym_spec(m: Seq<Seq<u64>>, i: int, j: int, amount: u64) -> Seq<Seq<u64>>
    recommends
        0 <= i < m.len(),
        0 <= j < m.len(),
        i != j,
{
    let m1 = m.update(i, m[i].update(j, sat_add_spec(m[i][j], amount)));
    m1.update(j, m1[j].update(i, sat_add_spec(m1[j][i], amount)))
}

/// Deposits `amount` on the undirected edge `(i, j)`: both ordered entries
/// rise by `amount` (saturating); every other entry is untouched.
pub fn deposit_symmetric(m: &mut Vec<Vec<u64>>, n: usize, i: usize, j: usize, amount: u64)
    requires
        matrix_wf(old(m)@, n as nat),
        i < n,
        j < n,
        i != j,
    ensures
        matrix_wf(final(m)@, n as nat),
        final(m)@[i as int]@[j as int] == sat_add_spec(old(m)@[i as int]@[j as int], amount),
        final(m)@[j as int]@[i as int] == sat_add_spec(old(m)@[j as int]@[i as int], amount),
        forall|p: int, q: int|
            0 <= p < n && 0 <= q < n && !(p == i && q == j) && !(p == j && q == i)
                ==> (#[trigger] final(m)@[p]@[q]) == old(m)@[p]@[q],
        forall|p: int, q: int|
            0 <= p < n && 0 <= q < n ==> old(m)@[p]@[q] <= (#[trigger] final(m)@[p]@[q]),
        matrix_view(final(m)@) == deposit_sym_spec(matrix_view(old(m)@), i as int, j as int, amount),
{
    let v1 = sat_add(m[i][j], amount);
    let row_i = &mut m[i];
    row_i.set(j, v1);
    let v2 = sat_add(m[j][i], amount);
    let row_j = &mut m[j];
    row_j.set(i, v2);
    proof {
        let pre = matrix_view(old(m)@);
        let post = matrix_view(m@);
        let goal = deposit_sym_spec(pre, i as int, j as int, amount);
        assert forall|p: int| 0 <= p < pre.len() implies post[p] =~= goal[p] by {
            assert(post[p] == m@[p]@);
            assert(pre[p] == old(m)@[p]@);
        }
        assert(post =~~= goal);
    }
}

} // verus!
