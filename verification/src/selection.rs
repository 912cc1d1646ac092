use vstd::prelude::*;

use crate::ant::count_true;
use crate::config::{N_MAX, WEIGHT_CAP};
use crate::fixed::{fp_mul, fp_mul_spec, pow_fp, pow_fp_spec};
use crate::matrix::matrix_wf;
use vstd::seq_lib::lemma_seq_contains_after_push;

verus! {

/// Selection weight of the step from `cur` to `j`: the pheromone factor to
/// the power `alpha` times the desirability factor to the power `beta`, in
/// capped fixed-point arithmetic.
pub open spec fn weight_of(
    pher: Seq<Vec<u64>>,
    heur: Seq<Vec<u64>>,
    cur: int,
    j: int,
    alpha: u32,
    beta: u32,
) -> u64 {
    fp_mul_spec(pow_fp_spec(pher[cur]@[j], alpha as nat), pow_fp_spec(heur[cur]@[j], beta as nat))
}

/// The candidate list over the nodes below `j`, in ascending node order:
/// every unvisited node whose weight survives the positivity filter,
/// paired with its weight.
pub open spec fn candidates_upto(
    pher: Seq<Vec<u64>>,
    heur: Seq<Vec<u64>>,
    visited: Seq<bool>,
    cur: int,
    alpha: u32,
    beta: u32,
    j: nat,
) -> Seq<(usize, u64)>
    decreases j,
{
    if j == 0 {
        Seq::empty()
    } else {
        let rest = candidates_upto(pher, heur, visited, cur, alpha, beta, (j - 1) as nat);
        let w = weight_of(pher, heur, cur, j - 1, alpha, beta);
        if !visited[j - 1] && w >= 1 {
            rest.push((((j - 1) as usize), w))
        } else {
            rest
        }
    }
}

/// Sum of the weights of a candidate list.
pub open spec fn weights_sum(s: Seq<(usize, u64)>) -> int
    decreases s.len(),
{
    if s.len() == 0 {
        0
    } else {
        weights_sum(s.drop_last()) + s.last().1
    }
}

/// A weight sum is at least its list's length (weights are positive after
/// filtering) and at most one cap per entry.
pub proof fn lemma_weights_sum_bounds(s: Seq<(usize, u64)>)
    requires
        forall|k: int| 0 <= k < s.len() ==> 1 <= (#[trigger] s[k]).1 <= WEIGHT_CAP,
    ensures
        s.len() <= weights_sum(s) <= s.len() * WEIGHT_CAP,
    decreases s.len(),
{
    if s.len() > 0 {
        assert forall|k: int| 0 <= k < s.drop_last().len() implies 1 <= (#[trigger] s.drop_last()[k]).1
            <= WEIGHT_CAP by {
            assert(s.drop_last()[k] == s[k]);
        }
        lemma_weights_sum_bounds(s.drop_last());
    }
}

/// Every entry of a candidate list names an unvisited node below `j`,
/// carries exactly that node's weight, which passed the positivity filter,
/// and the nodes appear in strictly ascending order.
pub proof fn lemma_candidates_props(
    pher: Seq<Vec<u64>>,
    heur: Seq<Vec<u64>>,
    visited: Seq<bool>,
    cur: int,
    alpha: u32,
    beta: u32,
    j: nat,
)
    requires
        j <= usize::MAX,
    ensures
        forall|k: int|
            0 <= k < candidates_upto(pher, heur, visited, cur, alpha, beta, j).len() ==> {
                let c = #[trigger] candidates_upto(pher, heur, visited, cur, alpha, beta, j)[k];
                &&& c.0 < j
                &&& !visited[c.0 as int]
                &&& c.1 == weight_of(pher, heur, cur, c.0 as int, alpha, beta)
                &&& 1 <= c.1 <= WEIGHT_CAP
            },
        forall|k1: int, k2: int|
            0 <= k1 < k2 < candidates_upto(pher, heur, visited, cur, alpha, beta, j).len()
                ==> (#[trigger] candidates_upto(pher, heur, visited, cur, alpha, beta, j)[k1]).0 < (
            #[trigger] candidates_upto(pher, heur, visited, cur, alpha, beta, j)[k2]).0,
        candidates_upto(pher, heur, visited, cur, alpha, beta, j).len() <= j,
    decreases j,
{
    if j > 0 {
        lemma_candidates_props(pher, heur, visited, cur, alpha, beta, (j - 1) as nat);
        crate::fixed::lemma_fp_mul_cap(
            pow_fp_spec(pher[cur]@[j - 1], alpha as nat),
            pow_fp_spec(heur[cur]@[j - 1], beta as nat),
        );
        let prev = candidates_upto(pher, heur, visited, cur, alpha, beta, (j - 1) as nat);
        let cand = candidates_upto(pher, heur, visited, cur, alpha, beta, j);
        assert forall|k: int| 0 <= k < cand.len() implies {
            let c = #[trigger] cand[k];
            &&& c.0 < j
            &&& !visited[c.0 as int]
            &&& c.1 == weight_of(pher, heur, cur, c.0 as int, alpha, beta)
            &&& 1 <= c.1 <= WEIGHT_CAP
        } by {
            if k < prev.len() {
                assert(cand[k] == prev[k]);
            }
        }
        assert forall|k1: int, k2: int| 0 <= k1 < k2 < cand.len() implies (#[trigger] cand[k1]).0 < (
        #[trigger] cand[k2]).0 by {
            assert(cand[k1] == prev[k1]);
            if k2 < prev.len() {
                assert(cand[k2] == prev[k2]);
            } else {
                assert(prev[k1].0 < j - 1);
            }
        }
    }
}

/// Winner of the roulette scan for the draw `r`: the first candidate whose
/// running weight total reaches `r`, the last candidate if none does.
pub open spec fn roulette_spec(s: Seq<(usize, u64)>, r: int) -> usize
    decreases s.len(),
{
    if s.len() == 0 {
        0
    } else if s.len() == 1 {
        s[0].0
    } else if r <= s[0].1 {
        s[0].0
    } else {
        roulette_spec(s.drop_first(), r - s[0].1)
    }
}

/// Roulette-wheel selection: accumulate weights in candidate order and
/// stop at the first candidate whose running total reaches the draw; if
/// the draw runs past every candidate, the last one is selected. A single
/// surviving candidate is therefore selected no matter what the draw was.
pub fn roulette_pick(choices: &Vec<(usize, u64)>, r: u64) -> (node: usize)
    requires
        choices@.len() >= 1,
        weights_sum(choices@) <= u64::MAX,
    ensures
        node == roulette_spec(choices@, r as int),
        exists|k: int| 0 <= k < choices@.len() && (#[trigger] choices@[k]).0 == node,
        choices@.len() == 1 ==> node == choices@[0].0,
{
    let len = choices.len();
    let mut cum: u64 = 0;
    let mut i: usize = 0;
    proof {
        assert(choices@.skip(0) =~= choices@);
    }
    loop
        invariant
            len == choices@.len(),
            1 <= len,
            0 <= i < len,
            weights_sum(choices@) <= u64::MAX,
            cum as int == weights_sum(choices@.take(i as int)),
            roulette_spec(choices@, r as int) == roulette_spec(
                choices@.skip(i as int),
                r as int - cum,
            ),
            i > 0 ==> r as int > cum,
        decreases len - i,
    {
        proof {
            lemma_weights_take_succ(choices@, i as int);
            lemma_weights_sum_nonneg(choices@.take(i as int));
            lemma_weights_take_le(choices@, i as int + 1);
        }
        let w = choices[i].1;
        if i + 1 == len {
            proof {
                assert(choices@.skip(i as int).len() == 1);
                assert(choices@.skip(i as int)[0] == choices@[i as int]);
            }
            return choices[i].0;
        }
        cum = cum + w;
        if r <= cum {
            proof {
                assert(choices@.skip(i as int)[0] == choices@[i as int]);
                assert(choices@.skip(i as int).len() >= 2);
            }
            return choices[i].0;
        }
        proof {
            assert(choices@.skip(i as int)[0] == choices@[i as int]);
            assert(choices@.skip(i as int).drop_first() =~= choices@.skip(i as int + 1));
        }
        i = i + 1;
    }
}

/// Weight sums are never negative.
pub proof fn lemma_weights_sum_nonneg(s: Seq<(usize, u64)>)
    ensures
        weights_sum(s) >= 0,
    decreases s.len(),
{
    if s.len() > 0 {
        lemma_weights_sum_nonneg(s.drop_last());
    }
}

/// Extending a prefix by one candidate adds that candidate's weight.
pub proof fn lemma_weights_take_succ(s: Seq<(usize, u64)>, i: int)
    requires
        0 <= i < s.len(),
    ensures
        weights_sum(s.take(i + 1)) == weights_sum(s.take(i)) + s[i].1,
{
    assert(s.take(i + 1).drop_last() =~= s.take(i));
    assert(s.take(i + 1).last() == s[i]);
}

/// A prefix never sums to more than the whole list.
pub proof fn lemma_weights_take_le(s: Seq<(usize, u64)>, i: int)
    requires
        0 <= i <= s.len(),
    ensures
        weights_sum(s.take(i)) <= weights_sum(s),
    decreases s.len() - i,
{
    if i == s.len() {
        assert(s.take(i) =~= s);
    } else {
        lemma_weights_take_succ(s, i);
        lemma_weights_take_le(s, i + 1);
    }
}

/// The candidate scan of one step: every unvisited node's weight is
/// computed, those that pass the positivity filter are listed in ascending
/// node order, and their sum is returned beside them.
pub fn build_choices(
    pher: &Vec<Vec<u64>>,
    heur: &Vec<Vec<u64>>,
    visited: &Vec<bool>,
    current: usize,
    n: usize,
    alpha: u32,
    beta: u32,
) -> (res: (Vec<(usize, u64)>, u64))
    requires
        matrix_wf(pher@, n as nat),
        matrix_wf(heur@, n as nat),
        visited@.len() == n,
        current < n,
        n <= N_MAX,
    ensures
        res.0@ == candidates_upto(pher@, heur@, visited@, current as int, alpha, beta, n as nat),
        res.1 as int == weights_sum(res.0@),
{
    let mut choices: Vec<(usize, u64)> = Vec::new();
    let mut sum: u64 = 0;
    let mut j: usize = 0;
    while j < n
        invariant
            matrix_wf(pher@, n as nat),
            matrix_wf(heur@, n as nat),
            visited@.len() == n,
            current < n,
            n <= N_MAX,
            j <= n,
            choices@ == candidates_upto(
                pher@,
                heur@,
                visited@,
                current as int,
                alpha,
                beta,
                j as nat,
            ),
            sum as int == weights_sum(choices@),
            choices@.len() <= j,
            forall|k: int| 0 <= k < choices@.len() ==> 1 <= (#[trigger] choices@[k]).1 <= WEIGHT_CAP,
        decreases n - j,
    {
        if !visited[j] {
            let pw = pow_fp(pher[current][j], alpha);
            let hw = pow_fp(heur[current][j], beta);
            let w = fp_mul(pw, hw);
            if w >= 1 {
                proof {
                    lemma_weights_sum_bounds(choices@);
                    assert(choices@.push((j, w)).drop_last() =~= choices@);
                }
                choices.push((j, w));
                sum = sum + w;
            }
        }
        j = j + 1;
    }
    (choices, sum)
}

/// Lists the unvisited nodes in ascending order: exactly the nodes whose
/// flag is down, each exactly once, so a uniform draw of a position in the
/// list is a uniform draw among the unvisited nodes.
pub fn collect_unvisited(visited: &Vec<bool>) -> (unv: Vec<usize>)
    ensures
        forall|k: int|
            0 <= k < unv@.len()
                ==> (#[trigger] unv@[k]) < visited@.len() && !visited@[unv@[k] as int],
        forall|j: usize| j < visited@.len() && !visited@[j as int] ==> unv@.contains(j),
        forall|k1: int, k2: int| 0 <= k1 < k2 < unv@.len() ==> unv@[k1] < unv@[k2],
        unv@.no_duplicates(),
        unv@.len() + count_true(visited@) == visited@.len(),
{
    let n = visited.len();
    let mut unv: Vec<usize> = Vec::new();
    let mut j: usize = 0;
    while j < n
        invariant
            n == visited@.len(),
            j <= n,
            forall|k: int|
                0 <= k < unv@.len() ==> (#[trigger] unv@[k]) < j && !visited@[unv@[k] as int],
            forall|i: usize| i < j && !visited@[i as int] ==> unv@.contains(i),
            forall|k1: int, k2: int| 0 <= k1 < k2 < unv@.len() ==> unv@[k1] < unv@[k2],
            unv@.len() + count_true(visited@.take(j as int)) == j,
        decreases n - j,
    {
        proof {
            assert(visited@.take(j as int + 1).drop_last() =~= visited@.take(j as int));
        }
        if !visited[j] {
            proof {
                broadcast use lemma_seq_contains_after_push;

            }
            unv.push(j);
        }
        j = j + 1;
    }
    proof {
        assert(visited@.take(n as int) =~= visited@);
        assert forall|k1: int, k2: int| 0 <= k1 < k2 < unv@.len() implies unv@[k1] != unv@[k2] by {
            assert(unv@[k1] < unv@[k2]);
        }
    }
    unv
}

} // verus!
