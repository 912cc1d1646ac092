use vstd::prelude::*;

use crate::config::DIST_MAX;
use crate::matrix::{matrix_max, matrix_wf};
use vstd::seq_lib::lemma_seq_contains_after_push;

verus! {

/// Number of `true` entries of a flag sequence.
pub open spec fn count_true(s: Seq<bool>) -> nat
    decreases s.len(),
{
    if s.len() == 0 {
        0
    } else {
        count_true(s.drop_last()) + if s.last() {
            1nat
        } else {
            0nat
        }
    }
}

/// No flag sequence holds more `true` entries than entries.
pub proof fn lemma_count_true_le(s: Seq<bool>)
    ensures
        count_true(s) <= s.len(),
    decreases s.len(),
{
    if s.len() > 0 {
        lemma_count_true_le(s.drop_last());
    }
}

/// A flag sequence whose `true` count equals its length is all `true`.
pub proof fn lemma_count_true_all(s: Seq<bool>)
    requires
        count_true(s) == s.len(),
    ensures
        forall|j: int| 0 <= j < s.len() ==> s[j],
    decreases s.len(),
{
    if s.len() > 0 {
        lemma_count_true_le(s.drop_last());
        lemma_count_true_all(s.drop_last());
        assert forall|j: int| 0 <= j < s.len() implies s[j] by {
            if j < s.len() - 1 {
                assert(s.drop_last()[j]);
            }
        }
    }
}

/// Raising one `false` flag raises the `true` count by exactly one.
pub proof fn lemma_count_true_update(s: Seq<bool>, i: int)
    requires
        0 <= i < s.len(),
        !s[i],
    ensures
        count_true(s.update(i, true)) == count_true(s) + 1,
    decreases s.len(),
{
    let t = s.update(i, true);
    if i == s.len() - 1 {
        assert(t.drop_last() =~= s.drop_last());
    } else {
        assert(t.drop_last() =~= s.drop_last().update(i, true));
        lemma_count_true_update(s.drop_last(), i);
    }
}

/// Appending a flag adds its value to the `true` count.
pub proof fn lemma_count_true_push(s: Seq<bool>, b: bool)
    ensures
        count_true(s.push(b)) == count_true(s) + if b {
            1nat
        } else {
            0nat
        },
{
    assert(s.push(b).drop_last() =~= s);
}

/// Length of the open walk along `tour`: the sum of the distances of its
/// consecutive ordered pairs.
pub open spec fn path_len(tour: Seq<usize>, dist: Seq<Vec<u64>>) -> int
    decreases tour.len(),
{
    if tour.len() <= 1 {
        0
    } else {
        path_len(tour.drop_last(), dist) + dist[tour[tour.len() - 2] as int]@[tour[tour.len()
            - 1] as int]
    }
}

/// Length of the closed tour along `tour`: the open walk plus the edge from
/// the last node back to the first.
pub open spec fn cycle_len(tour: Seq<usize>, dist: Seq<Vec<u64>>) -> int {
    if tour.len() == 0 {
        0
    } else {
        path_len(tour, dist) + dist[tour.last() as int]@[tour[0] as int]
    }
}

/// A walk over an `n` by `n` table with entries at most `DIST_MAX` is
/// non-negative and at most one `DIST_MAX` per step.
pub proof fn lemma_path_len_bound(tour: Seq<usize>, dist: Seq<Vec<u64>>, n: nat)
    requires
        matrix_wf(dist, n),
        matrix_max(dist, n, DIST_MAX),
        forall|k: int| 0 <= k < tour.len() ==> (#[trigger] tour[k]) < n,
        tour.len() >= 1,
    ensures
        0 <= path_len(tour, dist) <= (tour.len() - 1) * DIST_MAX,
    decreases tour.len(),
{
    if tour.len() > 1 {
        lemma_path_len_bound(tour.drop_last(), dist, n);
    }
}

/// Appending a node extends the walk by the edge from the old end to it.
pub proof fn lemma_path_len_push(t: Seq<usize>, dist: Seq<Vec<u64>>, x: usize)
    requires
        t.len() >= 1,
    ensures
        path_len(t.push(x), dist) == path_len(t, dist) + dist[t.last() as int]@[x as int],
{
    let p = t.push(x);
    assert(p.drop_last() =~= t);
    assert(p[p.len() - 2] == t.last());
    assert(p[p.len() - 1] == x);
}

/// A closed tour over an `n` by `n` table with entries at most `DIST_MAX`
/// is non-negative and at most one `DIST_MAX` per node.
pub proof fn lemma_cycle_len_bound(tour: Seq<usize>, dist: Seq<Vec<u64>>, n: nat)
    requires
        matrix_wf(dist, n),
        matrix_max(dist, n, DIST_MAX),
        forall|k: int| 0 <= k < tour.len() ==> (#[trigger] tour[k]) < n,
        tour.len() >= 1,
    ensures
        0 <= cycle_len(tour, dist) <= tour.len() * DIST_MAX,
{
    lemma_path_len_bound(tour, dist, n);
    assert(dist[tour.last() as int]@[tour[0] as int] <= DIST_MAX);
}

/// `s` lists every node below `n` exactly once.
pub open spec fn is_permutation(s: Seq<usize>, n: nat) -> bool {
    &&& s.len() == n
    &&& s.no_duplicates()
    &&& forall|k: int| 0 <= k < s.len() ==> (#[trigger] s[k]) < n
    &&& forall|j: usize| j < n ==> s.contains(j)
}

/// One candidate-tour builder: the nodes visited so far in order, a flag
/// per node, the node the ant stands on, and the accumulated length in
/// fixed-point units.
pub struct Ant {
    pub tour: Vec<usize>,
    pub visited: Vec<bool>,
    pub current_node_idx: usize,
    pub tour_length: u64,
}

impl Ant {
    /// The state every ant keeps between steps: the tour never repeats a
    /// node, stays within the node count, agrees with the flags, and ends
    /// at the node the ant stands on.
    pub open spec fn inv(self) -> bool {
        let n = self.visited@.len();
        &&& self.tour@.len() <= n
        &&& self.tour@.no_duplicates()
        &&& forall|k: int| 0 <= k < self.tour@.len() ==> (#[trigger] self.tour@[k]) < n
        &&& forall|j: usize|
            j < n ==> ((#[trigger] self.visited@[j as int]) <==> self.tour@.contains(j))
        &&& count_true(self.visited@) == self.tour@.len()
        &&& self.tour@.len() > 0 ==> self.current_node_idx == self.tour@.last()
    }

    /// An ant at its starting node: only that node is visited and the tour
    /// holds it alone. With no nodes at all the tour is empty.
    pub fn new(start_node: usize, num_nodes: usize) -> (ant: Ant)
        requires
            num_nodes == 0 || start_node < num_nodes,
        ensures
            ant.inv(),
            ant.visited@.len() == num_nodes,
            ant.tour_length == 0,
            num_nodes == 0 ==> ant.tour@ == Seq::<usize>::empty(),
            num_nodes > 0 ==> ant.tour@ == seq![start_node],
            num_nodes > 0 ==> ant.current_node_idx == start_node,
    {
        let mut visited: Vec<bool> = Vec::new();
        let mut k: usize = 0;
        while k < num_nodes
            invariant
                k <= num_nodes,
                visited@.len() == k,
                count_true(visited@) == 0,
                forall|j: int| 0 <= j < k ==> !(#[trigger] visited@[j]),
            decreases num_nodes - k,
        {
            proof {
                lemma_count_true_push(visited@, false);
            }
            visited.push(false);
            k = k + 1;
        }
        if num_nodes > 0 {
            proof {
                lemma_count_true_update(visited@, start_node as int);
            }
            visited.set(start_node, true);
        }
        let mut tour: Vec<usize> = Vec::new();
        if num_nodes > 0 {
            tour.push(start_node);
        }
        let ant = Ant { tour, visited, current_node_idx: start_node, tour_length: 0 };
        proof {
            if num_nodes > 0 {
                assert forall|j: usize|
                    j < num_nodes implies ((#[trigger] ant.visited@[j as int])
                    <==> ant.tour@.contains(j)) by {
                    if ant.tour@.contains(j) {
                        assert(ant.tour@[choose|k: int|
                            0 <= k < ant.tour@.len() && ant.tour@[k] == j] == j);
                    }
                    if j == start_node {
                        assert(ant.tour@[0] == start_node);
                    }
                }
            }
        }
        ant
    }

    /// One step of the walk: append `node_idx`, mark it visited, stand on
    /// it, and add the traversed distance to the accumulated length.
    pub fn visit_node(&mut self, node_idx: usize, distance: u64)
        requires
            old(self).inv(),
            node_idx < old(self).visited@.len(),
            !old(self).visited@[node_idx as int],
            old(self).tour_length + distance <= u64::MAX,
        ensures
            final(self).inv(),
            final(self).visited@.len() == old(self).visited@.len(),
            final(self).tour@ == old(self).tour@.push(node_idx),
            final(self).visited@ == old(self).visited@.update(node_idx as int, true),
            final(self).current_node_idx == node_idx,
            final(self).tour_length == old(self).tour_length + distance,
    {
        proof {
            lemma_count_true_update(self.visited@, node_idx as int);
            lemma_count_true_le(self.visited@);
            if count_true(self.visited@) == self.visited@.len() {
                lemma_count_true_all(self.visited@);
            }
        }
        self.tour.push(node_idx);
        self.visited.set(node_idx, true);
        self.current_node_idx = node_idx;
        self.tour_length = self.tour_length + distance;
        proof {
            broadcast use lemma_seq_contains_after_push;

            let t_old = old(self).tour@;
            let t_new = self.tour@;
            assert(!t_old.contains(node_idx));
            assert forall|i: int, j: int| 0 <= i < j < t_new.len() implies t_new[i] != t_new[j] by {
                if j < t_new.len() - 1 {
                    assert(t_old[i] != t_old[j]);
                } else {
                    assert(t_new[i] == t_old[i]);
                    assert(t_old.contains(t_old[i]));
                }
            }
            let n = self.visited@.len();
            assert forall|j: usize|
                j < n implies ((#[trigger] self.visited@[j as int]) <==> t_new.contains(j)) by {
                assert(t_new =~= t_old.push(node_idx));
                lemma_seq_contains_after_push(t_old, node_idx, j);
                assert(t_new.contains(j) <==> (j == node_idx || t_old.contains(j)));
                if j != node_idx {
                    assert(self.visited@[j as int] == old(self).visited@[j as int]);
                    assert(old(self).visited@[j as int] <==> t_old.contains(j));
                }
            }
        }
    }

    /// Whether the tour holds every one of the `num_nodes` nodes.
    pub fn tour_completed(&self, num_nodes: usize) -> (complete: bool)
        ensures
            complete == (self.tour@.len() == num_nodes),
    {
        self.tour.len() == num_nodes
    }
}

} // verus!
