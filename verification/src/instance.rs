use vstd::prelude::*;

use crate::config::{DIST_MAX, N_MAX};
use crate::matrix::{matrix_max, matrix_wf};

verus! {

/// How edge weights of a problem are derived from its file.
#[derive(Debug, Clone, PartialEq)]
pub enum EdgeWeightType {
    Euc2D,
    Ceil2D,
    Geo,
    Att,
    Explicit,
    Unknown(String),
}

/// Layout of an explicit weight listing.
#[derive(Debug, Clone, PartialEq)]
pub enum EdgeWeightFormat {
    Function,
    FullMatrix,
    UpperRow,
    LowerRow,
    LowerDiagRow,
    UpperDiagRow,
    Unknown(String),
}

/// A problem node: its identifier from the file and its two coordinates in
/// fixed-point units.
#[derive(Debug, Clone)]
pub struct Node {
    pub id: usize,
    pub x: i64,
    pub y: i64,
}

/// A problem handed to the solver: a node count and the full pairwise
/// distance table in fixed-point units, along with what the file said about
/// itself. The table is computed by the surrounding program; the solver only
/// reads it.
pub struct TspInstance {
    pub name: String,
    pub tsp_type: String,
    pub comment: String,
    pub dimension: usize,
    pub edge_weight_type: EdgeWeightType,
    pub edge_weight_format: Option<EdgeWeightFormat>,
    pub node_coords: Option<Vec<Node>>,
    pub dist_matrix: Vec<Vec<u64>>,
}

impl TspInstance {
    /// A structurally valid instance: the table is square with one row per
    /// node, entries fit the solver's distance bound, and a node is at
    /// distance zero from itself.
    pub open spec fn wf(self) -> bool {
        &&& self.dimension <= N_MAX
        &&& matrix_wf(self.dist_matrix@, self.dimension as nat)
        &&& matrix_max(self.dist_matrix@, self.dimension as nat, DIST_MAX)
        &&& forall|i: int| 0 <= i < self.dimension ==> (#[trigger] self.dist_matrix@[i]@[i]) == 0
    }

    /// Distance of the ordered pair `(node1_idx, node2_idx)`.
    pub fn get_dist(&self, node1_idx: usize, node2_idx: usize) -> (d: u64)
        requires
            self.wf(),
            node1_idx < self.dimension,
            node2_idx < self.dimension,
        ensures
            d == self.dist_matrix@[node1_idx as int]@[node2_idx as int],
            d <= DIST_MAX,
    {
        self.dist_matrix[node1_idx][node2_idx]
    }
}

} // verus!
