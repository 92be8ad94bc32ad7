//! A ready-made tree node: an identifier, a name, a collection flag and
//! children, proved to meet `OutlinerNode`'s contract.

use vstd::prelude::*;
use crate::traits::OutlinerNode;

verus! {

broadcast use vstd::std_specs::vec::group_vec_axioms;

/// A node of a tree held in memory.
#[derive(Debug)]
pub struct TreeNode {
    /// The node's identifier.
    pub id: u64,
    /// The text shown for it.
    pub name: String,
    /// Whether it can hold children.
    pub is_collection: bool,
    /// Its children, in display order.
    pub children: Vec<TreeNode>,
}

/// One more than the height of the tallest child; one for a leaf.
pub open spec fn node_height(n: TreeNode) -> nat
    decreases n,
{
    1 + children_height(n, n.children@.len())
}

/// The largest height among the first `i` children of `n`.
pub open spec fn children_height(n: TreeNode, i: nat) -> nat
    decreases n, i,
{
    if i == 0 || i > n.children@.len() {
        0
    } else {
        let a = children_height(n, (i - 1) as nat);
        let b = node_height(n.children[i - 1]);
        if a > b {
            a
        } else {
            b
        }
    }
}

proof fn lemma_children_height(n: TreeNode, i: nat, k: int)
    requires
        0 <= k < i <= n.children@.len(),
    ensures
        node_height(n.children@[k]) <= children_height(n, i),
    decreases i,
{
    if k < i - 1 {
        lemma_children_height(n, (i - 1) as nat, k);
    }
}

impl OutlinerNode for TreeNode {
    type Id = u64;

    open spec fn node_id(&self) -> u64 {
        self.id
    }

    open spec fn node_is_collection(&self) -> bool {
        self.is_collection
    }

    open spec fn node_children(&self) -> Seq<TreeNode> {
        self.children@
    }

    open spec fn height(&self) -> nat {
        node_height(*self)
    }

    open spec fn same_apart_from_children(&self, other: &TreeNode) -> bool {
        self.id == other.id && self.name@ == other.name@ && self.is_collection == other.is_collection
    }

    fn id(&self) -> (r: u64) {
        self.id
    }

    fn name(&self) -> &str {
        self.name.as_str()
    }

    fn is_collection(&self) -> (r: bool) {
        self.is_collection
    }

    fn children(&self) -> (r: &[TreeNode]) {
        proof {
            assert forall|i: int| 0 <= i < self.children@.len() implies #[trigger] self.children@[i].height() < self.height() by {
                lemma_children_height(*self, self.children@.len(), i);
            }
        }
        self.children.as_slice()
    }

    fn children_mut(&mut self) -> (r: &mut Vec<TreeNode>) {
        &mut self.children
    }
}

} // verus!
