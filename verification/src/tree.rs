//! The move-search tree, kept in a `slab_tree` arena.
//!
//! Verified code never looks inside the arena. It reads and grows it through
//! the functions below, whose contracts are stated over a model of the
//! arena: a map from node identifiers to slots, each slot holding the node's
//! data and the identifiers of its children in order. Those contracts are
//! trusted, not proved; each says which `slab_tree` call it stands for.
//!
//! The children of a node are the nodes that `NodeRef::children` walks: the
//! first child, then each next sibling.

use vstd::prelude::*;
use slab_tree::{NodeId, Tree, TreeBuilder};
use crate::schemas::TreeNode;

verus! {

/// `slab_tree::Tree`, declared so that it can be named; its inside stays
/// hidden.
#[verifier::external_type_specification]
#[verifier::external_body]
#[verifier::reject_recursive_types(T)]
pub struct ExTree<T>(Tree<T>);

/// `slab_tree::NodeId`, the identifier of a node; its inside stays hidden.
#[verifier::external_type_specification]
#[verifier::external_body]
pub struct ExNodeId(NodeId);

/// What the arena holds for one node.
pub ghost struct Slot {
    /// The node's data.
    pub data: TreeNode,
    /// The node's children, first to last.
    pub children: Seq<NodeId>,
}

/// The nodes of `tree`: every identifier that names a node of it, with that
/// node's slot.
pub uninterp spec fn tree_nodes(tree: Tree<TreeNode>) -> Map<NodeId, Slot>;

/// The identifier of the root of `tree`, if it has a root.
pub uninterp spec fn tree_root(tree: Tree<TreeNode>) -> Option<NodeId>;

/// Whether every node of `tree` records as its last child the node that
/// ends its chain of children, and records none where it has no child.
///
/// `NodeMut::append` links a new child behind the recorded last child, so it
/// lengthens the chain only in such a tree. A tree that `TreeBuilder` made
/// and that grew by `append` alone is one. `Tree::set_root` on a tree that
/// has a root makes one that is not: the new root gets the old one as first
/// child and no record of a last child.
pub uninterp spec fn tree_linked(tree: Tree<TreeNode>) -> bool;

/// Whether `id` is reached from `top` by following child links exactly
/// `steps` times.
pub open spec fn descends(nodes: Map<NodeId, Slot>, top: NodeId, id: NodeId, steps: nat) -> bool
    decreases steps,
{
    if steps == 0 {
        id == top
    } else {
        exists|k: int|
            0 <= k < nodes[top].children.len() && descends(
                nodes,
                #[trigger] nodes[top].children[k],
                id,
                (steps - 1) as nat,
            )
    }
}

/// Whether `id` is `top` or one of its descendants.
pub open spec fn in_subtree(nodes: Map<NodeId, Slot>, top: NodeId, id: NodeId) -> bool {
    exists|steps: nat| descends(nodes, top, id, steps)
}

/// Whether `listed` names exactly the nodes of the subtree under `top`,
/// starting with `top` itself.
pub open spec fn lists_subtree(nodes: Map<NodeId, Slot>, top: NodeId, listed: Seq<NodeId>) -> bool {
    &&& listed.len() > 0
    &&& listed[0] == top
    &&& forall|i: int| 0 <= i < listed.len() ==> nodes.contains_key(#[trigger] listed[i])
    &&& forall|id: NodeId| listed.contains(id) <==> #[trigger] in_subtree(nodes, top, id)
}

/// `TreeBuilder::new().with_root(root).build()`: a new tree whose only node
/// is its root, which holds `root`, has no children and records none.
#[verifier::external_body]
pub(crate) fn tree_with_root(root: TreeNode) -> (tree: Tree<TreeNode>)
    ensures
        tree_linked(tree),
        tree_root(tree) is Some,
        tree_nodes(tree) == Map::<NodeId, Slot>::empty().insert(
            tree_root(tree).unwrap(),
            Slot { data: root, children: Seq::empty() },
        ),
{
    TreeBuilder::new().with_root(root).build()
}

/// `Tree::root_id`: the identifier of the root, which names a node of the
/// tree.
#[verifier::external_body]
pub(crate) fn tree_root_id(tree: &Tree<TreeNode>) -> (root: Option<NodeId>)
    ensures
        root == tree_root(*tree),
        root is Some ==> tree_nodes(*tree).contains_key(root.unwrap()),
{
    tree.root_id()
}

/// `NodeMut::append` on the node `parent` of a tree whose records of last
/// children are right: a node with a fresh identifier and no children is
/// added, holding `data`, as the last child of `parent`, and is recorded as
/// such. Nothing else changes.
#[verifier::external_body]
pub(crate) fn tree_append(tree: &mut Tree<TreeNode>, parent: NodeId, data: TreeNode) -> (child:
    NodeId)
    requires
        tree_linked(*old(tree)),
        tree_nodes(*old(tree)).contains_key(parent),
    ensures
        tree_linked(*final(tree)),
        !tree_nodes(*old(tree)).contains_key(child),
        tree_root(*final(tree)) == tree_root(*old(tree)),
        tree_nodes(*final(tree)) == tree_nodes(*old(tree)).insert(
            parent,
            Slot {
                data: tree_nodes(*old(tree))[parent].data,
                children: tree_nodes(*old(tree))[parent].children.push(child),
            },
        ).insert(child, Slot { data, children: Seq::empty() }),
{
    tree.get_mut(parent).unwrap().append(data).node_id()
}

/// `NodeRef::children` on the node `id`: the identifiers of its children,
/// first to last, each of which names a node of the tree.
#[verifier::external_body]
pub(crate) fn tree_children(tree: &Tree<TreeNode>, id: NodeId) -> (children: Vec<NodeId>)
    requires
        tree_nodes(*tree).contains_key(id),
    ensures
        children@ == tree_nodes(*tree)[id].children,
        forall|i: int|
            0 <= i < children@.len() ==> tree_nodes(*tree).contains_key(#[trigger] children@[i]),
{
    tree.get(id).unwrap().children().map(|child| child.node_id()).collect()
}

/// `NodeRef::data` on the node `id`: a copy of the data it holds.
#[verifier::external_body]
pub(crate) fn tree_data(tree: &Tree<TreeNode>, id: NodeId) -> (data: TreeNode)
    requires
        tree_nodes(*tree).contains_key(id),
    ensures
        data == tree_nodes(*tree)[id].data,
{
    *tree.get(id).unwrap().data()
}

/// `NodeRef::traverse_level_order` on the node `top`: the identifiers of
/// `top` and all of its descendants, `top` first. Of the order of the rest
/// nothing is claimed.
#[verifier::external_body]
pub(crate) fn tree_level_order(tree: &Tree<TreeNode>, top: NodeId) -> (listed: Vec<NodeId>)
    requires
        tree_nodes(*tree).contains_key(top),
    ensures
        lists_subtree(tree_nodes(*tree), top, listed@),
{
    tree.get(top).unwrap().traverse_level_order().map(|node| node.node_id()).collect()
}

} // verus!
