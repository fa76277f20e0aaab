//! Trees of labels, for printing syntax trees: `termtree::Tree` of strings,
//! described by the labels it holds in pre-order with their depths.
use vstd::prelude::*;

verus! {

#[verifier::external_type_specification]
#[verifier::external_body]
#[verifier::reject_recursive_types(D)]
pub struct ExTree<D: core::fmt::Display>(termtree::Tree<D>);

/// What a `termtree::Tree` of strings holds: its labels in pre-order (the
/// root, then each leaf's tree in turn), each with its depth below the root.
pub uninterp spec fn tree_nodes(t: termtree::Tree<String>) -> Seq<(nat, Seq<char>)>;

/// A list of labels one level deeper.
pub open spec fn deeper(s: Seq<(nat, Seq<char>)>) -> Seq<(nat, Seq<char>)> {
    s.map_values(|e: (nat, Seq<char>)| ((e.0 + 1) as nat, e.1))
}

/// `termtree::Tree::new`: a tree of its root alone, so it holds one label at
/// depth 0.
#[verifier::external_body]
fn tree_new(root: String) -> (t: termtree::Tree<String>)
    ensures
        tree_nodes(t) == seq![(0nat, root@)],
{
    termtree::Tree::new(root)
}

/// `termtree::Tree::push`: the leaf's tree goes after the other leaves, so
/// its labels follow the tree's own, one level deeper.
#[verifier::external_body]
fn tree_push(t: &mut termtree::Tree<String>, leaf: termtree::Tree<String>)
    ensures
        tree_nodes(*final(t)) == tree_nodes(*old(t)) + deeper(tree_nodes(leaf)),
{
    t.push(leaf);
}

/// A tree of labels as a plain value.
pub enum TreeV {
    Node(Seq<char>, Seq<TreeV>),
}

/// A tree without leaves.
pub open spec fn leaf(s: Seq<char>) -> TreeV {
    TreeV::Node(s, seq![])
}

/// The root label of a tree.
pub open spec fn root_of(t: TreeV) -> Seq<char> {
    match t {
        TreeV::Node(r, _) => r,
    }
}

/// The leaves of a tree.
pub open spec fn leaves_of(t: TreeV) -> Seq<TreeV> {
    match t {
        TreeV::Node(_, ls) => ls,
    }
}

/// The labels of a tree in pre-order, with their depths.
pub open spec fn preorder(t: TreeV) -> Seq<(nat, Seq<char>)>
    decreases t,
{
    match t {
        TreeV::Node(root, ls) => seq![(0nat, root)] + leaves_preorder(ls),
    }
}

/// The labels of a list of leaves in pre-order, one level below their
/// parent.
pub open spec fn leaves_preorder(ls: Seq<TreeV>) -> Seq<(nat, Seq<char>)>
    decreases ls,
{
    if ls.len() == 0 {
        seq![]
    } else {
        leaves_preorder(ls.subrange(0, ls.len() - 1)) + deeper(preorder(ls[ls.len() - 1]))
    }
}

proof fn lemma_preorder_push(root: Seq<char>, ls: Seq<TreeV>, l: TreeV)
    ensures
        preorder(TreeV::Node(root, ls.push(l))) == preorder(TreeV::Node(root, ls)) + deeper(
            preorder(l),
        ),
{
    let p = ls.push(l);
    assert(p.subrange(0, p.len() - 1) =~= ls);
    assert(p[p.len() - 1] == l);
    assert(leaves_preorder(p) == leaves_preorder(ls) + deeper(preorder(l)));
    assert(seq![(0nat, root)] + (leaves_preorder(ls) + deeper(preorder(l))) =~= (seq![(0nat, root)]
        + leaves_preorder(ls)) + deeper(preorder(l)));
}

/// A tree of one label.
pub(crate) fn tree_leaf(root: String) -> (t: termtree::Tree<String>)
    ensures
        tree_nodes(t) == preorder(leaf(root@)),
{
    let ghost r = root@;
    let t = tree_new(root);
    assert(preorder(leaf(r)) =~= seq![(0nat, r)]) by {
        assert(leaves_preorder(seq![]) == Seq::<(nat, Seq<char>)>::empty());
    }
    t
}

/// Adds a leaf's tree to a tree whose labels are those of `Node(root, ls)`.
pub(crate) fn add_leaf(
    t: &mut termtree::Tree<String>,
    leaf: termtree::Tree<String>,
    Ghost(root): Ghost<Seq<char>>,
    Ghost(ls): Ghost<Seq<TreeV>>,
    Ghost(lv): Ghost<TreeV>,
)
    requires
        tree_nodes(*old(t)) == preorder(TreeV::Node(root, ls)),
        tree_nodes(leaf) == preorder(lv),
    ensures
        tree_nodes(*final(t)) == preorder(TreeV::Node(root, ls.push(lv))),
{
    tree_push(t, leaf);
    proof {
        lemma_preorder_push(root, ls, lv);
    }
}

} // verus!
