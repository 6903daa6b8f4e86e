//! Descent into pair-capable trees: fixed-path steps that cannot fail, and
//! a runtime variant that reports unresolvable paths.
use vstd::prelude::*;
use crate::digest::Hasher;
use crate::model::{TreeView, branch, left_of, right_of};
use crate::tree::{MerkleError, Node, LeafNode, Pair};
use crate::concurrent::Tree;

verus! {

/// One step of a traversal path.
#[derive(Clone, Copy, Debug, PartialEq, Eq, Structural)]
pub enum PathStep {
    /// Descend into the left child.
    Left,
    /// Descend into the right child.
    Right,
    /// Stay at the anchor: the identity path.
    Noop,
}

/// The shape one step resolves to against an anchor shape.
pub open spec fn step_shape(p: PathStep, s: TreeView) -> TreeView {
    match p {
        PathStep::Left => left_of(s),
        PathStep::Right => right_of(s),
        PathStep::Noop => s,
    }
}

/// A step into a freshly built pair reads back exactly the child that went
/// in, and the identity step changes nothing.
pub proof fn lemma_step_projections(l: TreeView, r: TreeView, x: TreeView)
    ensures
        step_shape(PathStep::Left, branch(l, r)) == l,
        step_shape(PathStep::Right, branch(l, r)) == r,
        step_shape(PathStep::Noop, x) == x,
{
}

/// Fixed-path traversal: resolved by the pair capability alone, without
/// reference to the anchor's concrete value, so it cannot fail.
pub fn traverse_fixed<H: Hasher, T: LeafNode<H>, P: Pair<H, T>>(path: &PathStep, anchor: P) -> (c:
    T)
    ensures
        c.shape() == step_shape(*path, anchor.shape()),
{
    match path {
        PathStep::Left => anchor.left(),
        PathStep::Right => anchor.right(),
        PathStep::Noop => anchor.into_child(),
    }
}

/// Runtime traversal: resolves a step against the concrete shape of the
/// anchor, and fails exactly when a descent is asked of a node that is not
/// pair-capable.
pub fn traverse<H: Hasher>(path: &PathStep, anchor: &Tree<H>) -> (r: Result<Tree<H>, MerkleError>)
    ensures
        match r {
            Ok(c) => (path is Noop || anchor.shape() is Branch) && c.shape() == step_shape(
                *path,
                anchor.shape(),
            ),
            Err(e) => e == MerkleError::NavigationError && !(path is Noop) && !(anchor.shape()
                is Branch),
        },
{
    match path {
        PathStep::Noop => Ok(anchor.dup()),
        PathStep::Left => match anchor {
            Tree::Branch(c) => {
                proof {
                    c.lemma_is_branch();
                }
                Ok(c.left())
            },
            Tree::Leaf(_) => Err(MerkleError::NavigationError),
        },
        PathStep::Right => match anchor {
            Tree::Branch(c) => {
                proof {
                    c.lemma_is_branch();
                }
                Ok(c.right())
            },
            Tree::Leaf(_) => Err(MerkleError::NavigationError),
        },
    }
}

} // verus!
