//! The mathematical model of a tree: its shape, the digest it commits to
//! under a combiner, and the shapes the three fill algorithms build.
use vstd::prelude::*;
use vstd::arithmetic::power2::{pow2, lemma_pow2_pos, lemma_pow2_strictly_increases};
use crate::digest::{Hasher, zero_node_seq};
use crate::tree::MerkleError;

verus! {

/// The shape of a tree: leaf digests at the bottom, binary branches above.
pub enum TreeView {
    Leaf { digest: Seq<u8> },
    Branch { left: Box<TreeView>, right: Box<TreeView> },
}

/// A leaf shape holding the digest `d`.
pub open spec fn leaf(d: Seq<u8>) -> TreeView {
    TreeView::Leaf { digest: d }
}

/// A branch shape with children `l` and `r`.
pub open spec fn branch(l: TreeView, r: TreeView) -> TreeView {
    TreeView::Branch { left: Box::new(l), right: Box::new(r) }
}

/// The left child of a branch shape (a leaf is its own left child).
pub open spec fn left_of(t: TreeView) -> TreeView {
    match t {
        TreeView::Leaf { digest } => TreeView::Leaf { digest },
        TreeView::Branch { left, right } => *left,
    }
}

/// The right child of a branch shape (a leaf is its own right child).
pub open spec fn right_of(t: TreeView) -> TreeView {
    match t {
        TreeView::Leaf { digest } => TreeView::Leaf { digest },
        TreeView::Branch { left, right } => *right,
    }
}

/// Reading a child back out of a freshly built branch yields the child that
/// went in.
pub proof fn lemma_pair_projections(l: TreeView, r: TreeView)
    ensures
        left_of(branch(l, r)) == l,
        right_of(branch(l, r)) == r,
{
}

/// The digest a shape commits to under the combiner `H`: a leaf is its own
/// digest, and a branch combines the digests of its children.
pub open spec fn root_of<H: Hasher>(t: TreeView) -> Seq<u8>
    decreases t,
{
    match t {
        TreeView::Leaf { digest } => digest,
        TreeView::Branch { left, right } => H::hash_spec(
            root_of::<H>(*left),
            root_of::<H>(*right),
        ),
    }
}

/// The perfect tree of depth `d` whose every leaf position is `s`.
pub open spec fn full_shape(s: TreeView, d: nat) -> TreeView
    decreases d,
{
    if d == 0 {
        s
    } else {
        branch(full_shape(s, (d - 1) as nat), full_shape(s, (d - 1) as nat))
    }
}

/// The tree of depth `d` whose first `len` leaf positions are `s` and whose
/// remainder is the canonical zero subtree. Zero occupancy is the
/// zero-subtree digest itself; a fully occupied half is a perfect tree; a
/// partially occupied half recurses.
pub open spec fn length_shape(s: TreeView, d: nat, len: nat) -> TreeView
    recommends
        len <= pow2(d),
    decreases d,
{
    if len == pow2(d) {
        full_shape(s, d)
    } else if len == 0 {
        leaf(zero_node_seq(d))
    } else if d == 0 {
        // out of domain: depth 0 holds at most one leaf
        s
    } else {
        let pivot = pow2((d - 1) as nat);
        if len <= pivot {
            branch(length_shape(s, (d - 1) as nat, len), leaf(zero_node_seq((d - 1) as nat)))
        } else {
            branch(full_shape(s, (d - 1) as nat), length_shape(s, (d - 1) as nat, (len - pivot) as nat))
        }
    }
}

/// The tree of depth `d` built from the ordered leaves `ss`, zero-padding
/// the unused positions, or the error that rules the leaf count out: more
/// leaves than `2^d` slots is a capacity failure, and a leaf count that a
/// depth-0 or depth-1 tree has no room to lay out is an ambiguity failure.
/// Depths past the 64-bit length domain always keep all content in the left
/// half.
pub open spec fn contents_spec(ss: Seq<TreeView>, d: nat) -> Result<TreeView, MerkleError>
    decreases d,
{
    let n = ss.len();
    if n == 0 {
        Ok(leaf(zero_node_seq(d)))
    } else if d == 0 {
        if n == 1 {
            Ok(ss[0])
        } else {
            Err(MerkleError::InputLengthError)
        }
    } else if d == 1 {
        if n == 1 {
            Ok(branch(ss[0], leaf(zero_node_seq(0))))
        } else if n == 2 {
            Ok(branch(ss[0], ss[1]))
        } else {
            Err(MerkleError::InputLengthError)
        }
    } else if d < 64 && n > pow2(d) {
        Err(MerkleError::TypeInputError)
    } else if d >= 64 || n <= pow2((d - 1) as nat) {
        match contents_spec(ss, (d - 1) as nat) {
            Ok(t) => Ok(branch(t, leaf(zero_node_seq((d - 1) as nat)))),
            Err(e) => Err(e),
        }
    } else {
        let pivot = pow2((d - 1) as nat) as int;
        match (contents_spec(ss.take(pivot), (d - 1) as nat), contents_spec(
            ss.skip(pivot),
            (d - 1) as nat,
        )) {
            (Ok(l), Ok(r)) => Ok(branch(l, r)),
            (Err(e), _) => Err(e),
            (_, Err(e)) => Err(e),
        }
    }
}

/// A fill by length at full occupancy builds the same shape — and so
/// commits to the same root digest — as a fill by depth.
pub proof fn lemma_full_length_matches_depth<H: Hasher>(s: TreeView, d: nat)
    ensures
        length_shape(s, d, pow2(d)) == full_shape(s, d),
        root_of::<H>(length_shape(s, d, pow2(d))) == root_of::<H>(full_shape(s, d)),
{
}

/// A fill by length at zero occupancy commits to the zero-subtree digest
/// of its depth, under every combiner.
pub proof fn lemma_zero_length_root<H: Hasher>(s: TreeView, d: nat)
    ensures
        root_of::<H>(length_shape(s, d, 0)) == zero_node_seq(d),
{
    lemma_pow2_pos(d);
}

/// An empty leaf sequence yields exactly the zero-subtree digest of its
/// depth: a bare leaf shape, no branch materialized, whose root is that
/// digest itself.
pub proof fn lemma_empty_contents<H: Hasher>(d: nat)
    ensures
        contents_spec(Seq::<TreeView>::empty(), d) == Ok::<TreeView, MerkleError>(
            leaf(zero_node_seq(d)),
        ),
        root_of::<H>(leaf(zero_node_seq(d))) == zero_node_seq(d),
{
}

/// More leaves than the depth's `2^depth` capacity is a capacity failure,
/// at every depth with room to descend. (At depths 0 and 1 the enumerated
/// base cases report the ambiguity failure instead.)
pub proof fn lemma_contents_overflow(ss: Seq<TreeView>, d: nat)
    requires
        2 <= d,
        ss.len() > pow2(d),
    ensures
        contents_spec(ss, d) == Err::<TreeView, MerkleError>(MerkleError::TypeInputError),
    decreases d,
{
    lemma_pow2_pos(d);
    if d >= 64 {
        lemma_pow2_strictly_increases((d - 1) as nat, d);
        lemma_contents_overflow(ss, (d - 1) as nat);
    }
}

/// One leaf at depth 1 pairs the leaf with the zero digest of depth 0, and
/// its root combines the two.
pub proof fn lemma_single_leaf_depth_one<H: Hasher>(a: Seq<u8>)
    ensures
        contents_spec(seq![leaf(a)], 1) == Ok::<TreeView, MerkleError>(
            branch(leaf(a), leaf(zero_node_seq(0))),
        ),
        root_of::<H>(branch(leaf(a), leaf(zero_node_seq(0)))) == H::hash_spec(
            a,
            zero_node_seq(0),
        ),
{
    assert(root_of::<H>(leaf(a)) == a);
    assert(root_of::<H>(leaf(zero_node_seq(0))) == zero_node_seq(0));
}

} // verus!
