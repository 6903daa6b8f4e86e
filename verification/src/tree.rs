//! The node/pair algebra and the three subtree-fill constructors.
use vstd::prelude::*;
use vstd::arithmetic::power2::{pow2, lemma_pow2_pos, lemma2_to64, lemma_pow2_unfold,
    lemma_pow2_strictly_increases};
use vstd::bits::{lemma_u64_shl_is_mul, lemma_u64_pow2_no_overflow};
use crate::digest::{Hasher, Root, zero_nodes, zero_node_seq};
use crate::model::{TreeView, branch, leaf, left_of, right_of, root_of, full_shape,
    length_shape, contents_spec};

verus! {

/// The closed set of failure kinds.
#[derive(Clone, Copy, Debug, PartialEq, Eq, Structural)]
pub enum MerkleError {
    /// A requested length or leaf count exceeds the structural capacity
    /// (`2^depth`) available at the requested depth.
    TypeInputError,
    /// A leaf count is structurally ambiguous at a depth with no room to
    /// disambiguate it.
    InputLengthError,
    /// A runtime traversal path cannot be resolved against the concrete
    /// shape of the node it is applied to.
    NavigationError,
}

/// A tree node: anything that can yield its root digest given a combiner.
pub trait Node<H: Hasher>: Sized {
    /// The shape this node stands for: the tree of leaf digests below it.
    spec fn shape(&self) -> TreeView;

    /// Duplicate this node, without aliasing any mutable state.
    fn dup(&self) -> (r: Self)
        ensures
            r.shape() == self.shape(),
    ;

    /// This node's root digest under the combiner `h`.
    fn merkle_root(&self, h: &H) -> (r: Root)
        ensures
            r@ == root_of::<H>(self.shape()),
    ;
}

/// A node type that can stand for a bare digest leaf: the padding the fill
/// algorithms put in unoccupied positions. Every child type of a [`Pair`]
/// can; a composite alone cannot.
pub trait LeafNode<H: Hasher>: Node<H> {
    /// The leaf node holding the digest `r`.
    fn from_root(r: Root) -> (n: Self)
        ensures
            n.shape() == leaf(r@),
    ;
}

/// A raw digest is a leaf: its root is itself, whatever the combiner.
impl<H: Hasher> Node<H> for Root {
    open spec fn shape(&self) -> TreeView {
        leaf(self@)
    }

    fn dup(&self) -> (r: Self) {
        *self
    }

    fn merkle_root(&self, h: &H) -> (r: Root) {
        *self
    }
}

impl<H: Hasher> LeafNode<H> for Root {
    fn from_root(r: Root) -> (n: Self) {
        r
    }
}

/// A composite node: exactly two children of one node type `T`, composed
/// under the combiner `H`.
pub trait Pair<H: Hasher, T: LeafNode<H>>: Node<H> + Sized {
    /// Build the composite of the children `l` and `r`.
    fn pair(l: T, r: T) -> (p: Self)
        ensures
            p.shape() == branch(l.shape(), r.shape()),
    ;

    /// The left child, duplicated out of the composite.
    fn left(&self) -> (c: T)
        ensures
            c.shape() == left_of(self.shape()),
    ;

    /// The right child, duplicated out of the composite.
    fn right(&self) -> (c: T)
        ensures
            c.shape() == right_of(self.shape()),
    ;

    /// This composite as a child node of the next level up, keeping its
    /// shape.
    fn into_child(self) -> (c: T)
        ensures
            c.shape() == self.shape(),
    ;

    /// A composite always has exactly two children.
    proof fn lemma_is_branch(&self)
        ensures
            self.shape() is Branch,
    ;

    /// The composite holding the leaf `e` twice.
    fn mono(e: T) -> (p: Self)
        ensures
            p.shape() == branch(e.shape(), e.shape()),
    {
        let d = e.dup();
        Self::pair(d, e)
    }

    /// A new composite with the left child replaced by `l`.
    fn rebind_left(&self, l: T) -> (p: Self)
        ensures
            p.shape() == branch(l.shape(), right_of(self.shape())),
    {
        Self::pair(l, self.right())
    }

    /// A new composite with the right child replaced by `r`.
    fn rebind_right(&self, r: T) -> (p: Self)
        ensures
            p.shape() == branch(left_of(self.shape()), r.shape()),
    {
        Self::pair(self.left(), r)
    }

    /// The perfect tree of the given depth with a duplicate of `bottom` in
    /// every leaf position.
    fn subtree_fill_depth(bottom: T, depth: u8) -> (t: T)
        ensures
            t.shape() == full_shape(bottom.shape(), depth as nat),
    {
        let ghost bshape = bottom.shape();
        let mut out = bottom;
        let mut i: u8 = 0;
        while i < depth
            invariant
                i <= depth,
                out.shape() == full_shape(bshape, i as nat),
            decreases depth - i,
        {
            out = Self::mono(out).into_child();
            i += 1;
        }
        out
    }
}

/// The shapes of a sequence of nodes, leaves first.
pub open spec fn shapes<H: Hasher, T: Node<H>>(s: Seq<T>) -> Seq<TreeView> {
    s.map(|i: int, x: T| x.shape())
}

/// Builds the tree of the given depth from the explicit leaf sequence
/// `nodes`, zero-padding the unused positions. The one body behind every
/// pair type's fill-by-contents entry point.
pub fn fill_contents<H: Hasher, T: LeafNode<H>, P: Pair<H, T>>(nodes: &[T], depth: u8) -> (r: Result<
    T,
    MerkleError,
>)
    ensures
        match (r, contents_spec(shapes(nodes@), depth as nat)) {
            (Ok(t), Ok(v)) => t.shape() == v,
            (Err(a), Err(b)) => a == b,
            _ => false,
        },
{
    let table = zero_nodes();
    let n = nodes.len();
    proof {
        assert(nodes@.subrange(0, n as int) =~= nodes@);
    }
    fill_contents_from::<H, T, P>(nodes, 0, n, depth, &table)
}

/// The recursion behind [`fill_contents`]: builds the range `lo..hi` of
/// `nodes` at `depth`, sharing one precomputed zero-subtree table.
fn fill_contents_from<H: Hasher, T: LeafNode<H>, P: Pair<H, T>>(
    nodes: &[T],
    lo: usize,
    hi: usize,
    depth: u8,
    table: &Vec<Root>,
) -> (r: Result<T, MerkleError>)
    requires
        lo <= hi <= nodes@.len(),
        table.len() == 256,
        forall|i: int| 0 <= i < 256 ==> table[i]@ == zero_node_seq(i as nat),
    ensures
        match (r, contents_spec(shapes(nodes@.subrange(lo as int, hi as int)), depth as nat)) {
            (Ok(t), Ok(v)) => t.shape() == v,
            (Err(a), Err(b)) => a == b,
            _ => false,
        },
    decreases depth,
{
    let ghost ss = shapes(nodes@.subrange(lo as int, hi as int));
    let n = hi - lo;
    if n == 0 {
        Ok(T::from_root(table[depth as usize]))
    } else if depth == 0 {
        if n == 1 {
            Ok(nodes[lo].dup())
        } else {
            Err(MerkleError::InputLengthError)
        }
    } else if depth == 1 {
        if n == 1 {
            Ok(P::pair(nodes[lo].dup(), T::from_root(table[0])).into_child())
        } else if n == 2 {
            Ok(P::pair(nodes[lo].dup(), nodes[lo + 1].dup()).into_child())
        } else {
            Err(MerkleError::InputLengthError)
        }
    } else if depth <= 63 {
        proof {
            lemma_u64_pow2_no_overflow(depth as nat);
            lemma_u64_shl_is_mul(1u64, depth as u64);
            lemma_u64_pow2_no_overflow((depth - 1) as nat);
            lemma_u64_shl_is_mul(1u64, (depth - 1) as u64);
        }
        let cap: u64 = 1u64 << (depth as u64);
        let pivot: u64 = 1u64 << ((depth - 1) as u64);
        if (n as u64) > cap {
            Err(MerkleError::TypeInputError)
        } else if (n as u64) <= pivot {
            match fill_contents_from::<H, T, P>(nodes, lo, hi, depth - 1, table) {
                Ok(t) => Ok(P::pair(t, T::from_root(table[(depth - 1) as usize])).into_child()),
                Err(e) => Err(e),
            }
        } else {
            let mid = lo + (pivot as usize);
            proof {
                assert(shapes(nodes@.subrange(lo as int, mid as int)) =~= ss.take(pivot as int));
                assert(shapes(nodes@.subrange(mid as int, hi as int)) =~= ss.skip(pivot as int));
            }
            match fill_contents_from::<H, T, P>(nodes, lo, mid, depth - 1, table) {
                Ok(l) => match fill_contents_from::<H, T, P>(nodes, mid, hi, depth - 1, table) {
                    Ok(r) => Ok(P::pair(l, r).into_child()),
                    Err(e) => Err(e),
                },
                Err(e) => Err(e),
            }
        }
    } else {
        // past the 64-bit length domain every leaf count fits the left half
        match fill_contents_from::<H, T, P>(nodes, lo, hi, depth - 1, table) {
            Ok(t) => Ok(P::pair(t, T::from_root(table[(depth - 1) as usize])).into_child()),
            Err(e) => Err(e),
        }
    }
}

/// Builds the tree of the given depth whose first `length` leaf positions
/// hold duplicates of `bottom`, zero-padding the remainder. The one body
/// behind every pair type's fill-by-length entry point.
pub fn fill_length<H: Hasher, T: LeafNode<H>, P: Pair<H, T>>(
    bottom: T,
    depth: u8,
    length: u64,
) -> (r: Result<T, MerkleError>)
    ensures
        r is Ok <==> length as nat <= pow2(depth as nat),
        r matches Ok(t) ==> t.shape() == length_shape(bottom.shape(), depth as nat, length as nat),
        r matches Err(e) ==> e == MerkleError::TypeInputError,
{
    if depth <= 63 {
        proof {
            lemma_u64_pow2_no_overflow(depth as nat);
            lemma_u64_shl_is_mul(1u64, depth as u64);
        }
        let anchor: u64 = 1u64 << (depth as u64);
        if length > anchor {
            return Err(MerkleError::TypeInputError);
        }
    } else {
        proof {
            lemma2_to64();
            if depth > 64 {
                lemma_pow2_strictly_increases(64, depth as nat);
            }
        }
    }
    let table = zero_nodes();
    Ok(fill_length_from::<H, T, P>(bottom, depth, length, &table))
}

/// The recursion behind [`fill_length`], sharing one precomputed
/// zero-subtree table across all levels.
fn fill_length_from<H: Hasher, T: LeafNode<H>, P: Pair<H, T>>(
    bottom: T,
    depth: u8,
    length: u64,
    table: &Vec<Root>,
) -> (t: T)
    requires
        length as nat <= pow2(depth as nat),
        table.len() == 256,
        forall|i: int| 0 <= i < 256 ==> table[i]@ == zero_node_seq(i as nat),
    ensures
        t.shape() == length_shape(bottom.shape(), depth as nat, length as nat),
    decreases depth,
{
    if length == 0 {
        proof {
            lemma_pow2_pos(depth as nat);
        }
        T::from_root(table[depth as usize])
    } else if depth == 0 {
        proof {
            lemma2_to64();
        }
        bottom
    } else if depth >= 65 {
        // a 64-bit occupancy is always confined to the left half
        proof {
            lemma2_to64();
            if depth > 65 {
                lemma_pow2_strictly_increases(64, (depth - 1) as nat);
            }
            lemma_pow2_strictly_increases((depth - 1) as nat, depth as nat);
        }
        let left = fill_length_from::<H, T, P>(bottom, depth - 1, length, table);
        let z = T::from_root(table[(depth - 1) as usize]);
        P::pair(left, z).into_child()
    } else {
        proof {
            lemma_u64_pow2_no_overflow((depth - 1) as nat);
            lemma_u64_shl_is_mul(1u64, (depth - 1) as u64);
            lemma_pow2_unfold(depth as nat);
            if depth == 64 {
                lemma2_to64();
            }
        }
        let pivot: u64 = 1u64 << ((depth - 1) as u64);
        let is_full = depth <= 63 && {
            proof {
                lemma_u64_pow2_no_overflow(depth as nat);
                lemma_u64_shl_is_mul(1u64, depth as u64);
            }
            length == (1u64 << (depth as u64))
        };
        if is_full {
            P::subtree_fill_depth(bottom, depth)
        } else if length <= pivot {
            let left = fill_length_from::<H, T, P>(bottom, depth - 1, length, table);
            let z = T::from_root(table[(depth - 1) as usize]);
            P::pair(left, z).into_child()
        } else {
            let left = P::subtree_fill_depth(bottom.dup(), depth - 1);
            let right = fill_length_from::<H, T, P>(bottom, depth - 1, length - pivot, table);
            P::pair(left, right).into_child()
        }
    }
}

} // verus!
