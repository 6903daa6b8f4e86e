//! The lazily-caching composite node, and the closed tree type whose
//! children it owns.
use vstd::prelude::*;
use vstd::rwlock::{RwLock, RwLockPredicate};
use vstd::arithmetic::power2::pow2;
use core::marker::PhantomData;
use crate::digest::{Hasher, Root};
use crate::model::{TreeView, branch, leaf, root_of, length_shape, contents_spec};
use crate::tree::{MerkleError, Node, LeafNode, Pair, fill_length, fill_contents, shapes};

verus! {

/// The lock invariant of a composite's cache: either still unset, or the
/// one digest the composite's shape commits to. Every reader that finds a
/// value therefore finds the same value. The unset state is explicit
/// rather than an in-band all-zero sentinel, which a legitimately computed
/// root could collide with.
pub struct CachePred {
    pub expected: Seq<u8>,
}

impl RwLockPredicate<Option<Root>> for CachePred {
    open spec fn inv(self, v: Option<Root>) -> bool {
        v matches Some(d) ==> d@ == self.expected
    }
}

/// A node of the closed tree form: a raw digest leaf, or a composite.
/// Closing the node set lets a freshly built composite stand as a child of
/// the next level up, which the recursive fill algorithms need.
pub enum Tree<H: Hasher> {
    /// A bare digest.
    Leaf(Root),
    /// A composite with its own cached root.
    Branch(Box<Commit<H>>),
}

/// The lazily-caching composite node: it owns exactly two children from
/// construction on, and memoizes its root digest behind a verified
/// reader-writer lock. The cache moves one way, from unset to computed;
/// the check of the cache and the store of the computed digest sit in one
/// critical section, so concurrent callers each observe the single
/// computed value.
pub struct Commit<H: Hasher> {
    left: Tree<H>,
    right: Tree<H>,
    cache: RwLock<Option<Root>, CachePred>,
    combiner: PhantomData<H>,
}

/// The shape a composite stands for: a branch over its children's shapes.
pub closed spec fn commit_shape<H: Hasher>(c: Commit<H>) -> TreeView
    decreases c,
{
    branch(tree_shape(c.left), tree_shape(c.right))
}

/// The shape a tree node stands for.
pub open spec fn tree_shape<H: Hasher>(t: Tree<H>) -> TreeView
    decreases t,
{
    match t {
        Tree::Leaf(d) => leaf(d@),
        Tree::Branch(c) => commit_shape(*c),
    }
}

impl<H: Hasher> Commit<H> {
    #[verifier::type_invariant]
    spec fn cache_wf(self) -> bool {
        self.cache.pred() == (CachePred {
            expected: root_of::<H>(commit_shape(self)),
        })
    }
}

/// Builds a composite over two children, its cache unset.
fn new_commit<H: Hasher>(l: Tree<H>, r: Tree<H>) -> (c: Commit<H>)
    ensures
        commit_shape(c) == branch(tree_shape(l), tree_shape(r)),
{
    let ghost expected = root_of::<H>(branch(tree_shape(l), tree_shape(r)));
    Commit {
        left: l,
        right: r,
        cache: RwLock::new(None, Ghost(CachePred { expected })),
        combiner: PhantomData,
    }
}

/// Duplicates a tree node; fresh composites start with an unset cache.
fn tree_dup<H: Hasher>(t: &Tree<H>) -> (r: Tree<H>)
    ensures
        tree_shape(r) == tree_shape(*t),
    decreases *t,
{
    match t {
        Tree::Leaf(d) => Tree::Leaf(*d),
        Tree::Branch(c) => Tree::Branch(Box::new(commit_dup(&**c))),
    }
}

/// Duplicates a composite without aliasing its lock.
fn commit_dup<H: Hasher>(c: &Commit<H>) -> (r: Commit<H>)
    ensures
        commit_shape(r) == commit_shape(*c),
    decreases *c,
{
    let l = tree_dup(&c.left);
    let r = tree_dup(&c.right);
    new_commit(l, r)
}

/// The root digest of a tree node under the combiner `h`.
fn tree_root<H: Hasher>(t: &Tree<H>, h: &H) -> (r: Root)
    ensures
        r@ == root_of::<H>(tree_shape(*t)),
    decreases *t,
{
    match t {
        Tree::Leaf(d) => *d,
        Tree::Branch(c) => commit_root(&**c, h),
    }
}

/// The root digest of a composite: the cached value if one was ever
/// computed, else the combination of the children's roots, computed and
/// stored once. The cache check and the store share one critical section.
fn commit_root<H: Hasher>(c: &Commit<H>, h: &H) -> (r: Root)
    ensures
        r@ == root_of::<H>(commit_shape(*c)),
    decreases *c,
{
    proof {
        use_type_invariant(c);
    }
    let (val, handle) = c.cache.acquire_write();
    let r = match val {
        Some(d) => d,
        None => {
            let lroot = tree_root(&c.left, h);
            let rroot = tree_root(&c.right, h);
            h.hash(&lroot, &rroot)
        },
    };
    handle.release_write(Some(r));
    r
}

/// Root computation is idempotent: under one combiner, a shape commits to
/// one digest, so every call on one composite — the first, a repeat, or a
/// concurrent one — returns the same value. The cache may hold only that
/// value ([`CachePred`]), so a memoized answer agrees with a fresh one.
pub proof fn lemma_root_unique<H: Hasher>(s: TreeView, r1: Seq<u8>, r2: Seq<u8>)
    requires
        r1 == root_of::<H>(s),
        r2 == root_of::<H>(s),
    ensures
        r1 == r2,
{
}

impl<H: Hasher> Node<H> for Tree<H> {
    open spec fn shape(&self) -> TreeView {
        tree_shape(*self)
    }

    fn dup(&self) -> (r: Self) {
        tree_dup(self)
    }

    fn merkle_root(&self, h: &H) -> (r: Root) {
        tree_root(self, h)
    }
}

impl<H: Hasher> LeafNode<H> for Tree<H> {
    fn from_root(r: Root) -> (n: Self) {
        Tree::Leaf(r)
    }
}

impl<H: Hasher> Node<H> for Commit<H> {
    open spec fn shape(&self) -> TreeView {
        commit_shape(*self)
    }

    fn dup(&self) -> (r: Self) {
        commit_dup(self)
    }

    fn merkle_root(&self, h: &H) -> (r: Root) {
        commit_root(self, h)
    }
}

impl<H: Hasher> Pair<H, Tree<H>> for Commit<H> {
    fn pair(l: Tree<H>, r: Tree<H>) -> (p: Self) {
        let p = new_commit(l, r);
        proof {
            assert(l.shape() == tree_shape(l));
            assert(r.shape() == tree_shape(r));
            assert(p.shape() == commit_shape(p));
        }
        p
    }

    fn left(&self) -> (c: Tree<H>) {
        let c = tree_dup(&self.left);
        proof {
            assert(c.shape() == tree_shape(self.left));
            assert(self.shape() == commit_shape(*self));
            assert(commit_shape(*self) == branch(tree_shape(self.left), tree_shape(self.right)));
        }
        c
    }

    fn right(&self) -> (c: Tree<H>) {
        let c = tree_dup(&self.right);
        proof {
            assert(c.shape() == tree_shape(self.right));
            assert(self.shape() == commit_shape(*self));
            assert(commit_shape(*self) == branch(tree_shape(self.left), tree_shape(self.right)));
        }
        c
    }

    fn into_child(self) -> (c: Tree<H>) {
        let c = Tree::Branch(Box::new(self));
        proof {
            assert(c.shape() == tree_shape(c));
        }
        c
    }

    proof fn lemma_is_branch(&self) {
    }
}

impl<H: Hasher> Commit<H> {
    /// The tree of the given depth whose first `length` leaf positions hold
    /// duplicates of `bottom` and whose remainder is the canonical zero
    /// subtree. Fails exactly when `length` exceeds the depth's capacity.
    pub fn subtree_fill_length(bottom: Tree<H>, depth: u8, length: u64) -> (r: Result<
        Tree<H>,
        MerkleError,
    >)
        ensures
            r is Ok <==> length as nat <= pow2(depth as nat),
            r matches Ok(t) ==> t.shape() == length_shape(
                bottom.shape(),
                depth as nat,
                length as nat,
            ),
            r matches Err(e) ==> e == MerkleError::TypeInputError,
    {
        fill_length::<H, Tree<H>, Commit<H>>(bottom, depth, length)
    }

    /// The tree of the given depth built from the explicit leaf sequence
    /// `nodes`, zero-padding the unused positions; zero leaves yield the
    /// bare zero-subtree digest for that depth. Fails exactly as
    /// [`contents_spec`] rules the leaf count out.
    pub fn subtree_fill_contents(nodes: &[Tree<H>], depth: u8) -> (r: Result<Tree<H>, MerkleError>)
        ensures
            match (r, contents_spec(shapes(nodes@), depth as nat)) {
                (Ok(t), Ok(v)) => t.shape() == v,
                (Err(a), Err(b)) => a == b,
                _ => false,
            },
    {
        fill_contents::<H, Tree<H>, Commit<H>>(nodes, depth)
    }
}

} // verus!
