//! The 32-byte digest value, the pluggable combiner, the default SHA-256
//! combiner, and the canonical zero-subtree digests.
use vstd::prelude::*;

verus! {

/// A fixed 32-byte digest: both a leaf value and the identity of a
/// composite node.
pub type Root = [u8; 32];

/// The all-zero digest, as a sequence of bytes.
pub open spec fn zero_seq() -> Seq<u8> {
    Seq::new(32, |i: int| 0u8)
}

/// The all-zero digest.
pub fn zero_root() -> (r: Root)
    ensures
        r@ == zero_seq(),
{
    let r: Root = [0u8; 32];
    proof {
        assert(r@ =~= zero_seq());
    }
    r
}

/// The SHA-256 digest of the 64-byte concatenation of two 32-byte digests.
/// The bytes are fixed by the two inputs alone; nothing shorter than the
/// SHA-256 specification itself states them.
pub uninterp spec fn sha256_pair_of(a: Seq<u8>, b: Seq<u8>) -> Seq<u8>;

/// The default combiner: the cryptographic hash of the 64-byte
/// concatenation of the two input digests.
///
/// Relies on `ring::digest::digest` with `ring::digest::SHA256`: the output
/// is a pure function of the input bytes and is 32 bytes long, and a 64-byte
/// input is far below the SHA-256 input-length limit, so the call cannot
/// fail.
#[verifier::external_body]
pub fn default_merkle_fn(a: Root, b: Root) -> (r: Root)
    ensures
        r@ == sha256_pair_of(a@, b@),
{
    let mut input = [0u8; 64];
    input[..32].copy_from_slice(&a);
    input[32..].copy_from_slice(&b);
    let d = ring::digest::digest(&ring::digest::SHA256, &input);
    let mut out = [0u8; 32];
    out.copy_from_slice(d.as_ref());
    out
}

/// The combiner a tree is hashed with: a pure, deterministic function from
/// two child digests to the parent digest. The same combiner must be used
/// across a tree's lifetime for its root to be meaningful.
pub trait Hasher: Sized {
    /// The mathematical combiner: the parent digest bytes determined by the
    /// two child digest byte sequences.
    spec fn hash_spec(a: Seq<u8>, b: Seq<u8>) -> Seq<u8>;

    /// Combine two child digests into their parent digest.
    fn hash(&self, a: &Root, b: &Root) -> (r: Root)
        ensures
            r@ == Self::hash_spec(a@, b@),
    ;
}

/// The default combiner as a [`Hasher`]: SHA-256 over the concatenation.
pub struct Sha256Hasher;

impl Hasher for Sha256Hasher {
    open spec fn hash_spec(a: Seq<u8>, b: Seq<u8>) -> Seq<u8> {
        sha256_pair_of(a, b)
    }

    fn hash(&self, a: &Root, b: &Root) -> (r: Root) {
        default_merkle_fn(*a, *b)
    }
}

/// The digest of a perfect zero-filled subtree of depth `d`, under the
/// default combiner: entry 0 is the all-zero digest, and entry `d + 1`
/// combines entry `d` with itself. The table depends on the combiner and
/// must be recomputed if the combiner changes.
pub open spec fn zero_node_seq(d: nat) -> Seq<u8>
    decreases d,
{
    if d == 0 {
        zero_seq()
    } else {
        sha256_pair_of(zero_node_seq((d - 1) as nat), zero_node_seq((d - 1) as nat))
    }
}

/// Each zero-subtree digest is the previous entry combined with itself.
pub proof fn lemma_zero_table_step(i: nat)
    ensures
        zero_node_seq(i + 1) == sha256_pair_of(zero_node_seq(i), zero_node_seq(i)),
{
}

/// The precomputed table of zero-subtree digests, indexed by depth.
pub fn zero_nodes() -> (t: Vec<Root>)
    ensures
        t.len() == 256,
        forall|i: int| 0 <= i < 256 ==> t[i]@ == zero_node_seq(i as nat),
{
    let mut t: Vec<Root> = Vec::new();
    t.push(zero_root());
    let mut i: usize = 1;
    while i < 256
        invariant
            1 <= i <= 256,
            t.len() == i,
            forall|j: int| 0 <= j < i ==> t[j]@ == zero_node_seq(j as nat),
        decreases 256 - i,
    {
        let prev = t[i - 1];
        t.push(default_merkle_fn(prev, prev));
        i += 1;
    }
    t
}

/// The zero-subtree digest for one depth. Every depth a `u8` can hold lies
/// in the table's domain, so the lookup is total.
pub fn zero_subtree(depth: u8) -> (r: Root)
    ensures
        r@ == zero_node_seq(depth as nat),
{
    let mut r = zero_root();
    let mut i: u8 = 0;
    while i < depth
        invariant
            i <= depth,
            r@ == zero_node_seq(i as nat),
        decreases depth - i,
    {
        r = default_merkle_fn(r, r);
        i += 1;
    }
    r
}

} // verus!
