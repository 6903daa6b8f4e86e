use merkle_pair::concurrent::{Commit, Tree};
use merkle_pair::digest::{
    default_merkle_fn, zero_nodes, zero_root, zero_subtree, Root, Sha256Hasher,
};
use merkle_pair::traversal::{traverse, traverse_fixed, PathStep};
use merkle_pair::tree::{MerkleError, Node, Pair};

type C = Commit<Sha256Hasher>;
type T = Tree<Sha256Hasher>;

fn digest_of(tag: u8) -> Root {
    let mut r = [0u8; 32];
    r[0] = tag;
    r
}

fn leaf_value(t: &T) -> Root {
    match t {
        Tree::Leaf(d) => *d,
        Tree::Branch(_) => panic!("expected a leaf"),
    }
}

#[test]
fn zero_table_recurrence() {
    let t = zero_nodes();
    assert_eq!(t.len(), 256);
    assert_eq!(t[0], [0u8; 32]);
    for i in 0..255 {
        assert_eq!(t[i + 1], default_merkle_fn(t[i], t[i]));
    }
}

#[test]
fn zero_table_first_entries_known() {
    // SHA-256 of 64 zero bytes
    let expected: Root = [
        0xf5, 0xa5, 0xfd, 0x42, 0xd1, 0x6a, 0x20, 0x30, 0x27, 0x98, 0xef, 0x6e, 0xd3, 0x09,
        0x97, 0x9b, 0x43, 0x00, 0x3d, 0x23, 0x20, 0xd9, 0xf0, 0xe8, 0xea, 0x98, 0x31, 0xa9,
        0x27, 0x59, 0xfb, 0x4b,
    ];
    assert_eq!(zero_nodes()[1], expected);
    assert_eq!(zero_subtree(1), expected);
    assert_eq!(zero_subtree(0), zero_root());
}

#[test]
fn pair_projections() {
    let l = digest_of(1);
    let r = digest_of(2);
    let p = C::pair(Tree::Leaf(l), Tree::Leaf(r));
    assert_eq!(leaf_value(&p.left()), l);
    assert_eq!(leaf_value(&p.right()), r);
}

#[test]
fn mono_duplicates_its_leaf() {
    let e = digest_of(7);
    let p = C::mono(Tree::Leaf(e));
    assert_eq!(leaf_value(&p.left()), e);
    assert_eq!(leaf_value(&p.right()), e);
}

#[test]
fn rebind_replaces_one_child() {
    let p = C::pair(Tree::Leaf(digest_of(1)), Tree::Leaf(digest_of(2)));
    let q = p.rebind_left(Tree::Leaf(digest_of(9)));
    assert_eq!(leaf_value(&q.left()), digest_of(9));
    assert_eq!(leaf_value(&q.right()), digest_of(2));
    let s = p.rebind_right(Tree::Leaf(digest_of(8)));
    assert_eq!(leaf_value(&s.left()), digest_of(1));
    assert_eq!(leaf_value(&s.right()), digest_of(8));
}

#[test]
fn fill_depth_root_formula() {
    let d = digest_of(3);
    let t = C::subtree_fill_depth(Tree::Leaf(d), 2);
    let half = default_merkle_fn(d, d);
    assert_eq!(t.merkle_root(&Sha256Hasher), default_merkle_fn(half, half));
}

#[test]
fn fill_length_full_matches_fill_depth() {
    let d = digest_of(4);
    let by_length = C::subtree_fill_length(Tree::Leaf(d), 3, 8).unwrap();
    let by_depth = C::subtree_fill_depth(Tree::Leaf(d), 3);
    assert_eq!(
        by_length.merkle_root(&Sha256Hasher),
        by_depth.merkle_root(&Sha256Hasher)
    );
}

#[test]
fn fill_length_zero_is_zero_subtree() {
    let d = digest_of(5);
    let t0 = C::subtree_fill_length(Tree::Leaf(d), 0, 0).unwrap();
    assert_eq!(t0.merkle_root(&Sha256Hasher), zero_subtree(0));
    let t4 = C::subtree_fill_length(Tree::Leaf(d), 4, 0).unwrap();
    assert_eq!(t4.merkle_root(&Sha256Hasher), zero_subtree(4));
}

#[test]
fn fill_length_over_capacity_fails() {
    let d = digest_of(6);
    let r = C::subtree_fill_length(Tree::Leaf(d), 1, 3);
    assert_eq!(r.err(), Some(MerkleError::TypeInputError));
}

#[test]
fn fill_contents_empty_is_bare_zero_digest() {
    let r = C::subtree_fill_contents(&[], 5).unwrap();
    // no tree is materialized: the result is the digest itself
    assert_eq!(leaf_value(&r), zero_subtree(5));
}

#[test]
fn fill_contents_over_capacity_fails() {
    let nodes: Vec<T> = (0..5).map(|i| Tree::Leaf(digest_of(i as u8))).collect();
    let r = C::subtree_fill_contents(&nodes, 2);
    assert_eq!(r.err(), Some(MerkleError::TypeInputError));
}

#[test]
fn fill_contents_two_at_depth_zero_fails() {
    let nodes = [Tree::Leaf(digest_of(1)), Tree::Leaf(digest_of(2))];
    let r = C::subtree_fill_contents(&nodes, 0);
    assert_eq!(r.err(), Some(MerkleError::InputLengthError));
}

#[test]
fn fill_contents_one_at_depth_one() {
    let a = digest_of(9);
    let t = C::subtree_fill_contents(&[Tree::Leaf(a)], 1).unwrap();
    assert_eq!(
        t.merkle_root(&Sha256Hasher),
        default_merkle_fn(a, zero_subtree(0))
    );
}

#[test]
fn fill_contents_exact_roots() {
    let a = digest_of(1);
    let b = digest_of(2);
    let single = C::subtree_fill_contents(&[Tree::Leaf(a)], 0).unwrap();
    assert_eq!(single.merkle_root(&Sha256Hasher), a);
    let two = C::subtree_fill_contents(&[Tree::Leaf(a), Tree::Leaf(b)], 1).unwrap();
    assert_eq!(two.merkle_root(&Sha256Hasher), default_merkle_fn(a, b));
}

#[test]
fn merkle_root_idempotent() {
    let l = digest_of(1);
    let r = digest_of(2);
    let p = C::pair(Tree::Leaf(l), Tree::Leaf(r));
    let first = p.merkle_root(&Sha256Hasher);
    let second = p.merkle_root(&Sha256Hasher);
    assert_eq!(first, second);
    assert_eq!(first, default_merkle_fn(l, r));
}

#[test]
fn traverse_fixed_steps() {
    let l = digest_of(1);
    let r = digest_of(2);
    let p = C::pair(Tree::Leaf(l), Tree::Leaf(r));
    assert_eq!(leaf_value(&traverse_fixed(&PathStep::Left, p)), l);
    let p = C::pair(Tree::Leaf(l), Tree::Leaf(r));
    assert_eq!(leaf_value(&traverse_fixed(&PathStep::Right, p)), r);
    let p = C::pair(Tree::Leaf(l), Tree::Leaf(r));
    let whole = traverse_fixed(&PathStep::Noop, p);
    assert_eq!(
        whole.merkle_root(&Sha256Hasher),
        default_merkle_fn(l, r)
    );
}

#[test]
fn traverse_runtime_reports_navigation_failure() {
    let anchor: T = Tree::Leaf(digest_of(1));
    let r = traverse(&PathStep::Left, &anchor);
    assert_eq!(r.err(), Some(MerkleError::NavigationError));
    let ok = traverse(&PathStep::Noop, &anchor).unwrap();
    assert_eq!(leaf_value(&ok), digest_of(1));
}

#[test]
fn traverse_runtime_descends_into_branch() {
    let l = digest_of(1);
    let r = digest_of(2);
    let anchor = C::pair(Tree::Leaf(l), Tree::Leaf(r)).into_child();
    assert_eq!(leaf_value(&traverse(&PathStep::Left, &anchor).unwrap()), l);
    assert_eq!(leaf_value(&traverse(&PathStep::Right, &anchor).unwrap()), r);
}

#[test]
fn depth_two_length_three_scenario() {
    let d = digest_of(0xd0);
    let t = C::subtree_fill_length(Tree::Leaf(d), 2, 3).unwrap();
    // expected shape: pair(pair(d, d), pair(d, zero_subtree(0)))
    let left = traverse(&PathStep::Left, &t).unwrap();
    let right = traverse(&PathStep::Right, &t).unwrap();
    assert_eq!(leaf_value(&traverse(&PathStep::Left, &left).unwrap()), d);
    assert_eq!(leaf_value(&traverse(&PathStep::Right, &left).unwrap()), d);
    assert_eq!(leaf_value(&traverse(&PathStep::Left, &right).unwrap()), d);
    assert_eq!(
        leaf_value(&traverse(&PathStep::Right, &right).unwrap()),
        zero_subtree(0)
    );
    let expected = default_merkle_fn(
        default_merkle_fn(d, d),
        default_merkle_fn(d, zero_subtree(0)),
    );
    assert_eq!(t.merkle_root(&Sha256Hasher), expected);
}

#[test]
fn fill_length_matches_fill_contents_on_repeated_leaf() {
    let d = digest_of(0x2a);
    let by_length = C::subtree_fill_length(Tree::Leaf(d), 2, 3).unwrap();
    let nodes = [Tree::Leaf(d), Tree::Leaf(d), Tree::Leaf(d)];
    let by_contents = C::subtree_fill_contents(&nodes, 2).unwrap();
    assert_eq!(
        by_length.merkle_root(&Sha256Hasher),
        by_contents.merkle_root(&Sha256Hasher)
    );
}

#[test]
fn raw_digest_root_is_itself() {
    let d = digest_of(0x11);
    assert_eq!(d.merkle_root(&Sha256Hasher), d);
}
