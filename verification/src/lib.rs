//! Binary Merkle trees with zero-subtree padding: a node/pair algebra over
//! 32-byte digests, three subtree-fill constructors, a lazily-caching
//! composite node, and path traversal.
pub mod concurrent;
pub mod traversal;
pub mod digest;
pub mod model;
pub mod tree;
