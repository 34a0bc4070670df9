//! Dependency resolution over a tree of named dependencies.
//!
//! A [`Node`] owns its dependencies, so the structure is always a finite
//! tree. Two depth-first walks are offered: one flattens the tree into a
//! build order (post-order, root excluded), the other reports whether an
//! identifier turns up more than once during the walk.
pub mod cycle;
pub mod laws;
pub mod node;
pub mod order;

pub use node::Node;
