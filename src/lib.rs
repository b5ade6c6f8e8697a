//! A fragment list node of a retained-mode UI tree, with a cached
//! "every child has a key" flag and an order-preserving stream renderer.
pub mod keyed;
pub mod node;
pub mod stream;
pub mod vlist;

