//! A doubly-linked list built around a circular sentinel node.
//!
//! The ring is laid out in an arena: every node lives in one slot of a
//! vector, and the forward and backward links are slot indices.  Slot 0
//! always holds the sentinel, which is never list content; freed slots are
//! kept on a free list and reused.  A ghost sequence records the slots of
//! the real nodes in front-to-back order, and the well-formedness predicate
//! ties the links of every node to that sequence, so the ring invariants
//! (closure, inverse links, size accuracy) are theorems about any
//! well-formed list.

pub mod display;
pub mod laws;
pub mod list;

pub use list::List;
pub use list::ListError;
pub use list::Node;
