//! Sequence containers with hand-managed storage.
//!
//! [`datastruct::vec_struct::Vector`] is a growable double-ended array kept
//! in a ring buffer; [`datastruct::tree_struct::Tree`] is a tree whose child
//! lists and work queues are such vectors. Every function states what it
//! returns and changes in its contract.
pub mod datastruct;
