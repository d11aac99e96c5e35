//! Data structures of the crate.
pub mod strings;
pub mod tree_code;
pub mod tree_struct;
pub mod tree_text;
pub mod vec_lemmas;
pub mod vec_model;
pub mod vec_struct;
pub mod vec_text;
