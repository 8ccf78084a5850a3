//! A bounded literal-substring search over the text files of a directory tree,
//! and the total byte size of that tree.
//!
//! The library holds the decisions: which lines match, how many records a file
//! and a whole search may give, how records are numbered and rendered, when the
//! walk over files stops, and how sizes add up. Walking the tree and reading
//! files is left to the caller, which hands the library plain values.

pub mod engine;
pub mod laws;
pub mod size;
pub mod text;
pub mod walk;
