//! Merging a tree of independent git repositories into one joined repository.
//!
//! The library holds the decisions of a merge run: which directories are
//! repositories and in which order they are merged, which ref of each is
//! merged, which top-level entries move where, and the sequence of git
//! commands that a run issues. Running those commands is left to the caller.

pub mod text;
pub mod order;
pub mod repos;
pub mod branch;
pub mod relocate;
pub mod merge;
