//! Repository-aware glob matching over a walked file tree.
//!
//! A walk of a repository keeps regular files and descends into directories,
//! but never into `.git`, a symbolic link or a declared submodule. The files it
//! visits are then classified against glob patterns: one pattern, a union of
//! several, or a named mapping of pattern lists.

pub mod gitmodules;
pub mod glob;
pub mod walk;

pub use glob::glob_to_regex;
pub use walk::{walk_repo_glob, walk_repo_globs, walk_repo_globs_map};
