//! Secret-leak detector core: a verified scanner for private-key-like
//! hex patterns in file contents, and a verified history walker that
//! materializes every commit of a repository, scans it, and restores
//! the original working-tree state afterward.

pub mod scanner;
pub mod walker;
