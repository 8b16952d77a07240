//! Rules behind two repository hooks: a linter for commit messages and a
//! check that runs a formatter or a linter on every source file of a tree.
//!
//! The crate performs no I/O. Callers hand in what they read or observed (the
//! text of a message, the tree that a scan found, what the tools gave for
//! each file) and get the verdict back.
//!
//! - `commit_msg`: the grammar of a commit message and its verdict.
//! - `walk`: which files of a directory tree are source files.
//! - `partition`: how the files are split among workers.
//! - `pre_commit`: the two checks, the tools they run and the report they
//!   make of the outcomes.
//! - `report`: failures, the report, and how both are shown.
//! - `text`, `pattern`, `unicode`: lines and words of a text, regular
//!   expressions, character classes.

pub mod commit_msg;
pub mod partition;
pub mod pattern;
pub mod pre_commit;
pub mod report;
pub mod text;
pub mod unicode;
pub mod walk;
