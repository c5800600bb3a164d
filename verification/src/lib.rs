//! A Conventional Commits helper: the commit-type menu, the commit message
//! format, the key handling of its terminal prompts, and the dialogue that
//! leads from the questions to a commit, each with a verified contract.

pub mod commit;
pub mod number;
pub mod prompt;
pub mod text;
pub mod wizard;

pub use commit::{build_commit_message, build_commit_types, format_commit_types};
