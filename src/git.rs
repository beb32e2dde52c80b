//! Git-facing data: log-line parsing, errors, and the command descriptions
//! whose outputs the library interprets.

pub mod command;
pub mod error;
pub mod onelinelog;

pub use command::{CommandOutput, Git, GitCheckout, GitCommand, GitDiff, GitLog, GitLsTree, GitReset};
pub use error::Error;
pub use onelinelog::{Commit, OnelineLog, RangeStr};
