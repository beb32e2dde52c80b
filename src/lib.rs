//! Revision-graph log parsing, commit navigation and the transactional
//! extraction of the files that differ between two revisions.

pub mod git;
pub mod navigator;
pub mod extract;

pub use extract::FilesCopy;
