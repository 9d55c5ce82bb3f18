//! Finds Git repositories under a directory and sorts them by the operation
//! (merge, rebase, ...) that each one is in the middle of.

pub mod git;
pub mod git_dir;
pub mod report;
pub mod status_map;
pub mod walker;

pub use crate::git_dir::is_git_dir_name;
pub use crate::status_map::{RepositoryState, RepositoryStateMap};
pub use crate::walker::{ScanError, WalkGitRepos, WalkStep};
pub use crate::report::{changed_entries, changed_files, changes_of, reported_states, state_label, StatusEntry};

use vstd::prelude::*;

verus! {

/// The outcome of reaching one repository during a walk.
pub type Result<T> = core::result::Result<T, ScanError>;

} // verus!
