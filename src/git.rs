use vstd::prelude::*;

use crate::status_map::RepositoryState;

verus! {

/// An opened repository; held and handed on, never looked into.
#[verifier::external_type_specification]
#[verifier::external_body]
pub struct ExRepository(git2::Repository);

/// What git2 reports when a repository cannot be opened or queried.
#[verifier::external_type_specification]
#[verifier::external_body]
pub struct ExGitError(git2::Error);

/// Relies on git2's `Repository::state`, which reads the operation in progress
/// from the repository's files; each of its variants becomes the one of the
/// same name here. What it returns depends on the disk at the time of the call.
#[verifier::external_body]
pub(crate) fn repository_state(repo: &git2::Repository) -> (r: RepositoryState) {
    match repo.state() {
        git2::RepositoryState::Clean => RepositoryState::Clean,
        git2::RepositoryState::Merge => RepositoryState::Merge,
        git2::RepositoryState::Revert => RepositoryState::Revert,
        git2::RepositoryState::RevertSequence => RepositoryState::RevertSequence,
        git2::RepositoryState::CherryPick => RepositoryState::CherryPick,
        git2::RepositoryState::CherryPickSequence => RepositoryState::CherryPickSequence,
        git2::RepositoryState::Bisect => RepositoryState::Bisect,
        git2::RepositoryState::Rebase => RepositoryState::Rebase,
        git2::RepositoryState::RebaseInteractive => RepositoryState::RebaseInteractive,
        git2::RepositoryState::RebaseMerge => RepositoryState::RebaseMerge,
        git2::RepositoryState::ApplyMailbox => RepositoryState::ApplyMailbox,
        git2::RepositoryState::ApplyMailboxOrRebase => RepositoryState::ApplyMailboxOrRebase,
    }
}

} // verus!
