use vstd::prelude::*;

use crate::status_map::RepositoryState;

verus! {

/// The status flags of a file that is unchanged: no flag set.
pub const STATUS_CURRENT: u32 = 0;

/// Whether ignored files are listed when a clean repository is checked.
pub const INCLUDE_IGNORED: bool = false;

/// Whether untracked files are listed when a clean repository is checked.
pub const INCLUDE_UNTRACKED: bool = true;

/// One file of a working tree as a status query reports it: its path within
/// the repository (`None` when the path is not valid text) and its status
/// flags, as git's status bits.
pub struct StatusEntry {
    pub path: Option<String>,
    pub flags: u32,
}

impl StatusEntry {
    /// The path to print for this entry: the path itself, or `_` when it is
    /// not valid text.
    pub fn shown_path(&self) -> (r: &str)
        ensures
            r@ == match self.path {
                Some(p) => p@,
                None => "_"@,
            },
    {
        match &self.path {
            Some(p) => p.as_str(),
            None => "_",
        }
    }
}

/// The label printed beside a repository in the given state.
pub open spec fn state_label_spec(state: RepositoryState) -> Seq<char> {
    match state {
        RepositoryState::Clean => "clean"@,
        RepositoryState::Merge => "merge"@,
        RepositoryState::Revert => "revert"@,
        RepositoryState::RevertSequence => "revert-sequence"@,
        RepositoryState::CherryPick => "cherrypick"@,
        RepositoryState::CherryPickSequence => "cherrypick-sequence"@,
        RepositoryState::Bisect => "bisect"@,
        RepositoryState::Rebase => "rebase"@,
        RepositoryState::RebaseInteractive => "rebase-interactive"@,
        RepositoryState::RebaseMerge => "rebase-merge"@,
        RepositoryState::ApplyMailbox => "apply-mailbox"@,
        RepositoryState::ApplyMailboxOrRebase => "apply-mailbox-or-rebase"@,
    }
}

/// The label of a state that a repository is reported in; clean repositories
/// are reported by their changed files instead.
pub fn state_label(state: RepositoryState) -> (r: &'static str)
    requires
        state != RepositoryState::Clean,
    ensures
        r@ == state_label_spec(state),
{
    match state {
        RepositoryState::Merge => "merge",
        RepositoryState::Revert => "revert",
        RepositoryState::RevertSequence => "revert-sequence",
        RepositoryState::CherryPick => "cherrypick",
        RepositoryState::CherryPickSequence => "cherrypick-sequence",
        RepositoryState::Bisect => "bisect",
        RepositoryState::Rebase => "rebase",
        RepositoryState::RebaseInteractive => "rebase-interactive",
        RepositoryState::RebaseMerge => "rebase-merge",
        RepositoryState::ApplyMailbox => "apply-mailbox",
        RepositoryState::ApplyMailboxOrRebase => "apply-mailbox-or-rebase",
        RepositoryState::Clean => "clean",
    }
}

/// The states that are not clean, in the order they are reported in.
pub open spec fn reported_states_spec() -> Seq<RepositoryState> {
    seq![
        RepositoryState::Merge,
        RepositoryState::Revert,
        RepositoryState::RevertSequence,
        RepositoryState::CherryPick,
        RepositoryState::CherryPickSequence,
        RepositoryState::Bisect,
        RepositoryState::Rebase,
        RepositoryState::RebaseInteractive,
        RepositoryState::RebaseMerge,
        RepositoryState::ApplyMailbox,
        RepositoryState::ApplyMailboxOrRebase,
    ]
}

/// The states that are not clean, in the order they are reported in.
pub fn reported_states() -> (r: Vec<RepositoryState>)
    ensures
        r@ == reported_states_spec(),
{
    let r = vec![
        RepositoryState::Merge,
        RepositoryState::Revert,
        RepositoryState::RevertSequence,
        RepositoryState::CherryPick,
        RepositoryState::CherryPickSequence,
        RepositoryState::Bisect,
        RepositoryState::Rebase,
        RepositoryState::RebaseInteractive,
        RepositoryState::RebaseMerge,
        RepositoryState::ApplyMailbox,
        RepositoryState::ApplyMailboxOrRebase,
    ];
    assert(r@ =~= reported_states_spec());
    r
}

/// The entries of `entries` whose file is not unchanged, in their order.
pub open spec fn changed_spec(entries: Seq<StatusEntry>) -> Seq<StatusEntry>
    decreases entries.len(),
{
    if entries.len() == 0 {
        Seq::empty()
    } else {
        let rest = changed_spec(entries.drop_last());
        if entries.last().flags != STATUS_CURRENT {
            rest.push(entries.last())
        } else {
            rest
        }
    }
}

/// Keeps the entries whose file is not unchanged, in their order.
pub fn changed_entries(entries: Vec<StatusEntry>) -> (r: Vec<StatusEntry>)
    ensures
        r@ == changed_spec(entries@),
{
    let ghost all = entries@;
    let total = entries.len();
    let mut rest = entries;
    let mut out: Vec<StatusEntry> = Vec::new();
    let mut i: usize = 0;
    while rest.len() > 0
        invariant
            all == entries@,
            total == all.len(),
            i <= total,
            rest@ == all.subrange(i as int, total as int),
            out@ == changed_spec(all.subrange(0, i as int)),
        decreases rest@.len(),
    {
        let e = rest.remove(0);
        proof {
            assert(all.subrange(0, i + 1).drop_last() =~= all.subrange(0, i as int));
            assert(rest@ =~= all.subrange(i + 1, total as int));
        }
        if e.flags != STATUS_CURRENT {
            out.push(e);
        }
        i = i + 1;
    }
    proof {
        assert(all.subrange(0, total as int) =~= all);
    }
    out
}

/// Relies on git2's `StatusOptions` and `Repository::statuses`: the status of
/// each file of the working tree, with ignored and untracked files listed or
/// not as asked; each entry's path (`Statuses` entries' `path`) and flags
/// (`Status::bits`) are carried over. What it returns depends on the disk.
#[verifier::external_body]
fn status_entries(repo: &git2::Repository, include_ignored: bool, include_untracked: bool) -> Result<
    Vec<StatusEntry>,
    git2::Error,
> {
    let mut opts = git2::StatusOptions::new();
    opts.include_ignored(include_ignored).include_untracked(include_untracked);
    let statuses = repo.statuses(Some(&mut opts))?;
    Ok(statuses.iter().map(|e| StatusEntry { path: e.path().ok().map(String::from), flags: e.status().bits() }).collect())
}

/// What a status query's outcome comes to: its entries whose file is not
/// unchanged, in their order, or the query's own error.
pub fn changes_of(query: Result<Vec<StatusEntry>, git2::Error>) -> (r: Result<
    Vec<StatusEntry>,
    git2::Error,
>)
    ensures
        match query {
            Ok(entries) => r matches Ok(v) && v@ == changed_spec(entries@),
            Err(e) => r == Err::<Vec<StatusEntry>, git2::Error>(e),
        },
{
    match query {
        Ok(entries) => Ok(changed_entries(entries)),
        Err(e) => Err(e),
    }
}

/// The files of a clean repository that differ from what is committed, with
/// ignored files left out (`INCLUDE_IGNORED`) and untracked ones listed
/// (`INCLUDE_UNTRACKED`); or why the repository's status could not be read.
pub fn changed_files(repo: &git2::Repository) -> (r: Result<Vec<StatusEntry>, git2::Error>)
    ensures
        r matches Ok(v) ==> exists|all: Seq<StatusEntry>| v@ == #[trigger] changed_spec(all),
        r matches Ok(v) ==> forall|k: int| 0 <= k < v@.len() ==> v@[k].flags != STATUS_CURRENT,
{
    let query = status_entries(repo, INCLUDE_IGNORED, INCLUDE_UNTRACKED);
    let ghost q = query;
    let r = changes_of(query);
    proof {
        if let Ok(entries) = q {
            lemma_changed_are_changed(entries@);
        }
    }
    r
}

/// Every entry that `changed_spec` keeps has a flag set.
pub proof fn lemma_changed_are_changed(entries: Seq<StatusEntry>)
    ensures
        forall|k: int|
            0 <= k < changed_spec(entries).len() ==> changed_spec(entries)[k].flags
                != STATUS_CURRENT,
    decreases entries.len(),
{
    if entries.len() > 0 {
        lemma_changed_are_changed(entries.drop_last());
    }
}

} // verus!
