use std::path::Path;

use git2::build::CheckoutBuilder;
use git2::{Oid, Repository, Signature};
use sync_git::{
    changed_files, RepositoryState, RepositoryStateMap, ScanError, StatusEntry, WalkGitRepos,
    WalkStep,
};

/// Writes a tree of the given files (paths of at most one directory level)
/// into the repository's object store.
fn build_tree(repo: &Repository, files: &[(&str, &str)]) -> Oid {
    let mut top = repo.treebuilder(None).unwrap();
    let mut dirs: Vec<(String, Vec<(String, String)>)> = Vec::new();
    for (path, data) in files {
        match path.split_once('/') {
            None => {
                let blob = repo.blob(data.as_bytes()).unwrap();
                top.insert(*path, blob, 0o100644).unwrap();
            }
            Some((dir, rest)) => {
                let entry = (rest.to_string(), data.to_string());
                match dirs.iter_mut().find(|(d, _)| d == dir) {
                    Some((_, entries)) => entries.push(entry),
                    None => dirs.push((dir.to_string(), vec![entry])),
                }
            }
        }
    }
    for (dir, entries) in &dirs {
        let entries: Vec<(&str, &str)> =
            entries.iter().map(|(p, d)| (p.as_str(), d.as_str())).collect();
        let sub = build_tree(repo, &entries);
        top.insert(dir.as_str(), sub, 0o040000).unwrap();
    }
    top.write().unwrap()
}

/// Writes files into `dir` by checking a tree out there, leaving the index
/// as it was.
fn write_files(repo: &Repository, dir: &Path, files: &[(&str, &str)]) {
    let tree = repo.find_tree(build_tree(repo, files)).unwrap();
    let workdir = repo.workdir().map(|p| p.to_path_buf());
    repo.set_workdir(dir, false).unwrap();
    let mut checkout = CheckoutBuilder::new();
    checkout.force().update_index(false);
    repo.checkout_tree(tree.as_object(), Some(&mut checkout)).unwrap();
    if let Some(w) = workdir {
        repo.set_workdir(&w, false).unwrap();
    }
}

/// A repository at `dir` whose `.git` holds `state_files`.
fn repo_in_state(dir: &Path, state_files: &[(&str, &str)]) -> Repository {
    let repo = Repository::init(dir).unwrap();
    if !state_files.is_empty() {
        let git_dir = repo.path().to_path_buf();
        write_files(&repo, &git_dir, state_files);
    }
    repo
}

const REBASE: &[(&str, &str)] = &[("rebase-apply/rebasing", "")];
const REBASE_INTERACTIVE: &[(&str, &str)] = &[("rebase-merge/interactive", "")];

/// Commits `files` to a fresh repository at `dir` and checks them out.
fn committed_repo(dir: &Path, files: &[(&str, &str)]) -> Repository {
    let repo = Repository::init(dir).unwrap();
    {
        let tree = repo.find_tree(build_tree(&repo, files)).unwrap();
        let mut index = repo.index().unwrap();
        index.read_tree(&tree).unwrap();
        index.write().unwrap();
        let mut checkout = CheckoutBuilder::new();
        checkout.force();
        repo.checkout_tree(tree.as_object(), Some(&mut checkout)).unwrap();
        let sig = Signature::now("tester", "tester@example.com").unwrap();
        repo.commit(Some("HEAD"), &sig, &sig, "initial", &tree, &[]).unwrap();
    }
    repo
}

fn walk(root: &Path) -> Vec<Result<Repository, ScanError>> {
    let mut walker = WalkGitRepos::new(root.to_str().unwrap());
    let mut out = Vec::new();
    loop {
        match walker.advance() {
            WalkStep::Finished => return out,
            WalkStep::Passed => {}
            WalkStep::Yield(r) => out.push(r),
        }
    }
}

fn repository_paths(repositories: &[Repository]) -> Vec<String> {
    repositories.iter().map(|r| r.path().to_string_lossy().into()).collect()
}

fn test_cases() -> (tempfile::TempDir, String) {
    let tmp = tempfile::TempDir::new().unwrap();
    let root = format!("{}/test-cases", tmp.path().to_str().unwrap());
    repo_in_state(Path::new(&format!("{}/mid-state/rebase", root)), REBASE);
    repo_in_state(Path::new(&format!("{}/mid-state/rebase-interactive", root)), REBASE_INTERACTIVE);
    (tmp, root)
}

fn all_states() -> Vec<RepositoryState> {
    vec![
        RepositoryState::Clean,
        RepositoryState::Merge,
        RepositoryState::Revert,
        RepositoryState::RevertSequence,
        RepositoryState::CherryPick,
        RepositoryState::CherryPickSequence,
        RepositoryState::Bisect,
        RepositoryState::Rebase,
        RepositoryState::RebaseInteractive,
        RepositoryState::RebaseMerge,
        RepositoryState::ApplyMailbox,
        RepositoryState::ApplyMailboxOrRebase,
    ]
}

#[test]
fn test_git_repo_iterator() {
    let (_tmp, root) = test_cases();
    let dir_names: Result<Vec<Repository>, ScanError> = walk(Path::new(&root)).into_iter().collect();
    let dir_names = dir_names.expect("unexpected deceptively named folder in test-cases");
    let mut expected: Vec<String> = vec![
        format!("{}/mid-state/rebase/.git/", root),
        format!("{}/mid-state/rebase-interactive/.git/", root),
    ];
    let mut found = repository_paths(&dir_names);
    expected.sort();
    found.sort();
    assert_eq!(expected, found);
}

#[test]
fn test_partition_git_repo() {
    let (_tmp, root) = test_cases();
    let repositories: Result<Vec<Repository>, ScanError> =
        walk(Path::new(&root)).into_iter().collect();
    let repositories = RepositoryStateMap::from_repositories(
        repositories.expect("unexpected deceptively named folder in test-cases"),
    );

    let expected = vec![format!("{}/mid-state/rebase/.git/", root)];
    assert_eq!(expected, repository_paths(repositories.index(&RepositoryState::Rebase)));

    let expected = vec![format!("{}/mid-state/rebase-interactive/.git/", root)];
    assert_eq!(
        expected,
        repository_paths(repositories.index(&RepositoryState::RebaseInteractive))
    );
    for state in all_states() {
        if state != RepositoryState::Rebase && state != RepositoryState::RebaseInteractive {
            assert!(repositories.index(&state).is_empty());
        }
    }
}

#[test]
fn walk_without_git_dirs_yields_nothing() {
    let tmp = tempfile::TempDir::new().unwrap();
    let root = tmp.path().join("plain");
    Repository::init_bare(root.join("bare-named-plainly")).unwrap();
    assert!(walk(&root).is_empty());
    let empty = tempfile::TempDir::new().unwrap();
    assert!(walk(empty.path()).is_empty());
}

#[test]
fn walk_does_not_descend_into_found_repository() {
    let tmp = tempfile::TempDir::new().unwrap();
    let outer = Repository::init(tmp.path().join("outer")).unwrap();
    let inner_dir = outer.path().join("inner");
    Repository::init(&inner_dir).unwrap();
    let found: Vec<Repository> = walk(tmp.path()).into_iter().map(|r| r.unwrap()).collect();
    assert_eq!(repository_paths(&found), vec![outer.path().to_string_lossy().to_string()]);
}

#[test]
fn walk_treats_bare_dot_git_name_as_repository() {
    let tmp = tempfile::TempDir::new().unwrap();
    let bare = Repository::init_bare(tmp.path().join("project.git")).unwrap();
    let found: Vec<Repository> = walk(tmp.path()).into_iter().map(|r| r.unwrap()).collect();
    assert_eq!(repository_paths(&found), vec![bare.path().to_string_lossy().to_string()]);
}

#[test]
fn walk_reports_git_named_directory_that_is_no_repository() {
    let tmp = tempfile::TempDir::new().unwrap();
    let holder = Repository::init_bare(tmp.path().join("holder")).unwrap();
    write_files(&holder, tmp.path(), &[("fake.git/readme", "not a repository\n")]);
    let results = walk(tmp.path());
    assert_eq!(results.len(), 1);
    assert!(matches!(results[0], Err(ScanError::Git2(_))));
}

#[test]
fn partition_keeps_order_per_bucket() {
    let tmp = tempfile::TempDir::new().unwrap();
    let a = Repository::init(tmp.path().join("a")).unwrap();
    let b = Repository::init(tmp.path().join("b")).unwrap();
    let c = Repository::init(tmp.path().join("c")).unwrap();
    let (pa, pb, pc) = (
        a.path().to_string_lossy().to_string(),
        b.path().to_string_lossy().to_string(),
        c.path().to_string_lossy().to_string(),
    );
    let map = RepositoryStateMap::from_tagged(vec![
        (a, RepositoryState::Rebase),
        (b, RepositoryState::RebaseInteractive),
        (c, RepositoryState::Rebase),
    ]);
    assert_eq!(repository_paths(map.index(&RepositoryState::Rebase)), vec![pa, pc]);
    assert_eq!(repository_paths(map.index(&RepositoryState::RebaseInteractive)), vec![pb]);
    for state in all_states() {
        if state != RepositoryState::Rebase && state != RepositoryState::RebaseInteractive {
            assert!(map.index(&state).is_empty());
        }
    }
}

#[test]
fn partition_round_trips_any_order() {
    let tmp = tempfile::TempDir::new().unwrap();
    let tags = [
        RepositoryState::Merge,
        RepositoryState::Clean,
        RepositoryState::Merge,
        RepositoryState::Bisect,
        RepositoryState::Clean,
    ];
    let orders: [[usize; 5]; 3] = [[0, 1, 2, 3, 4], [4, 3, 2, 1, 0], [2, 0, 4, 1, 3]];
    for order in orders.iter() {
        let mut items = Vec::new();
        let mut paths = Vec::new();
        for &k in order.iter() {
            let repo = Repository::init(tmp.path().join(format!("r{}", k))).unwrap();
            paths.push((repo.path().to_string_lossy().to_string(), tags[k]));
            items.push((repo, tags[k]));
        }
        let map = RepositoryStateMap::from_tagged(items);
        for state in all_states() {
            let expected: Vec<String> =
                paths.iter().filter(|(_, s)| *s == state).map(|(p, _)| p.clone()).collect();
            assert_eq!(repository_paths(map.index(&state)), expected);
        }
    }
}

#[test]
fn take_empties_one_bucket_only() {
    let tmp = tempfile::TempDir::new().unwrap();
    let a = Repository::init(tmp.path().join("a")).unwrap();
    let b = Repository::init(tmp.path().join("b")).unwrap();
    let pa = a.path().to_string_lossy().to_string();
    let pb = b.path().to_string_lossy().to_string();
    let mut map = RepositoryStateMap::new();
    map.insert_with_state(a, RepositoryState::Clean);
    map.insert_with_state(b, RepositoryState::Merge);
    let taken = map.take(&RepositoryState::Clean);
    assert_eq!(repository_paths(&taken), vec![pa]);
    assert!(map.index(&RepositoryState::Clean).is_empty());
    assert_eq!(repository_paths(map.index(&RepositoryState::Merge)), vec![pb]);
    assert!(map.take(&RepositoryState::Clean).is_empty());
}

#[test]
fn insert_uses_repository_state() {
    let tmp = tempfile::TempDir::new().unwrap();
    let clean = Repository::init(tmp.path().join("clean")).unwrap();
    let rebasing = repo_in_state(&tmp.path().join("rebasing"), REBASE);
    let mut map = RepositoryStateMap::new();
    map.insert(clean);
    map.insert(rebasing);
    assert_eq!(map.index(&RepositoryState::Clean).len(), 1);
    assert_eq!(map.index(&RepositoryState::Rebase).len(), 1);
}

#[test]
fn modified_file_gives_one_status_line() {
    let tmp = tempfile::TempDir::new().unwrap();
    let repo = committed_repo(&tmp.path().join("work"), &[("notes.txt", "a\n"), ("other.txt", "x\n")]);
    let holder = Repository::init_bare(tmp.path().join("holder")).unwrap();
    write_files(&holder, repo.workdir().unwrap(), &[("notes.txt", "changed\n")]);
    let changes: Vec<StatusEntry> = changed_files(&repo).unwrap();
    assert_eq!(changes.len(), 1);
    assert_eq!(changes[0].shown_path(), "notes.txt");
    assert_eq!(git2::Status::from_bits_truncate(changes[0].flags), git2::Status::WT_MODIFIED);
}

#[test]
fn clean_repository_gives_no_status_lines() {
    let tmp = tempfile::TempDir::new().unwrap();
    let repo = committed_repo(&tmp.path().join("work"), &[("notes.txt", "a\n")]);
    assert!(changed_files(&repo).unwrap().is_empty());
}

#[test]
fn untracked_file_is_listed() {
    let tmp = tempfile::TempDir::new().unwrap();
    let repo = committed_repo(&tmp.path().join("work"), &[("notes.txt", "a\n")]);
    let holder = Repository::init_bare(tmp.path().join("holder")).unwrap();
    write_files(&holder, repo.workdir().unwrap(), &[("new.txt", "fresh\n")]);
    let changes = changed_files(&repo).unwrap();
    assert_eq!(changes.len(), 1);
    assert_eq!(changes[0].shown_path(), "new.txt");
    assert_eq!(git2::Status::from_bits_truncate(changes[0].flags), git2::Status::WT_NEW);
}

#[test]
fn walk_stays_finished() {
    let tmp = tempfile::TempDir::new().unwrap();
    let mut walker = WalkGitRepos::new(tmp.path().to_str().unwrap());
    loop {
        if let WalkStep::Finished = walker.advance() {
            break;
        }
    }
    assert!(matches!(walker.advance(), WalkStep::Finished));
    assert!(matches!(walker.advance(), WalkStep::Finished));
}

#[test]
fn walk_goes_on_after_unopenable_candidate() {
    let tmp = tempfile::TempDir::new().unwrap();
    let holder = Repository::init_bare(tmp.path().join("holder")).unwrap();
    write_files(&holder, tmp.path(), &[("a/fake.git/readme", "no repository\n")]);
    let real = Repository::init(tmp.path().join("b")).unwrap();
    let results = walk(tmp.path());
    assert_eq!(results.len(), 2);
    let failures = results.iter().filter(|r| matches!(r, Err(ScanError::Git2(_)))).count();
    assert_eq!(failures, 1);
    let opened: Vec<String> = results
        .iter()
        .filter_map(|r| r.as_ref().ok())
        .map(|r| r.path().to_string_lossy().to_string())
        .collect();
    assert_eq!(opened, vec![real.path().to_string_lossy().to_string()]);
}

#[test]
fn walk_from_repository_root_yields_it_first() {
    let tmp = tempfile::TempDir::new().unwrap();
    let bare = Repository::init_bare(tmp.path().join("top.git")).unwrap();
    Repository::init_bare(tmp.path().join("top.git").join("nested.git")).unwrap();
    let found: Vec<Repository> =
        walk(&tmp.path().join("top.git")).into_iter().map(|r| r.unwrap()).collect();
    assert_eq!(repository_paths(&found), vec![bare.path().to_string_lossy().to_string()]);
}

#[test]
fn walk_of_missing_root_reports_walk_error() {
    let tmp = tempfile::TempDir::new().unwrap();
    let results = walk(&tmp.path().join("absent"));
    assert_eq!(results.len(), 1);
    assert!(matches!(results[0], Err(ScanError::WalkDir(_))));
}

#[test]
fn changes_of_keeps_query_error() {
    let err = git2::Error::from_str("index is corrupt");
    match sync_git::changes_of(Err(err)) {
        Err(e) => assert_eq!(e.message(), "index is corrupt"),
        Ok(_) => panic!("expected the query's error"),
    }
    let kept = sync_git::changes_of(Ok(vec![
        StatusEntry { path: Some("x".to_string()), flags: 0 },
        StatusEntry { path: Some("y".to_string()), flags: 512 },
    ]))
    .unwrap();
    assert_eq!(kept.len(), 1);
    assert_eq!(kept[0].shown_path(), "y");
}
