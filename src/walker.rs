use vstd::prelude::*;

use crate::git_dir::{is_git_dir_name, is_git_dir_name_spec};

verus! {

/// A directory walk in progress.
#[verifier::external_type_specification]
#[verifier::external_body]
pub struct ExIntoIter(walkdir::IntoIter);

/// One entry that a directory walk reached.
#[verifier::external_type_specification]
#[verifier::external_body]
pub struct ExDirEntry(walkdir::DirEntry);

/// What walkdir reports when a directory cannot be listed or entered.
#[verifier::external_type_specification]
#[verifier::external_body]
pub struct ExWalkError(walkdir::Error);

/// Why a candidate repository could not be reached or opened.
#[derive(Debug)]
pub enum ScanError {
    /// The directory walk failed at some entry.
    WalkDir(walkdir::Error),
    /// A directory ending in `.git` could not be opened as a repository.
    Git2(git2::Error),
}

impl From<git2::Error> for ScanError {
    fn from(err: git2::Error) -> (r: ScanError)
        ensures
            r == ScanError::Git2(err),
    {
        ScanError::Git2(err)
    }
}

impl vstd::std_specs::convert::FromSpecImpl<git2::Error> for ScanError {
    open spec fn obeys_from_spec() -> bool {
        true
    }

    open spec fn from_spec(v: git2::Error) -> ScanError {
        ScanError::Git2(v)
    }
}

impl From<walkdir::Error> for ScanError {
    fn from(err: walkdir::Error) -> (r: ScanError)
        ensures
            r == ScanError::WalkDir(err),
    {
        ScanError::WalkDir(err)
    }
}

impl vstd::std_specs::convert::FromSpecImpl<walkdir::Error> for ScanError {
    open spec fn obeys_from_spec() -> bool {
        true
    }

    open spec fn from_spec(v: walkdir::Error) -> ScanError {
        ScanError::WalkDir(v)
    }
}

/// Relies on walkdir's `WalkDir::new(..).into_iter()`: a depth-first walk
/// that starts at `root`, with walkdir's default options (links are not
/// followed, entries come before their contents). It has reached nothing yet.
#[verifier::external_body]
fn walk_from(root: &str) -> walkdir::IntoIter {
    walkdir::WalkDir::new(root).into_iter()
}

/// One entry that a directory walk reached, with what the walk reads of it.
pub struct Entry {
    /// The entry itself, as walkdir handed it out.
    pub dent: walkdir::DirEntry,
    /// How many directories down from the root it lies; the root is at 0.
    pub depth: usize,
    /// Whether it is a directory (a link to one is not).
    pub is_dir: bool,
    /// Its path, `None` when that is not valid text.
    pub path: Option<String>,
    /// Its last path component, `None` when that is not valid text.
    pub name: Option<String>,
}

/// A depth-first walk of a directory tree, with a model of where it stands.
/// The model is changed only by the walkdir calls below, whose contracts say
/// how.
pub struct DirWalk {
    it: walkdir::IntoIter,
    /// The path the walk started from.
    root: Ghost<Seq<char>>,
    /// The depth of the last entry handed out; `None` before the first.
    last_depth: Ghost<Option<nat>>,
    /// Whether the last call handed out a directory entry.
    last_dir: Ghost<bool>,
    /// After the walk was told to skip a directory at depth `k`: `Some(k)`,
    /// until the next entry is handed out.
    bound: Ghost<Option<nat>>,
    /// Whether the walk has ended.
    finished: Ghost<bool>,
}

impl DirWalk {
    /// A walk that starts at `root` and has handed out nothing yet.
    fn new(root: &str) -> (r: DirWalk)
        ensures
            r.root@ == root@,
            r.last_depth@ == None::<nat>,
            !r.last_dir@,
            r.bound@ == None::<nat>,
            !r.finished@,
    {
        DirWalk {
            it: walk_from(root),
            root: Ghost(root@),
            last_depth: Ghost(None),
            last_dir: Ghost(false),
            bound: Ghost(None),
            finished: Ghost(false),
        }
    }
}

/// Relies on walkdir's `IntoIter::next` (lib.rs, `impl Iterator for
/// IntoIter`), in pre-order with default options: the first entry is the root
/// itself, at depth 0 and with the path it was given; every later entry comes
/// from the listing on top of the directory stack, so its depth is at least 1
/// and at most one more than the entry before it (a directory's listing is
/// pushed as it is handed out), and at most `k` right after a directory at
/// depth `k` was skipped (its listing was popped). An error leaves the stack
/// as it was. Once it returns `None` it returns `None` again. The entry's
/// fields are read with `DirEntry::depth`, `file_type().is_dir()`, and
/// `path`/`file_name` with `to_str`.
#[verifier::external_body]
fn next_entry(walk: &mut DirWalk) -> (r: Option<Result<Entry, walkdir::Error>>)
    ensures
        final(walk).root == old(walk).root,
        old(walk).finished@ ==> r is None,
        final(walk).finished@ == (r is None),
        match r {
            Some(Ok(e)) => {
                &&& final(walk).last_depth@ == Some(e.depth as nat)
                &&& final(walk).last_dir@ == e.is_dir
                &&& final(walk).bound@ == None::<nat>
                &&& old(walk).last_depth@ is None ==> e.depth == 0 && text_view(e.path) == Some(
                    old(walk).root@,
                )
                &&& old(walk).last_depth@ matches Some(d) ==> 1 <= e.depth <= d + 1
                &&& old(walk).bound@ matches Some(k) ==> e.depth <= k
            },
            _ => {
                &&& final(walk).last_depth == old(walk).last_depth
                &&& !final(walk).last_dir@
                &&& final(walk).bound == old(walk).bound
            },
        },
{
    match walk.it.next()? {
        Err(e) => Some(Err(e)),
        Ok(d) => Some(Ok(Entry {
            depth: d.depth(),
            is_dir: d.file_type().is_dir(),
            path: d.path().to_str().map(String::from),
            name: d.file_name().to_str().map(String::from),
            dent: d,
        })),
    }
}

/// Relies on walkdir's `IntoIter::skip_current_dir`: when the last entry
/// handed out is a directory, its listing is the top of the stack, and
/// popping it means the next entry is no deeper than that directory.
#[verifier::external_body]
fn skip_current_dir(walk: &mut DirWalk)
    requires
        old(walk).last_dir@,
    ensures
        final(walk).root == old(walk).root,
        final(walk).last_depth == old(walk).last_depth,
        !final(walk).last_dir@,
        final(walk).bound == old(walk).last_depth,
        final(walk).finished == old(walk).finished,
{
    walk.it.skip_current_dir()
}

/// Relies on git2's `Repository::open`: opens the repository at the entry's
/// path, or reports why it cannot.
#[verifier::external_body]
fn open_repository(entry: &walkdir::DirEntry) -> Result<git2::Repository, git2::Error> {
    git2::Repository::open(entry.path())
}

/// What the walk learned of one entry.
pub struct EntryView {
    pub depth: nat,
    pub is_dir: bool,
    pub path: Option<Seq<char>>,
    pub name: Option<Seq<char>>,
}

/// The text of an optional string.
pub open spec fn text_view(s: Option<String>) -> Option<Seq<char>> {
    match s {
        Some(t) => Some(t@),
        None => None,
    }
}

/// What the walk records of an entry it was handed.
pub open spec fn entry_view(e: Entry) -> EntryView {
    EntryView { depth: e.depth as nat, is_dir: e.is_dir, path: text_view(e.path), name: text_view(e.name) }
}

/// An entry that the walk treats as a repository root: a directory whose name
/// ends with `.git`.
pub open spec fn is_repository_root(e: EntryView) -> bool {
    e.is_dir && is_git_dir_name_spec(e.name)
}

/// In a pre-order listing with depths, entry `j` lies below entry `i`: it
/// comes later, and every entry from just after `i` up to `j` is deeper.
pub open spec fn is_below(entries: Seq<EntryView>, i: int, j: int) -> bool {
    &&& 0 <= i < j < entries.len()
    &&& forall|m: int| i < m <= j ==> #[trigger] entries[m].depth > entries[i].depth
}

/// What one step of the walk came to.
pub enum WalkStep {
    /// The walk is over.
    Finished,
    /// An entry that is no repository root was passed over.
    Passed,
    /// A repository root was reached and opened, or the walk or the opening
    /// failed.
    Yield(Result<git2::Repository, ScanError>),
}

/// A walk of a directory tree that hands out each repository root it reaches
/// and does not descend into it.
pub struct WalkGitRepos {
    walk: DirWalk,
    seen: Ghost<Seq<EntryView>>,
    roots: Ghost<Seq<int>>,
}

impl WalkGitRepos {
    /// The path the walk started from.
    pub closed spec fn root(&self) -> Seq<char> {
        self.walk.root@
    }

    /// Whether the walk has ended.
    pub closed spec fn finished(&self) -> bool {
        self.walk.finished@
    }

    /// The entries reached so far, in the order of the walk.
    pub closed spec fn seen(&self) -> Seq<EntryView> {
        self.seen@
    }

    /// The positions, among `seen()`, of the repository roots reached so far;
    /// each was handed out and the walk was told not to descend into it.
    pub closed spec fn roots(&self) -> Seq<int> {
        self.roots@
    }

    /// `roots()` holds, in increasing order, exactly the positions of the
    /// repository roots among `seen()`; the entries form a pre-order listing
    /// that starts at the root; the entry after a repository root is no
    /// deeper than it; and the walk's model agrees with the last entry.
    pub closed spec fn wf(&self) -> bool {
        self.wf_seen() && self.walk_agrees()
    }

    closed spec fn wf_seen(&self) -> bool {
        &&& forall|k: int|
            0 <= k < self.roots@.len() ==> {
                &&& 0 <= #[trigger] self.roots@[k] < self.seen@.len()
                &&& is_repository_root(self.seen@[self.roots@[k]])
            }
        &&& forall|k: int, l: int|
            0 <= k < l < self.roots@.len() ==> self.roots@[k] < self.roots@[l]
        &&& forall|j: int|
            0 <= j < self.seen@.len() && is_repository_root(#[trigger] self.seen@[j])
                ==> self.roots@.contains(j)
        &&& self.seen@.len() > 0 ==> self.seen@[0].depth == 0 && self.seen@[0].path == Some(
            self.walk.root@,
        )
        &&& forall|j: int|
            0 < j < self.seen@.len() ==> 1 <= #[trigger] self.seen@[j].depth <= self.seen@[j
                - 1].depth + 1
        &&& forall|k: int|
            0 <= k < self.roots@.len() && #[trigger] self.roots@[k] + 1 < self.seen@.len()
                ==> self.seen@[self.roots@[k] + 1].depth <= self.seen@[self.roots@[k]].depth
    }

    closed spec fn walk_agrees(&self) -> bool {
        &&& (self.seen@.len() == 0 <==> self.walk.last_depth@ is None)
        &&& self.seen@.len() > 0 ==> self.walk.last_depth@ == Some(self.seen@.last().depth)
        &&& self.seen@.len() > 0 && is_repository_root(self.seen@.last()) ==> self.walk.bound@
            == Some(self.seen@.last().depth)
    }

    /// What holds right after walkdir handed out `next`: the record is as
    /// before, and the walk's model has moved on by `next`.
    closed spec fn fits(&self, next: Option<Result<Entry, walkdir::Error>>) -> bool {
        &&& self.wf_seen()
        &&& match next {
            Some(Ok(e)) => {
                &&& self.walk.last_depth@ == Some(e.depth as nat)
                &&& self.walk.last_dir@ == e.is_dir
                &&& self.walk.bound@ == None::<nat>
                &&& self.seen@.len() == 0 ==> e.depth == 0 && text_view(e.path) == Some(
                    self.walk.root@,
                )
                &&& self.seen@.len() > 0 ==> 1 <= e.depth <= self.seen@.last().depth + 1
                &&& self.seen@.len() > 0 && is_repository_root(self.seen@.last()) ==> e.depth
                    <= self.seen@.last().depth
            },
            _ => self.walk_agrees(),
        }
    }

    /// A walk that starts at `root` and has reached nothing yet; its first
    /// entry will be `root` itself.
    pub fn new(root: &str) -> (r: WalkGitRepos)
        ensures
            r.wf(),
            r.root() == root@,
            !r.finished(),
            r.seen() == Seq::<EntryView>::empty(),
            r.roots() == Seq::<int>::empty(),
    {
        WalkGitRepos { walk: DirWalk::new(root), seen: Ghost(Seq::empty()), roots: Ghost(Seq::empty()) }
    }

    /// Takes the walk one entry further. A directory whose name ends with
    /// `.git` is opened as a repository, and the walk will not descend into
    /// it; any other entry is passed over. A failure of the walk is handed
    /// out, and the walk goes on after it. Once the walk is over, every step
    /// says so.
    pub fn advance(&mut self) -> (r: WalkStep)
        requires
            old(self).wf(),
        ensures
            final(self).wf(),
            final(self).root() == old(self).root(),
            old(self).finished() ==> r is Finished,
            (r is Finished) == final(self).finished(),
            match r {
                WalkStep::Finished => final(self).seen() == old(self).seen() && final(self).roots()
                    == old(self).roots(),
                WalkStep::Passed => {
                    &&& final(self).seen().drop_last() == old(self).seen()
                    &&& final(self).seen().len() == old(self).seen().len() + 1
                    &&& !is_repository_root(final(self).seen().last())
                    &&& final(self).roots() == old(self).roots()
                },
                WalkStep::Yield(Err(ScanError::WalkDir(_))) => final(self).seen() == old(
                    self,
                ).seen() && final(self).roots() == old(self).roots(),
                WalkStep::Yield(_) => {
                    &&& final(self).seen().drop_last() == old(self).seen()
                    &&& final(self).seen().len() == old(self).seen().len() + 1
                    &&& is_repository_root(final(self).seen().last())
                    &&& final(self).roots() == old(self).roots().push(old(self).seen().len() as int)
                },
            },
    {
        let next = next_entry(&mut self.walk);
        proof {
            if old(self).seen@.len() > 0 {
                assert(old(self).walk.last_depth@ == Some(old(self).seen@.last().depth));
            }
        }
        let r = self.take_step(next);
        proof {
            if next is Some && next.unwrap() is Ok {
                assert(self.seen@.drop_last() =~= old(self).seen@);
            }
        }
        r
    }

    /// Decides what a step of the walk comes to, given what walkdir handed out
    /// (`next`, already taken from `self`'s walk).
    fn take_step(&mut self, next: Option<Result<Entry, walkdir::Error>>) -> (r: WalkStep)
        requires
            old(self).fits(next),
        ensures
            final(self).walk.root == old(self).walk.root,
            final(self).walk.finished == old(self).walk.finished,
            next is None ==> r is Finished && final(self).seen@ == old(self).seen@
                && final(self).roots@ == old(self).roots@,
            next matches Some(Err(e)) ==> r == WalkStep::Yield(Err(ScanError::WalkDir(e)))
                && final(self).seen@ == old(self).seen@ && final(self).roots@ == old(self).roots@,
            next matches Some(Ok(e)) ==> {
                &&& !(r is Finished)
                &&& final(self).seen@ == old(self).seen@.push(entry_view(e))
                &&& (r is Passed) == !is_repository_root(entry_view(e))
                &&& final(self).roots@ == if is_repository_root(entry_view(e)) {
                    old(self).roots@.push(old(self).seen@.len() as int)
                } else {
                    old(self).roots@
                }
                &&& !(r is Passed) ==> (r matches WalkStep::Yield(Ok(_))) || (
                r matches WalkStep::Yield(Err(ScanError::Git2(_))))
            },
            final(self).wf(),
    {
        match next {
            None => WalkStep::Finished,
            Some(Err(e)) => WalkStep::Yield(Err(ScanError::from(e))),
            Some(Ok(entry)) => {
                let root = entry.is_dir && is_git_dir_name(
                    match &entry.name {
                        Some(s) => Some(s.as_str()),
                        None => None,
                    },
                );
                let ghost view = entry_view(entry);
                let ghost pos = self.seen@.len() as int;
                proof {
                    assert(self.seen@.push(view).drop_last() =~= self.seen@);
                }
                self.seen = Ghost(self.seen@.push(view));
                if root {
                    skip_current_dir(&mut self.walk);
                    self.roots = Ghost(self.roots@.push(pos));
                    proof {
                        assert(self.roots@.last() == pos);
                        assert forall|j: int|
                            0 <= j < self.seen@.len() && is_repository_root(
                                #[trigger] self.seen@[j],
                            ) implies self.roots@.contains(j) by {
                            if j < pos {
                                assert(old(self).seen@[j] == self.seen@[j]);
                                assert(old(self).roots@.contains(j));
                                let k = choose|k: int|
                                    0 <= k < old(self).roots@.len() && old(self).roots@[k] == j;
                                assert(self.roots@[k] == j);
                            } else {
                                assert(self.roots@[self.roots@.len() - 1] == j);
                            }
                        }
                        lemma_prune_step(*old(self), *self);
                    }
                    match open_repository(&entry.dent) {
                        Ok(repo) => WalkStep::Yield(Ok(repo)),
                        Err(err) => WalkStep::Yield(Err(ScanError::from(err))),
                    }
                } else {
                    proof {
                        assert forall|j: int|
                            0 <= j < self.seen@.len() && is_repository_root(
                                #[trigger] self.seen@[j],
                            ) implies self.roots@.contains(j) by {
                            assert(j < pos);
                            assert(old(self).seen@[j] == self.seen@[j]);
                            assert(old(self).roots@.contains(j));
                        }
                        lemma_prune_step(*old(self), *self);
                    }
                    WalkStep::Passed
                }
            },
        }
    }
}

/// One entry added to a walk's record keeps its pre-order shape and the
/// pruning of the roots it held.
proof fn lemma_prune_step(before: WalkGitRepos, after: WalkGitRepos)
    requires
        before.wf_seen(),
        after.walk.root == before.walk.root,
        after.seen@.len() == before.seen@.len() + 1,
        after.seen@.drop_last() == before.seen@,
        before.seen@.len() == 0 ==> after.seen@.last().depth == 0 && after.seen@.last().path == Some(
            before.walk.root@,
        ),
        before.seen@.len() > 0 ==> 1 <= after.seen@.last().depth <= before.seen@.last().depth + 1,
        before.seen@.len() > 0 && is_repository_root(before.seen@.last()) ==> after.seen@.last().depth
            <= before.seen@.last().depth,
        after.roots@ == before.roots@ || after.roots@ == before.roots@.push(before.seen@.len() as int),
    ensures
        after.seen@.len() > 0 ==> after.seen@[0].depth == 0 && after.seen@[0].path == Some(
            after.walk.root@,
        ),
        forall|j: int|
            0 < j < after.seen@.len() ==> 1 <= #[trigger] after.seen@[j].depth <= after.seen@[j
                - 1].depth + 1,
        forall|k: int|
            0 <= k < after.roots@.len() && #[trigger] after.roots@[k] + 1 < after.seen@.len()
                ==> after.seen@[after.roots@[k] + 1].depth <= after.seen@[after.roots@[k]].depth,
{
    let n = before.seen@.len() as int;
    assert forall|j: int| 0 <= j < n implies after.seen@[j] == before.seen@[j] by {
        assert(after.seen@.drop_last()[j] == after.seen@[j]);
    }
    assert forall|k: int|
        0 <= k < after.roots@.len() && #[trigger] after.roots@[k] + 1 < after.seen@.len()
            implies after.seen@[after.roots@[k] + 1].depth <= after.seen@[after.roots@[k]].depth by {
        assert(k < before.roots@.len());
        assert(after.roots@[k] == before.roots@[k]);
        let p = before.roots@[k];
        if p + 1 < n {
        } else {
            assert(p == n - 1);
            assert(is_repository_root(before.seen@[p]));
        }
    }
}

/// A walk hands out only repository roots: as long as it has reached no
/// directory whose name ends with `.git`, it has handed out nothing.
pub proof fn lemma_no_git_dir_nothing_found(walk: &WalkGitRepos)
    requires
        walk.wf(),
        forall|j: int| 0 <= j < walk.seen().len() ==> !is_repository_root(#[trigger] walk.seen()[j]),
    ensures
        walk.roots().len() == 0,
{
    if walk.roots().len() > 0 {
        assert(is_repository_root(walk.seen()[walk.roots()[0]]));
    }
}

/// The walk does not descend into a repository root it handed out: no entry
/// reached after it lies below it.
pub proof fn lemma_nothing_below_root(walk: &WalkGitRepos, k: int, j: int)
    requires
        walk.wf(),
        0 <= k < walk.roots().len(),
    ensures
        !is_below(walk.seen(), walk.roots()[k], j),
{
    let p = walk.roots@[k];
    if is_below(walk.seen@, p, j) {
        assert(walk.seen@[p + 1].depth > walk.seen@[p].depth);
    }
}

/// The walk reaches its entries in depth-first pre-order from its root: the
/// first entry is the root itself, at depth 0, every later one lies below it,
/// and each entry is at most one level deeper than the one before.
pub proof fn lemma_walk_is_pre_order(walk: &WalkGitRepos)
    requires
        walk.wf(),
    ensures
        walk.seen().len() > 0 ==> walk.seen()[0].depth == 0 && walk.seen()[0].path == Some(
            walk.root(),
        ),
        forall|j: int|
            0 < j < walk.seen().len() ==> 1 <= #[trigger] walk.seen()[j].depth <= walk.seen()[j
                - 1].depth + 1,
{
}

} // verus!
