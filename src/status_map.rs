use vstd::prelude::*;

use crate::git::repository_state;

verus! {

/// The operation that a repository is in the middle of, or `Clean`.
#[derive(PartialEq, Eq, Structural, Clone, Copy, Debug)]
pub enum RepositoryState {
    Clean,
    Merge,
    Revert,
    RevertSequence,
    CherryPick,
    CherryPickSequence,
    Bisect,
    Rebase,
    RebaseInteractive,
    RebaseMerge,
    ApplyMailbox,
    ApplyMailboxOrRebase,
}

/// How many states there are, and so how many buckets a map has.
pub const STATE_COUNT: usize = 12;

/// Where a state's bucket stands among the buckets.
pub open spec fn state_position(state: RepositoryState) -> int {
    match state {
        RepositoryState::Clean => 0,
        RepositoryState::Merge => 1,
        RepositoryState::Revert => 2,
        RepositoryState::RevertSequence => 3,
        RepositoryState::CherryPick => 4,
        RepositoryState::CherryPickSequence => 5,
        RepositoryState::Bisect => 6,
        RepositoryState::Rebase => 7,
        RepositoryState::RebaseInteractive => 8,
        RepositoryState::RebaseMerge => 9,
        RepositoryState::ApplyMailbox => 10,
        RepositoryState::ApplyMailboxOrRebase => 11,
    }
}

fn to_usize(state: &RepositoryState) -> (r: usize)
    ensures
        r == state_position(*state),
        r < STATE_COUNT,
{
    match state {
        RepositoryState::Clean => 0,
        RepositoryState::Merge => 1,
        RepositoryState::Revert => 2,
        RepositoryState::RevertSequence => 3,
        RepositoryState::CherryPick => 4,
        RepositoryState::CherryPickSequence => 5,
        RepositoryState::Bisect => 6,
        RepositoryState::Rebase => 7,
        RepositoryState::RebaseInteractive => 8,
        RepositoryState::RebaseMerge => 9,
        RepositoryState::ApplyMailbox => 10,
        RepositoryState::ApplyMailboxOrRebase => 11,
    }
}

/// The items of `items` tagged with `state`, in their order: what appending
/// each item, in turn, to the bucket of its tag leaves in that bucket.
pub open spec fn select<T>(items: Seq<(T, RepositoryState)>, state: RepositoryState) -> Seq<T>
    decreases items.len(),
{
    if items.len() == 0 {
        Seq::empty()
    } else {
        let rest = select(items.drop_last(), state);
        if items.last().1 == state {
            rest.push(items.last().0)
        } else {
            rest
        }
    }
}

/// `tagged` holds the items of `items`, in order, each with a state.
pub open spec fn is_tagging_of<T>(tagged: Seq<(T, RepositoryState)>, items: Seq<T>) -> bool {
    &&& tagged.len() == items.len()
    &&& forall|k: int| 0 <= k < tagged.len() ==> (#[trigger] tagged[k]).0 == items[k]
}

/// Repositories sorted into one bucket per state, each bucket in the order in
/// which its repositories were added.
pub struct RepositoryStateMap {
    buckets: Vec<Vec<git2::Repository>>,
}

impl RepositoryStateMap {
    /// The map holds exactly one bucket for each state.
    pub closed spec fn wf(&self) -> bool {
        self.buckets@.len() == STATE_COUNT
    }

    /// The repositories in the bucket of `state`, in order.
    pub closed spec fn bucket(&self, state: RepositoryState) -> Seq<git2::Repository> {
        self.buckets@[state_position(state)]@
    }

    /// A map with every bucket empty.
    pub fn new() -> (r: RepositoryStateMap)
        ensures
            r.wf(),
            forall|s: RepositoryState| r.bucket(s) == Seq::<git2::Repository>::empty(),
    {
        let mut buckets: Vec<Vec<git2::Repository>> = Vec::new();
        let mut i: usize = 0;
        while i < STATE_COUNT
            invariant
                i <= STATE_COUNT,
                buckets@.len() == i,
                forall|k: int| 0 <= k < i ==> buckets@[k]@ == Seq::<git2::Repository>::empty(),
            decreases STATE_COUNT - i,
        {
            buckets.push(Vec::new());
            i = i + 1;
        }
        RepositoryStateMap { buckets }
    }

    /// The bucket of `state`, left in place.
    pub fn index(&self, state: &RepositoryState) -> (r: &Vec<git2::Repository>)
        requires
            self.wf(),
        ensures
            r@ == self.bucket(*state),
    {
        &self.buckets[to_usize(state)]
    }

    /// Empties the bucket of `state` and hands back what it held; the other
    /// buckets keep what they hold.
    pub fn take(&mut self, state: &RepositoryState) -> (r: Vec<git2::Repository>)
        requires
            old(self).wf(),
        ensures
            final(self).wf(),
            r@ == old(self).bucket(*state),
            final(self).bucket(*state) == Seq::<git2::Repository>::empty(),
            forall|s: RepositoryState| s != *state ==> final(self).bucket(s) == old(self).bucket(s),
    {
        let i = to_usize(state);
        let mut out: Vec<git2::Repository> = Vec::new();
        self.buckets.set_and_swap(i, &mut out);
        out
    }

    /// Appends `repo` to the bucket of `state`; the other buckets keep what
    /// they hold.
    pub fn insert_with_state(&mut self, repo: git2::Repository, state: RepositoryState)
        requires
            old(self).wf(),
        ensures
            final(self).wf(),
            final(self).bucket(state) == old(self).bucket(state).push(repo),
            forall|s: RepositoryState| s != state ==> final(self).bucket(s) == old(self).bucket(s),
    {
        let i = to_usize(&state);
        let mut b: Vec<git2::Repository> = Vec::new();
        self.buckets.set_and_swap(i, &mut b);
        b.push(repo);
        self.buckets.set_and_swap(i, &mut b);
    }

    /// Appends `repo` to the bucket of the state it is in now.
    pub fn insert(&mut self, repo: git2::Repository)
        requires
            old(self).wf(),
        ensures
            final(self).wf(),
            exists|state: RepositoryState|
                {
                    &&& final(self).bucket(state) == old(self).bucket(state).push(repo)
                    &&& forall|s: RepositoryState|
                        s != state ==> final(self).bucket(s) == old(self).bucket(s)
                },
    {
        let state = repository_state(&repo);
        self.insert_with_state(repo, state);
    }

    /// A map holding each repository in the bucket of the state it is in
    /// when it is added, each bucket in the order of `repos`: what adding the
    /// repositories to an empty map one by one gives.
    pub fn from_repositories(repos: Vec<git2::Repository>) -> (r: RepositoryStateMap)
        ensures
            r.wf(),
            exists|tagged: Seq<(git2::Repository, RepositoryState)>|
                {
                    &&& #[trigger] is_tagging_of(tagged, repos@)
                    &&& forall|s: RepositoryState| r.bucket(s) == select(tagged, s)
                },
    {
        let ghost all = repos@;
        let ghost mut tagged: Seq<(git2::Repository, RepositoryState)> = Seq::empty();
        let mut map = RepositoryStateMap::new();
        let total = repos.len();
        let mut rest = repos;
        let mut i: usize = 0;
        while rest.len() > 0
            invariant
                map.wf(),
                all == repos@,
                total == all.len(),
                i <= total,
                rest@ == all.subrange(i as int, total as int),
                tagged.len() == i,
                forall|k: int| 0 <= k < i ==> (#[trigger] tagged[k]).0 == all[k],
                forall|s: RepositoryState| map.bucket(s) == select(tagged, s),
            decreases rest@.len(),
        {
            let repo = rest.remove(0);
            proof {
                assert(rest@ =~= all.subrange(i + 1, total as int));
            }
            let state = repository_state(&repo);
            proof {
                let before = tagged;
                tagged = tagged.push((repo, state));
                assert(tagged.drop_last() =~= before);
            }
            map.insert_with_state(repo, state);
            i = i + 1;
        }
        proof {
            assert(is_tagging_of(tagged, repos@));
        }
        map
    }

    /// A map holding each repository in the bucket of the state it is tagged
    /// with, each bucket in the order of `items`.
    pub fn from_tagged(items: Vec<(git2::Repository, RepositoryState)>) -> (r: RepositoryStateMap)
        ensures
            r.wf(),
            forall|s: RepositoryState| r.bucket(s) == select(items@, s),
    {
        let ghost all = items@;
        let mut map = RepositoryStateMap::new();
        let mut rest = items;
        let total = rest.len();
        let ghost n = all.len();
        let mut i: usize = 0;
        while rest.len() > 0
            invariant
                map.wf(),
                n == all.len(),
                n == total,
                all == items@,
                i <= n,
                rest@ == all.subrange(i as int, n as int),
                forall|s: RepositoryState| map.bucket(s) == select(all.subrange(0, i as int), s),
            decreases rest@.len(),
        {
            let (repo, state) = rest.remove(0);
            proof {
                assert(all.subrange(0, i + 1).drop_last() =~= all.subrange(0, i as int));
                assert(rest@ =~= all.subrange(i + 1, n as int));
            }
            map.insert_with_state(repo, state);
            i = i + 1;
        }
        proof {
            assert(all.subrange(0, n as int) =~= all);
        }
        map
    }
}

/// How many items the buckets of all states hold together.
pub open spec fn select_total<T>(items: Seq<(T, RepositoryState)>) -> nat {
    select(items, RepositoryState::Clean).len() + select(items, RepositoryState::Merge).len()
        + select(items, RepositoryState::Revert).len() + select(
        items,
        RepositoryState::RevertSequence,
    ).len() + select(items, RepositoryState::CherryPick).len() + select(
        items,
        RepositoryState::CherryPickSequence,
    ).len() + select(items, RepositoryState::Bisect).len() + select(
        items,
        RepositoryState::Rebase,
    ).len() + select(items, RepositoryState::RebaseInteractive).len() + select(
        items,
        RepositoryState::RebaseMerge,
    ).len() + select(items, RepositoryState::ApplyMailbox).len() + select(
        items,
        RepositoryState::ApplyMailboxOrRebase,
    ).len()
}

/// Sorting items into buckets by their tags loses none and repeats none:
/// each item lands in the bucket of its own tag, as the last of that bucket
/// at the time, and the buckets together hold as many items as were sorted.
pub proof fn lemma_partition_complete<T>(items: Seq<(T, RepositoryState)>)
    ensures
        select_total(items) == items.len(),
        items.len() > 0 ==> select(items, items.last().1).last() == items.last().0,
        forall|s: RepositoryState|
            s != items.last().1 && items.len() > 0 ==> select(items, s) == select(
                items.drop_last(),
                s,
            ),
    decreases items.len(),
{
    if items.len() > 0 {
        lemma_partition_complete(items.drop_last());
    }
}

} // verus!
