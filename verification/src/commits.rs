//! Sets of commits, for comparing what two references can reach.

use std::collections::HashMap;

use vstd::prelude::*;

use crate::error::GitError;

verus! {

/// The 160 bits of a commit's object id: the first 128 and the last 32.
#[derive(Clone, Copy, Debug, PartialEq, Eq, Structural)]
pub struct CommitId {
    pub head: u128,
    pub tail: u32,
}

/// A set of commits, in the order in which they were added.
pub struct CommitSet {
    ids: Vec<CommitId>,
    tails: HashMap<u128, Vec<u32>>,
}

impl View for CommitSet {
    type V = Set<CommitId>;

    closed spec fn view(&self) -> Set<CommitId> {
        self.ids@.to_set()
    }
}

/// The commits that a walk named.
pub open spec fn walked(walk: Seq<Result<CommitId, String>>) -> Set<CommitId> {
    Set::new(
        |id: CommitId|
            exists|i: int|
                0 <= i < walk.len() && #[trigger] walk[i] == Ok::<CommitId, String>(id),
    )
}

impl CommitSet {
    /// No commit is listed twice, and the index lists exactly the commits of the set.
    pub closed spec fn wf(&self) -> bool {
        &&& self.ids@.no_duplicates()
        &&& forall|id: CommitId| #[trigger]
            self.ids@.contains(id) <==> self.tails@.contains_key(id.head)
                && self.tails@[id.head]@.contains(id.tail)
    }

    /// The empty set.
    pub fn new() -> (r: CommitSet)
        ensures
            r.wf(),
            r@ == Set::<CommitId>::empty(),
    {
        broadcast use vstd::std_specs::hash::group_hash_axioms;

        let r = CommitSet { ids: Vec::new(), tails: HashMap::new() };
        assert(r@ =~= Set::<CommitId>::empty());
        r
    }

    /// Tells whether the set holds a commit.
    pub fn contains(&self, id: CommitId) -> (r: bool)
        requires
            self.wf(),
        ensures
            r == self@.contains(id),
    {
        broadcast use vstd::std_specs::hash::group_hash_axioms;

        assert(self@.contains(id) == self.ids@.contains(id));
        match self.tails.get(&id.head) {
            Some(tails) => {
                let mut i: usize = 0;
                while i < tails.len()
                    invariant
                        self.wf(),
                        self.tails@.contains_key(id.head),
                        self.tails@[id.head] == *tails,
                        self@.contains(id) == self.ids@.contains(id),
                        i <= tails.len(),
                        forall|j: int| 0 <= j < i ==> tails@[j] != id.tail,
                    decreases tails.len() - i,
                {
                    if tails[i] == id.tail {
                        assert(tails@.contains(id.tail));
                        return true;
                    }
                    i = i + 1;
                }
                assert(!tails@.contains(id.tail));
                false
            },
            None => false,
        }
    }

    /// Adds a commit, which may be there already.
    pub fn insert(&mut self, id: CommitId)
        requires
            old(self).wf(),
        ensures
            final(self).wf(),
            final(self)@ == old(self)@.insert(id),
    {
        broadcast use vstd::std_specs::hash::group_hash_axioms;

        if self.contains(id) {
            assert(self@ =~= old(self)@.insert(id));
            return;
        }
        let ghost before = *self;
        let mut tails = match self.tails.remove(&id.head) {
            Some(tails) => tails,
            None => Vec::new(),
        };
        let ghost tails_before = tails@;
        tails.push(id.tail);
        proof {
            assert forall|tail: u32| #[trigger] tails@.contains(tail) == (tails_before.contains(
                tail,
            ) || tail == id.tail) by {
                if tail == id.tail {
                    assert(tails@[tails_before.len() as int] == tail);
                }
                if tails_before.contains(tail) {
                    let at = choose|at: int|
                        0 <= at < tails_before.len() && tails_before[at] == tail;
                    assert(tails@[at] == tail);
                }
            }
        }
        self.tails.insert(id.head, tails);
        self.ids.push(id);
        proof {
            assert forall|other: CommitId| #[trigger]
                self.ids@.contains(other) == (before.ids@.contains(other) || other == id) by {
                if other == id {
                    assert(self.ids@[before.ids@.len() as int] == other);
                }
                if before.ids@.contains(other) {
                    let at = choose|at: int|
                        0 <= at < before.ids@.len() && before.ids@[at] == other;
                    assert(self.ids@[at] == other);
                }
            }
            assert forall|other: CommitId| #[trigger]
                self.ids@.contains(other) <==> self.tails@.contains_key(other.head)
                    && self.tails@[other.head]@.contains(other.tail) by {
                if other.head == id.head && other.tail != id.tail {
                    assert(other != id);
                }
            }
            assert(self@ =~= old(self)@.insert(id));
        }
    }

    /// Counts the commits of this set that `other` lacks.
    pub fn count_missing_from(&self, other: &CommitSet) -> (r: usize)
        requires
            self.wf(),
            other.wf(),
        ensures
            r == self@.difference(other@).len(),
    {
        let mut count: usize = 0;
        let mut i: usize = 0;
        let ghost lacking = |n: int| self.ids@.take(n).to_set().difference(other@);
        proof {
            assert(lacking(0) =~= Set::<CommitId>::empty());
        }
        while i < self.ids.len()
            invariant
                self.wf(),
                other.wf(),
                i <= self.ids.len(),
                count <= i,
                lacking == (|n: int| self.ids@.take(n).to_set().difference(other@)),
                lacking(i as int).finite(),
                count == lacking(i as int).len(),
            decreases self.ids.len() - i,
        {
            let id = self.ids[i];
            let seen = other.contains(id);
            proof {
                let before = self.ids@.take(i as int);
                let after = self.ids@.take(i + 1);
                assert(after == before.push(id));
                assert forall|x: CommitId| #[trigger]
                    after.to_set().contains(x) == (before.to_set().contains(x) || x == id) by {
                    if x == id {
                        assert(after[i as int] == x);
                    }
                    if before.contains(x) {
                        let at = choose|at: int| 0 <= at < before.len() && before[at] == x;
                        assert(after[at] == x);
                    }
                }
                assert(!before.contains(id));
                if seen {
                    assert(lacking(i + 1) =~= lacking(i as int));
                } else {
                    assert(lacking(i + 1) =~= lacking(i as int).insert(id));
                }
            }
            if !seen {
                count = count + 1;
            }
            i = i + 1;
        }
        assert(self.ids@.take(self.ids.len() as int) == self.ids@);
        count
    }
}

/// Collects the commits of a walk. The first failed step of the walk is the error.
pub fn reachable_commits(walk: Vec<Result<CommitId, String>>) -> (r: Result<CommitSet, GitError>)
    ensures
        match r {
            Ok(set) => set.wf() && set@ == walked(walk@) && (forall|i: int|
                0 <= i < walk.len() ==> #[trigger] walk@[i] is Ok),
            Err(error) => exists|i: int|
                0 <= i < walk.len() && #[trigger] walk@[i] == Err::<CommitId, String>(
                    error->Failed_0,
                ) && error is Failed && (forall|j: int| 0 <= j < i ==> walk@[j] is Ok),
        },
{
    let ghost all = walk@;
    let mut set = CommitSet::new();
    assert(set@ =~= walked(all.take(0)));
    for step in iter: walk
        invariant
            iter.seq() == all,
            set.wf(),
            forall|i: int| 0 <= i < iter.index() ==> #[trigger] all[i] is Ok,
            set@ == walked(all.take(iter.index())),
    {
        let ghost before = all.take(iter.index());
        let ghost after = all.take(iter.index() + 1);
        match step {
            Ok(id) => {
                proof {
                    assert(after == before.push(step));
                    assert forall|x: CommitId| #[trigger]
                        walked(after).contains(x) == walked(before).insert(id).contains(x) by {
                        if walked(before).contains(x) {
                            let at = choose|at: int|
                                0 <= at < before.len() && #[trigger] before[at] == Ok::<
                                    CommitId,
                                    String,
                                >(x);
                            assert(after[at] == Ok::<CommitId, String>(x));
                        }
                        if x == id {
                            assert(after[before.len() as int] == Ok::<CommitId, String>(x));
                        }
                    }
                    assert(walked(after) =~= walked(before).insert(id));
                }
                set.insert(id);
            },
            Err(message) => {
                assert(all[iter.index()] == Err::<CommitId, String>(message));
                return Err(GitError::Failed(message));
            },
        }
    }
    assert(all.take(all.len() as int) == all);
    Ok(set)
}

/// How many commits a branch has that its upstream lacks, and the other way round.
pub fn ahead_behind(branch: &CommitSet, upstream: &CommitSet) -> (r: (usize, usize))
    requires
        branch.wf(),
        upstream.wf(),
    ensures
        r.0 == branch@.difference(upstream@).len(),
        r.1 == upstream@.difference(branch@).len(),
{
    (branch.count_missing_from(upstream), upstream.count_missing_from(branch))
}

/// A branch that is neither ahead of its upstream nor behind it reaches the same commits.
pub proof fn level_branches_reach_the_same(branch: Set<CommitId>, upstream: Set<CommitId>)
    requires
        branch.finite(),
        upstream.finite(),
    ensures
        (branch.difference(upstream).len() == 0 && upstream.difference(branch).len() == 0) <==> (
        branch == upstream),
{
    if branch.difference(upstream).len() == 0 && upstream.difference(branch).len() == 0 {
        assert(branch.difference(upstream) =~= Set::empty());
        assert(upstream.difference(branch) =~= Set::empty());
        assert forall|id: CommitId| branch.contains(id) == upstream.contains(id) by {
            assert(!branch.difference(upstream).contains(id));
            assert(!upstream.difference(branch).contains(id));
        }
        assert(branch =~= upstream);
    } else if branch == upstream {
        assert(branch.difference(upstream) =~= Set::empty());
    }
}

/// A step of a walk adds the commit that it named, and a failed step adds none.
pub proof fn walks_name_their_steps(
    walk: Seq<Result<CommitId, String>>,
    id: CommitId,
    message: String,
)
    ensures
        walked(Seq::empty()) == Set::<CommitId>::empty(),
        walked(walk.push(Ok(id))) == walked(walk).insert(id),
        walked(walk.push(Err(message))) == walked(walk),
{
    assert(walked(Seq::empty()) =~= Set::<CommitId>::empty());
    let longer = walk.push(Ok(id));
    let failed = walk.push(Err(message));
    assert forall|other: CommitId| #[trigger]
        walked(longer).contains(other) == walked(walk).insert(id).contains(other) by {
        if walked(walk).contains(other) {
            let i = choose|i: int|
                0 <= i < walk.len() && #[trigger] walk[i] == Ok::<CommitId, String>(other);
            assert(longer[i] == walk[i]);
        }
        if other == id {
            assert(longer[walk.len() as int] == Ok::<CommitId, String>(other));
        }
    }
    assert(walked(longer) =~= walked(walk).insert(id));
    assert forall|other: CommitId| #[trigger]
        walked(failed).contains(other) == walked(walk).contains(other) by {
        if walked(walk).contains(other) {
            let i = choose|i: int|
                0 <= i < walk.len() && #[trigger] walk[i] == Ok::<CommitId, String>(other);
            assert(failed[i] == walk[i]);
        }
    }
    assert(walked(failed) =~= walked(walk));
}

} // verus!
