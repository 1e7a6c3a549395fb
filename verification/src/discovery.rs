//! Finding repositories below a directory.

use vstd::prelude::*;

use crate::error::GitError;
use crate::git::RepositoryManager;
use crate::order::{
    insertion_point, insertion_point_bounds, is_sorted, natural_order, natural_order_can_sort,
    sort_stable, stable_sorted, stable_sorted_is_sorted, Sortable,
};
use crate::path::{path_le_total, path_le_transitive, FilePath};

verus! {

/// What is found at an entry of the directory that is searched.
#[derive(Debug)]
pub struct Child {
    pub path: FilePath,
    /// It is a directory; a symbolic link to one is none.
    pub is_dir: Result<bool, String>,
    /// It holds something named `.git`.
    pub has_git: bool,
    /// The repository that opens there, if one does.
    pub repository: Option<Result<RepositoryManager, String>>,
}

impl Sortable for Child {
    open spec fn le(self, other: Child) -> bool {
        self.path@.le(other.path@)
    }

    proof fn le_total(left: Child, right: Child) {
        path_le_total(left.path@, right.path@);
    }

    proof fn le_transitive(a: Child, b: Child, c: Child) {
        path_le_transitive(a.path@, b.path@, c.path@);
    }

    fn is_le(&self, other: &Child) -> bool {
        self.path.is_le(&other.path)
    }
}

impl Sortable for RepositoryManager {
    open spec fn le(self, other: RepositoryManager) -> bool {
        self.root@.le(other.root@)
    }

    proof fn le_total(left: RepositoryManager, right: RepositoryManager) {
        path_le_total(left.root@, right.root@);
    }

    proof fn le_transitive(a: RepositoryManager, b: RepositoryManager, c: RepositoryManager) {
        path_le_transitive(a.root@, b.root@, c.root@);
    }

    fn is_le(&self, other: &RepositoryManager) -> bool {
        self.root.is_le(&other.root)
    }
}

/// What is found where repositories are looked for.
#[derive(Debug)]
pub enum Search {
    /// The repository that a directory belongs to.
    Around(Result<RepositoryManager, String>),
    /// That, if there is one, and the directory's entries.
    Below {
        directory: Result<FilePath, String>,
        is_dir: bool,
        around: Result<Option<RepositoryManager>, String>,
        children: Result<Vec<Child>, String>,
    },
}

/// The entry is a directory that holds something named `.git`.
pub open spec fn is_candidate(child: Child) -> bool {
    child.is_dir == Ok::<bool, String>(true) && child.has_git
}

/// The message of an entry that ends the search.
pub open spec fn child_fault(child: Child) -> Option<String> {
    match (child.is_dir, child.repository) {
        (Err(message), _) => Some(message),
        (Ok(true), Some(Err(message))) => if child.has_git {
            Some(message)
        } else {
            None
        },
        _ => None,
    }
}

/// The repositories that open at the candidates of a list, in its order.
pub open spec fn opened(children: Seq<Child>) -> Seq<RepositoryManager>
    decreases children.len(),
{
    if children.len() == 0 {
        Seq::empty()
    } else {
        let before = opened(children.drop_last());
        let child = children.last();
        if is_candidate(child) && child.repository matches Some(Ok(repository)) {
            before.push(child.repository->0->Ok_0)
        } else {
            before
        }
    }
}

/// Both are one repository: they share their common directory.
pub open spec fn is_same_repository(left: RepositoryManager, right: RepositoryManager) -> bool {
    left.common_dir@.same_place(right.common_dir@)
}

/// The repository is among those of a list.
pub open spec fn is_among(
    repositories: Seq<RepositoryManager>,
    repository: RepositoryManager,
) -> bool {
    exists|i: int|
        0 <= i < repositories.len() && is_same_repository(#[trigger] repositories[i], repository)
}

/// The list with each repository where it occurs first.
pub open spec fn without_repeats(repositories: Seq<RepositoryManager>) -> Seq<RepositoryManager>
    decreases repositories.len(),
{
    if repositories.len() == 0 {
        Seq::empty()
    } else {
        let before = without_repeats(repositories.drop_last());
        if is_among(before, repositories.last()) {
            before
        } else {
            before.push(repositories.last())
        }
    }
}

/// The repository around the directory, if there is one, as a list.
pub open spec fn around_first(around: Option<RepositoryManager>) -> Seq<RepositoryManager> {
    match around {
        Some(repository) => seq![repository],
        None => Seq::empty(),
    }
}

/// The repositories that a search below a directory comes upon, in this order: the one around
/// the directory, then those of its entries by path.
pub open spec fn come_upon(around: Option<RepositoryManager>, children: Seq<Child>) -> Seq<
    RepositoryManager,
> {
    around_first(around) + opened(stable_sorted(children, natural_order()))
}

/// Adds a repository to a list unless it is there already.
pub fn push_unique_repository(
    repositories: &mut Vec<RepositoryManager>,
    repository: RepositoryManager,
)
    ensures
        final(repositories)@ == if is_among(old(repositories)@, repository) {
            old(repositories)@
        } else {
            old(repositories)@.push(repository)
        },
{
    let mut i: usize = 0;
    while i < repositories.len()
        invariant
            i <= repositories.len(),
            repositories@ == old(repositories)@,
            forall|j: int|
                0 <= j < i ==> !is_same_repository(#[trigger] repositories@[j], repository),
        decreases repositories.len() - i,
    {
        if repositories[i].common_dir.is_same_place(&repository.common_dir) {
            assert(is_same_repository(repositories@[i as int], repository));
            return;
        }
        i = i + 1;
    }
    repositories.push(repository);
}

/// Collects the repositories of a search below a directory. The first entry by path that
/// cannot be inspected, or whose repository cannot be taken in, ends the search.
fn collect(around: Option<RepositoryManager>, children: Vec<Child>) -> (r: Result<
    Vec<RepositoryManager>,
    GitError,
>)
    ensures
        match r {
            Ok(repositories) => {
                &&& forall|i: int|
                    0 <= i < children.len() ==> child_fault(
                        #[trigger] stable_sorted(children@, natural_order())[i],
                    ) is None
                &&& repositories@ == without_repeats(come_upon(around, children@))
            },
            Err(error) => is_child_error(children@, error),
        },
{
    let ghost given = children@;
    let ghost sorted = stable_sorted(given, natural_order::<Child>());
    let ghost first = around_first(around);
    let mut repositories: Vec<RepositoryManager> = Vec::new();
    assert(without_repeats(Seq::<RepositoryManager>::empty()) =~= Seq::empty());
    if let Some(repository) = around {
        assert(seq![repository].drop_last() =~= Seq::empty());
        push_unique_repository(&mut repositories, repository);
    }
    assert(repositories@ == without_repeats(first));
    proof {
        natural_order_can_sort::<Child>();
        stable_sorted_is_sorted(given, natural_order::<Child>());
    }
    let by_path = sort_stable(children);
    assert(first + opened(sorted.take(0)) =~= first);
    for child in iter: by_path
        invariant
            iter.seq() == sorted,
            children@ == given,
            sorted == stable_sorted(given, natural_order::<Child>()),
            sorted.len() == given.len(),
            forall|i: int| 0 <= i < iter.index() ==> child_fault(#[trigger] sorted[i]) is None,
            repositories@ == without_repeats(first + opened(sorted.take(iter.index()))),
    {
        let ghost at = iter.index();
        let ghost so_far = first + opened(sorted.take(at));
        assert(sorted.take(at + 1).drop_last() =~= sorted.take(at));
        assert(sorted.take(at + 1).last() == sorted[at]);
        let is_dir = match child.is_dir {
            Ok(is_dir) => is_dir,
            Err(message) => {
                assert(child_fault(sorted[at]) == Some(message));
                return Err(GitError::Failed(message));
            },
        };
        if is_dir && child.has_git {
            match child.repository {
                None => {},
                Some(Err(message)) => {
                    assert(child_fault(sorted[at]) == Some(message));
                    return Err(GitError::Failed(message));
                },
                Some(Ok(repository)) => {
                    let ghost next = first + opened(sorted.take(at + 1));
                    assert(next =~= so_far.push(repository));
                    assert(next.drop_last() =~= so_far);
                    push_unique_repository(&mut repositories, repository);
                },
            }
        }
    }
    assert(sorted.take(sorted.len() as int) =~= sorted);
    Ok(repositories)
}

/// The error is that of the first entry by path that ends a search.
pub open spec fn is_child_error(children: Seq<Child>, error: GitError) -> bool {
    let sorted = stable_sorted(children, natural_order());
    exists|i: int|
        0 <= i < children.len() && child_fault(#[trigger] sorted[i]) is Some && error
            == GitError::Failed(child_fault(sorted[i])->0) && forall|j: int|
            0 <= j < i ==> child_fault(#[trigger] sorted[j]) is None
}

/// Lists the repositories that a search found. Around a directory that is the one repository.
/// Below a directory it is the repository around it and those that open at its entries, each
/// once, by root; there has to be at least one.
pub fn discover_repositories(search: Search) -> (r: Result<Vec<RepositoryManager>, GitError>)
    ensures
        match search {
            Search::Around(Ok(repository)) => r matches Ok(found) && found@ == seq![repository],
            Search::Around(Err(message)) => r == Err::<Vec<RepositoryManager>, GitError>(
                GitError::Failed(message),
            ),
            Search::Below { directory, is_dir, around, children } => match r {
                Ok(found) => {
                    &&& directory is Ok
                    &&& is_dir
                    &&& around is Ok
                    &&& children is Ok
                    &&& forall|i: int|
                        0 <= i < children->Ok_0.len() ==> child_fault(
                            #[trigger] stable_sorted(children->Ok_0@, natural_order())[i],
                        ) is None
                    &&& come_upon(around->Ok_0, children->Ok_0@).len() > 0
                    &&& found@ == stable_sorted(
                        without_repeats(come_upon(around->Ok_0, children->Ok_0@)),
                        natural_order(),
                    )
                },
                Err(error) => match (directory, around, children) {
                    (Err(message), _, _) => error == GitError::Failed(message),
                    (Ok(path), _, _) if !is_dir => error matches GitError::NotSearchable(text)
                        && text@ == path.text@,
                    (_, Err(message), _) => error == GitError::Failed(message),
                    (_, _, Err(message)) => error == GitError::Failed(message),
                    (Ok(path), Ok(first), Ok(entries)) => {
                        ||| is_child_error(entries@, error)
                        ||| error matches GitError::NoRepositories(text) && text@ == path.text@
                            && come_upon(first, entries@).len() == 0 && forall|i: int|
                            0 <= i < entries.len() ==> child_fault(
                                #[trigger] stable_sorted(entries@, natural_order())[i],
                            ) is None
                    },
                },
            },
        },
{
    let (directory, is_dir, around, children) = match search {
        Search::Around(Ok(repository)) => {
            let mut found: Vec<RepositoryManager> = Vec::new();
            found.push(repository);
            return Ok(found);
        },
        Search::Around(Err(message)) => return Err(GitError::Failed(message)),
        Search::Below { directory, is_dir, around, children } => {
            (directory, is_dir, around, children)
        },
    };
    let directory = match directory {
        Ok(directory) => directory,
        Err(message) => return Err(GitError::Failed(message)),
    };
    if !is_dir {
        return Err(GitError::NotSearchable(directory.text));
    }
    let around = match around {
        Ok(around) => around,
        Err(message) => return Err(GitError::Failed(message)),
    };
    let children = match children {
        Ok(children) => children,
        Err(message) => return Err(GitError::Failed(message)),
    };
    let ghost all = come_upon(around, children@);
    let repositories = match collect(around, children) {
        Ok(repositories) => repositories,
        Err(error) => return Err(error),
    };
    proof {
        repeats_leave_one(all);
    }
    if repositories.is_empty() {
        return Err(GitError::NoRepositories(directory.text));
    }
    Ok(sort_stable(repositories))
}

proof fn repeats_leave_one(all: Seq<RepositoryManager>)
    ensures
        without_repeats(all).len() <= all.len(),
        all.len() > 0 ==> without_repeats(all).len() > 0,
        forall|i: int| 0 <= i < all.len() ==> is_among(without_repeats(all), #[trigger] all[i]),
        forall|i: int|
            0 <= i < without_repeats(all).len() ==> all.contains(#[trigger] without_repeats(all)[i]),
        forall|i: int, j: int|
            0 <= i < j < without_repeats(all).len() ==> !is_same_repository(
                #[trigger] without_repeats(all)[i],
                #[trigger] without_repeats(all)[j],
            ),
    decreases all.len(),
{
    if all.len() > 0 {
        let before = all.drop_last();
        let last = all.last();
        let kept = without_repeats(before);
        let now = without_repeats(all);
        repeats_leave_one(before);
        assert(all[all.len() - 1] == last);
        assert forall|i: int| 0 <= i < all.len() implies is_among(now, #[trigger] all[i]) by {
            if i < before.len() {
                assert(before[i] == all[i]);
                assert(is_among(kept, before[i]));
                let j = choose|j: int|
                    0 <= j < kept.len() && is_same_repository(#[trigger] kept[j], before[i]);
                assert(now[j] == kept[j]);
            } else if !is_among(kept, last) {
                assert(now[kept.len() as int] == last);
            }
        }
        assert forall|i: int| 0 <= i < now.len() implies all.contains(#[trigger] now[i]) by {
            if i < kept.len() {
                assert(now[i] == kept[i]);
                assert(before.contains(kept[i]));
                let j = choose|j: int| 0 <= j < before.len() && before[j] == kept[i];
                assert(all[j] == now[i]);
            }
        }
        assert forall|i: int, j: int| 0 <= i < j < now.len() implies !is_same_repository(
            #[trigger] now[i],
            #[trigger] now[j],
        ) by {
            assert(now[i] == kept[i]);
            if j < kept.len() {
                assert(now[j] == kept[j]);
            } else {
                assert(!is_among(kept, last));
            }
        }
    }
}

proof fn sorting_keeps_apart(items: Seq<RepositoryManager>)
    requires
        forall|i: int, j: int|
            0 <= i < j < items.len() ==> !is_same_repository(
                #[trigger] items[i],
                #[trigger] items[j],
            ),
    ensures
        ({
            let sorted = stable_sorted(items, natural_order());
            forall|i: int, j: int|
                0 <= i < j < sorted.len() ==> !is_same_repository(
                    #[trigger] sorted[i],
                    #[trigger] sorted[j],
                )
        }),
    decreases items.len(),
{
    broadcast use vstd::seq_lib::group_to_multiset_ensures;

    if items.len() > 0 {
        let le = natural_order::<RepositoryManager>();
        let before = items.drop_last();
        let rest = stable_sorted(before, le);
        let item = items.last();
        let sorted = stable_sorted(items, le);
        natural_order_can_sort::<RepositoryManager>();
        sorting_keeps_apart(before);
        stable_sorted_is_sorted(before, le);
        stable_sorted_is_sorted(items, le);
        let at = insertion_point(rest, item, le) as int;
        insertion_point_bounds(rest, item, le);
        assert forall|i: int| 0 <= i < rest.len() implies !is_same_repository(
            #[trigger] rest[i],
            item,
        ) && !is_same_repository(item, rest[i]) by {
            assert(rest.contains(rest[i]));
            assert(before.to_multiset().count(rest[i]) > 0);
            assert(before.contains(rest[i]));
            let j = choose|j: int| 0 <= j < before.len() && before[j] == rest[i];
            assert(items[j] == rest[i]);
            assert(items[items.len() - 1] == item);
        }
        assert forall|i: int, j: int| 0 <= i < j < sorted.len() implies !is_same_repository(
            #[trigger] sorted[i],
            #[trigger] sorted[j],
        ) by {
            assert(sorted == rest.insert(at, item));
            if i < at {
                assert(sorted[i] == rest[i]);
            } else if i > at {
                assert(sorted[i] == rest[i - 1]);
            }
            if j < at {
                assert(sorted[j] == rest[j]);
            } else if j > at {
                assert(sorted[j] == rest[j - 1]);
            }
        }
    }
}

/// The repositories that a search lists stand in the order of their roots, each is one that
/// the search came upon, no two are the same, and none that the search came upon is left out.
pub proof fn listed_repositories_are_all_and_distinct(all: Seq<RepositoryManager>)
    ensures
        ({
            let listed = stable_sorted(without_repeats(all), natural_order());
            &&& is_sorted(listed, natural_order())
            &&& forall|i: int| 0 <= i < listed.len() ==> all.contains(#[trigger] listed[i])
            &&& forall|i: int, j: int|
                0 <= i < j < listed.len() ==> !is_same_repository(
                    #[trigger] listed[i],
                    #[trigger] listed[j],
                )
            &&& forall|i: int| 0 <= i < all.len() ==> is_among(listed, #[trigger] all[i])
        }),
{
    broadcast use vstd::seq_lib::group_to_multiset_ensures;

    let le = natural_order::<RepositoryManager>();
    let kept = without_repeats(all);
    let listed = stable_sorted(kept, le);
    natural_order_can_sort::<RepositoryManager>();
    repeats_leave_one(all);
    stable_sorted_is_sorted(kept, le);
    sorting_keeps_apart(kept);
    assert forall|i: int| 0 <= i < listed.len() implies all.contains(#[trigger] listed[i]) by {
        assert(listed.contains(listed[i]));
        assert(kept.to_multiset().count(listed[i]) > 0);
        assert(kept.contains(listed[i]));
        let j = choose|j: int| 0 <= j < kept.len() && kept[j] == listed[i];
        assert(all.contains(kept[j]));
    }
    assert forall|i: int| 0 <= i < all.len() implies is_among(listed, #[trigger] all[i]) by {
        assert(is_among(kept, all[i]));
        let j = choose|j: int|
            0 <= j < kept.len() && is_same_repository(#[trigger] kept[j], all[i]);
        assert(kept.contains(kept[j]));
        assert(listed.to_multiset().count(kept[j]) > 0);
        assert(listed.contains(kept[j]));
        let k = choose|k: int| 0 <= k < listed.len() && listed[k] == kept[j];
        assert(is_same_repository(listed[k], all[i]));
    }
}

/// The repository opens at an entry of the directory that is a directory itself and holds
/// something named `.git`.
pub open spec fn opens_at(child: Child, repository: RepositoryManager) -> bool {
    &&& child.is_dir matches Ok(is_dir)
    &&& is_dir
    &&& child.has_git
    &&& child.repository matches Some(Ok(found))
    &&& found == repository
}

proof fn opened_are_those_that_open(children: Seq<Child>)
    ensures
        forall|i: int|
            0 <= i < children.len() && opens_at(
                #[trigger] children[i],
                children[i].repository->0->Ok_0,
            ) ==> opened(children).contains(children[i].repository->0->Ok_0),
        forall|k: int|
            0 <= k < opened(children).len() ==> {
                let repository = #[trigger] opened(children)[k];
                exists|i: int|
                    0 <= i < children.len() && opens_at(#[trigger] children[i], repository)
            },
    decreases children.len(),
{
    if children.len() > 0 {
        let rest = children.drop_last();
        let before = opened(rest);
        let all = opened(children);
        opened_are_those_that_open(rest);
        assert forall|i: int|
            0 <= i < children.len() && opens_at(
                #[trigger] children[i],
                children[i].repository->0->Ok_0,
            ) implies all.contains(children[i].repository->0->Ok_0) by {
            let repository = children[i].repository->0->Ok_0;
            if i < rest.len() {
                assert(rest[i] == children[i]);
                assert(before.contains(repository));
                let k = choose|k: int| 0 <= k < before.len() && before[k] == repository;
                assert(all[k] == repository);
            } else {
                assert(all[before.len() as int] == repository);
            }
        }
        assert forall|k: int| 0 <= k < all.len() implies ({
            let repository = #[trigger] all[k];
            exists|i: int|
                0 <= i < children.len() && opens_at(#[trigger] children[i], repository)
        }) by {
            if k < before.len() {
                assert(all[k] == before[k]);
                let i = choose|i: int|
                    0 <= i < rest.len() && opens_at(#[trigger] rest[i], before[k]);
                assert(children[i] == rest[i]);
            } else {
                assert(opens_at(children[children.len() - 1], all[k]));
            }
        }
    }
}

/// A search lists the repository around the directory and each that opens at one of its
/// entries, told apart by the components of their common directories; it lists no other, none
/// twice, and all in the order of their roots.
pub proof fn searches_list_what_opens(
    around: Option<RepositoryManager>,
    children: Seq<Child>,
    found: Seq<RepositoryManager>,
)
    requires
        found == stable_sorted(without_repeats(come_upon(around, children)), natural_order()),
    ensures
        around matches Some(repository) ==> exists|k: int|
            0 <= k < found.len() && (#[trigger] found[k]).common_dir@.parts
                == repository.common_dir@.parts,
        forall|i: int|
            0 <= i < children.len() && opens_at(
                #[trigger] children[i],
                children[i].repository->0->Ok_0,
            ) ==> exists|k: int|
                0 <= k < found.len() && (#[trigger] found[k]).common_dir@.parts
                    == children[i].repository->0->Ok_0.common_dir@.parts,
        forall|k: int|
            0 <= k < found.len() ==> {
                let repository = #[trigger] found[k];
                ||| around == Some(repository)
                ||| exists|i: int|
                    0 <= i < children.len() && opens_at(#[trigger] children[i], repository)
            },
        forall|j: int, k: int|
            0 <= j < k < found.len() ==> (#[trigger] found[j]).common_dir@.parts != (
            #[trigger] found[k]).common_dir@.parts,
        forall|j: int, k: int|
            0 <= j < k < found.len() ==> (#[trigger] found[j]).root@.le((#[trigger] found[k]).root@),
{
    broadcast use vstd::seq_lib::group_to_multiset_ensures;

    let order = natural_order::<Child>();
    let sorted = stable_sorted(children, order);
    let all = come_upon(around, children);
    let first = around_first(around);
    natural_order_can_sort::<Child>();
    stable_sorted_is_sorted(children, order);
    opened_are_those_that_open(sorted);
    listed_repositories_are_all_and_distinct(all);
    assert(all == first + opened(sorted));
    if let Some(repository) = around {
        assert(all[0] == repository);
        assert(is_among(found, all[0]));
        let k = choose|k: int|
            0 <= k < found.len() && is_same_repository(#[trigger] found[k], repository);
        assert(found[k].common_dir@.parts == repository.common_dir@.parts);
    }
    assert forall|i: int|
        0 <= i < children.len() && opens_at(
            #[trigger] children[i],
            children[i].repository->0->Ok_0,
        ) implies exists|k: int|
        0 <= k < found.len() && (#[trigger] found[k]).common_dir@.parts
            == children[i].repository->0->Ok_0.common_dir@.parts by {
        let repository = children[i].repository->0->Ok_0;
        assert(children.contains(children[i]));
        assert(sorted.to_multiset().count(children[i]) > 0);
        assert(sorted.contains(children[i]));
        let j = choose|j: int| 0 <= j < sorted.len() && sorted[j] == children[i];
        assert(opens_at(sorted[j], sorted[j].repository->0->Ok_0));
        assert(opened(sorted).contains(repository));
        let n = choose|n: int| 0 <= n < opened(sorted).len() && opened(sorted)[n] == repository;
        assert(all[first.len() + n] == repository);
        assert(is_among(found, all[first.len() + n]));
        let k = choose|k: int|
            0 <= k < found.len() && is_same_repository(#[trigger] found[k], repository);
        assert(found[k].common_dir@.parts == repository.common_dir@.parts);
    }
    assert forall|k: int| 0 <= k < found.len() implies ({
        let repository = #[trigger] found[k];
        ||| around == Some(repository)
        ||| exists|i: int| 0 <= i < children.len() && opens_at(#[trigger] children[i], repository)
    }) by {
        let repository = found[k];
        assert(all.contains(repository));
        let n = choose|n: int| 0 <= n < all.len() && all[n] == repository;
        if n < first.len() {
            assert(first[n] == repository);
        } else {
            assert(opened(sorted)[n - first.len()] == repository);
            let j = choose|j: int|
                0 <= j < sorted.len() && opens_at(#[trigger] sorted[j], repository);
            assert(sorted.contains(sorted[j]));
            assert(children.to_multiset().count(sorted[j]) > 0);
            assert(children.contains(sorted[j]));
            let i = choose|i: int| 0 <= i < children.len() && children[i] == sorted[j];
            assert(opens_at(children[i], repository));
        }
    }
    assert forall|j: int, k: int| 0 <= j < k < found.len() implies (
    #[trigger] found[j]).common_dir@.parts != (#[trigger] found[k]).common_dir@.parts by {
        assert(!is_same_repository(found[j], found[k]));
    }
    assert forall|j: int, k: int| 0 <= j < k < found.len() implies (#[trigger] found[j]).root@.le(
        (#[trigger] found[k]).root@,
    ) by {
        assert(natural_order::<RepositoryManager>()(found[j], found[k]));
    }
}

/// An entry ends a search exactly where it cannot be inspected, or where it is a directory with
/// something named `.git` in it whose repository cannot be taken in, with the message of that.
pub proof fn searches_end_at_faults(child: Child, message: String)
    ensures
        child_fault(child) == Some(message) <==> child.is_dir == Err::<bool, String>(message) || (
        child.is_dir == Ok::<bool, String>(true) && child.has_git && (
        child.repository matches Some(Err(told)) && told == message)),
{
}

/// A search below a directory that finds nothing says so, and one that finds something does
/// not.
pub proof fn searches_come_upon_what_opens(
    around: Option<RepositoryManager>,
    children: Seq<Child>,
)
    ensures
        come_upon(around, children).len() == 0 <==> around is None && forall|i: int|
            0 <= i < children.len() ==> !opens_at(
                #[trigger] children[i],
                children[i].repository->0->Ok_0,
            ),
{
    broadcast use vstd::seq_lib::group_to_multiset_ensures;

    let order = natural_order::<Child>();
    let sorted = stable_sorted(children, order);
    natural_order_can_sort::<Child>();
    stable_sorted_is_sorted(children, order);
    opened_are_those_that_open(sorted);
    if come_upon(around, children).len() == 0 {
        assert forall|i: int| 0 <= i < children.len() implies !opens_at(
            #[trigger] children[i],
            children[i].repository->0->Ok_0,
        ) by {
            assert(children.contains(children[i]));
            assert(sorted.to_multiset().count(children[i]) > 0);
            assert(sorted.contains(children[i]));
            let j = choose|j: int| 0 <= j < sorted.len() && sorted[j] == children[i];
            assert(sorted[j] == children[i]);
        }
    } else if around is None {
        let repository = opened(sorted)[0];
        let j = choose|j: int| 0 <= j < sorted.len() && opens_at(#[trigger] sorted[j], repository);
        assert(sorted.contains(sorted[j]));
        assert(children.to_multiset().count(sorted[j]) > 0);
        assert(children.contains(sorted[j]));
        let i = choose|i: int| 0 <= i < children.len() && children[i] == sorted[j];
        assert(opens_at(children[i], children[i].repository->0->Ok_0));
    }
}

/// A search ends at the entry with a fault that stands first by path, and with its message; it
/// goes through to the end exactly where no entry has one.
pub proof fn searches_end_at_the_first_fault(children: Seq<Child>, error: GitError)
    ensures
        is_child_error(children, error) ==> exists|i: int|
            0 <= i < children.len() && child_fault(#[trigger] children[i]) is Some && error
                == GitError::Failed(child_fault(children[i])->0) && forall|j: int|
                0 <= j < children.len() && child_fault(#[trigger] children[j]) is Some
                    ==> children[i].path@.le(children[j].path@),
        (forall|i: int|
            0 <= i < children.len() ==> child_fault(
                #[trigger] stable_sorted(children, natural_order())[i],
            ) is None) <==> forall|i: int|
            0 <= i < children.len() ==> child_fault(#[trigger] children[i]) is None,
{
    broadcast use vstd::seq_lib::group_to_multiset_ensures;

    let order = natural_order::<Child>();
    let sorted = stable_sorted(children, order);
    natural_order_can_sort::<Child>();
    stable_sorted_is_sorted(children, order);
    assert(sorted.len() == children.len()) by {
        assert(sorted.to_multiset().len() == children.to_multiset().len());
    }
    assert forall|i: int| 0 <= i < children.len() implies sorted.contains(
        #[trigger] children[i],
    ) by {
        assert(children.contains(children[i]));
        assert(sorted.to_multiset().count(children[i]) > 0);
    }
    assert forall|k: int| 0 <= k < sorted.len() implies children.contains(#[trigger] sorted[k]) by {
        assert(sorted.contains(sorted[k]));
        assert(children.to_multiset().count(sorted[k]) > 0);
    }
    if is_child_error(children, error) {
        let k = choose|k: int|
            0 <= k < children.len() && child_fault(#[trigger] sorted[k]) is Some && error
                == GitError::Failed(child_fault(sorted[k])->0) && forall|j: int|
                0 <= j < k ==> child_fault(#[trigger] sorted[j]) is None;
        assert(children.contains(sorted[k]));
        let i = choose|i: int| 0 <= i < children.len() && children[i] == sorted[k];
        assert forall|j: int|
            0 <= j < children.len() && child_fault(
                #[trigger] children[j],
            ) is Some implies children[i].path@.le(children[j].path@) by {
            assert(sorted.contains(children[j]));
            let m = choose|m: int| 0 <= m < sorted.len() && sorted[m] == children[j];
            if m < k {
                assert(child_fault(sorted[m]) is None);
            } else if m == k {
                path_le_total(children[i].path@, children[i].path@);
            } else {
                assert(order(sorted[k], sorted[m]));
            }
        }
    }
    if forall|i: int| 0 <= i < children.len() ==> child_fault(#[trigger] sorted[i]) is None {
        assert forall|i: int| 0 <= i < children.len() implies child_fault(
            #[trigger] children[i],
        ) is None by {
            assert(sorted.contains(children[i]));
            let m = choose|m: int| 0 <= m < sorted.len() && sorted[m] == children[i];
            assert(child_fault(sorted[m]) is None);
        }
    }
    if forall|i: int| 0 <= i < children.len() ==> child_fault(#[trigger] children[i]) is None {
        assert forall|k: int| 0 <= k < children.len() implies child_fault(
            #[trigger] sorted[k],
        ) is None by {
            assert(children.contains(sorted[k]));
            let i = choose|i: int| 0 <= i < children.len() && children[i] == sorted[k];
            assert(child_fault(children[i]) is None);
        }
    }
}

/// Of repositories that share their common directory the first is kept, and a repository whose
/// common directory is new is added behind the others.
pub proof fn repeats_are_left_out(
    repositories: Seq<RepositoryManager>,
    repository: RepositoryManager,
)
    ensures
        without_repeats(Seq::empty()).len() == 0,
        (exists|i: int|
            0 <= i < repositories.len() && (#[trigger] repositories[i]).common_dir@.parts
                == repository.common_dir@.parts) ==> without_repeats(repositories.push(repository))
            == without_repeats(repositories),
        (forall|i: int|
            0 <= i < repositories.len() ==> (#[trigger] repositories[i]).common_dir@.parts
                != repository.common_dir@.parts) ==> without_repeats(repositories.push(repository))
            == without_repeats(repositories).push(repository),
        is_among(repositories, repository) <==> exists|i: int|
            0 <= i < repositories.len() && (#[trigger] repositories[i]).common_dir@.parts
                == repository.common_dir@.parts,
{
    let all = repositories.push(repository);
    let kept = without_repeats(repositories);
    repeats_leave_one(repositories);
    assert(all.drop_last() =~= repositories);
    assert(all.last() == repository);
    if exists|i: int|
        0 <= i < repositories.len() && (#[trigger] repositories[i]).common_dir@.parts
            == repository.common_dir@.parts {
        let i = choose|i: int|
            0 <= i < repositories.len() && (#[trigger] repositories[i]).common_dir@.parts
                == repository.common_dir@.parts;
        assert(is_same_repository(repositories[i], repository));
        assert(is_among(kept, repositories[i]));
        let j = choose|j: int|
            0 <= j < kept.len() && is_same_repository(#[trigger] kept[j], repositories[i]);
        assert(is_same_repository(kept[j], repository));
    } else {
        if is_among(kept, repository) {
            let j = choose|j: int|
                0 <= j < kept.len() && is_same_repository(#[trigger] kept[j], repository);
            assert(repositories.contains(kept[j]));
            let i = choose|i: int| 0 <= i < repositories.len() && repositories[i] == kept[j];
            assert(repositories[i].common_dir@.parts == repository.common_dir@.parts);
        }
        assert forall|i: int| 0 <= i < repositories.len() implies !is_same_repository(
            #[trigger] repositories[i],
            repository,
        ) by {
            assert(repositories[i].common_dir@.parts != repository.common_dir@.parts);
        }
    }
}

/// A search comes upon the repository around the directory first, and then upon those that open
/// at its entries, by path.
pub proof fn searches_come_upon_entries_by_path(
    around: Option<RepositoryManager>,
    children: Seq<Child>,
    child: Child,
    repository: RepositoryManager,
)
    ensures
        opened(Seq::empty()).len() == 0,
        opens_at(child, repository) ==> opened(children.push(child)) == opened(children).push(
            repository,
        ),
        !opens_at(child, child.repository->0->Ok_0) ==> opened(children.push(child)) == opened(
            children,
        ),
        around is None ==> come_upon(around, children) == opened(
            stable_sorted(children, natural_order()),
        ),
        around matches Some(first) ==> come_upon(around, children) == seq![first] + opened(
            stable_sorted(children, natural_order()),
        ),
        forall|j: int, k: int|
            0 <= j < k < stable_sorted(children, natural_order()).len() ==> (
            #[trigger] stable_sorted(children, natural_order())[j]).path@.le(
                (#[trigger] stable_sorted(children, natural_order())[k]).path@,
            ),
{
    let order = natural_order::<Child>();
    let sorted = stable_sorted(children, order);
    natural_order_can_sort::<Child>();
    stable_sorted_is_sorted(children, order);
    assert(children.push(child).drop_last() =~= children);
    assert(come_upon(None, children) =~= opened(sorted));
    assert forall|j: int, k: int| 0 <= j < k < sorted.len() implies (
    #[trigger] sorted[j]).path@.le((#[trigger] sorted[k]).path@) by {
        assert(order(sorted[j], sorted[k]));
    }
}

} // verus!
