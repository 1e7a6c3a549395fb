//! The tree of repositories and what belongs to them, as rows on the screen.

use vstd::prelude::*;

use crate::git::{
    branches_of, worktrees_of, BranchInfo, BranchModel, KeyModel, RepositoryManager,
    RepositoryModel, WorktreeInfo, WorktreeKey, WorktreeModel,
};
use crate::path::{FilePath, PartModel};

verus! {

/// What the explorer manages.
#[derive(Clone, Copy, Debug, PartialEq, Eq, Structural)]
pub enum ExploreMode {
    Worktrees,
    Branches,
}

/// A repository with its worktrees and, where branches are managed, its branches.
#[derive(Debug)]
pub struct RepositoryGroup {
    pub repository: RepositoryManager,
    pub worktrees: Vec<WorktreeInfo>,
    pub branches: Vec<BranchInfo>,
}

/// What a group stands for.
pub struct GroupModel {
    pub repository: RepositoryModel,
    pub worktrees: Seq<WorktreeModel>,
    pub branches: Seq<BranchModel>,
}

impl View for RepositoryGroup {
    type V = GroupModel;

    open spec fn view(&self) -> GroupModel {
        GroupModel {
            repository: self.repository@,
            worktrees: worktrees_of(self.worktrees@),
            branches: branches_of(self.branches@),
        }
    }
}

/// The models of a list of groups.
pub open spec fn groups_of(groups: Seq<RepositoryGroup>) -> Seq<GroupModel> {
    groups.map_values(|group: RepositoryGroup| group@)
}

impl GroupModel {
    /// How many items stand below the repository.
    pub open spec fn item_count(self, kind: ExploreMode) -> nat {
        match kind {
            ExploreMode::Worktrees => self.worktrees.len(),
            ExploreMode::Branches => self.branches.len(),
        }
    }

    /// Some worktree is a linked one.
    pub open spec fn has_linked(self) -> bool {
        exists|i: int| 0 <= i < self.worktrees.len() && (#[trigger] self.worktrees[i]).key is Linked
    }

    /// There is something to manage: a linked worktree, or a branch.
    pub open spec fn is_worth_showing(self, mode: ExploreMode) -> bool {
        match mode {
            ExploreMode::Worktrees => self.has_linked(),
            ExploreMode::Branches => self.branches.len() > 0,
        }
    }
}

/// A row of the tree: a repository by its place in the list of groups, or one of its items by
/// the place of the repository and its own.
pub enum Row {
    Repository(int),
    Item(int, int),
}

/// The groups, and which of them are shown.
pub struct TreeModel {
    pub groups: Seq<GroupModel>,
    pub mode: ExploreMode,
    /// Groups without anything to manage are hidden.
    pub filtered: bool,
}

/// What a row is of, whatever place it has.
#[derive(Debug, PartialEq, Eq)]
pub enum TreeIdentity {
    Repository(FilePath),
    Worktree(FilePath, WorktreeKey),
    Branch(FilePath, String),
}

/// What an identity stands for: where the repository is, and which item is meant.
pub enum IdentityModel {
    Repository(Seq<PartModel>),
    Worktree(Seq<PartModel>, KeyModel),
    Branch(Seq<PartModel>, Seq<char>),
}

impl View for TreeIdentity {
    type V = IdentityModel;

    open spec fn view(&self) -> IdentityModel {
        match *self {
            TreeIdentity::Repository(root) => IdentityModel::Repository(root@.parts),
            TreeIdentity::Worktree(root, key) => IdentityModel::Worktree(root@.parts, key@),
            TreeIdentity::Branch(root, name) => IdentityModel::Branch(root@.parts, name@),
        }
    }
}

impl TreeModel {
    /// The group at this place is shown.
    pub open spec fn is_shown(self, i: int) -> bool {
        !self.filtered || self.groups[i].is_worth_showing(self.mode)
    }

    /// The rows of one group: the repository, then its items.
    pub open spec fn group_rows(self, kind: ExploreMode, i: int) -> Seq<Row> {
        if self.is_shown(i) {
            seq![Row::Repository(i)] + Seq::new(
                self.groups[i].item_count(kind),
                |j: int| Row::Item(i, j),
            )
        } else {
            Seq::empty()
        }
    }

    /// The rows of the first `n` groups.
    pub open spec fn rows_before(self, kind: ExploreMode, n: int) -> Seq<Row>
        decreases n,
    {
        if n <= 0 {
            Seq::empty()
        } else {
            self.rows_before(kind, n - 1) + self.group_rows(kind, n - 1)
        }
    }

    /// All rows, where the items are worktrees or branches.
    pub open spec fn rows_with(self, kind: ExploreMode) -> Seq<Row> {
        self.rows_before(kind, self.groups.len() as int)
    }

    /// All rows.
    pub open spec fn rows(self) -> Seq<Row> {
        self.rows_with(self.mode)
    }

    /// What a row is of.
    pub open spec fn identity(self, row: Row) -> IdentityModel {
        match row {
            Row::Repository(i) => IdentityModel::Repository(self.groups[i].repository.root.parts),
            Row::Item(i, j) => match self.mode {
                ExploreMode::Worktrees => IdentityModel::Worktree(
                    self.groups[i].repository.root.parts,
                    self.groups[i].worktrees[j].key,
                ),
                ExploreMode::Branches => IdentityModel::Branch(
                    self.groups[i].repository.root.parts,
                    self.groups[i].branches[j].name,
                ),
            },
        }
    }

    /// No two groups have one root, and no two items of a group one key or name.
    pub open spec fn is_distinct(self) -> bool {
        &&& forall|i: int, j: int|
            0 <= i < j < self.groups.len() ==> (#[trigger] self.groups[i]).repository.root.parts != (
            #[trigger] self.groups[j]).repository.root.parts
        &&& forall|i: int, j: int, k: int|
            0 <= i < self.groups.len() && 0 <= j < k < self.groups[i].item_count(self.mode)
                ==> #[trigger] self.identity(Row::Item(i, j)) != #[trigger] self.identity(
                Row::Item(i, k),
            )
    }

    /// What the row at a place is of, if there is such a row.
    pub open spec fn identity_at(self, at: nat) -> Option<IdentityModel> {
        if at < self.rows().len() {
            Some(self.identity(self.rows()[at as int]))
        } else {
            None
        }
    }

    /// The first row of an identity stands at this place.
    pub open spec fn is_first_at(self, identity: IdentityModel, at: int) -> bool {
        &&& 0 <= at < self.rows().len()
        &&& self.identity(self.rows()[at]) == identity
        &&& forall|i: int| 0 <= i < at ==> self.identity(#[trigger] self.rows()[i]) != identity
    }

    /// The place of the first row of an identity.
    pub open spec fn place_of(self, identity: IdentityModel) -> Option<nat> {
        if exists|at: int| #[trigger] self.is_first_at(identity, at) {
            Some((choose|at: int| #[trigger] self.is_first_at(identity, at)) as nat)
        } else {
            None
        }
    }
}

/// The rows of the first groups are the first rows.
pub proof fn rows_before_grow(tree: TreeModel, kind: ExploreMode, i: int, n: int)
    requires
        0 <= i <= n,
    ensures
        tree.rows_before(kind, i).is_prefix_of(tree.rows_before(kind, n)),
        tree.rows_before(kind, i).len() <= tree.rows_before(kind, n).len(),
    decreases n,
{
    if i < n {
        rows_before_grow(tree, kind, i, n - 1);
        let shorter = tree.rows_before(kind, n - 1);
        let longer = tree.rows_before(kind, n);
        assert(tree.rows_before(kind, i) =~= longer.take(tree.rows_before(kind, i).len() as int));
    }
}

/// The rows of a group that is shown stand together, the repository first.
pub proof fn group_rows_stand_together(tree: TreeModel, kind: ExploreMode, i: int)
    requires
        0 <= i < tree.groups.len(),
    ensures
        ({
            let start = tree.rows_before(kind, i).len();
            let rows = tree.rows_with(kind);
            &&& tree.is_shown(i) ==> {
                &&& start + 1 + tree.groups[i].item_count(kind) <= rows.len()
                &&& tree.rows_before(kind, i + 1).len() == start + 1
                    + tree.groups[i].item_count(kind)
                &&& rows[start as int] == Row::Repository(i)
                &&& forall|j: int|
                    0 <= j < tree.groups[i].item_count(kind) ==> rows[#[trigger] (start + 1 + j)]
                        == Row::Item(i, j)
            }
            &&& !tree.is_shown(i) ==> tree.rows_before(kind, i + 1) == tree.rows_before(kind, i)
        }),
{
    let before = tree.rows_before(kind, i);
    let after = tree.rows_before(kind, i + 1);
    let rows = tree.rows_with(kind);
    rows_before_grow(tree, kind, i + 1, tree.groups.len() as int);
    if tree.is_shown(i) {
        let own = tree.group_rows(kind, i);
        assert(after == before + own);
        assert(rows[before.len() as int] == after[before.len() as int]);
        assert(after[before.len() as int] == own[0]);
        assert forall|j: int| 0 <= j < tree.groups[i].item_count(kind) implies rows[#[trigger] (
        before.len() + 1 + j)] == Row::Item(i, j) by {
            assert(rows[before.len() + 1 + j] == after[before.len() + 1 + j]);
            assert(after[before.len() + 1 + j] == own[1 + j]);
        }
    } else {
        assert(after =~= before);
    }
}

/// Every row is that of a group that is shown, or of one of its items.
pub proof fn rows_are_of_shown_groups(tree: TreeModel, kind: ExploreMode, n: int, at: int)
    requires
        0 <= n <= tree.groups.len(),
        0 <= at < tree.rows_before(kind, n).len(),
    ensures
        match tree.rows_before(kind, n)[at] {
            Row::Repository(i) => 0 <= i < n && tree.is_shown(i),
            Row::Item(i, j) => 0 <= i < n && tree.is_shown(i) && 0 <= j
                < tree.groups[i].item_count(kind),
        },
    decreases n,
{
    let before = tree.rows_before(kind, n - 1);
    if at < before.len() {
        rows_are_of_shown_groups(tree, kind, n - 1, at);
    } else {
        let own = tree.group_rows(kind, n - 1);
        assert(tree.rows_before(kind, n)[at] == own[at - before.len()]);
    }
}

/// A place is the only first place of its identity.
pub proof fn first_place_is_unique(tree: TreeModel, identity: IdentityModel, at: int)
    requires
        tree.is_first_at(identity, at),
    ensures
        tree.place_of(identity) == Some(at as nat),
{
    let other = choose|other: int| #[trigger] tree.is_first_at(identity, other);
    assert(tree.is_first_at(identity, other));
    if other < at {
        assert(tree.identity(tree.rows()[other]) != identity);
    } else if at < other {
        assert(tree.identity(tree.rows()[at]) != identity);
    }
}

/// Looking up the place of what a row is of leads to a row of the same, at that place or
/// before it.
pub proof fn identity_leads_back(tree: TreeModel, at: nat)
    requires
        at < tree.rows().len(),
    ensures
        ({
            let place = tree.place_of(tree.identity(tree.rows()[at as int]));
            place is Some && place->0 <= at && tree.identity_at(place->0) == tree.identity_at(at)
        }),
{
    let identity = tree.identity(tree.rows()[at as int]);
    let first = first_place(tree, identity, at as int);
    first_place_is_unique(tree, identity, first);
}

/// No row is shown twice.
pub proof fn rows_are_shown_once(tree: TreeModel, kind: ExploreMode, n: int, at: int, other: int)
    requires
        0 <= n <= tree.groups.len(),
        0 <= at < other < tree.rows_before(kind, n).len(),
    ensures
        tree.rows_before(kind, n)[at] != tree.rows_before(kind, n)[other],
    decreases n,
{
    let before = tree.rows_before(kind, n - 1);
    let own = tree.group_rows(kind, n - 1);
    let rows = tree.rows_before(kind, n);
    if other < before.len() {
        rows_are_shown_once(tree, kind, n - 1, at, other);
    } else {
        assert(rows[other] == own[other - before.len()]);
        if at < before.len() {
            rows_are_of_shown_groups(tree, kind, n - 1, at);
        } else {
            assert(rows[at] == own[at - before.len()]);
        }
    }
}

/// Where repositories have their own roots and items their own keys or names, looking up the
/// place of what a row is of leads back to that row.
pub proof fn distinct_identities_lead_back(tree: TreeModel, at: nat)
    requires
        tree.is_distinct(),
        at < tree.rows().len(),
    ensures
        tree.place_of(tree.identity(tree.rows()[at as int])) == Some(at),
{
    let rows = tree.rows();
    let len = tree.groups.len() as int;
    let identity = tree.identity(rows[at as int]);
    identity_leads_back(tree, at);
    let place = tree.place_of(identity)->0;
    if place != at {
        rows_are_shown_once(tree, tree.mode, len, place as int, at as int);
        rows_are_of_shown_groups(tree, tree.mode, len, place as int);
        rows_are_of_shown_groups(tree, tree.mode, len, at as int);
        assert(tree.identity(rows[place as int]) == identity);
        match (rows[place as int], rows[at as int]) {
            (Row::Repository(i), Row::Repository(j)) => {
                assert(tree.groups[i].repository.root.parts == tree.groups[j].repository.root.parts);
            },
            (Row::Item(i, j), Row::Item(k, l)) => {
                assert(tree.groups[i].repository.root.parts == tree.groups[k].repository.root.parts);
                assert(i == k && j != l);
            },
            _ => {},
        }
    }
}

proof fn first_place(tree: TreeModel, identity: IdentityModel, at: int) -> (first: int)
    requires
        0 <= at < tree.rows().len(),
        tree.identity(tree.rows()[at]) == identity,
    ensures
        first <= at,
        tree.is_first_at(identity, first),
    decreases at,
{
    if exists|i: int| 0 <= i < at && tree.identity(#[trigger] tree.rows()[i]) == identity {
        let earlier = choose|i: int|
            0 <= i < at && tree.identity(#[trigger] tree.rows()[i]) == identity;
        first_place(tree, identity, earlier)
    } else {
        at
    }
}

impl RepositoryGroup {
    fn has_linked(&self) -> (r: bool)
        ensures
            r == self@.has_linked(),
    {
        let mut i: usize = 0;
        while i < self.worktrees.len()
            invariant
                i <= self.worktrees.len(),
                forall|j: int| 0 <= j < i ==> !((#[trigger] self@.worktrees[j]).key is Linked),
            decreases self.worktrees.len() - i,
        {
            assert(self@.worktrees[i as int] == self.worktrees@[i as int]@);
            if let WorktreeKey::Linked(_) = &self.worktrees[i].key {
                return true;
            }
            i = i + 1;
        }
        false
    }

    /// Tells whether there is something to manage.
    pub fn is_worth_showing(&self, mode: ExploreMode) -> (r: bool)
        ensures
            r == self@.is_worth_showing(mode),
    {
        match mode {
            ExploreMode::Worktrees => self.has_linked(),
            ExploreMode::Branches => !self.branches.is_empty(),
        }
    }

    /// How many items stand below the repository.
    pub fn item_count(&self, kind: ExploreMode) -> (r: usize)
        ensures
            r == self@.item_count(kind),
    {
        match kind {
            ExploreMode::Worktrees => self.worktrees.len(),
            ExploreMode::Branches => self.branches.len(),
        }
    }
}

/// The smaller of a length and the largest number that a machine word holds.
pub open spec fn word(n: nat) -> nat {
    if n > usize::MAX {
        usize::MAX as nat
    } else {
        n
    }
}

/// Groups, and which of them are shown.
pub struct Tree<'a> {
    pub groups: &'a Vec<RepositoryGroup>,
    pub mode: ExploreMode,
    pub filtered: bool,
}

impl View for Tree<'_> {
    type V = TreeModel;

    open spec fn view(&self) -> TreeModel {
        TreeModel { groups: groups_of(self.groups@), mode: self.mode, filtered: self.filtered }
    }
}

impl Tree<'_> {
    /// Tells whether a group is shown.
    pub fn shows(&self, group: &RepositoryGroup) -> (r: bool)
        ensures
            r == (!self.filtered || group@.is_worth_showing(self.mode)),
    {
        !self.filtered || group.is_worth_showing(self.mode)
    }

    /// Counts the rows, up to the largest number there is.
    pub fn count_rows(&self) -> (r: usize)
        ensures
            r == word(self@.rows().len()),
    {
        let mut count: usize = 0;
        let mut i: usize = 0;
        while i < self.groups.len()
            invariant
                i <= self.groups.len(),
                count == word(self@.rows_before(self.mode, i as int).len()),
            decreases self.groups.len() - i,
        {
            proof {
                group_rows_stand_together(self@, self.mode, i as int);
            }
            if self.shows(&self.groups[i]) {
                count = count.saturating_add(1).saturating_add(
                    self.groups[i].item_count(self.mode),
                );
            }
            i = i + 1;
        }
        count
    }

    /// Finds the row at a place: the place of its group, and that of the item if it is one.
    pub fn locate(&self, kind: ExploreMode, at: usize) -> (r: Option<(usize, Option<usize>)>)
        ensures
            match r {
                None => at >= self@.rows_with(kind).len(),
                Some((i, None)) => at < self@.rows_with(kind).len() && i < self.groups.len()
                    && self@.rows_with(kind)[at as int] == Row::Repository(i as int),
                Some((i, Some(j))) => at < self@.rows_with(kind).len() && i < self.groups.len()
                    && j < self.groups@[i as int]@.item_count(kind)
                    && self@.rows_with(kind)[at as int] == Row::Item(i as int, j as int),
            },
    {
        let mut left: usize = at;
        let mut i: usize = 0;
        while i < self.groups.len()
            invariant
                i <= self.groups.len(),
                at == self@.rows_before(kind, i as int).len() + left,
            decreases self.groups.len() - i,
        {
            proof {
                group_rows_stand_together(self@, kind, i as int);
            }
            if self.shows(&self.groups[i]) {
                if left == 0 {
                    return Some((i, None));
                }
                left = left - 1;
                let items = self.groups[i].item_count(kind);
                if left < items {
                    assert(self@.rows_with(kind)[self@.rows_before(kind, i as int).len() + 1
                        + left as int] == Row::Item(i as int, left as int));
                    return Some((i, Some(left)));
                }
                left = left - items;
            }
            i = i + 1;
        }
        None
    }

    /// What the row at a place is of.
    pub fn identity_at(&self, at: usize) -> (r: Option<TreeIdentity>)
        ensures
            match r {
                Some(identity) => self@.identity_at(at as nat) == Some(identity@),
                None => self@.identity_at(at as nat) is None,
            },
    {
        match self.locate(self.mode, at) {
            None => None,
            Some((i, None)) => {
                assert(self@.groups[i as int] == self.groups@[i as int]@);
                Some(TreeIdentity::Repository(self.groups[i].repository.root.clone()))
            },
            Some((i, Some(j))) => {
                let group = &self.groups[i];
                let root = group.repository.root.clone();
                assert(self@.groups[i as int] == group@);
                match self.mode {
                    ExploreMode::Worktrees => {
                        assert(group@.worktrees[j as int] == group.worktrees@[j as int]@);
                        Some(TreeIdentity::Worktree(root, group.worktrees[j].key.clone()))
                    },
                    ExploreMode::Branches => {
                        assert(group@.branches[j as int] == group.branches@[j as int]@);
                        Some(TreeIdentity::Branch(root, group.branches[j].name.clone()))
                    },
                }
            },
        }
    }

    fn is_group(&self, i: usize, identity: &TreeIdentity) -> (r: bool)
        requires
            i < self.groups.len(),
        ensures
            r == (self@.identity(Row::Repository(i as int)) == identity@),
    {
        assert(self@.groups[i as int] == self.groups@[i as int]@);
        match identity {
            TreeIdentity::Repository(root) => {
                self.groups[i].repository.root.is_same_place(root)
            },
            _ => false,
        }
    }

    fn is_item(&self, i: usize, j: usize, identity: &TreeIdentity) -> (r: bool)
        requires
            i < self.groups.len(),
            j < self.groups@[i as int]@.item_count(self.mode),
        ensures
            r == (self@.identity(Row::Item(i as int, j as int)) == identity@),
    {
        let group = &self.groups[i];
        assert(self@.groups[i as int] == group@);
        match (self.mode, identity) {
            (ExploreMode::Worktrees, TreeIdentity::Worktree(root, key)) => {
                assert(group@.worktrees[j as int] == group.worktrees@[j as int]@);
                group.repository.root.is_same_place(root) && group.worktrees[j].key.is_same(key)
            },
            (ExploreMode::Branches, TreeIdentity::Branch(root, name)) => {
                assert(group@.branches[j as int] == group.branches@[j as int]@);
                group.repository.root.is_same_place(root) && group.branches[j].name == *name
            },
            _ => false,
        }
    }

    /// Finds the first row of an identity, as far as places have numbers.
    pub fn place_of(&self, identity: &TreeIdentity) -> (r: Option<usize>)
        ensures
            match r {
                Some(at) => self@.place_of(identity@) == Some(at as nat),
                None => match self@.place_of(identity@) {
                    Some(at) => at > usize::MAX,
                    None => true,
                },
            },
    {
        let ghost rows = self@.rows();
        let mut at: usize = 0;
        let mut i: usize = 0;
        while i < self.groups.len()
            invariant
                i <= self.groups.len(),
                rows == self@.rows(),
                at == self@.rows_before(self.mode, i as int).len(),
                at <= rows.len(),
                forall|k: int| 0 <= k < at ==> self@.identity(#[trigger] rows[k]) != identity@,
            decreases self.groups.len() - i,
        {
            let ghost start = at;
            proof {
                group_rows_stand_together(self@, self.mode, i as int);
                rows_before_grow(self@, self.mode, i + 1, self.groups.len() as int);
            }
            if self.shows(&self.groups[i]) {
                assert(rows[start as int] == Row::Repository(i as int));
                if self.is_group(i, identity) {
                    proof {
                        assert(self@.is_first_at(identity@, at as int));
                        first_place_is_unique(self@, identity@, at as int);
                    }
                    return Some(at);
                }
                let items = self.groups[i].item_count(self.mode);
                let mut j: usize = 0;
                while j < items
                    invariant
                        i < self.groups.len(),
                        j <= items,
                        rows == self@.rows(),
                        items == self.groups@[i as int]@.item_count(self.mode),
                        start + 1 + items <= rows.len(),
                        at == start + j,
                        forall|k: int|
                            0 <= k < items ==> rows[#[trigger] (start + 1 + k)] == Row::Item(
                                i as int,
                                k,
                            ),
                        forall|k: int|
                            0 <= k <= at ==> self@.identity(#[trigger] rows[k]) != identity@,
                    decreases items - j,
                {
                    assert(rows[start + 1 + j] == Row::Item(i as int, j as int));
                    if at == usize::MAX {
                        proof {
                            only_far_places(self@, identity@);
                        }
                        return None;
                    }
                    at = at + 1;
                    if self.is_item(i, j, identity) {
                        proof {
                            assert(self@.is_first_at(identity@, at as int));
                            first_place_is_unique(self@, identity@, at as int);
                        }
                        return Some(at);
                    }
                    j = j + 1;
                }
                if at == usize::MAX {
                    proof {
                        only_far_places(self@, identity@);
                    }
                    return None;
                }
                at = at + 1;
            }
            i = i + 1;
        }
        None
    }
}

proof fn only_far_places(tree: TreeModel, identity: IdentityModel)
    requires
        forall|k: int|
            0 <= k <= usize::MAX && k < tree.rows().len() ==> tree.identity(
                #[trigger] tree.rows()[k],
            ) != identity,
    ensures
        tree.place_of(identity) matches Some(at) ==> at > usize::MAX,
{
    if exists|at: int| #[trigger] tree.is_first_at(identity, at) {
        let at = choose|at: int| #[trigger] tree.is_first_at(identity, at);
        assert(tree.is_first_at(identity, at));
        if at <= usize::MAX {
            assert(tree.identity(tree.rows()[at]) == identity);
        }
    }
}

/// A group is worth showing for a linked worktree among its worktrees, or for a branch, and
/// has as many items as it has worktrees or branches.
pub proof fn groups_are_shown_for_what_they_hold(group: RepositoryGroup)
    ensures
        group@.is_worth_showing(ExploreMode::Worktrees) <==> exists|i: int|
            0 <= i < group.worktrees.len() && (#[trigger] group.worktrees@[i]).key is Linked,
        group@.is_worth_showing(ExploreMode::Branches) <==> group.branches.len() != 0,
        group@.item_count(ExploreMode::Worktrees) == group.worktrees.len(),
        group@.item_count(ExploreMode::Branches) == group.branches.len(),
{
    assert forall|i: int| 0 <= i < group.worktrees.len() implies (
    #[trigger] group@.worktrees[i]).key is Linked == group.worktrees@[i].key is Linked by {
        assert(group@.worktrees[i] == group.worktrees@[i]@);
    }
    if group@.has_linked() {
        let i = choose|i: int|
            0 <= i < group@.worktrees.len() && (#[trigger] group@.worktrees[i]).key is Linked;
        assert(group.worktrees@[i].key is Linked);
    }
    if exists|i: int|
        0 <= i < group.worktrees.len() && (#[trigger] group.worktrees@[i]).key is Linked {
        let i = choose|i: int|
            0 <= i < group.worktrees.len() && (#[trigger] group.worktrees@[i]).key is Linked;
        assert(group@.worktrees[i].key is Linked);
    }
}

/// The rows from a place on are those of a group with so many items.
pub open spec fn stand_at(rows: Seq<Row>, at: int, group: int, items: nat) -> bool {
    &&& 0 <= at
    &&& at + items < rows.len()
    &&& rows[at] == Row::Repository(group)
    &&& forall|j: int| 0 <= j < items ==> rows[#[trigger] (at + 1 + j)] == Row::Item(group, j)
}

/// The place of the group that a row belongs to.
pub open spec fn group_of(row: Row) -> int {
    match row {
        Row::Repository(i) => i,
        Row::Item(i, _) => i,
    }
}

/// The group holds something to manage: a worktree that is linked, or a branch.
pub open spec fn holds_something(group: GroupModel, mode: ExploreMode) -> bool {
    match mode {
        ExploreMode::Worktrees => exists|j: int|
            0 <= j < group.worktrees.len() && (#[trigger] group.worktrees[j]).key is Linked,
        ExploreMode::Branches => group.branches.len() != 0,
    }
}

/// A tree shows a group with all its worktrees, or branches, behind it in their order, unless
/// groups are hidden and the group holds nothing to manage; such a group has no row.
pub proof fn trees_show_groups_with_their_items(tree: TreeModel, kind: ExploreMode, i: int)
    requires
        0 <= i < tree.groups.len(),
    ensures
        tree.filtered && !holds_something(tree.groups[i], tree.mode) ==> forall|at: int|
            0 <= at < tree.rows_with(kind).len() ==> group_of(#[trigger] tree.rows_with(kind)[at])
                != i,
        (!tree.filtered || holds_something(tree.groups[i], tree.mode)) && kind is Worktrees
            ==> exists|at: int| #[trigger]
            stand_at(tree.rows_with(kind), at, i, tree.groups[i].worktrees.len()),
        (!tree.filtered || holds_something(tree.groups[i], tree.mode)) && kind is Branches
            ==> exists|at: int| #[trigger]
            stand_at(tree.rows_with(kind), at, i, tree.groups[i].branches.len()),
{
    let rows = tree.rows_with(kind);
    group_rows_stand_together(tree, kind, i);
    if tree.is_shown(i) {
        let start = tree.rows_before(kind, i).len() as int;
        assert(stand_at(rows, start, i, tree.groups[i].item_count(kind)));
    } else {
        assert forall|at: int| 0 <= at < tree.rows_with(kind).len() implies group_of(
            #[trigger] tree.rows_with(kind)[at],
        ) != i by {
            rows_are_of_shown_groups(tree, kind, tree.groups.len() as int, at);
        }
    }
}

/// A tree shows its groups one behind the other, and nothing besides their repositories and
/// items.
pub proof fn trees_show_groups_in_order(tree: TreeModel, kind: ExploreMode)
    ensures
        forall|at: int|
            0 <= at < tree.rows_with(kind).len() ==> match #[trigger] tree.rows_with(kind)[at] {
                Row::Repository(i) => 0 <= i < tree.groups.len(),
                Row::Item(i, j) => 0 <= i < tree.groups.len() && 0 <= j && match kind {
                    ExploreMode::Worktrees => j < tree.groups[i].worktrees.len(),
                    ExploreMode::Branches => j < tree.groups[i].branches.len(),
                },
            },
        forall|at: int, later: int|
            0 <= at < later < tree.rows_with(kind).len() ==> group_of(
                #[trigger] tree.rows_with(kind)[at],
            ) <= group_of(#[trigger] tree.rows_with(kind)[later]),
        forall|at: int, later: int|
            0 <= at < later < tree.rows_with(kind).len() ==> (#[trigger] tree.rows_with(kind)[at])
                != (#[trigger] tree.rows_with(kind)[later]),
        tree.rows() == tree.rows_with(tree.mode),
{
    let len = tree.groups.len() as int;
    assert forall|at: int| 0 <= at < tree.rows_with(kind).len() implies match #[trigger] tree.rows_with(
        kind,
    )[at] {
        Row::Repository(i) => 0 <= i < tree.groups.len(),
        Row::Item(i, j) => 0 <= i < tree.groups.len() && 0 <= j && match kind {
            ExploreMode::Worktrees => j < tree.groups[i].worktrees.len(),
            ExploreMode::Branches => j < tree.groups[i].branches.len(),
        },
    } by {
        rows_are_of_shown_groups(tree, kind, len, at);
    }
    assert forall|at: int, later: int| 0 <= at < later < tree.rows_with(kind).len() implies group_of(
        #[trigger] tree.rows_with(kind)[at],
    ) <= group_of(#[trigger] tree.rows_with(kind)[later]) by {
        groups_follow(tree, kind, len, at, later);
    }
    assert forall|at: int, later: int| 0 <= at < later < tree.rows_with(kind).len() implies (
    #[trigger] tree.rows_with(kind)[at]) != (#[trigger] tree.rows_with(kind)[later]) by {
        rows_are_shown_once(tree, kind, len, at, later);
    }
}

proof fn groups_follow(tree: TreeModel, kind: ExploreMode, n: int, at: int, later: int)
    requires
        0 <= n <= tree.groups.len(),
        0 <= at < later < tree.rows_before(kind, n).len(),
    ensures
        group_of(tree.rows_before(kind, n)[at]) <= group_of(tree.rows_before(kind, n)[later]),
    decreases n,
{
    let before = tree.rows_before(kind, n - 1);
    let own = tree.group_rows(kind, n - 1);
    let rows = tree.rows_before(kind, n);
    if later < before.len() {
        groups_follow(tree, kind, n - 1, at, later);
    } else {
        assert(rows[later] == own[later - before.len()]);
        if at < before.len() {
            rows_are_of_shown_groups(tree, kind, n - 1, at);
        } else {
            assert(rows[at] == own[at - before.len()]);
        }
    }
}

/// A row is told apart by the root of its repository and, where it is one of an item, by the
/// key of the worktree or the name of the branch.
pub proof fn rows_are_known_by_what_they_show(
    groups: Vec<RepositoryGroup>,
    filtered: bool,
    i: int,
    j: int,
)
    requires
        0 <= i < groups.len(),
    ensures
        ({
            let group = groups@[i];
            let root = group.repository.root@.parts;
            let worktrees = TreeModel {
                groups: groups_of(groups@),
                mode: ExploreMode::Worktrees,
                filtered,
            };
            let branches = TreeModel {
                groups: groups_of(groups@),
                mode: ExploreMode::Branches,
                filtered,
            };
            &&& worktrees.identity(Row::Repository(i)) == IdentityModel::Repository(root)
            &&& branches.identity(Row::Repository(i)) == IdentityModel::Repository(root)
            &&& 0 <= j < group.worktrees.len() ==> worktrees.identity(Row::Item(i, j))
                == IdentityModel::Worktree(root, group.worktrees@[j].key@)
            &&& 0 <= j < group.branches.len() ==> branches.identity(Row::Item(i, j))
                == IdentityModel::Branch(root, group.branches@[j].name@)
        }),
{
    let group = groups@[i];
    assert(groups_of(groups@)[i] == group@);
    if 0 <= j < group.worktrees.len() {
        assert(group@.worktrees[j] == group.worktrees@[j]@);
    }
    if 0 <= j < group.branches.len() {
        assert(group@.branches[j] == group.branches@[j]@);
    }
}

/// The place of an identity is that of its first row, and an identity without a row has none.
pub proof fn places_are_those_of_the_first_rows(tree: TreeModel, identity: IdentityModel)
    ensures
        tree.place_of(identity) matches Some(at) ==> at < tree.rows().len() && tree.identity(
            tree.rows()[at as int],
        ) == identity && forall|i: int|
            0 <= i < at ==> tree.identity(#[trigger] tree.rows()[i]) != identity,
        tree.place_of(identity) is None ==> forall|i: int|
            0 <= i < tree.rows().len() ==> tree.identity(#[trigger] tree.rows()[i]) != identity,
        forall|at: nat|
            at < tree.rows().len() ==> #[trigger] tree.identity_at(at) == Some(
                tree.identity(tree.rows()[at as int]),
            ),
        forall|at: nat| at >= tree.rows().len() ==> (#[trigger] tree.identity_at(at)) is None,
{
    if tree.place_of(identity) is Some {
        let at = choose|at: int| #[trigger] tree.is_first_at(identity, at);
        assert(tree.is_first_at(identity, at));
    } else {
        assert forall|i: int| 0 <= i < tree.rows().len() implies tree.identity(
            #[trigger] tree.rows()[i],
        ) != identity by {
            if tree.identity(tree.rows()[i]) == identity {
                let first = first_place(tree, identity, i);
                assert(tree.is_first_at(identity, first));
            }
        }
    }
}

/// A group stands for its repository, all its worktrees and all its branches, a tree for its
/// groups, and an identity for the components of the root and the key or name.
pub proof fn groups_stand_for_all_they_hold(
    group: RepositoryGroup,
    groups: Seq<RepositoryGroup>,
    root: FilePath,
    key: WorktreeKey,
    name: String,
    n: nat,
)
    ensures
        group@.repository == group.repository@,
        group@.worktrees == worktrees_of(group.worktrees@),
        group@.branches == branches_of(group.branches@),
        groups_of(groups).len() == groups.len(),
        forall|i: int| 0 <= i < groups.len() ==> #[trigger] groups_of(groups)[i] == groups[i]@,
        TreeIdentity::Repository(root)@ == IdentityModel::Repository(root@.parts),
        TreeIdentity::Worktree(root, key)@ == IdentityModel::Worktree(root@.parts, key@),
        TreeIdentity::Branch(root, name)@ == IdentityModel::Branch(root@.parts, name@),
        n <= usize::MAX ==> word(n) == n,
        n > usize::MAX ==> word(n) == usize::MAX,
{
}

} // verus!
