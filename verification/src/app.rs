//! The state of the explorer: the tree, the selection and what is shown.

use vstd::prelude::*;

use crate::error::GitError;
use crate::git::{branches_of, worktrees_of, BranchInfo, RepositoryManager, WorktreeInfo};
use crate::history::opt_text;
use crate::keys::{limited, move_down};
use crate::screen::{Screen, ScreenModel};
use crate::tree::{
    groups_of, places_are_those_of_the_first_rows, word, ExploreMode, GroupModel, IdentityModel,
    RepositoryGroup, Row, Tree, TreeIdentity, TreeModel,
};

verus! {

/// The explorer.
#[derive(Debug)]
pub struct App {
    pub repositories: Vec<RepositoryGroup>,
    /// The place of the row that is selected.
    pub selected: usize,
    pub view: Screen,
    /// A message that is shown in place of the help.
    pub message: Option<String>,
    /// More than one repository was looked for.
    pub recursive: bool,
    pub hide_without_linked: bool,
    /// How many rows a page has.
    pub page_size: usize,
    pub mode: ExploreMode,
}

/// What the state of the explorer stands for.
pub struct AppModel {
    pub groups: Seq<GroupModel>,
    pub selected: nat,
    pub screen: ScreenModel,
    pub message: Option<Seq<char>>,
    pub recursive: bool,
    pub hide_without_linked: bool,
    pub page_size: nat,
    pub mode: ExploreMode,
}

impl View for App {
    type V = AppModel;

    open spec fn view(&self) -> AppModel {
        AppModel {
            groups: groups_of(self.repositories@),
            selected: self.selected as nat,
            screen: self.view@,
            message: opt_text(self.message),
            recursive: self.recursive,
            hide_without_linked: self.hide_without_linked,
            page_size: self.page_size as nat,
            mode: self.mode,
        }
    }
}

impl AppModel {
    /// The tree. Groups are hidden only where more than one repository was looked for.
    pub open spec fn tree(self) -> TreeModel {
        TreeModel {
            groups: self.groups,
            mode: self.mode,
            filtered: self.recursive && self.hide_without_linked,
        }
    }

    /// How many rows the tree has, up to the largest number there is.
    pub open spec fn row_count(self) -> nat {
        word(self.tree().rows().len())
    }

    /// What the selected row is of.
    pub open spec fn selected_identity(self) -> Option<IdentityModel> {
        self.tree().identity_at(self.selected)
    }

    /// The place of the first row of an identity, if it has a number.
    pub open spec fn row_for(self, identity: IdentityModel) -> Option<nat> {
        match self.tree().place_of(identity) {
            Some(at) if at <= usize::MAX => Some(at),
            _ => None,
        }
    }

    /// The places of the group and of the item that is selected, counting items of one kind.
    pub open spec fn selected_item(self, kind: ExploreMode) -> Option<(int, int)> {
        let rows = self.tree().rows_with(kind);
        if self.selected < rows.len() {
            match rows[self.selected as int] {
                Row::Repository(_) => None,
                Row::Item(i, j) => Some((i, j)),
            }
        } else {
            None
        }
    }

    /// A deletion on the screen is about a repository that is there.
    pub open spec fn wf(self) -> bool {
        self.screen.repository_index() matches Some(i) ==> i < self.groups.len()
    }

    /// The selection is on a row, or on the first place where there are none.
    pub open spec fn is_on_a_row(self) -> bool {
        self.selected < self.tree().rows().len() || self.selected == 0
    }
}

/// What listing a repository again gave.
#[derive(Debug)]
pub struct Listing {
    pub worktrees: Result<Vec<WorktreeInfo>, GitError>,
    /// The branches, which count only where branches are managed.
    pub branches: Result<Vec<BranchInfo>, GitError>,
}

/// Why a listing failed.
pub open spec fn listing_fault(listing: Listing, mode: ExploreMode) -> Option<GitError> {
    match (listing.worktrees, listing.branches) {
        (Err(error), _) => Some(error),
        (_, Err(error)) if mode is Branches => Some(error),
        _ => None,
    }
}

/// The place of the first of `n` listings that failed.
pub open spec fn first_fault(listings: Seq<Listing>, mode: ExploreMode, n: int) -> Option<int>
    decreases n,
{
    if n <= 0 {
        None
    } else {
        match first_fault(listings, mode, n - 1) {
            Some(i) => Some(i),
            None => if listing_fault(listings[n - 1], mode) is Some {
                Some(n - 1)
            } else {
                None
            },
        }
    }
}

/// What of a group a listing brings up to date: the worktrees, and behind them the branches
/// where branches are managed.
pub open spec fn refreshed_group(group: GroupModel, listing: Listing, mode: ExploreMode) -> GroupModel {
    GroupModel {
        repository: group.repository,
        worktrees: match listing.worktrees {
            Ok(worktrees) => worktrees_of(worktrees@),
            Err(_) => group.worktrees,
        },
        branches: match (listing.worktrees, listing.branches) {
            (Ok(_), Ok(branches)) if mode is Branches => branches_of(branches@),
            _ => group.branches,
        },
    }
}

/// The groups after the first `n` of them have been listed again, up to the first failure.
pub open spec fn refreshed(
    groups: Seq<GroupModel>,
    listings: Seq<Listing>,
    mode: ExploreMode,
    n: int,
) -> Seq<GroupModel> {
    Seq::new(
        groups.len(),
        |i: int|
            if i < n && first_fault(listings, mode, i) is None {
                refreshed_group(groups[i], listings[i], mode)
            } else {
                groups[i]
            },
    )
}

proof fn fault_stays(listings: Seq<Listing>, mode: ExploreMode, at: int, n: int)
    requires
        0 <= at < n,
        first_fault(listings, mode, at) is None,
        listing_fault(listings[at], mode) is Some,
    ensures
        first_fault(listings, mode, n) == Some(at),
    decreases n,
{
    if at < n - 1 {
        fault_stays(listings, mode, at, n - 1);
    }
}

proof fn stopped(groups: Seq<GroupModel>, listings: Seq<Listing>, mode: ExploreMode, at: int, n: int)
    requires
        0 <= at < n,
        first_fault(listings, mode, at) is None,
        listing_fault(listings[at], mode) is Some,
    ensures
        first_fault(listings, mode, n) == Some(at),
        refreshed(groups, listings, mode, n) == refreshed(groups, listings, mode, at + 1),
{
    fault_stays(listings, mode, at, n);
    assert forall|i: int| at < i implies first_fault(listings, mode, i) is Some by {
        fault_stays(listings, mode, at, i);
    }
    assert(refreshed(groups, listings, mode, n) =~= refreshed(groups, listings, mode, at + 1));
}

proof fn refreshed_next(
    groups: Seq<GroupModel>,
    listings: Seq<Listing>,
    mode: ExploreMode,
    at: int,
    repositories: Seq<RepositoryGroup>,
    group: RepositoryGroup,
)
    requires
        0 <= at < groups.len(),
        first_fault(listings, mode, at) is None,
        groups_of(repositories) == refreshed(groups, listings, mode, at),
        group@ == refreshed_group(groups[at], listings[at], mode),
    ensures
        groups_of(repositories.update(at, group)) == refreshed(groups, listings, mode, at + 1),
{
    let next = groups_of(repositories.update(at, group));
    let expected = refreshed(groups, listings, mode, at + 1);
    assert(groups_of(repositories).len() == repositories.len());
    assert forall|i: int| 0 <= i < groups.len() implies next[i] == expected[i] by {
        if i != at {
            assert(next[i] == groups_of(repositories)[i]);
            assert(groups_of(repositories)[i] == refreshed(groups, listings, mode, at)[i]);
        }
    }
    assert(next =~= expected);
}

/// How many groups are listed again.
pub open spec fn listed(groups: nat, listings: nat) -> int {
    if groups < listings {
        groups as int
    } else {
        listings as int
    }
}

impl AppModel {
    /// The place of what was selected, or the place itself as far as there are rows.
    pub open spec fn kept_place(self, identity: Option<IdentityModel>) -> nat {
        match identity {
            Some(identity) => match self.row_for(identity) {
                Some(at) => at,
                None => limited(self.selected, self.row_count()),
            },
            None => limited(self.selected, self.row_count()),
        }
    }

    /// The state after the groups have been listed again. The first failure is shown and
    /// leaves the selection; otherwise what was selected stays selected where it is still
    /// there.
    pub open spec fn after_refresh(self, listings: Seq<Listing>) -> AppModel {
        let n = listed(self.groups.len(), listings.len());
        let next = AppModel { groups: refreshed(self.groups, listings, self.mode, n), ..self };
        match first_fault(listings, self.mode, n) {
            Some(i) => AppModel {
                message: Some(listing_fault(listings[i], self.mode)->0.text()),
                ..next
            },
            None => AppModel { selected: next.kept_place(self.selected_identity()), ..next },
        }
    }

    /// The state after hiding or showing the groups without anything to manage. What was
    /// selected stays selected where it is still shown; otherwise the row behind the first is
    /// selected, if there is one.
    pub open spec fn after_toggle(self) -> AppModel {
        let next = AppModel { hide_without_linked: !self.hide_without_linked, ..self };
        let other: nat = if next.row_count() > 1 {
            1
        } else {
            0
        };
        AppModel {
            selected: match self.selected_identity() {
                Some(identity) => match next.row_for(identity) {
                    Some(at) => at,
                    None => other,
                },
                None => other,
            },
            ..next
        }
    }
}

/// The groups for repositories and what listing them gave.
pub open spec fn listed_groups(found: Seq<(RepositoryManager, Listing)>, mode: ExploreMode) -> Seq<
    GroupModel,
> {
    found.map_values(
        |entry: (RepositoryManager, Listing)|
            GroupModel {
                repository: entry.0@,
                worktrees: worktrees_of(entry.1.worktrees->Ok_0@),
                branches: if mode is Branches {
                    branches_of(entry.1.branches->Ok_0@)
                } else {
                    Seq::empty()
                },
            },
    )
}

/// The mode for the choice between branches and worktrees.
pub open spec fn mode_for(branch_mode: bool) -> ExploreMode {
    if branch_mode {
        ExploreMode::Branches
    } else {
        ExploreMode::Worktrees
    }
}

impl App {
    /// Starts the explorer with repositories and what listing each gave. The first failure to
    /// list one is the error. The first item of the first repository is selected, if it has
    /// any.
    pub fn new(found: Vec<(RepositoryManager, Listing)>, recursive: bool, branch_mode: bool) -> (r:
        Result<App, GitError>)
        ensures
            match r {
                Ok(app) => {
                    let mode = mode_for(branch_mode);
                    let groups = listed_groups(found@, mode);
                    &&& forall|i: int|
                        0 <= i < found.len() ==> listing_fault((#[trigger] found@[i]).1, mode) is None
                    &&& app@ == AppModel {
                        groups,
                        selected: if groups.len() > 0 && groups[0].item_count(mode) > 0 {
                            1
                        } else {
                            0
                        },
                        screen: ScreenModel::Worktrees,
                        message: None,
                        recursive,
                        hide_without_linked: false,
                        page_size: 1,
                        mode,
                    }
                    &&& app@.wf()
                },
                Err(error) => exists|i: int|
                    0 <= i < found.len() && listing_fault(
                        (#[trigger] found@[i]).1,
                        mode_for(branch_mode),
                    ) == Some(error) && forall|j: int|
                        0 <= j < i ==> listing_fault(
                            (#[trigger] found@[j]).1,
                            mode_for(branch_mode),
                        ) is None,
            },
    {
        let mode = if branch_mode {
            ExploreMode::Branches
        } else {
            ExploreMode::Worktrees
        };
        let ghost all = found@;
        let ghost groups = listed_groups(all, mode);
        let mut repositories: Vec<RepositoryGroup> = Vec::new();
        for entry in iter: found
            invariant
                iter.seq() == all,
                found@ == all,
                mode == mode_for(branch_mode),
                groups == listed_groups(all, mode),
                forall|i: int|
                    0 <= i < iter.index() ==> listing_fault((#[trigger] all[i]).1, mode) is None,
                repositories.len() == iter.index(),
                forall|i: int| 0 <= i < iter.index() ==> (#[trigger] repositories@[i])@ == groups[i],
        {
            let ghost at = iter.index();
            assert(entry == all[at]);
            let (repository, listing) = entry;
            let worktrees = match listing.worktrees {
                Ok(worktrees) => worktrees,
                Err(error) => {
                    assert(listing_fault(all[at].1, mode) == Some(error));
                    return Err(error);
                },
            };
            let branches = match mode {
                ExploreMode::Branches => match listing.branches {
                    Ok(branches) => branches,
                    Err(error) => {
                        assert(listing_fault(all[at].1, mode) == Some(error));
                        return Err(error);
                    },
                },
                ExploreMode::Worktrees => {
                    let none: Vec<BranchInfo> = Vec::new();
                    assert(branches_of(none@) =~= Seq::empty());
                    none
                },
            };
            let group = RepositoryGroup { repository, worktrees, branches };
            assert(group@ == groups[at]);
            repositories.push(group);
        }
        assert(groups_of(repositories@) =~= groups);
        let selected: usize = if repositories.len() > 0 && repositories[0].item_count(mode) > 0 {
            1
        } else {
            0
        };
        assert(repositories.len() > 0 ==> groups[0] == repositories@[0]@);
        Ok(
            App {
                repositories,
                selected,
                view: Screen::Worktrees,
                message: None,
                recursive,
                hide_without_linked: false,
                page_size: 1,
                mode,
            },
        )
    }

    fn tree(&self) -> (r: Tree<'_>)
        ensures
            r@ == self@.tree(),
            r.groups == self.repositories,
            r.mode == self.mode,
    {
        Tree {
            groups: &self.repositories,
            mode: self.mode,
            filtered: self.recursive && self.hide_without_linked,
        }
    }

    /// Tells whether a group is shown.
    pub fn group_is_visible(&self, group: &RepositoryGroup) -> (r: bool)
        ensures
            r == (!self.recursive || !self.hide_without_linked || group@.is_worth_showing(self.mode)),
    {
        self.tree().shows(group)
    }

    /// Counts the rows, up to the largest number there is.
    pub fn row_count(&self) -> (r: usize)
        ensures
            r == self@.row_count(),
    {
        self.tree().count_rows()
    }

    /// The branch that is selected, and the place of its repository.
    pub fn selected_branch(&self) -> (r: Option<(usize, BranchInfo)>)
        ensures
            match (r, self@.selected_item(ExploreMode::Branches)) {
                (Some((i, branch)), Some((group, item))) => i == group && i < self@.groups.len()
                    && item < self@.groups[group].branches.len() && branch@
                    == self@.groups[group].branches[item],
                (None, None) => true,
                _ => false,
            },
    {
        match self.tree().locate(ExploreMode::Branches, self.selected) {
            Some((i, Some(j))) => {
                let group = &self.repositories[i];
                assert(self@.groups[i as int] == group@);
                assert(group@.branches[j as int] == group.branches@[j as int]@);
                Some((i, group.branches[j].clone()))
            },
            _ => None,
        }
    }

    /// The worktree that is selected, and the place of its repository.
    pub fn selected_worktree(&self) -> (r: Option<(usize, WorktreeInfo)>)
        ensures
            match (r, self@.selected_item(ExploreMode::Worktrees)) {
                (Some((i, worktree)), Some((group, item))) => i == group && i < self@.groups.len()
                    && item < self@.groups[group].worktrees.len() && worktree@
                    == self@.groups[group].worktrees[item],
                (None, None) => true,
                _ => false,
            },
    {
        match self.tree().locate(ExploreMode::Worktrees, self.selected) {
            Some((i, Some(j))) => {
                let group = &self.repositories[i];
                assert(self@.groups[i as int] == group@);
                assert(group@.worktrees[j as int] == group.worktrees@[j as int]@);
                Some((i, group.worktrees[j].clone()))
            },
            _ => None,
        }
    }

    /// What the selected row is of.
    pub fn selected_identity(&self) -> (r: Option<TreeIdentity>)
        ensures
            match r {
                Some(identity) => self@.selected_identity() == Some(identity@),
                None => self@.selected_identity() is None,
            },
    {
        self.tree().identity_at(self.selected)
    }

    /// The place of the first row of an identity, if it has a number.
    pub fn row_for_identity(&self, identity: &TreeIdentity) -> (r: Option<usize>)
        ensures
            match r {
                Some(at) => self@.row_for(identity@) == Some(at as nat),
                None => self@.row_for(identity@) is None,
            },
    {
        self.tree().place_of(identity)
    }

    /// Takes in what listing the groups again gave, and clears the message first.
    pub fn refresh(&mut self, listings: Vec<Listing>)
        ensures
            final(self)@ == (AppModel { message: None, ..old(self)@ }).after_refresh(listings@),
    {
        self.message = None;
        self.refresh_preserving_message(listings);
    }

    /// Takes in what listing the groups again gave. Groups behind the first failure, and
    /// those without a listing, stay as they are.
    pub fn refresh_preserving_message(&mut self, listings: Vec<Listing>)
        ensures
            final(self)@ == old(self)@.after_refresh(listings@),
    {
        let ghost before = self@;
        let ghost all = listings@;
        let ghost n = listed(before.groups.len(), all.len());
        let identity = self.selected_identity();
        let mut i: usize = 0;
        assert(refreshed(before.groups, all, before.mode, 0) =~= before.groups);
        for listing in iter: listings
            invariant
                iter.seq() == all,
                listings@ == all,
                before == old(self)@,
                n == listed(before.groups.len(), all.len()),
                i == listed(before.groups.len(), iter.index() as nat),
                first_fault(all, before.mode, i as int) is None,
                self@ == (AppModel {
                    groups: refreshed(before.groups, all, before.mode, i as int),
                    ..before
                }),
        {
            assert(self@.groups.len() == self.repositories.len());
            if i < self.repositories.len() {
                let ghost at = i as int;
                let ghost repositories = self.repositories@;
                let ghost groups = self@.groups;
                assert(listing == all[at]);
                assert(groups[at] == before.groups[at]);
                assert(groups[at] == self.repositories@[at]@);
                match listing.worktrees {
                    Ok(worktrees) => self.repositories[i].worktrees = worktrees,
                    Err(error) => {
                        self.message = Some(error.message());
                        proof {
                            stopped(before.groups, all, before.mode, at, n);
                            refreshed_next(
                                before.groups,
                                all,
                                before.mode,
                                at,
                                repositories,
                                repositories[at],
                            );
                            assert(repositories.update(at, repositories[at]) =~= repositories);
                        }
                        return;
                    },
                }
                if let ExploreMode::Branches = self.mode {
                    match listing.branches {
                        Ok(branches) => self.repositories[i].branches = branches,
                        Err(error) => {
                            self.message = Some(error.message());
                            proof {
                                stopped(before.groups, all, before.mode, at, n);
                                refreshed_next(
                                    before.groups,
                                    all,
                                    before.mode,
                                    at,
                                    repositories,
                                    self.repositories@[at],
                                );
                                assert(self.repositories@ =~= repositories.update(
                                    at,
                                    self.repositories@[at],
                                ));
                            }
                            return;
                        },
                    }
                }
                i = i + 1;
                proof {
                    refreshed_next(
                        before.groups,
                        all,
                        before.mode,
                        at,
                        repositories,
                        self.repositories@[at],
                    );
                    assert(self.repositories@ =~= repositories.update(at, self.repositories@[at]));
                }
            }
        }
        let place = match &identity {
            Some(identity) => self.row_for_identity(identity),
            None => None,
        };
        self.selected = match place {
            Some(at) => at,
            None => move_down(self.selected, 0, self.row_count()),
        };
    }

    /// Hides the groups without anything to manage, or shows them again.
    pub fn toggle_hide_without_linked(&mut self)
        ensures
            final(self)@ == old(self)@.after_toggle(),
    {
        let identity = self.selected_identity();
        self.hide_without_linked = !self.hide_without_linked;
        let place = match &identity {
            Some(identity) => self.row_for_identity(identity),
            None => None,
        };
        self.selected = match place {
            Some(at) => at,
            None => if self.row_count() > 1 {
                1
            } else {
                0
            },
        };
    }
}

proof fn place_has_identity(tree: TreeModel, identity: IdentityModel)
    requires
        tree.place_of(identity) is Some,
    ensures
        tree.identity_at(tree.place_of(identity)->0) == Some(identity),
        tree.place_of(identity)->0 < tree.rows().len(),
{
    let at = choose|at: int| #[trigger] tree.is_first_at(identity, at);
    assert(tree.is_first_at(identity, at));
}

/// A refresh without a failure keeps what is selected, where it is still there.
pub proof fn refresh_keeps_the_selection(app: AppModel, listings: Seq<Listing>)
    requires
        first_fault(listings, app.mode, listed(app.groups.len(), listings.len())) is None,
        app.selected_identity() is Some,
        app.after_refresh(listings).row_for(app.selected_identity()->0) is Some,
    ensures
        app.after_refresh(listings).selected_identity() == app.selected_identity(),
{
    let after = app.after_refresh(listings);
    let n = listed(app.groups.len(), listings.len());
    let next = AppModel { groups: refreshed(app.groups, listings, app.mode, n), ..app };
    assert(after.tree() == next.tree());
    place_has_identity(after.tree(), app.selected_identity()->0);
}

/// Hiding or showing groups keeps what is selected, where it is still shown.
pub proof fn toggle_keeps_the_selection(app: AppModel)
    requires
        app.selected_identity() is Some,
        app.after_toggle().row_for(app.selected_identity()->0) is Some,
    ensures
        app.after_toggle().selected_identity() == app.selected_identity(),
{
    let after = app.after_toggle();
    let next = AppModel { hide_without_linked: !app.hide_without_linked, ..app };
    assert(after.tree() == next.tree());
    place_has_identity(after.tree(), app.selected_identity()->0);
}

/// Hiding groups and showing them again leads to the same rows.
pub proof fn toggling_twice_shows_the_same(app: AppModel)
    ensures
        app.after_toggle().after_toggle().tree() == app.tree(),
{
}

/// After hiding or showing groups, and after a refresh without a failure, the selection is on
/// a row again, wherever it was before.
pub proof fn selection_returns_to_a_row(app: AppModel, listings: Seq<Listing>)
    ensures
        app.after_toggle().is_on_a_row(),
        first_fault(listings, app.mode, listed(app.groups.len(), listings.len())) is None
            ==> app.after_refresh(listings).is_on_a_row(),
{
    let hidden = AppModel { hide_without_linked: !app.hide_without_linked, ..app };
    assert(app.after_toggle().tree() == hidden.tree());
    let n = listed(app.groups.len(), listings.len());
    let next = AppModel { groups: refreshed(app.groups, listings, app.mode, n), ..app };
    if first_fault(listings, app.mode, n) is None {
        assert(app.after_refresh(listings).tree() == next.tree());
    }
    if let Some(identity) = app.selected_identity() {
        if hidden.row_for(identity) is Some {
            place_has_identity(hidden.tree(), identity);
        }
        if next.row_for(identity) is Some {
            place_has_identity(next.tree(), identity);
        }
    }
}

/// A listing fails for its worktrees and, where branches are managed, for its branches.
pub proof fn listings_fail_for_what_is_managed(listing: Listing, error: GitError)
    ensures
        listing_fault(listing, ExploreMode::Worktrees) == Some(error) <==> listing.worktrees == Err::<
            Vec<WorktreeInfo>,
            GitError,
        >(error),
        listing_fault(listing, ExploreMode::Branches) == Some(error) <==> listing.worktrees == Err::<
            Vec<WorktreeInfo>,
            GitError,
        >(error) || (listing.worktrees is Ok && listing.branches == Err::<
            Vec<BranchInfo>,
            GitError,
        >(error)),
{
}

/// The listing has what is managed.
pub open spec fn is_complete(listing: Listing, mode: ExploreMode) -> bool {
    listing.worktrees is Ok && (mode is Branches ==> listing.branches is Ok)
}

proof fn faults_are_the_first(listings: Seq<Listing>, mode: ExploreMode, n: int)
    requires
        0 <= n <= listings.len(),
    ensures
        first_fault(listings, mode, n) is None <==> forall|j: int|
            0 <= j < n ==> is_complete(#[trigger] listings[j], mode),
        first_fault(listings, mode, n) matches Some(i) ==> 0 <= i < n && !is_complete(
            listings[i],
            mode,
        ) && forall|j: int| 0 <= j < i ==> is_complete(#[trigger] listings[j], mode),
    decreases n,
{
    if n > 0 {
        faults_are_the_first(listings, mode, n - 1);
        assert(is_complete(listings[n - 1], mode) <==> listing_fault(listings[n - 1], mode) is None);
    }
}

/// A refresh puts the worktrees, and where branches are managed the branches, of a listing into
/// its group, as long as all listings before it were complete; it keeps the repositories, and
/// every group behind the first failure.
pub proof fn refreshes_take_in_the_listings(app: AppModel, listings: Seq<Listing>, i: int)
    requires
        0 <= i < app.groups.len(),
    ensures
        app.after_refresh(listings).groups.len() == app.groups.len(),
        ({
            let before = app.groups[i];
            let after = app.after_refresh(listings).groups[i];
            let reached = i < listings.len() && forall|j: int|
                0 <= j < i ==> (#[trigger] listings[j]).worktrees is Ok && (app.mode is Branches
                    ==> listings[j].branches is Ok);
            &&& after.repository == before.repository
            &&& !reached ==> after == before
            &&& reached ==> match listings[i].worktrees {
                Err(_) => after == before,
                Ok(worktrees) => {
                    &&& after.worktrees == worktrees_of(worktrees@)
                    &&& app.mode is Worktrees ==> after.branches == before.branches
                    &&& app.mode is Branches ==> match listings[i].branches {
                        Ok(branches) => after.branches == branches_of(branches@),
                        Err(_) => after.branches == before.branches,
                    }
                },
            }
        }),
{
    let n = listed(app.groups.len(), listings.len());
    if i < listings.len() {
        faults_are_the_first(listings, app.mode, i);
        assert((forall|j: int| 0 <= j < i ==> is_complete(#[trigger] listings[j], app.mode)) <==> (
        forall|j: int|
            0 <= j < i ==> (#[trigger] listings[j]).worktrees is Ok && (app.mode is Branches
                ==> listings[j].branches is Ok)));
    }
}

/// The place that a selection keeps: that of the first row of what was selected, if it is still
/// there and has a number, else another.
pub open spec fn is_kept(
    tree: TreeModel,
    identity: Option<IdentityModel>,
    selected: nat,
    other: nat,
) -> bool {
    match identity {
        Some(identity) => if exists|at: int|
            0 <= at <= usize::MAX && at < tree.rows().len() && tree.identity(
                #[trigger] tree.rows()[at],
            ) == identity {
            &&& selected < tree.rows().len()
            &&& tree.identity(tree.rows()[selected as int]) == identity
            &&& forall|at: int|
                0 <= at < selected ==> tree.identity(#[trigger] tree.rows()[at]) != identity
        } else {
            selected == other
        },
        None => selected == other,
    }
}

proof fn places_are_kept(app: AppModel, identity: IdentityModel)
    ensures
        match app.row_for(identity) {
            Some(at) => at <= usize::MAX && at < app.tree().rows().len() && app.tree().identity(
                app.tree().rows()[at as int],
            ) == identity && forall|i: int|
                0 <= i < at ==> app.tree().identity(#[trigger] app.tree().rows()[i]) != identity,
            None => forall|i: int|
                0 <= i <= usize::MAX && i < app.tree().rows().len() ==> app.tree().identity(
                    #[trigger] app.tree().rows()[i],
                ) != identity,
        },
{
    places_are_those_of_the_first_rows(app.tree(), identity);
}

/// A refresh without a failure selects the first row of what was selected, if it is still
/// there, and else stays at its place as far as there are rows; with a failure it leaves the
/// selection and shows the text of the first error. It changes nothing else but the groups.
pub proof fn refreshes_keep_what_was_selected(app: AppModel, listings: Seq<Listing>)
    ensures
        ({
            let after = app.after_refresh(listings);
            let n = if app.groups.len() < listings.len() {
                app.groups.len()
            } else {
                listings.len()
            };
            let identity = if app.selected < app.tree().rows().len() {
                Some(app.tree().identity(app.tree().rows()[app.selected as int]))
            } else {
                None
            };
            let rows = after.tree().rows().len();
            &&& after.screen == app.screen
            &&& after.recursive == app.recursive
            &&& after.hide_without_linked == app.hide_without_linked
            &&& after.page_size == app.page_size
            &&& after.mode == app.mode
            &&& (forall|j: int|
                0 <= j < n ==> (#[trigger] listings[j]).worktrees is Ok && (app.mode is Branches
                    ==> listings[j].branches is Ok)) ==> {
                &&& after.message == app.message
                &&& rows <= usize::MAX ==> is_kept(
                    after.tree(),
                    identity,
                    after.selected,
                    if rows == 0 {
                        0
                    } else if app.selected < rows {
                        app.selected
                    } else {
                        (rows - 1) as nat
                    },
                )
            }
            &&& forall|i: int|
                0 <= i < n && !((#[trigger] listings[i]).worktrees is Ok && (app.mode is Branches
                    ==> listings[i].branches is Ok)) && (forall|j: int|
                    0 <= j < i ==> (#[trigger] listings[j]).worktrees is Ok && (app.mode is Branches
                        ==> listings[j].branches is Ok)) ==> {
                    &&& after.selected == app.selected
                    &&& after.message == Some(
                        match listings[i].worktrees {
                            Err(error) => error.text(),
                            Ok(_) => listings[i].branches->Err_0.text(),
                        },
                    )
                }
        }),
{
    let after = app.after_refresh(listings);
    let n = listed(app.groups.len(), listings.len());
    let next = AppModel { groups: refreshed(app.groups, listings, app.mode, n), ..app };
    let rows = after.tree().rows().len();
    faults_are_the_first(listings, app.mode, n);
    assert(after.tree() == next.tree());
    if let Some(identity) = app.selected_identity() {
        places_are_kept(next, identity);
    }
    if forall|j: int|
        0 <= j < n ==> (#[trigger] listings[j]).worktrees is Ok && (app.mode is Branches
            ==> listings[j].branches is Ok) {
        assert forall|j: int| 0 <= j < n implies is_complete(#[trigger] listings[j], app.mode) by {}
    }
    assert forall|i: int|
        0 <= i < n && !((#[trigger] listings[i]).worktrees is Ok && (app.mode is Branches
            ==> listings[i].branches is Ok)) && (forall|j: int|
            0 <= j < i ==> (#[trigger] listings[j]).worktrees is Ok && (app.mode is Branches
                ==> listings[j].branches is Ok)) implies first_fault(listings, app.mode, n) == Some(
        i,
    ) by {
        assert(!is_complete(listings[i], app.mode));
        let first = first_fault(listings, app.mode, n)->0;
        if i < first {
            assert(is_complete(listings[i], app.mode));
        } else if first < i {
            assert(!is_complete(listings[first], app.mode));
        }
    }
}

/// Hiding or showing groups selects the first row of what was selected, if it is still shown,
/// and else the second row, or the first where there is no second. It changes nothing else.
pub proof fn toggles_keep_what_was_selected(app: AppModel)
    ensures
        ({
            let after = app.after_toggle();
            let identity = if app.selected < app.tree().rows().len() {
                Some(app.tree().identity(app.tree().rows()[app.selected as int]))
            } else {
                None
            };
            &&& after.hide_without_linked == !app.hide_without_linked
            &&& after.groups == app.groups
            &&& after.screen == app.screen
            &&& after.message == app.message
            &&& after.recursive == app.recursive
            &&& after.page_size == app.page_size
            &&& after.mode == app.mode
            &&& is_kept(
                after.tree(),
                identity,
                after.selected,
                if after.tree().rows().len() > 1 {
                    1
                } else {
                    0
                },
            )
        }),
{
    let next = AppModel { hide_without_linked: !app.hide_without_linked, ..app };
    assert(app.after_toggle().tree() == next.tree());
    if let Some(identity) = app.selected_identity() {
        places_are_kept(next, identity);
    }
}

/// An item is selected exactly where the selected row is that item's.
pub proof fn selected_items_are_those_of_the_row(app: AppModel, kind: ExploreMode, i: int, j: int)
    ensures
        app.selected_item(kind) == Some((i, j)) <==> app.selected < app.tree().rows_with(kind).len()
            && app.tree().rows_with(kind)[app.selected as int] == Row::Item(i, j),
        app.tree().groups == app.groups,
        app.tree().mode == app.mode,
        app.tree().filtered == (app.recursive && app.hide_without_linked),
{
}

/// The groups that the explorer starts with hold the repositories in their order, with the
/// worktrees that were listed and, where branches are managed, the branches.
pub proof fn explorers_start_with_what_was_listed(
    found: Seq<(RepositoryManager, Listing)>,
    branch_mode: bool,
    i: int,
)
    requires
        0 <= i < found.len(),
        found[i].1.worktrees is Ok,
        branch_mode ==> found[i].1.branches is Ok,
    ensures
        ({
            let groups = listed_groups(found, mode_for(branch_mode));
            &&& groups.len() == found.len()
            &&& groups[i].repository == found[i].0@
            &&& found[i].1.worktrees matches Ok(worktrees) && groups[i].worktrees == worktrees_of(
                worktrees@,
            )
            &&& branch_mode ==> (found[i].1.branches matches Ok(branches) && groups[i].branches
                == branches_of(branches@))
            &&& !branch_mode ==> groups[i].branches.len() == 0
            &&& branch_mode <==> mode_for(branch_mode) is Branches
        }),
{
}

/// The state of the explorer stands for its groups, selection, screen, message and settings.
pub proof fn explorers_stand_for_all_they_hold(app: App)
    ensures
        app@.groups == groups_of(app.repositories@),
        app@.selected == app.selected,
        app@.screen == app.view@,
        app.message is None <==> app@.message is None,
        app.message matches Some(text) ==> app@.message == Some(text@),
        app@.recursive == app.recursive,
        app@.hide_without_linked == app.hide_without_linked,
        app@.page_size == app.page_size,
        app@.mode == app.mode,
{
}

} // verus!
