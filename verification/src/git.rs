//! Repositories, their worktrees and their local branches.

use vstd::prelude::*;
use vstd::utf8::encode_utf8;

use crate::commits::{ahead_behind, CommitId, CommitSet};
use crate::error::GitError;
use crate::history::{
    commit_details, is_good_tip, is_tip_error, log_from_id, opt_text, tip_time, CommitRecord,
    HeadDetails, LogEntry, TipFacts,
};
use crate::history::{is_good_step, is_step_error, log_line, shown};
use crate::objects::{
    branch_reference, committer_seconds, decoded_commit, local_branch_reference, lossy_text,
    name_fault, short_name, shorten, to_text,
};
use crate::order::{
    can_sort, is_sorted, lex_le_total, lex_le_transitive, natural_order, sort_stable, stable_sorted,
    stable_sorted_images, stable_sorted_is_sorted, Sortable,
};
use crate::path::{clone_paths, paths_of, FilePath, PathModel};
use crate::status::{
    changes_are_counted_by_sort, count_changes, entries_found, entries_of, entry_order,
    sorted_entries, ChangeCounts, EntryModel, StatusEntry, StatusItem,
};
use crate::text::{char_order, first_chars, is_text_le, text_le, trimmed};

verus! {

/// Which worktree of a repository is meant.
#[derive(Debug, PartialEq, Eq)]
pub enum WorktreeKey {
    /// The one that the repository was made with.
    Main,
    /// One that was linked to the repository, by its identifier.
    Linked(String),
}

/// What a key stands for.
pub enum KeyModel {
    Main,
    Linked(Seq<char>),
}

impl View for WorktreeKey {
    type V = KeyModel;

    open spec fn view(&self) -> KeyModel {
        match *self {
            WorktreeKey::Main => KeyModel::Main,
            WorktreeKey::Linked(id) => KeyModel::Linked(id@),
        }
    }
}

impl Clone for WorktreeKey {
    fn clone(&self) -> (r: Self)
        ensures
            r == *self,
    {
        match self {
            WorktreeKey::Main => WorktreeKey::Main,
            WorktreeKey::Linked(id) => WorktreeKey::Linked(id.clone()),
        }
    }
}

impl WorktreeKey {
    /// Tells whether two keys name the same worktree.
    pub fn is_same(&self, other: &WorktreeKey) -> (r: bool)
        ensures
            r == (self@ == other@),
    {
        match (self, other) {
            (WorktreeKey::Main, WorktreeKey::Main) => true,
            (WorktreeKey::Linked(left), WorktreeKey::Linked(right)) => *left == *right,
            _ => false,
        }
    }
}

/// A worktree as lists show it.
#[derive(Debug, PartialEq, Eq)]
pub struct WorktreeInfo {
    pub key: WorktreeKey,
    pub path: FilePath,
    pub head: Option<String>,
    pub committed_at: Option<i64>,
    pub branch: Option<String>,
    pub locked: bool,
    pub available: bool,
}

/// What a worktree in a list stands for.
pub struct WorktreeModel {
    pub key: KeyModel,
    pub path: PathModel,
    pub head: Option<Seq<char>>,
    pub committed_at: Option<i64>,
    pub branch: Option<Seq<char>>,
    pub locked: bool,
    pub available: bool,
}

impl View for WorktreeInfo {
    type V = WorktreeModel;

    open spec fn view(&self) -> WorktreeModel {
        WorktreeModel {
            key: self.key@,
            path: self.path@,
            head: opt_text(self.head),
            committed_at: self.committed_at,
            branch: opt_text(self.branch),
            locked: self.locked,
            available: self.available,
        }
    }
}

/// The models of a list of worktrees.
pub open spec fn worktrees_of(worktrees: Seq<WorktreeInfo>) -> Seq<WorktreeModel> {
    worktrees.map_values(|worktree: WorktreeInfo| worktree@)
}

impl Clone for WorktreeInfo {
    fn clone(&self) -> (r: Self)
        ensures
            r@ == self@,
    {
        WorktreeInfo {
            key: self.key.clone(),
            path: self.path.clone(),
            head: self.head.clone(),
            committed_at: self.committed_at,
            branch: self.branch.clone(),
            locked: self.locked,
            available: self.available,
        }
    }
}

impl WorktreeModel {
    /// What a worktree has checked out: its branch, or the commit, or nothing yet.
    pub open spec fn reference(self) -> Seq<char> {
        match self.branch {
            Some(branch) => branch,
            None => if self.head is Some {
                "detached HEAD"@
            } else {
                "unborn HEAD"@
            },
        }
    }

    /// The branch of this name is checked out here.
    pub open spec fn is_on(self, name: Seq<char>) -> bool {
        self.branch == Some(name)
    }
}

impl WorktreeInfo {
    /// Names what the worktree has checked out.
    pub fn reference_label(&self) -> (r: &str)
        ensures
            r@ == self@.reference(),
            self.branch matches Some(branch) ==> r@ == branch@,
            self.branch is None && self.head is Some ==> r@ == "detached HEAD"@,
            self.branch is None && self.head is None ==> r@ == "unborn HEAD"@,
    {
        match &self.branch {
            Some(branch) => branch.as_str(),
            None => if self.head.is_some() {
                "detached HEAD"
            } else {
                "unborn HEAD"
            },
        }
    }

    fn is_on(&self, name: &String) -> (r: bool)
        ensures
            r == self@.is_on(name@),
    {
        match &self.branch {
            Some(branch) => *branch == *name,
            None => false,
        }
    }
}

/// A local branch as lists show it.
#[derive(Debug, PartialEq, Eq)]
pub struct BranchInfo {
    pub name: String,
    pub head: String,
    pub committed_at: i64,
    pub checked_out_paths: Vec<FilePath>,
}

/// What a branch in a list stands for.
pub struct BranchModel {
    pub name: Seq<char>,
    pub head: Seq<char>,
    pub committed_at: i64,
    pub checked_out_paths: Seq<PathModel>,
}

impl View for BranchInfo {
    type V = BranchModel;

    open spec fn view(&self) -> BranchModel {
        BranchModel {
            name: self.name@,
            head: self.head@,
            committed_at: self.committed_at,
            checked_out_paths: paths_of(self.checked_out_paths@),
        }
    }
}

/// The models of a list of branches.
pub open spec fn branches_of(branches: Seq<BranchInfo>) -> Seq<BranchModel> {
    branches.map_values(|branch: BranchInfo| branch@)
}

impl Clone for BranchInfo {
    fn clone(&self) -> (r: Self)
        ensures
            r@ == self@,
    {
        BranchInfo {
            name: self.name.clone(),
            head: self.head.clone(),
            committed_at: self.committed_at,
            checked_out_paths: clone_paths(&self.checked_out_paths),
        }
    }
}

impl Sortable for BranchInfo {
    open spec fn le(self, other: BranchInfo) -> bool {
        text_le(self.name@, other.name@)
    }

    proof fn le_total(left: BranchInfo, right: BranchInfo) {
        lex_le_total(left.name@, right.name@, char_order());
    }

    proof fn le_transitive(a: BranchInfo, b: BranchInfo, c: BranchInfo) {
        lex_le_transitive(a.name@, b.name@, c.name@, char_order());
    }

    fn is_le(&self, other: &BranchInfo) -> bool {
        is_text_le(&self.name, &other.name)
    }
}

/// Branches are listed by name.
pub open spec fn branch_order() -> spec_fn(BranchModel, BranchModel) -> bool {
    |left: BranchModel, right: BranchModel| text_le(left.name, right.name)
}

/// Whether a branch has an upstream.
#[derive(Clone, Copy, Debug, PartialEq, Eq, Structural)]
pub enum UpstreamState {
    NotConfigured,
    /// One is configured, but there is no such reference.
    Missing,
    Present,
}

/// How a branch compares with its upstream, and what is changed where it is checked out.
#[derive(Debug, PartialEq, Eq)]
pub struct BranchStatus {
    pub branch: String,
    pub upstream: Option<String>,
    pub upstream_state: UpstreamState,
    pub ahead: usize,
    pub behind: usize,
    pub checked_out_paths: Vec<FilePath>,
    pub changes: ChangeCounts,
}

/// What the status of a branch stands for.
pub struct BranchStatusModel {
    pub branch: Seq<char>,
    pub upstream: Option<Seq<char>>,
    pub upstream_state: UpstreamState,
    pub ahead: nat,
    pub behind: nat,
    pub checked_out_paths: Seq<PathModel>,
    pub changes: ChangeCounts,
}

impl View for BranchStatus {
    type V = BranchStatusModel;

    open spec fn view(&self) -> BranchStatusModel {
        BranchStatusModel {
            branch: self.branch@,
            upstream: opt_text(self.upstream),
            upstream_state: self.upstream_state,
            ahead: self.ahead as nat,
            behind: self.behind as nat,
            checked_out_paths: paths_of(self.checked_out_paths@),
            changes: self.changes,
        }
    }
}

/// What stands against deleting a branch.
#[derive(Debug, PartialEq, Eq)]
pub struct BranchDeletionAssessment {
    pub checked_out_paths: Vec<FilePath>,
    pub unmerged: bool,
}

/// The model of what stands against deleting a branch.
pub struct BranchAssessmentModel {
    pub checked_out_paths: Seq<PathModel>,
    pub unmerged: bool,
}

impl View for BranchDeletionAssessment {
    type V = BranchAssessmentModel;

    open spec fn view(&self) -> BranchAssessmentModel {
        BranchAssessmentModel {
            checked_out_paths: paths_of(self.checked_out_paths@),
            unmerged: self.unmerged,
        }
    }
}

/// What came of deleting a branch.
#[derive(Debug, PartialEq, Eq)]
pub enum BranchDeleteResult {
    Deleted,
    NeedsForce(BranchDeletionAssessment),
}

/// The changes in a worktree.
#[derive(Debug, PartialEq, Eq)]
pub struct WorktreeStatus {
    pub reference: String,
    pub entries: Vec<StatusEntry>,
}

/// What the status of a worktree stands for.
pub struct StatusModel {
    pub reference: Seq<char>,
    pub entries: Seq<EntryModel>,
}

impl View for WorktreeStatus {
    type V = StatusModel;

    open spec fn view(&self) -> StatusModel {
        StatusModel { reference: self.reference@, entries: entries_of(self.entries@) }
    }
}

/// What stands against deleting a worktree.
#[derive(Debug, PartialEq, Eq)]
pub struct DeletionAssessment {
    pub changes: Vec<StatusEntry>,
    pub locked: bool,
    pub missing: bool,
}

/// The model of what stands against deleting a worktree.
pub struct AssessmentModel {
    pub changes: Seq<EntryModel>,
    pub locked: bool,
    pub missing: bool,
}

impl View for DeletionAssessment {
    type V = AssessmentModel;

    open spec fn view(&self) -> AssessmentModel {
        AssessmentModel {
            changes: entries_of(self.changes@),
            locked: self.locked,
            missing: self.missing,
        }
    }
}

impl DeletionAssessment {
    /// Local changes or a lock: deleting takes force.
    pub open spec fn needs_force(self) -> bool {
        self.changes@.len() > 0 || self.locked
    }

    /// Tells whether deleting the worktree takes force.
    pub fn requires_force(&self) -> (r: bool)
        ensures
            r == self.needs_force(),
            r <==> self.changes@.len() > 0 || self.locked,
    {
        !self.changes.is_empty() || self.locked
    }
}

/// What came of deleting a worktree.
#[derive(Debug, PartialEq, Eq)]
pub enum DeleteResult {
    Deleted,
    NeedsForce(DeletionAssessment),
}

/// The checkout of the main worktree.
#[derive(Debug)]
pub struct MainCheckout {
    pub path: FilePath,
    pub head: HeadDetails,
    pub available: bool,
}

/// The record of a linked worktree. Without a head its repository could not be opened.
#[derive(Debug)]
pub struct LinkedCheckout {
    pub id: String,
    pub base: Result<FilePath, String>,
    pub locked: bool,
    pub available: bool,
    pub head: Option<HeadDetails>,
}

/// The entry for the main worktree. It cannot be locked.
pub open spec fn main_worktree(checkout: MainCheckout) -> WorktreeModel {
    WorktreeModel {
        key: KeyModel::Main,
        path: checkout.path@,
        head: opt_text(checkout.head.head),
        committed_at: checkout.head.committed_at,
        branch: opt_text(checkout.head.branch),
        locked: false,
        available: checkout.available,
    }
}

/// The entry for a linked worktree whose path is known.
pub open spec fn linked_worktree(checkout: LinkedCheckout) -> WorktreeModel {
    WorktreeModel {
        key: KeyModel::Linked(checkout.id@),
        path: checkout.base->Ok_0@,
        head: match checkout.head {
            Some(head) => opt_text(head.head),
            None => None,
        },
        committed_at: match checkout.head {
            Some(head) => head.committed_at,
            None => None,
        },
        branch: match checkout.head {
            Some(head) => opt_text(head.branch),
            None => None,
        },
        locked: checkout.locked,
        available: checkout.available,
    }
}

/// The list of worktrees: the main one first, if there is one, then the linked ones.
pub open spec fn worktree_list(main: Option<MainCheckout>, linked: Seq<LinkedCheckout>) -> Seq<
    WorktreeModel,
> {
    (match main {
        Some(checkout) => seq![main_worktree(checkout)],
        None => Seq::empty(),
    }) + linked.map_values(|checkout: LinkedCheckout| linked_worktree(checkout))
}

/// The worktree that a key names in a list: the first with that key.
pub open spec fn is_found_at(worktrees: Seq<WorktreeInfo>, key: KeyModel, at: int) -> bool {
    &&& 0 <= at < worktrees.len()
    &&& worktrees[at]@.key == key
    &&& forall|i: int| 0 <= i < at ==> (#[trigger] worktrees[i])@.key != key
}

/// No worktree of a list has the key.
pub open spec fn is_not_found(worktrees: Seq<WorktreeInfo>, key: KeyModel) -> bool {
    forall|i: int| 0 <= i < worktrees.len() ==> (#[trigger] worktrees[i])@.key != key
}

/// Where a branch is checked out: the paths of the worktrees that are on it, in their order.
pub open spec fn paths_on(worktrees: Seq<WorktreeModel>, name: Seq<char>) -> Seq<PathModel>
    decreases worktrees.len(),
{
    if worktrees.len() == 0 {
        Seq::empty()
    } else {
        let before = paths_on(worktrees.drop_last(), name);
        if worktrees.last().is_on(name) {
            before.push(worktrees.last().path)
        } else {
            before
        }
    }
}

/// What is known about the reference of a local branch: its full name, the id of the object
/// that it points to, and that object.
#[derive(Debug)]
pub struct BranchFacts {
    pub full_name: Vec<u8>,
    pub id: Option<String>,
    pub tip: TipFacts,
}

/// The name of a branch, and its commit in short.
#[derive(Debug)]
pub struct BranchTip {
    pub name: String,
    pub head: String,
    pub committed_at: i64,
}

/// The name that is shown for a reference.
pub open spec fn shown_name(full_name: Seq<u8>) -> Seq<char> {
    match short_name(full_name) {
        Some(name) => name,
        None => lossy_text(full_name),
    }
}

/// The reference points to a commit whose time can be read.
pub open spec fn is_good_branch(facts: BranchFacts) -> bool {
    facts.id is Some && is_good_tip(facts.tip)
}

/// Why a branch cannot be listed.
pub open spec fn is_branch_error(facts: BranchFacts, error: GitError) -> bool {
    match facts.id {
        None => error matches GitError::NoObject(name) && name@ == shown_name(facts.full_name@),
        Some(_) => is_tip_error(facts.tip, error),
    }
}

/// The bytes are the full reference name of a local branch of this name.
pub open spec fn is_local_branch(full_name: Seq<u8>, name: Seq<char>) -> bool {
    &&& full_name == encode_utf8(branch_reference(name))
    &&& name_fault(branch_reference(name)) is None
}

/// Names what a reference name is shown as: for a local branch, the name that its full
/// reference name was made of.
pub fn reference_text(full_name: &Vec<u8>) -> (r: String)
    ensures
        r@ == shown_name(full_name@),
        forall|name: Seq<char>| #[trigger] is_local_branch(full_name@, name) ==> r@ == name,
{
    match shorten(full_name) {
        Some(name) => name,
        None => to_text(full_name),
    }
}

/// Reads the name and the commit of a local branch.
pub fn branch_tip(facts: &BranchFacts) -> (r: Result<BranchTip, GitError>)
    ensures
        match r {
            Ok(tip) => {
                &&& is_good_branch(*facts)
                &&& tip.name@ == shown_name(facts.full_name@)
                &&& tip.head@ == first_chars(facts.id->0@, 8)
                &&& tip.committed_at == tip_time(facts.tip)
            },
            Err(error) => !is_good_branch(*facts) && is_branch_error(*facts, error),
        },
        forall|name: Seq<char>| #[trigger]
            is_local_branch(facts.full_name@, name) ==> (r matches Ok(tip) ==> tip.name@ == name),
{
    let name = reference_text(&facts.full_name);
    match &facts.id {
        None => Err(GitError::NoObject(name)),
        Some(id) => match commit_details(id, &facts.tip) {
            Ok((head, committed_at)) => Ok(BranchTip { name, head, committed_at }),
            Err(error) => Err(error),
        },
    }
}

/// The entry for a branch in the list of branches.
pub open spec fn branch_entry(worktrees: Seq<WorktreeModel>, tip: BranchTip) -> BranchModel {
    BranchModel {
        name: tip.name@,
        head: tip.head@,
        committed_at: tip.committed_at,
        checked_out_paths: paths_on(worktrees, tip.name@),
    }
}

/// The entries for a list of branches, in its order.
pub open spec fn branch_entries(
    worktrees: Seq<WorktreeModel>,
    tips: Seq<Result<BranchTip, GitError>>,
) -> Seq<BranchModel> {
    tips.map_values(|tip: Result<BranchTip, GitError>| branch_entry(worktrees, tip->Ok_0))
}

/// The upstream of a branch, and the commits that the two can reach.
pub enum UpstreamFacts {
    NotConfigured,
    /// The full name of the configured reference, which is not there.
    Missing(Vec<u8>),
    /// The full name of the reference, what the branch reaches and what the upstream reaches.
    Present(Vec<u8>, CommitSet, CommitSet),
}

/// How a branch compares with its upstream: the name shown for that, and by how many commits
/// the branch is ahead and behind.
#[derive(Debug, PartialEq, Eq)]
pub enum Upstream {
    NotConfigured,
    Missing(String),
    Present(String, usize, usize),
}

impl UpstreamFacts {
    pub open spec fn wf(self) -> bool {
        self matches UpstreamFacts::Present(_, branch, upstream) ==> branch.wf() && upstream.wf()
    }
}

/// A worktree and its changes, for the status of a branch.
pub struct SurveyedWorktree {
    pub info: WorktreeInfo,
    /// The status of the worktree. It is looked at only where the worktree counts.
    pub status: Result<WorktreeStatus, GitError>,
}

/// What is found out for the status of a branch.
pub struct BranchStatusFacts {
    /// The reference of the branch was found and leads to a commit.
    pub reference: Result<(), String>,
    pub branches: Result<Vec<BranchInfo>, GitError>,
    pub upstream: Result<UpstreamFacts, GitError>,
    pub worktrees: Result<Vec<SurveyedWorktree>, GitError>,
}

/// Taking the status of a worktree that counts for a branch failed.
pub open spec fn is_status_fault(
    worktrees: Seq<SurveyedWorktree>,
    name: Seq<char>,
    i: int,
) -> bool {
    &&& 0 <= i < worktrees.len()
    &&& counts_for(worktrees[i].info@, name)
    &&& worktrees[i].status is Err
}

/// The error is that of the first worktree that counts and whose status failed.
pub open spec fn is_first_status_fault(
    worktrees: Seq<SurveyedWorktree>,
    name: Seq<char>,
    error: GitError,
) -> bool {
    exists|i: int| #[trigger]
        is_status_fault(worktrees, name, i) && worktrees[i].status == Err::<
            WorktreeStatus,
            GitError,
        >(error) && forall|j: int| j < i ==> !(#[trigger] is_status_fault(worktrees, name, j))
}

impl BranchStatusFacts {
    pub open spec fn wf(self) -> bool {
        self.upstream matches Ok(upstream) ==> upstream.wf()
    }

    /// Everything that the status of the branch takes was found out.
    pub open spec fn is_known(self, name: Seq<char>) -> bool {
        &&& self.reference is Ok
        &&& self.branches is Ok
        &&& self.upstream is Ok
        &&& self.worktrees is Ok
        &&& forall|i: int| !(#[trigger] is_status_fault(self.worktrees->Ok_0@, name, i))
    }

    /// The error is that of what could not be found out first.
    pub open spec fn is_fault(self, name: Seq<char>, error: GitError) -> bool {
        match (self.reference, self.branches, self.upstream, self.worktrees) {
            (Err(message), _, _, _) => error == GitError::Failed(message),
            (_, Err(fault), _, _) => error == fault,
            (_, _, Err(fault), _) => error == fault,
            (_, _, _, Err(fault)) => error == fault,
            (_, _, _, Ok(worktrees)) => is_first_status_fault(worktrees@, name, error),
        }
    }
}

/// The status compares the branch with its upstream.
pub open spec fn compares(upstream: UpstreamFacts, status: BranchStatus) -> bool {
    match upstream {
        UpstreamFacts::NotConfigured => status.upstream is None
            && status.upstream_state is NotConfigured && status.ahead == 0 && status.behind == 0,
        UpstreamFacts::Missing(full_name) => opt_text(status.upstream) == Some(
            shown_name(full_name@),
        ) && status.upstream_state is Missing && status.ahead == 0 && status.behind == 0,
        UpstreamFacts::Present(full_name, branch, other) => opt_text(status.upstream) == Some(
            shown_name(full_name@),
        ) && status.upstream_state is Present && status.ahead == branch@.difference(other@).len()
            && status.behind == other@.difference(branch@).len(),
    }
}

/// The status says what was found out.
pub open spec fn is_status_of(
    name: Seq<char>,
    facts: BranchStatusFacts,
    status: BranchStatus,
) -> bool {
    &&& status.branch@ == name
    &&& compares(facts.upstream->Ok_0, status)
    &&& paths_of(status.checked_out_paths@) == checked_out_at(
        branches_of(facts.branches->Ok_0@),
        name,
    )
    &&& status.changes.counts(changes_on(facts.worktrees->Ok_0@, name))
}

/// What is found out for deleting a branch.
pub struct BranchDeletionFacts {
    /// The commit that the branch leads to.
    pub tip: Result<CommitId, String>,
    pub branches: Result<Vec<BranchInfo>, String>,
    /// What the repository's `HEAD` can reach, if there is a `HEAD`.
    pub head: Option<Result<CommitSet, String>>,
}

impl BranchDeletionFacts {
    pub open spec fn wf(self) -> bool {
        self.head matches Some(Ok(commits)) ==> commits.wf()
    }

    /// Everything was found out.
    pub open spec fn is_known(self) -> bool {
        &&& self.tip is Ok
        &&& self.branches is Ok
        &&& self.head matches Some(head) ==> head is Ok
    }

    /// The error is that of what could not be found out first.
    pub open spec fn is_fault(self, error: GitError) -> bool {
        match (self.tip, self.branches, self.head) {
            (Err(message), _, _) => error == GitError::Failed(message),
            (_, Err(message), _) => error == GitError::Failed(message),
            (_, _, Some(Err(message))) => error == GitError::Failed(message),
            _ => false,
        }
    }

    /// The branch cannot be reached from the repository's `HEAD`.
    pub open spec fn is_unmerged(self) -> bool {
        match self.head {
            Some(Ok(commits)) => !commits@.contains(self.tip->Ok_0),
            _ => true,
        }
    }

    /// Some worktree has the branch checked out.
    pub open spec fn is_checked_out(self, name: Seq<char>) -> bool {
        checked_out_at(branches_of(self.branches->Ok_0@), name).len() > 0
    }

    /// What stands against deleting the branch.
    pub open spec fn assessment(self, name: Seq<char>) -> BranchAssessmentModel {
        BranchAssessmentModel {
            checked_out_paths: checked_out_at(branches_of(self.branches->Ok_0@), name),
            unmerged: self.is_unmerged(),
        }
    }
}

/// There can be a local branch of this name.
pub open spec fn is_branch_name(name: Seq<char>) -> bool {
    name_fault(branch_reference(name)) is None
}

/// The error says what is wrong with the name of a branch.
pub open spec fn is_name_error(name: Seq<char>, error: GitError) -> bool {
    error matches GitError::InvalidBranchName(shown, cause) && shown@ == name && name_fault(
        branch_reference(name),
    ) == Some(cause@)
}

/// Compares a branch with its upstream.
pub fn compare_with_upstream(facts: &UpstreamFacts) -> (r: Upstream)
    requires
        facts.wf(),
    ensures
        match *facts {
            UpstreamFacts::NotConfigured => r is NotConfigured,
            UpstreamFacts::Missing(full_name) => r matches Upstream::Missing(name) && name@
                == shown_name(full_name@),
            UpstreamFacts::Present(full_name, branch, upstream) => {
                &&& r matches Upstream::Present(name, ahead, behind)
                &&& name@ == shown_name(full_name@)
                &&& ahead == branch@.difference(upstream@).len()
                &&& behind == upstream@.difference(branch@).len()
            },
        },
{
    match facts {
        UpstreamFacts::NotConfigured => Upstream::NotConfigured,
        UpstreamFacts::Missing(full_name) => Upstream::Missing(reference_text(full_name)),
        UpstreamFacts::Present(full_name, branch, upstream) => {
            let (ahead, behind) = ahead_behind(branch, upstream);
            Upstream::Present(reference_text(full_name), ahead, behind)
        },
    }
}

/// Where the first branch of that name in a list is checked out; nowhere if there is none.
pub open spec fn checked_out_at(branches: Seq<BranchModel>, name: Seq<char>) -> Seq<PathModel>
    decreases branches.len(),
{
    if branches.len() == 0 {
        Seq::empty()
    } else if branches[0].name == name {
        branches[0].checked_out_paths
    } else {
        checked_out_at(branches.drop_first(), name)
    }
}

fn find_checkouts(branches: &Vec<BranchInfo>, name: &String) -> (r: Vec<FilePath>)
    ensures
        paths_of(r@) == checked_out_at(branches_of(branches@), name@),
{
    let mut i: usize = 0;
    let ghost all = branches_of(branches@);
    assert(all.skip(0) == all);
    while i < branches.len()
        invariant
            i <= branches.len(),
            all == branches_of(branches@),
            checked_out_at(all, name@) == checked_out_at(all.skip(i as int), name@),
        decreases branches.len() - i,
    {
        assert(all.skip(i as int)[0] == branches@[i as int]@);
        assert(all.skip(i as int).drop_first() == all.skip(i + 1));
        if branches[i].name == *name {
            return clone_paths(&branches[i].checked_out_paths);
        }
        i = i + 1;
    }
    let none: Vec<FilePath> = Vec::new();
    assert(paths_of(none@) =~= Seq::empty());
    none
}

/// The changes that count for a branch: those of the worktrees that are on it and that are
/// there.
pub open spec fn changes_on(worktrees: Seq<SurveyedWorktree>, name: Seq<char>) -> Seq<EntryModel>
    decreases worktrees.len(),
{
    if worktrees.len() == 0 {
        Seq::empty()
    } else {
        let here = if counts_for(worktrees[0].info@, name) {
            entries_of(worktrees[0].status->Ok_0.entries@)
        } else {
            Seq::empty()
        };
        here + changes_on(worktrees.drop_first(), name)
    }
}

/// The changes of a worktree count for a branch.
pub open spec fn counts_for(worktree: WorktreeModel, name: Seq<char>) -> bool {
    worktree.is_on(name) && worktree.available
}

/// The history that a worktree's `HEAD` or a branch leads to.
#[derive(Debug)]
pub enum History {
    /// There is no commit yet.
    Unborn,
    /// The steps of a walk, newest commit first.
    Walk(Vec<Result<CommitRecord, String>>),
    /// It cannot be found, with this message.
    Failed(String),
}

/// A repository, by its directories.
#[derive(Debug)]
pub struct RepositoryManager {
    /// The Git directory of the main worktree.
    pub main_git_dir: FilePath,
    /// The directory that all worktrees share.
    pub common_dir: FilePath,
    /// Where the repository is shown to be.
    pub root: FilePath,
}

/// What a repository stands for.
pub struct RepositoryModel {
    pub main_git_dir: PathModel,
    pub common_dir: PathModel,
    pub root: PathModel,
}

impl View for RepositoryManager {
    type V = RepositoryModel;

    open spec fn view(&self) -> RepositoryModel {
        RepositoryModel {
            main_git_dir: self.main_git_dir@,
            common_dir: self.common_dir@,
            root: self.root@,
        }
    }
}

impl Clone for RepositoryManager {
    fn clone(&self) -> (r: Self)
        ensures
            r@ == self@,
    {
        RepositoryManager {
            main_git_dir: self.main_git_dir.clone(),
            common_dir: self.common_dir.clone(),
            root: self.root.clone(),
        }
    }
}

impl RepositoryManager {
    /// A repository is shown at its main worktree, or at its common directory if it has none.
    pub fn from_repository(
        main_git_dir: FilePath,
        common_dir: FilePath,
        worktree: Option<FilePath>,
    ) -> (r: Self)
        ensures
            r.main_git_dir == main_git_dir,
            r.common_dir == common_dir,
            r.root@ == match worktree {
                Some(base) => base@,
                None => common_dir@,
            },
    {
        let root = match worktree {
            Some(base) => base,
            None => common_dir.clone(),
        };
        RepositoryManager { main_git_dir, common_dir, root }
    }

    /// Where the repository is shown to be.
    pub fn root(&self) -> (r: &FilePath)
        ensures
            *r == self.root,
    {
        &self.root
    }

    /// Lists the worktrees: the main one first, then the linked ones in the order of their
    /// records. A failure to list them, or the first record without a path, is the error.
    pub fn list_worktrees(
        &self,
        main: Option<MainCheckout>,
        linked: Result<Vec<LinkedCheckout>, String>,
    ) -> (r: Result<Vec<WorktreeInfo>, GitError>)
        ensures
            match r {
                Ok(worktrees) => {
                    &&& linked is Ok
                    &&& forall|i: int|
                        0 <= i < linked->Ok_0.len() ==> (#[trigger] linked->Ok_0@[i]).base is Ok
                    &&& worktrees_of(worktrees@) == worktree_list(main, linked->Ok_0@)
                },
                Err(error) => match linked {
                    Err(message) => error == GitError::Failed(message),
                    Ok(records) => exists|i: int|
                        0 <= i < records.len() && (#[trigger] records@[i]).base == Err::<
                            FilePath,
                            String,
                        >(error->Failed_0) && error is Failed && (forall|j: int|
                            0 <= j < i ==> (#[trigger] records@[j]).base is Ok),
                },
            },
    {
        let ghost main_model = main;
        let mut worktrees: Vec<WorktreeInfo> = Vec::new();
        if let Some(checkout) = main {
            worktrees.push(
                WorktreeInfo {
                    key: WorktreeKey::Main,
                    path: checkout.path,
                    head: checkout.head.head,
                    committed_at: checkout.head.committed_at,
                    branch: checkout.head.branch,
                    locked: false,
                    available: checkout.available,
                },
            );
        }
        let records = match linked {
            Ok(records) => records,
            Err(message) => return Err(GitError::Failed(message)),
        };
        let ghost all = records@;
        assert(worktrees_of(worktrees@) =~= worktree_list(main_model, all.take(0)));
        for record in iter: records
            invariant
                iter.seq() == all,
                linked is Ok && linked->Ok_0@ == all,
                forall|i: int| 0 <= i < iter.index() ==> (#[trigger] all[i]).base is Ok,
                worktrees_of(worktrees@) == worktree_list(main_model, all.take(iter.index())),
        {
            let ghost before = worktrees@;
            assert(all.take(iter.index() + 1) == all.take(iter.index()).push(record));
            let path = match record.base {
                Ok(path) => path,
                Err(message) => {
                    assert(all[iter.index()].base == Err::<FilePath, String>(message));
                    return Err(GitError::Failed(message));
                },
            };
            let (head, committed_at, branch) = match record.head {
                Some(details) => (details.head, details.committed_at, details.branch),
                None => (None, None, None),
            };
            worktrees.push(
                WorktreeInfo {
                    key: WorktreeKey::Linked(record.id),
                    path,
                    head,
                    committed_at,
                    branch,
                    locked: record.locked,
                    available: record.available,
                },
            );
            assert(worktrees_of(worktrees@) =~= worktrees_of(before).push(linked_worktree(record)));
            assert(worktree_list(main_model, all.take(iter.index() + 1)) =~= worktree_list(
                main_model,
                all.take(iter.index()),
            ).push(linked_worktree(record)));
        }
        assert(all.take(all.len() as int) == all);
        Ok(worktrees)
    }

    /// Lists local branches by name, each with the worktrees that have it checked out. The
    /// first branch that cannot be read is the error.
    pub fn assemble_branches(
        &self,
        worktrees: &Vec<WorktreeInfo>,
        tips: Vec<Result<BranchTip, GitError>>,
    ) -> (r: Result<Vec<BranchInfo>, GitError>)
        ensures
            match r {
                Ok(branches) => {
                    &&& forall|i: int| 0 <= i < tips.len() ==> (#[trigger] tips@[i]) is Ok
                    &&& branches_of(branches@) == stable_sorted(
                        branch_entries(worktrees_of(worktrees@), tips@),
                        branch_order(),
                    )
                },
                Err(error) => exists|i: int|
                    0 <= i < tips.len() && #[trigger] tips@[i] == Err::<BranchTip, GitError>(error)
                        && (forall|j: int| 0 <= j < i ==> (#[trigger] tips@[j]) is Ok),
            },
    {
        let ghost all = tips@;
        let ghost models = worktrees_of(worktrees@);
        let mut branches: Vec<BranchInfo> = Vec::new();
        assert(branches_of(branches@) =~= branch_entries(models, all.take(0)));
        for tip in iter: tips
            invariant
                iter.seq() == all,
                models == worktrees_of(worktrees@),
                forall|i: int| 0 <= i < iter.index() ==> (#[trigger] all[i]) is Ok,
                branches_of(branches@) == branch_entries(models, all.take(iter.index())),
        {
            let ghost before = branches@;
            assert(all.take(iter.index() + 1) == all.take(iter.index()).push(tip));
            match tip {
                Ok(tip) => {
                    let checked_out_paths = paths_of_worktrees_on(worktrees, &tip.name);
                    let ghost entry = branch_entry(models, tip);
                    branches.push(
                        BranchInfo {
                            name: tip.name,
                            head: tip.head,
                            committed_at: tip.committed_at,
                            checked_out_paths,
                        },
                    );
                    assert(branches_of(branches@) =~= branches_of(before).push(entry));
                    assert(branch_entries(models, all.take(iter.index() + 1)) =~= branch_entries(
                        models,
                        all.take(iter.index()),
                    ).push(entry));
                },
                Err(error) => {
                    assert(all[iter.index()] == Err::<BranchTip, GitError>(error));
                    return Err(error);
                },
            }
        }
        assert(all.take(all.len() as int) == all);
        proof {
            stable_sorted_images(
                branches@,
                |branch: BranchInfo| branch@,
                natural_order(),
                branch_order(),
            );
        }
        Ok(sort_stable(branches))
    }

    /// Lists the local branches that references stand for. See `assemble_branches`.
    pub fn list_branches(
        &self,
        worktrees: &Vec<WorktreeInfo>,
        references: &Vec<Result<BranchFacts, String>>,
    ) -> (r: Result<Vec<BranchInfo>, GitError>)
        ensures
            match r {
                Ok(branches) => {
                    &&& forall|i: int|
                        0 <= i < references.len() ==> (#[trigger] references@[i]) is Ok
                            && is_good_branch(references@[i]->Ok_0)
                    &&& branches_of(branches@) == stable_sorted(
                        listed_branches(worktrees_of(worktrees@), references@),
                        branch_order(),
                    )
                },
                Err(error) => exists|i: int|
                    0 <= i < references.len() && is_reference_error(
                        #[trigger] references@[i],
                        error,
                    ) && (forall|j: int|
                        0 <= j < i ==> (#[trigger] references@[j]) is Ok && is_good_branch(
                            references@[j]->Ok_0,
                        )),
            },
            are_distinct_branches(references@) ==> (r matches Ok(branches) ==> strictly_ascend(
                branches_of(branches@),
            )),
    {
        let mut tips: Vec<Result<BranchTip, GitError>> = Vec::new();
        let mut i: usize = 0;
        while i < references.len()
            invariant
                i <= references.len(),
                tips.len() == i,
                forall|j: int|
                    0 <= j < i ==> match #[trigger] tips@[j] {
                        Ok(tip) => references@[j] is Ok && is_good_branch(references@[j]->Ok_0)
                            && branch_entry(worktrees_of(worktrees@), tip) == listed_branch(
                            worktrees_of(worktrees@),
                            references@[j]->Ok_0,
                        ),
                        Err(error) => is_reference_error(references@[j], error),
                    },
                forall|j: int, name: Seq<char>|
                    0 <= j < i && tips@[j] is Ok && #[trigger] is_local_branch(
                        references@[j]->Ok_0.full_name@,
                        name,
                    ) ==> shown_name(references@[j]->Ok_0.full_name@) == name,
            decreases references.len() - i,
        {
            let tip = match &references[i] {
                Ok(facts) => branch_tip(facts),
                Err(message) => Err(GitError::Failed(message.clone())),
            };
            tips.push(tip);
            i = i + 1;
        }
        let ghost all = tips@;
        let r = self.assemble_branches(worktrees, tips);
        let ghost result = r;
        proof {
            match result {
                Ok(_) => {
                    assert forall|i: int| 0 <= i < references.len() implies (
                    #[trigger] references@[i]) is Ok && is_good_branch(references@[i]->Ok_0) by {
                        assert(all[i] is Ok);
                    }
                    assert(branch_entries(worktrees_of(worktrees@), all) =~= listed_branches(
                        worktrees_of(worktrees@),
                        references@,
                    )) by {
                        assert forall|i: int| 0 <= i < all.len() implies branch_entries(
                            worktrees_of(worktrees@),
                            all,
                        )[i] == #[trigger] listed_branches(worktrees_of(worktrees@), references@)[i] by {
                            assert(all[i] is Ok);
                        }
                    }
                    if are_distinct_branches(references@) {
                        let found = listed_branches(worktrees_of(worktrees@), references@);
                        assert forall|i: int, j: int| 0 <= i < j < found.len() implies (
                        #[trigger] found[i]).name != (#[trigger] found[j]).name by {
                            assert(all[i] is Ok && all[j] is Ok);
                            let left = references@[i]->Ok_0.full_name@;
                            let right = references@[j]->Ok_0.full_name@;
                            let name = choose|name: Seq<char>| is_local_branch(left, name);
                            let other = choose|name: Seq<char>| is_local_branch(right, name);
                            assert(is_local_branch(left, name) && is_local_branch(right, other));
                        }
                        distinct_branches_strictly_ascend(found);
                    }
                },
                Err(error) => {
                    let i = choose|i: int|
                        0 <= i < all.len() && #[trigger] all[i] == Err::<BranchTip, GitError>(
                            error,
                        ) && (forall|j: int| 0 <= j < i ==> (#[trigger] all[j]) is Ok);
                    assert(is_reference_error(references@[i], error));
                    assert forall|j: int| 0 <= j < i implies (#[trigger] references@[j]) is Ok
                        && is_good_branch(references@[j]->Ok_0) by {
                        assert(all[j] is Ok);
                    }
                },
            }
        }
        r
    }

    /// Finds a worktree in a list by its key.
    pub fn find_worktree(&self, worktrees: &Vec<WorktreeInfo>, key: &WorktreeKey) -> (r: Result<
        usize,
        GitError,
    >)
        ensures
            match r {
                Ok(at) => is_found_at(worktrees@, key@, at as int),
                Err(error) => error is WorktreeGone && is_not_found(worktrees@, key@),
            },
    {
        let mut i: usize = 0;
        while i < worktrees.len()
            invariant
                i <= worktrees.len(),
                forall|j: int| 0 <= j < i ==> (#[trigger] worktrees@[j])@.key != key@,
            decreases worktrees.len() - i,
        {
            if worktrees[i].key.is_same(key) {
                return Ok(i);
            }
            i = i + 1;
        }
        Err(GitError::WorktreeGone)
    }

    /// Finds a worktree whose checkout is there.
    pub fn find_available_worktree(
        &self,
        worktrees: &Vec<WorktreeInfo>,
        key: &WorktreeKey,
    ) -> (r: Result<usize, GitError>)
        ensures
            match r {
                Ok(at) => is_found_at(worktrees@, key@, at as int) && worktrees@[at as int].available,
                Err(GitError::Unavailable(path)) => exists|at: int| #[trigger]
                    is_found_at(worktrees@, key@, at) && !worktrees@[at].available && path@
                        == worktrees@[at].path.text@,
                Err(error) => error is WorktreeGone && is_not_found(worktrees@, key@),
            },
    {
        let at = match self.find_worktree(worktrees, key) {
            Ok(at) => at,
            Err(error) => return Err(error),
        };
        if !worktrees[at].available {
            assert(is_found_at(worktrees@, key@, at as int));
            return Err(GitError::Unavailable(worktrees[at].path.text.clone()));
        }
        Ok(at)
    }

    /// The status of a worktree for the items that a status run found there, or for the
    /// message of a run that failed.
    pub fn status(&self, info: &WorktreeInfo, items: Result<Vec<StatusItem>, String>) -> (r: Result<
        WorktreeStatus,
        GitError,
    >)
        ensures
            match r {
                Ok(status) => {
                    &&& info.available
                    &&& items is Ok
                    &&& status.reference@ == info@.reference()
                    &&& entries_of(status.entries@) == stable_sorted(
                        entries_found(items->Ok_0@),
                        entry_order(),
                    )
                },
                Err(GitError::Unavailable(path)) => !info.available && path@ == info.path.text@,
                Err(error) => info.available && items is Err && error == GitError::Failed(
                    items->Err_0,
                ),
            },
    {
        if !info.available {
            return Err(GitError::Unavailable(info.path.text.clone()));
        }
        match items {
            Ok(items) => Ok(
                WorktreeStatus {
                    reference: info.reference_label().to_owned(),
                    entries: sorted_entries(&items),
                },
            ),
            Err(message) => Err(GitError::Failed(message)),
        }
    }

    /// The log of a worktree. It is empty where there is no commit yet.
    pub fn log(&self, info: &WorktreeInfo, history: &History) -> (r: Result<Vec<LogEntry>, GitError>)
        ensures
            match r {
                Ok(entries) => info.available && is_log(*history, entries@),
                Err(GitError::Unavailable(path)) => !info.available && path@ == info.path.text@,
                Err(error) => info.available && is_log_error(*history, error),
            },
    {
        if !info.available {
            return Err(GitError::Unavailable(info.path.text.clone()));
        }
        read_history(history)
    }

    /// The log of a branch, for the history that its reference leads to.
    pub fn log_branch(&self, name: &str, history: &History) -> (r: Result<Vec<LogEntry>, GitError>)
        ensures
            match r {
                Ok(entries) => is_branch_name(name@) && is_log(*history, entries@),
                Err(error) => if is_branch_name(name@) {
                    is_log_error(*history, error)
                } else {
                    is_name_error(name@, error)
                },
            },
    {
        match local_branch_reference(name) {
            Ok(_) => read_history(history),
            Err(error) => Err(error),
        }
    }

    /// The status of a branch. What cannot be found out first is the error.
    pub fn branch_status(&self, name: &str, facts: BranchStatusFacts) -> (r: Result<
        BranchStatus,
        GitError,
    >)
        requires
            facts.wf(),
        ensures
            match r {
                Ok(status) => {
                    &&& is_branch_name(name@)
                    &&& facts.is_known(name@)
                    &&& is_status_of(name@, facts, status)
                },
                Err(error) => if is_branch_name(name@) {
                    !facts.is_known(name@) && facts.is_fault(name@, error)
                } else {
                    is_name_error(name@, error)
                },
            },
    {
        if let Err(error) = local_branch_reference(name) {
            return Err(error);
        }
        if let Err(message) = facts.reference {
            return Err(GitError::Failed(message));
        }
        let branches = match facts.branches {
            Ok(branches) => branches,
            Err(error) => return Err(error),
        };
        let upstream = match facts.upstream {
            Ok(upstream) => compare_with_upstream(&upstream),
            Err(error) => return Err(error),
        };
        let worktrees = match facts.worktrees {
            Ok(worktrees) => worktrees,
            Err(error) => return Err(error),
        };
        match collect_changes(worktrees, &name.to_owned()) {
            Ok(changes) => Ok(self.compose_branch_status(name, &branches, upstream, &changes)),
            Err(error) => Err(error),
        }
    }

    /// Puts the status of a branch together: how it compares with its upstream, where it is
    /// checked out, and how much is changed there.
    pub fn compose_branch_status(
        &self,
        name: &str,
        branches: &Vec<BranchInfo>,
        upstream: Upstream,
        changes: &Vec<StatusEntry>,
    ) -> (r: BranchStatus)
        ensures
            r.branch@ == name@,
            match upstream {
                Upstream::NotConfigured => r.upstream is None && r.upstream_state is NotConfigured
                    && r.ahead == 0 && r.behind == 0,
                Upstream::Missing(label) => r.upstream == Some(label) && r.upstream_state is Missing
                    && r.ahead == 0 && r.behind == 0,
                Upstream::Present(label, ahead, behind) => r.upstream == Some(label)
                    && r.upstream_state is Present && r.ahead == ahead && r.behind == behind,
            },
            paths_of(r.checked_out_paths@) == checked_out_at(branches_of(branches@), name@),
            r.changes.counts(entries_of(changes@)),
    {
        let name = name.to_owned();
        let checked_out_paths = find_checkouts(branches, &name);
        let (upstream, upstream_state, ahead, behind): (
            Option<String>,
            UpstreamState,
            usize,
            usize,
        ) = match upstream {
            Upstream::NotConfigured => (None, UpstreamState::NotConfigured, 0, 0),
            Upstream::Missing(label) => (Some(label), UpstreamState::Missing, 0, 0),
            Upstream::Present(label, ahead, behind) => {
                (Some(label), UpstreamState::Present, ahead, behind)
            },
        };
        BranchStatus {
            branch: name,
            upstream,
            upstream_state,
            ahead,
            behind,
            checked_out_paths,
            changes: count_changes(changes),
        }
    }

    /// Tells whether the status of a worktree is needed for the status of a branch.
    pub fn needs_status(&self, worktree: &WorktreeInfo, name: &str) -> (r: bool)
        ensures
            r == counts_for(worktree@, name@),
    {
        worktree.is_on(&name.to_owned()) && worktree.available
    }

    /// What stands against deleting a branch. What cannot be found out first is the error.
    pub fn assess_branch_deletion(&self, name: &str, facts: &BranchDeletionFacts) -> (r: Result<
        BranchDeletionAssessment,
        GitError,
    >)
        requires
            facts.wf(),
        ensures
            match r {
                Ok(assessment) => {
                    &&& is_branch_name(name@)
                    &&& facts.is_known()
                    &&& assessment@ == facts.assessment(name@)
                },
                Err(error) => if is_branch_name(name@) {
                    !facts.is_known() && facts.is_fault(error)
                } else {
                    is_name_error(name@, error)
                },
            },
    {
        match local_branch_reference(name) {
            Ok(_) => self.assess_known_branch(name, facts),
            Err(error) => Err(error),
        }
    }

    /// What stands against deleting a branch whose name is known to be one.
    pub fn assess_known_branch(&self, name: &str, facts: &BranchDeletionFacts) -> (r: Result<
        BranchDeletionAssessment,
        GitError,
    >)
        requires
            facts.wf(),
        ensures
            match r {
                Ok(assessment) => facts.is_known() && assessment@ == facts.assessment(name@),
                Err(error) => !facts.is_known() && facts.is_fault(error),
            },
    {
        let tip = match &facts.tip {
            Ok(tip) => *tip,
            Err(message) => return Err(GitError::Failed(message.clone())),
        };
        let branches = match &facts.branches {
            Ok(branches) => branches,
            Err(message) => return Err(GitError::Failed(message.clone())),
        };
        let head = match &facts.head {
            Some(Ok(commits)) => Some(commits),
            Some(Err(message)) => return Err(GitError::Failed(message.clone())),
            None => None,
        };
        Ok(self.compose_branch_assessment(name, branches, tip, head))
    }

    /// Puts together what stands against deleting a branch: the worktrees that have it checked
    /// out, and that its commit cannot be reached from the repository's `HEAD`. Without a
    /// `HEAD` the branch is not merged into it.
    pub fn compose_branch_assessment(
        &self,
        name: &str,
        branches: &Vec<BranchInfo>,
        tip: CommitId,
        head: Option<&CommitSet>,
    ) -> (r: BranchDeletionAssessment)
        requires
            head matches Some(commits) ==> commits.wf(),
        ensures
            paths_of(r.checked_out_paths@) == checked_out_at(branches_of(branches@), name@),
            r.unmerged == match head {
                Some(commits) => !commits@.contains(tip),
                None => true,
            },
    {
        let unmerged = match head {
            Some(commits) => !commits.contains(tip),
            None => true,
        };
        BranchDeletionAssessment {
            checked_out_paths: find_checkouts(branches, &name.to_owned()),
            unmerged,
        }
    }
}

/// The entry for a reference in the list of branches.
pub open spec fn listed_branch(worktrees: Seq<WorktreeModel>, facts: BranchFacts) -> BranchModel {
    BranchModel {
        name: shown_name(facts.full_name@),
        head: first_chars(facts.id->0@, 8),
        committed_at: tip_time(facts.tip),
        checked_out_paths: paths_on(worktrees, shown_name(facts.full_name@)),
    }
}

/// The entries for a list of references, in its order.
pub open spec fn listed_branches(
    worktrees: Seq<WorktreeModel>,
    references: Seq<Result<BranchFacts, String>>,
) -> Seq<BranchModel> {
    references.map_values(
        |facts: Result<BranchFacts, String>| listed_branch(worktrees, facts->Ok_0),
    )
}

/// The references are those of local branches, and none stands twice among them.
pub open spec fn are_distinct_branches(references: Seq<Result<BranchFacts, String>>) -> bool {
    &&& forall|i: int|
        0 <= i < references.len() ==> (#[trigger] references[i] matches Ok(facts) && exists|
            name: Seq<char>,
        | #[trigger] is_local_branch(facts.full_name@, name))
    &&& forall|i: int, j: int|
        0 <= i < j < references.len() ==> (#[trigger] references[i])->Ok_0.full_name@ != (
        #[trigger] references[j])->Ok_0.full_name@
}

/// Each branch comes before the later ones by its name.
pub open spec fn strictly_ascend(branches: Seq<BranchModel>) -> bool {
    forall|i: int, j: int|
        0 <= i < j < branches.len() ==> text_le(
            (#[trigger] branches[i]).name,
            (#[trigger] branches[j]).name,
        ) && branches[i].name != branches[j].name
}

/// Why a reference stops the listing of branches.
pub open spec fn is_reference_error(
    reference: Result<BranchFacts, String>,
    error: GitError,
) -> bool {
    match reference {
        Ok(facts) => !is_good_branch(facts) && is_branch_error(facts, error),
        Err(message) => error == GitError::Failed(message),
    }
}

/// The lines are the log of the history.
pub open spec fn is_log(history: History, entries: Seq<LogEntry>) -> bool {
    match history {
        History::Unborn => entries.len() == 0,
        History::Walk(walk) => {
            &&& entries.len() == shown(walk@).len()
            &&& forall|i: int|
                0 <= i < entries.len() ==> is_good_step(#[trigger] shown(walk@)[i])
                    && entries[i]@ == log_line(shown(walk@)[i]->Ok_0)
        },
        History::Failed(_) => false,
    }
}

/// The error is why there is no log of the history.
pub open spec fn is_log_error(history: History, error: GitError) -> bool {
    match history {
        History::Unborn => false,
        History::Walk(walk) => exists|i: int|
            0 <= i < shown(walk@).len() && is_step_error(#[trigger] shown(walk@)[i], error)
                && !is_good_step(shown(walk@)[i]) && (forall|j: int|
                0 <= j < i ==> is_good_step(#[trigger] shown(walk@)[j])),
        History::Failed(message) => error == GitError::Failed(message),
    }
}

fn paths_of_worktrees_on(worktrees: &Vec<WorktreeInfo>, name: &String) -> (r: Vec<FilePath>)
    ensures
        paths_of(r@) == paths_on(worktrees_of(worktrees@), name@),
{
    let mut paths: Vec<FilePath> = Vec::new();
    let mut i: usize = 0;
    let ghost all = worktrees_of(worktrees@);
    assert(paths_of(paths@) =~= paths_on(all.take(0), name@));
    while i < worktrees.len()
        invariant
            i <= worktrees.len(),
            all == worktrees_of(worktrees@),
            paths_of(paths@) == paths_on(all.take(i as int), name@),
        decreases worktrees.len() - i,
    {
        let ghost before = paths@;
        assert(all.take(i + 1).drop_last() == all.take(i as int));
        assert(all.take(i + 1).last() == worktrees@[i as int]@);
        if worktrees[i].is_on(name) {
            let path = worktrees[i].path.clone();
            paths.push(path);
            assert(paths_of(paths@) =~= paths_of(before).push(path@));
        }
        i = i + 1;
    }
    assert(all.take(worktrees.len() as int) == all);
    paths
}

fn read_history(history: &History) -> (r: Result<Vec<LogEntry>, GitError>)
    ensures
        match r {
            Ok(entries) => is_log(*history, entries@),
            Err(error) => is_log_error(*history, error) && !(error is Unavailable),
        },
{
    match history {
        History::Unborn => Ok(Vec::new()),
        History::Walk(walk) => log_from_id(walk),
        History::Failed(message) => Err(GitError::Failed(message.clone())),
    }
}

fn collect_changes(worktrees: Vec<SurveyedWorktree>, name: &String) -> (r: Result<
    Vec<StatusEntry>,
    GitError,
>)
    ensures
        match r {
            Ok(changes) => entries_of(changes@) == changes_on(worktrees@, name@) && forall|i: int|
                !(#[trigger] is_status_fault(worktrees@, name@, i)),
            Err(error) => is_first_status_fault(worktrees@, name@, error),
        },
{
    let ghost all = worktrees@;
    let mut changes: Vec<StatusEntry> = Vec::new();
    assert(entries_of(changes@) =~= Seq::empty());
    assert(all.skip(0) == all);
    for worktree in iter: worktrees
        invariant
            iter.seq() == all,
            worktrees@ == all,
            changes_on(all, name@) == entries_of(changes@) + changes_on(
                all.skip(iter.index()),
                name@,
            ),
            forall|i: int| i < iter.index() ==> !(#[trigger] is_status_fault(all, name@, i)),
    {
        let ghost at = iter.index();
        let ghost before = changes@;
        assert(all.skip(at)[0] == worktree);
        assert(all.skip(at).drop_first() == all.skip(at + 1));
        if worktree.info.is_on(name) && worktree.info.available {
            match worktree.status {
                Ok(status) => {
                    let mut entries = status.entries;
                    let ghost added = entries@;
                    changes.append(&mut entries);
                    assert(entries_of(changes@) =~= entries_of(before) + entries_of(added));
                },
                Err(error) => {
                    assert(is_status_fault(all, name@, at));
                    return Err(error);
                },
            }
        }
    }
    Ok(changes)
}

/// A list of worktrees shows the main worktree first or not at all, and never as locked.
pub proof fn main_worktree_comes_first(main: Option<MainCheckout>, linked: Seq<LinkedCheckout>)
    ensures
        worktree_list(main, linked).len() == linked.len() + (if main is Some {
            1nat
        } else {
            0nat
        }),
        forall|i: int|
            0 <= i < worktree_list(main, linked).len() ==> ((#[trigger] worktree_list(
                main,
                linked,
            )[i]).key is Main <==> i == 0 && main is Some),
        main is Some ==> !worktree_list(main, linked)[0].locked,
{
}

/// Where a branch is checked out lists exactly the paths of the worktrees that are on it.
pub proof fn checkouts_are_the_worktrees_on_a_branch(
    worktrees: Seq<WorktreeModel>,
    name: Seq<char>,
)
    ensures
        forall|path: PathModel| #[trigger]
            paths_on(worktrees, name).contains(path) <==> exists|i: int|
                0 <= i < worktrees.len() && (#[trigger] worktrees[i]).is_on(name)
                    && worktrees[i].path == path,
    decreases worktrees.len(),
{
    if worktrees.len() > 0 {
        let rest = worktrees.drop_last();
        checkouts_are_the_worktrees_on_a_branch(rest, name);
        let before = paths_on(rest, name);
        let all = paths_on(worktrees, name);
        assert forall|path: PathModel| #[trigger]
            all.contains(path) <==> exists|i: int|
                0 <= i < worktrees.len() && (#[trigger] worktrees[i]).is_on(name)
                    && worktrees[i].path == path by {
            if all.contains(path) {
                let at = choose|at: int| 0 <= at < all.len() && all[at] == path;
                if at < before.len() {
                    assert(before[at] == path);
                    assert(before.contains(path));
                    let i = choose|i: int|
                        0 <= i < rest.len() && (#[trigger] rest[i]).is_on(name) && rest[i].path
                            == path;
                    assert(worktrees[i] == rest[i]);
                } else {
                    assert(worktrees[worktrees.len() - 1].is_on(name));
                }
            }
            if exists|i: int|
                0 <= i < worktrees.len() && (#[trigger] worktrees[i]).is_on(name)
                    && worktrees[i].path == path {
                let i = choose|i: int|
                    0 <= i < worktrees.len() && (#[trigger] worktrees[i]).is_on(name)
                        && worktrees[i].path == path;
                if i < rest.len() {
                    assert(rest[i] == worktrees[i]);
                    assert(before.contains(path));
                    let at = choose|at: int| 0 <= at < before.len() && before[at] == path;
                    assert(all[at] == path);
                } else {
                    assert(all[all.len() - 1] == path);
                }
            }
        }
    }
}

/// Branches are listed in the order of their names, and each one that was found is listed.
pub proof fn branches_are_listed_by_name(found: Seq<BranchModel>)
    ensures
        is_sorted(stable_sorted(found, branch_order()), branch_order()),
        stable_sorted(found, branch_order()).to_multiset() == found.to_multiset(),
{
    let le = branch_order();
    assert forall|x: BranchModel, y: BranchModel| #[trigger] le(x, y) || le(y, x) by {
        lex_le_total(x.name, y.name, char_order());
    }
    assert forall|x: BranchModel, y: BranchModel, z: BranchModel| #[trigger]
        le(x, y) && #[trigger] le(y, z) implies le(x, z) by {
        lex_le_transitive(x.name, y.name, z.name, char_order());
    }
    assert(can_sort(le));
    stable_sorted_is_sorted(found, le);
}

/// Branches of different names are listed in strictly ascending order.
pub proof fn distinct_branches_strictly_ascend(found: Seq<BranchModel>)
    requires
        forall|i: int, j: int|
            0 <= i < j < found.len() ==> (#[trigger] found[i]).name != (#[trigger] found[j]).name,
    ensures
        strictly_ascend(stable_sorted(found, branch_order())),
{
    broadcast use vstd::seq_lib::group_to_multiset_ensures;

    let sorted = stable_sorted(found, branch_order());
    branches_are_listed_by_name(found);
    found.lemma_multiset_has_no_duplicates();
    sorted.lemma_multiset_has_no_duplicates_conv();
    assert forall|i: int, j: int| 0 <= i < j < sorted.len() implies text_le(
        (#[trigger] sorted[i]).name,
        (#[trigger] sorted[j]).name,
    ) && sorted[i].name != sorted[j].name by {
        assert(branch_order()(sorted[i], sorted[j]));
        assert(sorted.contains(sorted[i]) && sorted.contains(sorted[j]));
        assert(sorted.to_multiset().count(sorted[i]) > 0);
        assert(sorted.to_multiset().count(sorted[j]) > 0);
        assert(found.contains(sorted[i]) && found.contains(sorted[j]));
        assert(sorted[i] != sorted[j]);
    }
}

/// Deleting a worktree takes force as soon as there is one change, whatever its area and kind,
/// or a lock.
pub proof fn one_change_takes_force(assessment: DeletionAssessment)
    ensures
        assessment.needs_force() <==> assessment.changes@.len() > 0 || assessment.locked,
        forall|i: int|
            0 <= i < assessment.changes@.len() && assessment.changes@[i] == (
            #[trigger] assessment.changes@[i]) ==> assessment.needs_force(),
{
}

/// The list of worktrees has an entry for the main checkout and for each record, each with
/// what the checkout or the record says: its own key, path, lock and availability, and the
/// head, time and branch of its details, where there are any.
pub proof fn listed_worktrees_are_their_records(
    main: Option<MainCheckout>,
    linked: Seq<LinkedCheckout>,
    worktrees: Seq<WorktreeModel>,
)
    requires
        worktrees == worktree_list(main, linked),
    ensures
        ({
            let first: int = if main is Some {
                1
            } else {
                0
            };
            &&& worktrees.len() == first + linked.len()
            &&& main matches Some(checkout) ==> {
                let entry = worktrees[0];
                &&& entry.key == KeyModel::Main
                &&& entry.path == checkout.path@
                &&& !entry.locked
                &&& entry.available == checkout.available
                &&& entry.committed_at == checkout.head.committed_at
                &&& match checkout.head.head {
                    Some(head) => entry.head == Some(head@),
                    None => entry.head is None,
                }
                &&& match checkout.head.branch {
                    Some(branch) => entry.branch == Some(branch@),
                    None => entry.branch is None,
                }
            }
            &&& forall|i: int|
                0 <= i < linked.len() ==> {
                    let entry = worktrees[first + i];
                    let record = #[trigger] linked[i];
                    &&& entry.key == KeyModel::Linked(record.id@)
                    &&& record.base matches Ok(path) ==> entry.path == path@
                    &&& entry.locked == record.locked
                    &&& entry.available == record.available
                    &&& record.head is None ==> entry.head is None && entry.committed_at is None
                        && entry.branch is None
                    &&& record.head matches Some(details) ==> entry.committed_at
                        == details.committed_at && match details.head {
                        Some(head) => entry.head == Some(head@),
                        None => entry.head is None,
                    } && match details.branch {
                        Some(branch) => entry.branch == Some(branch@),
                        None => entry.branch is None,
                    }
                }
        }),
{
}

/// A worktree is named by its branch where it is on one; else it says whether there is a
/// commit.
pub proof fn worktrees_are_named_by_their_branch(worktree: WorktreeModel, name: Seq<char>)
    ensures
        worktree.branch == Some(name) ==> worktree.reference() == name && worktree.is_on(name),
        worktree.is_on(name) ==> worktree.branch == Some(name),
        worktree.branch is None && worktree.head is Some ==> worktree.reference()
            == "detached HEAD"@,
        worktree.branch is None && worktree.head is None ==> worktree.reference()
            == "unborn HEAD"@,
{
}

/// The worktree found for a key is the first with that key; there is one unless none has it.
pub proof fn found_worktrees_are_the_first(worktrees: Seq<WorktreeInfo>, key: KeyModel)
    ensures
        forall|at: int| #[trigger]
            is_found_at(worktrees, key, at) <==> 0 <= at < worktrees.len() && worktrees[at].key@
                == key && forall|i: int|
                0 <= i < at ==> (#[trigger] worktrees[i]).key@ != key,
        is_not_found(worktrees, key) <==> forall|i: int|
            0 <= i < worktrees.len() ==> (#[trigger] worktrees[i]).key@ != key,
{
    assert(forall|i: int| (#[trigger] worktrees[i])@.key == worktrees[i].key@);
}

/// A further worktree adds its path to the places of a branch exactly where that branch is
/// checked out in it, behind the others; whether it is available does not matter.
pub proof fn checkouts_follow_the_worktrees(
    worktrees: Seq<WorktreeModel>,
    worktree: WorktreeModel,
    name: Seq<char>,
)
    ensures
        paths_on(Seq::empty(), name) == Seq::<PathModel>::empty(),
        worktree.branch == Some(name) ==> paths_on(worktrees.push(worktree), name) == paths_on(
            worktrees,
            name,
        ).push(worktree.path),
        worktree.branch != Some(name) ==> paths_on(worktrees.push(worktree), name) == paths_on(
            worktrees,
            name,
        ),
{
    assert(worktrees.push(worktree).drop_last() == worktrees);
}

/// A branch is checked out in a place exactly where some worktree in that place is on it.
pub proof fn checkouts_are_where_the_branch_is(
    worktrees: Seq<WorktreeModel>,
    name: Seq<char>,
    path: PathModel,
)
    ensures
        paths_on(worktrees, name).contains(path) <==> exists|i: int|
            0 <= i < worktrees.len() && (#[trigger] worktrees[i]).branch == Some(name)
                && worktrees[i].path == path,
        paths_on(worktrees, name).len() == worktrees.filter(
            |worktree: WorktreeModel| worktree.branch == Some(name),
        ).len(),
{
    checkouts_are_the_worktrees_on_a_branch(worktrees, name);
    if paths_on(worktrees, name).contains(path) {
        let i = choose|i: int|
            0 <= i < worktrees.len() && (#[trigger] worktrees[i]).is_on(name) && worktrees[i].path
                == path;
        assert(worktrees[i].branch == Some(name));
    }
    if exists|i: int|
        0 <= i < worktrees.len() && (#[trigger] worktrees[i]).branch == Some(name)
            && worktrees[i].path == path {
        let i = choose|i: int|
            0 <= i < worktrees.len() && (#[trigger] worktrees[i]).branch == Some(name)
                && worktrees[i].path == path;
        assert(worktrees[i].is_on(name));
    }
    count_checkouts(worktrees, name);
}

proof fn count_checkouts(worktrees: Seq<WorktreeModel>, name: Seq<char>)
    ensures
        paths_on(worktrees, name).len() == worktrees.filter(
            |worktree: WorktreeModel| worktree.branch == Some(name),
        ).len(),
    decreases worktrees.len(),
{
    reveal(Seq::filter);
    if worktrees.len() > 0 {
        count_checkouts(worktrees.drop_last(), name);
    }
}

/// Where a branch is checked out is what the first entry of its name says, wherever in the
/// list that entry stands; a branch that is not listed is checked out nowhere.
pub proof fn checkouts_are_those_of_the_first_entry(branches: Seq<BranchModel>, name: Seq<char>)
    ensures
        forall|i: int|
            0 <= i < branches.len() && (#[trigger] branches[i]).name == name && (forall|j: int|
                0 <= j < i ==> (#[trigger] branches[j]).name != name) ==> checked_out_at(
                branches,
                name,
            ) == branches[i].checked_out_paths,
        (forall|i: int| 0 <= i < branches.len() ==> (#[trigger] branches[i]).name != name)
            ==> checked_out_at(branches, name).len() == 0,
    decreases branches.len(),
{
    if branches.len() > 0 {
        let rest = branches.drop_first();
        checkouts_are_those_of_the_first_entry(rest, name);
        assert forall|i: int|
            0 <= i < branches.len() && (#[trigger] branches[i]).name == name && (forall|j: int|
                0 <= j < i ==> (#[trigger] branches[j]).name != name) implies checked_out_at(
            branches,
            name,
        ) == branches[i].checked_out_paths by {
            if i > 0 {
                assert(branches[0].name != name);
                assert(rest[i - 1] == branches[i]);
                assert forall|j: int| 0 <= j < i - 1 implies (#[trigger] rest[j]).name != name by {
                    assert(rest[j] == branches[j + 1]);
                }
            }
        }
        if forall|i: int| 0 <= i < branches.len() ==> (#[trigger] branches[i]).name != name {
            assert(branches[0].name != name);
            assert forall|i: int| 0 <= i < rest.len() implies (#[trigger] rest[i]).name != name by {
                assert(rest[i] == branches[i + 1]);
            }
        }
    }
}

/// In a list without two branches of one name, any entry says where its branch is checked out.
pub proof fn checkouts_are_those_of_the_entry(branches: Seq<BranchModel>, i: int)
    requires
        0 <= i < branches.len(),
        forall|j: int, k: int|
            0 <= j < k < branches.len() ==> (#[trigger] branches[j]).name != (
            #[trigger] branches[k]).name,
    ensures
        checked_out_at(branches, branches[i].name) == branches[i].checked_out_paths,
{
    checkouts_are_those_of_the_first_entry(branches, branches[i].name);
}

/// A further worktree adds all its changes to those of a branch where it is on that branch and
/// available, whichever worktree it is, and adds nothing otherwise.
pub proof fn changes_follow_the_worktrees(
    worktrees: Seq<SurveyedWorktree>,
    worktree: SurveyedWorktree,
    name: Seq<char>,
)
    ensures
        changes_on(Seq::empty(), name) == Seq::<EntryModel>::empty(),
        worktree.info.available && (worktree.info.branch matches Some(branch) && branch@ == name)
            ==> changes_on(worktrees.push(worktree), name) == changes_on(worktrees, name)
            + entries_of(worktree.status->Ok_0.entries@),
        !(worktree.info.available && (worktree.info.branch matches Some(branch) && branch@
            == name)) ==> changes_on(worktrees.push(worktree), name) == changes_on(worktrees, name),
    decreases worktrees.len(),
{
    let all = worktrees.push(worktree);
    reveal_with_fuel(changes_on, 2);
    if worktrees.len() == 0 {
        assert(all.drop_first() =~= Seq::empty());
        assert(changes_on(all, name) =~= changes_on(worktrees, name) + (if counts_for(
            worktree.info@,
            name,
        ) {
            entries_of(worktree.status->Ok_0.entries@)
        } else {
            Seq::empty()
        }));
    } else {
        changes_follow_the_worktrees(worktrees.drop_first(), worktree, name);
        assert(all.drop_first() =~= worktrees.drop_first().push(worktree));
        assert(all[0] == worktrees[0]);
        let own = if counts_for(worktrees[0].info@, name) {
            entries_of(worktrees[0].status->Ok_0.entries@)
        } else {
            Seq::empty()
        };
        let added = entries_of(worktree.status->Ok_0.entries@);
        assert((own + changes_on(worktrees.drop_first(), name)) + added =~= own + (changes_on(
            worktrees.drop_first(),
            name,
        ) + added));
    }
}

/// Every change of every available worktree on a branch is among the changes of the branch, in
/// its order and together with the others of that worktree; and every change of the branch is
/// one of such a worktree.
pub proof fn no_change_of_a_branch_is_lost(worktrees: Seq<SurveyedWorktree>, name: Seq<char>)
    ensures
        forall|i: int|
            0 <= i < worktrees.len() && (#[trigger] worktrees[i]).info.available && (
            worktrees[i].info.branch matches Some(branch) && branch@ == name) ==> exists|at: int|
                0 <= at && at + worktrees[i].status->Ok_0.entries@.len() <= changes_on(
                    worktrees,
                    name,
                ).len() && #[trigger] changes_on(worktrees, name).subrange(
                    at,
                    at + worktrees[i].status->Ok_0.entries@.len(),
                ) == entries_of(worktrees[i].status->Ok_0.entries@),
        forall|k: int|
            0 <= k < changes_on(worktrees, name).len() ==> {
                let change = #[trigger] changes_on(worktrees, name)[k];
                exists|i: int|
                    0 <= i < worktrees.len() && (#[trigger] worktrees[i]).info.available && (
                    worktrees[i].info.branch matches Some(branch) && branch@ == name)
                        && entries_of(worktrees[i].status->Ok_0.entries@).contains(change)
            },
    decreases worktrees.len(),
{
    if worktrees.len() > 0 {
        let rest = worktrees.drop_last();
        let last = worktrees.last();
        let before = changes_on(rest, name);
        let all = changes_on(worktrees, name);
        let added = entries_of(last.status->Ok_0.entries@);
        no_change_of_a_branch_is_lost(rest, name);
        assert(worktrees == rest.push(last));
        changes_follow_the_worktrees(rest, last, name);
        assert forall|i: int|
            0 <= i < worktrees.len() && (#[trigger] worktrees[i]).info.available && (
            worktrees[i].info.branch matches Some(branch) && branch@ == name) implies exists|
            at: int,
        |
            0 <= at && at + worktrees[i].status->Ok_0.entries@.len() <= all.len()
                && #[trigger] all.subrange(at, at + worktrees[i].status->Ok_0.entries@.len())
                == entries_of(worktrees[i].status->Ok_0.entries@) by {
            let own = entries_of(worktrees[i].status->Ok_0.entries@);
            if i < rest.len() {
                assert(rest[i] == worktrees[i]);
                let at = choose|at: int|
                    0 <= at && at + own.len() <= before.len() && #[trigger] before.subrange(
                        at,
                        at + own.len(),
                    ) == own;
                assert(all.subrange(at, at + own.len()) =~= own) by {
                    assert forall|k: int| 0 <= k < own.len() implies all.subrange(
                        at,
                        at + own.len(),
                    )[k] == own[k] by {
                        assert(before.subrange(at, at + own.len())[k] == own[k]);
                    }
                }
            } else {
                let at = before.len() as int;
                assert(all == before + own);
                assert(all.subrange(at, at + own.len()) =~= own);
            }
        }
        assert forall|k: int| 0 <= k < all.len() implies ({
            let change = #[trigger] all[k];
            exists|i: int|
                0 <= i < worktrees.len() && (#[trigger] worktrees[i]).info.available && (
                worktrees[i].info.branch matches Some(branch) && branch@ == name) && entries_of(
                    worktrees[i].status->Ok_0.entries@,
                ).contains(change)
        }) by {
            if k < before.len() {
                assert(before[k] == all[k]);
                let i = choose|i: int|
                    0 <= i < rest.len() && (#[trigger] rest[i]).info.available && (
                    rest[i].info.branch matches Some(branch) && branch@ == name) && entries_of(
                        rest[i].status->Ok_0.entries@,
                    ).contains(before[k]);
                assert(worktrees[i] == rest[i]);
            } else {
                assert(worktrees[worktrees.len() - 1] == last);
                assert(all[k] == added[k - before.len()]);
            }
        }
    } else {
        assert(changes_on(worktrees, name).len() == 0);
    }
}

/// The status of a branch is read off what was found: its own name, the places that its entry
/// in the list of branches names, and all changes of the available worktrees on it, each
/// counted once by its sort.
pub proof fn branch_statuses_tell_what_was_found(
    name: Seq<char>,
    facts: BranchStatusFacts,
    status: BranchStatus,
)
    requires
        facts.branches is Ok,
        facts.worktrees is Ok,
        is_status_of(name, facts, status),
    ensures
        status.branch@ == name,
        forall|i: int|
            0 <= i < facts.branches->Ok_0@.len() && (
            #[trigger] facts.branches->Ok_0@[i]).name@ == name && (forall|j: int|
                0 <= j < i ==> (#[trigger] facts.branches->Ok_0@[j]).name@ != name) ==> paths_of(
                status.checked_out_paths@,
            ) == paths_of(facts.branches->Ok_0@[i].checked_out_paths@),
        (forall|i: int|
            0 <= i < facts.branches->Ok_0@.len() ==> (
            #[trigger] facts.branches->Ok_0@[i]).name@ != name) ==> status.checked_out_paths@.len()
            == 0,
        status.changes.staged + status.changes.unstaged + status.changes.untracked
            + status.changes.deleted + status.changes.conflicted == changes_on(
            facts.worktrees->Ok_0@,
            name,
        ).len(),
        status.changes.deleted == changes_on(facts.worktrees->Ok_0@, name).filter(
            |entry: EntryModel| entry.kind is Deleted,
        ).len(),
        status.changes.conflicted == changes_on(facts.worktrees->Ok_0@, name).filter(
            |entry: EntryModel| entry.kind is Conflict,
        ).len(),
        status.changes.staged == changes_on(facts.worktrees->Ok_0@, name).filter(
            |entry: EntryModel|
                entry.area is Index && !(entry.kind is Deleted) && !(entry.kind is Conflict),
        ).len(),
        status.changes.untracked == changes_on(facts.worktrees->Ok_0@, name).filter(
            |entry: EntryModel| entry.area is Worktree && entry.kind is Added,
        ).len(),
        forall|i: int|
            0 <= i < facts.worktrees->Ok_0@.len() && (
            #[trigger] facts.worktrees->Ok_0@[i]).info.available && (
            facts.worktrees->Ok_0@[i].info.branch matches Some(branch) && branch@ == name)
                ==> status.changes.staged + status.changes.unstaged + status.changes.untracked
                + status.changes.deleted + status.changes.conflicted
                >= facts.worktrees->Ok_0@[i].status->Ok_0.entries@.len(),
{
    let branches = facts.branches->Ok_0@;
    let worktrees = facts.worktrees->Ok_0@;
    let models = branches_of(branches);
    let changes = changes_on(worktrees, name);
    checkouts_are_those_of_the_first_entry(models, name);
    no_change_of_a_branch_is_lost(worktrees, name);
    changes_are_counted_by_sort(changes, status.changes);
    assert forall|i: int|
        0 <= i < branches.len() && (#[trigger] branches[i]).name@ == name && (forall|j: int|
            0 <= j < i ==> (#[trigger] branches[j]).name@ != name) implies paths_of(
        status.checked_out_paths@,
    ) == paths_of(branches[i].checked_out_paths@) by {
        assert(models[i] == branches[i]@);
        assert forall|j: int| 0 <= j < i implies (#[trigger] models[j]).name != name by {
            assert(models[j] == branches[j]@);
        }
    }
    if forall|i: int| 0 <= i < branches.len() ==> (#[trigger] branches[i]).name@ != name {
        assert forall|i: int| 0 <= i < models.len() implies (#[trigger] models[i]).name != name by {
            assert(models[i] == branches[i]@);
        }
        assert(paths_of(status.checked_out_paths@).len() == status.checked_out_paths@.len());
    }
    assert forall|i: int|
        0 <= i < worktrees.len() && (#[trigger] worktrees[i]).info.available && (
        worktrees[i].info.branch matches Some(branch) && branch@ == name) implies changes.len()
        >= worktrees[i].status->Ok_0.entries@.len() by {
        let own = worktrees[i].status->Ok_0.entries@;
        let at = choose|at: int|
            0 <= at && at + own.len() <= changes.len() && #[trigger] changes.subrange(
                at,
                at + own.len(),
            ) == entries_of(own);
        assert(changes.len() >= own.len());
    }
}

/// The status of a branch names its upstream and counts the commits that only one of the two
/// reaches: together with those that both reach, these are all commits of either.
pub proof fn branch_statuses_compare_with_the_upstream(
    upstream: UpstreamFacts,
    status: BranchStatus,
)
    requires
        compares(upstream, status),
    ensures
        upstream is NotConfigured <==> status.upstream_state is NotConfigured,
        upstream is Missing <==> status.upstream_state is Missing,
        upstream is Present <==> status.upstream_state is Present,
        upstream is NotConfigured ==> status.upstream is None,
        !(upstream is Present) ==> status.ahead == 0 && status.behind == 0,
        upstream matches UpstreamFacts::Missing(full_name) ==> (status.upstream matches Some(shown)
            && (short_name(full_name@) matches Some(name) ==> shown@ == name) && (short_name(
            full_name@,
        ) is None ==> shown@ == lossy_text(full_name@))),
        upstream matches UpstreamFacts::Present(full_name, branch, other) ==> {
            &&& status.upstream matches Some(shown) && (short_name(full_name@) matches Some(name)
                ==> shown@ == name) && (short_name(full_name@) is None ==> shown@ == lossy_text(
                full_name@,
            ))
            &&& branch@.finite() ==> status.ahead + branch@.intersect(other@).len() == branch@.len()
            &&& other@.finite() ==> status.behind + other@.intersect(branch@).len() == other@.len()
        },
{
    if let UpstreamFacts::Present(_, branch, other) = upstream {
        if branch@.finite() {
            parts_of_a_set(branch@, other@);
        }
        if other@.finite() {
            parts_of_a_set(other@, branch@);
        }
    }
}

proof fn parts_of_a_set(all: Set<CommitId>, other: Set<CommitId>)
    requires
        all.finite(),
    ensures
        all.difference(other).len() + all.intersect(other).len() == all.len(),
    decreases all.len(),
{
    if all.len() == 0 {
        assert(all.difference(other) =~= Set::empty());
        assert(all.intersect(other) =~= Set::empty());
    } else {
        let id = all.choose();
        let rest = all.remove(id);
        parts_of_a_set(rest, other);
        if other.contains(id) {
            assert(all.difference(other) =~= rest.difference(other));
            assert(all.intersect(other) =~= rest.intersect(other).insert(id));
            assert(rest.intersect(other).finite());
        } else {
            assert(all.difference(other) =~= rest.difference(other).insert(id));
            assert(all.intersect(other) =~= rest.intersect(other));
            assert(rest.difference(other).finite());
        }
    }
}

/// The status of a branch fails exactly where something that it takes is not known: the
/// reference, the branches, the upstream, the worktrees, or the status of an available
/// worktree on the branch; the first of these in this order is the error.
pub proof fn branch_statuses_fail_at_the_first_fault(
    name: Seq<char>,
    facts: BranchStatusFacts,
    error: GitError,
)
    ensures
        facts.is_known(name) <==> facts.reference is Ok && facts.branches is Ok
            && facts.upstream is Ok && facts.worktrees is Ok && forall|i: int|
            0 <= i < facts.worktrees->Ok_0@.len() && (
            #[trigger] facts.worktrees->Ok_0@[i]).info.available && (
            facts.worktrees->Ok_0@[i].info.branch matches Some(branch) && branch@ == name)
                ==> facts.worktrees->Ok_0@[i].status is Ok,
        !facts.is_known(name) && facts.is_fault(name, error) ==> {
            ||| facts.reference matches Err(message) && error == GitError::Failed(message)
            ||| facts.reference is Ok && facts.branches == Err::<Vec<BranchInfo>, GitError>(error)
            ||| facts.reference is Ok && facts.branches is Ok && facts.upstream == Err::<
                UpstreamFacts,
                GitError,
            >(error)
            ||| facts.reference is Ok && facts.branches is Ok && facts.upstream is Ok
                && facts.worktrees == Err::<Vec<SurveyedWorktree>, GitError>(error)
            ||| facts.reference is Ok && facts.branches is Ok && facts.upstream is Ok
                && facts.worktrees is Ok && exists|i: int|
                0 <= i < facts.worktrees->Ok_0@.len() && (
                #[trigger] facts.worktrees->Ok_0@[i]).status == Err::<WorktreeStatus, GitError>(
                    error,
                ) && facts.worktrees->Ok_0@[i].info.available && (
                facts.worktrees->Ok_0@[i].info.branch matches Some(branch) && branch@ == name) && (
                forall|j: int|
                    0 <= j < i && (#[trigger] facts.worktrees->Ok_0@[j]).info.available && (
                    facts.worktrees->Ok_0@[j].info.branch matches Some(branch) && branch@ == name)
                        ==> facts.worktrees->Ok_0@[j].status is Ok)
        },
{
    if facts.worktrees is Ok {
        let worktrees = facts.worktrees->Ok_0@;
        assert forall|i: int| 0 <= i < worktrees.len() implies (#[trigger] is_status_fault(
            worktrees,
            name,
            i,
        ) <==> worktrees[i].info.available && (worktrees[i].info.branch matches Some(branch)
            && branch@ == name) && worktrees[i].status is Err) by {}
        if facts.is_known(name) {
            assert forall|i: int|
                0 <= i < worktrees.len() && (#[trigger] worktrees[i]).info.available && (
                worktrees[i].info.branch matches Some(branch) && branch@
                    == name) implies worktrees[i].status is Ok by {
                assert(!is_status_fault(worktrees, name, i));
            }
        }
        if is_first_status_fault(worktrees, name, error) {
            let i = choose|i: int| #[trigger]
                is_status_fault(worktrees, name, i) && worktrees[i].status == Err::<
                    WorktreeStatus,
                    GitError,
                >(error) && forall|j: int|
                    j < i ==> !(#[trigger] is_status_fault(worktrees, name, j));
            assert(worktrees[i].status == Err::<WorktreeStatus, GitError>(error));
            assert forall|j: int|
                0 <= j < i && (#[trigger] worktrees[j]).info.available && (
                worktrees[j].info.branch matches Some(branch) && branch@
                    == name) implies worktrees[j].status is Ok by {
                assert(!is_status_fault(worktrees, name, j));
            }
        }
    }
}

/// A branch deletion is known to be possible or not only where its tip, the list of branches
/// and what `HEAD` reaches are known, and the first of these that is not is the error. It is
/// merged exactly where `HEAD` reaches its tip, and is checked out exactly where its entry in
/// the list names a place.
pub proof fn branch_assessments_tell_what_was_found(
    name: Seq<char>,
    facts: BranchDeletionFacts,
    error: GitError,
)
    ensures
        facts.is_known() <==> facts.tip is Ok && facts.branches is Ok && (facts.head is None
            || facts.head->0 is Ok),
        facts.is_fault(error) ==> {
            ||| facts.tip matches Err(message) && error == GitError::Failed(message)
            ||| facts.tip is Ok && (facts.branches matches Err(message) && error
                == GitError::Failed(message))
            ||| facts.tip is Ok && facts.branches is Ok && (facts.head matches Some(Err(message))
                && error == GitError::Failed(message))
        },
        facts.head is None ==> facts.is_unmerged() && facts.assessment(name).unmerged,
        facts.tip matches Ok(tip) ==> (facts.head matches Some(Ok(commits)) ==> (
        facts.is_unmerged() <==> !commits@.contains(tip)) && (facts.assessment(name).unmerged
            <==> !commits@.contains(tip))),
        facts.branches matches Ok(branches) ==> {
            &&& forall|i: int|
                0 <= i < branches@.len() && (#[trigger] branches@[i]).name@ == name && (forall|
                    j: int,
                |
                    0 <= j < i ==> (#[trigger] branches@[j]).name@ != name) ==> facts.assessment(
                    name,
                ).checked_out_paths == paths_of(branches@[i].checked_out_paths@) && (
                facts.is_checked_out(name) <==> branches@[i].checked_out_paths@.len() > 0)
            &&& (forall|i: int|
                0 <= i < branches@.len() ==> (#[trigger] branches@[i]).name@ != name)
                ==> facts.assessment(name).checked_out_paths.len() == 0 && !facts.is_checked_out(
                name,
            )
        },
{
    if let Ok(branches) = facts.branches {
        let models = branches_of(branches@);
        checkouts_are_those_of_the_first_entry(models, name);
        assert forall|i: int|
            0 <= i < branches@.len() && (#[trigger] branches@[i]).name@ == name && (forall|j: int|
                0 <= j < i ==> (#[trigger] branches@[j]).name@
                    != name) implies facts.assessment(name).checked_out_paths == paths_of(
            branches@[i].checked_out_paths@,
        ) && (facts.is_checked_out(name) <==> branches@[i].checked_out_paths@.len() > 0) by {
            assert(models[i] == branches@[i]@);
            assert(paths_of(branches@[i].checked_out_paths@).len()
                == branches@[i].checked_out_paths@.len());
            assert forall|j: int| 0 <= j < i implies (#[trigger] models[j]).name != name by {
                assert(models[j] == branches@[j]@);
            }
        }
        if forall|i: int| 0 <= i < branches@.len() ==> (#[trigger] branches@[i]).name@ != name {
            assert forall|i: int| 0 <= i < models.len() implies (#[trigger] models[i]).name
                != name by {
                assert(models[i] == branches@[i]@);
            }
        }
    }
}

/// The list of branches has one entry for each reference and no other: with the name shown for
/// the reference, the first eight characters of its commit's id, the time of that commit, and
/// the paths of the worktrees that are on the branch. The entries stand by name.
pub proof fn listed_branches_are_their_references(
    worktrees: Seq<WorktreeModel>,
    references: Seq<Result<BranchFacts, String>>,
    branches: Seq<BranchModel>,
)
    requires
        forall|i: int|
            0 <= i < references.len() ==> (#[trigger] references[i]) is Ok && is_good_branch(
                references[i]->Ok_0,
            ),
        branches == stable_sorted(listed_branches(worktrees, references), branch_order()),
    ensures
        branches.len() == references.len(),
        forall|i: int|
            0 <= i < references.len() ==> exists|k: int|
                0 <= k < branches.len() && is_entry_for(
                    worktrees,
                    (#[trigger] references[i])->Ok_0,
                    #[trigger] branches[k],
                ),
        forall|k: int|
            0 <= k < branches.len() ==> exists|i: int|
                0 <= i < references.len() && is_entry_for(
                    worktrees,
                    (#[trigger] references[i])->Ok_0,
                    #[trigger] branches[k],
                ),
        forall|j: int, k: int|
            0 <= j < k < branches.len() ==> text_le(
                (#[trigger] branches[j]).name,
                (#[trigger] branches[k]).name,
            ),
{
    broadcast use vstd::seq_lib::group_to_multiset_ensures;

    let found = listed_branches(worktrees, references);
    branches_are_listed_by_name(found);
    assert(branches.len() == found.len()) by {
        assert(branches.to_multiset().len() == found.to_multiset().len());
    }
    assert forall|i: int| 0 <= i < references.len() implies is_entry_for(
        worktrees,
        (#[trigger] references[i])->Ok_0,
        found[i],
    ) by {
        let name = found[i].name;
        assert forall|path: PathModel| #[trigger]
            found[i].checked_out_paths.contains(path) <==> exists|j: int|
                0 <= j < worktrees.len() && (#[trigger] worktrees[j]).branch == Some(name)
                    && worktrees[j].path == path by {
            checkouts_are_where_the_branch_is(worktrees, name, path);
        }
    }
    assert forall|i: int| 0 <= i < references.len() implies exists|k: int|
        0 <= k < branches.len() && is_entry_for(
            worktrees,
            (#[trigger] references[i])->Ok_0,
            #[trigger] branches[k],
        ) by {
        assert(found.contains(found[i]));
        assert(branches.to_multiset().count(found[i]) > 0);
        assert(branches.contains(found[i]));
        let k = choose|k: int| 0 <= k < branches.len() && branches[k] == found[i];
        assert(is_entry_for(worktrees, references[i]->Ok_0, branches[k]));
    }
    assert forall|k: int| 0 <= k < branches.len() implies exists|i: int|
        0 <= i < references.len() && is_entry_for(
            worktrees,
            (#[trigger] references[i])->Ok_0,
            #[trigger] branches[k],
        ) by {
        assert(branches.contains(branches[k]));
        assert(found.to_multiset().count(branches[k]) > 0);
        assert(found.contains(branches[k]));
        let i = choose|i: int| 0 <= i < found.len() && found[i] == branches[k];
        assert(is_entry_for(worktrees, references[i]->Ok_0, branches[k]));
    }
    assert forall|j: int, k: int| 0 <= j < k < branches.len() implies text_le(
        (#[trigger] branches[j]).name,
        (#[trigger] branches[k]).name,
    ) by {
        assert(branch_order()(branches[j], branches[k]));
    }
}

/// The entry shows the name, the commit and the checkouts of a reference.
pub open spec fn is_entry_for(
    worktrees: Seq<WorktreeModel>,
    facts: BranchFacts,
    entry: BranchModel,
) -> bool {
    &&& match short_name(facts.full_name@) {
        Some(name) => entry.name == name,
        None => entry.name == lossy_text(facts.full_name@),
    }
    &&& facts.id matches Some(id)
    &&& entry.head == (if id@.len() <= 8 {
        id@
    } else {
        id@.take(8)
    })
    &&& facts.tip matches TipFacts::Commit(data)
    &&& committer_seconds(data@) == Ok::<i64, Seq<char>>(entry.committed_at)
    &&& entry.checked_out_paths == paths_on(worktrees, entry.name)
    &&& forall|path: PathModel| #[trigger]
        entry.checked_out_paths.contains(path) <==> exists|j: int|
            0 <= j < worktrees.len() && (#[trigger] worktrees[j]).branch == Some(entry.name)
                && worktrees[j].path == path
}

/// A reference stops the listing exactly where it cannot be read, points to nothing, to
/// something other than a commit, or to one without a readable time; the error says which.
pub proof fn unlisted_branches_are_told(reference: Result<BranchFacts, String>, error: GitError)
    ensures
        reference matches Ok(facts) ==> (is_good_branch(facts) <==> facts.id is Some && (
        facts.tip matches TipFacts::Commit(data) && committer_seconds(data@) is Ok)),
        is_reference_error(reference, error) ==> {
            ||| reference matches Err(message) && error == GitError::Failed(message)
            ||| reference matches Ok(facts) && facts.id is None && match error {
                GitError::NoObject(shown) => match short_name(facts.full_name@) {
                    Some(name) => shown@ == name,
                    None => shown@ == lossy_text(facts.full_name@),
                },
                _ => false,
            }
            ||| reference matches Ok(facts) && facts.id is Some && match facts.tip {
                TipFacts::Unreadable(message) => error == GitError::Failed(message),
                TipFacts::NotACommit => error is NotACommit,
                TipFacts::Commit(data) => committer_seconds(data@) matches Err(cause)
                    && error matches GitError::BranchTime(shown) && shown@ == cause,
            }
        },
{
}

/// A log shows the first 200 commits of the walk, or all of a shorter one, each on a line of
/// its own and in the order of the walk: the first eight characters of its id, its author, its
/// time, and its title without the white space around it.
pub proof fn logs_show_the_first_commits(history: History, entries: Seq<LogEntry>)
    requires
        is_log(history, entries),
    ensures
        history is Unborn ==> entries.len() == 0,
        !(history is Failed),
        history matches History::Walk(walk) ==> {
            &&& walk@.len() <= 200 ==> entries.len() == walk@.len()
            &&& walk@.len() > 200 ==> entries.len() == 200
            &&& forall|i: int|
                0 <= i < entries.len() ==> (#[trigger] walk@[i]) is Ok && decoded_commit(
                    walk@[i]->Ok_0.data@,
                ) is Ok
            &&& forall|i: int|
                0 <= i < entries.len() ==> {
                    let id = walk@[i]->Ok_0.id@;
                    &&& id.len() <= 8 ==> (#[trigger] entries[i]).id@ == id
                    &&& id.len() > 8 ==> entries[i].id@ == id.take(8)
                }
            &&& forall|i: int|
                0 <= i < entries.len() ==> {
                    let fields = decoded_commit(walk@[i]->Ok_0.data@)->Ok_0;
                    &&& (#[trigger] entries[i]).subject@ == trimmed(lossy_text(fields.title))
                    &&& fields.author is Ok
                    &&& entries[i].author@ == lossy_text(fields.author->Ok_0)
                    &&& fields.seconds == Ok::<i64, Seq<char>>(entries[i].committed_at)
                }
        },
{
    if let History::Walk(walk) = history {
        let steps = shown(walk@);
        assert(walk@.len() > 200 ==> steps.len() == 200);
        assert(walk@.len() <= 200 ==> steps.len() == walk@.len());
        assert forall|i: int| 0 <= i < entries.len() implies is_good_step(walk@[i])
            && #[trigger] entries[i]@ == log_line(walk@[i]->Ok_0) && walk@[i] == steps[i] by {
            assert(steps[i] == walk@[i]);
        }
        assert forall|i: int| 0 <= i < entries.len() implies (#[trigger] walk@[i]) is Ok
            && decoded_commit(walk@[i]->Ok_0.data@) is Ok by {
            assert(entries[i]@ == log_line(walk@[i]->Ok_0));
        }
        assert forall|i: int| 0 <= i < entries.len() implies ({
            let id = walk@[i]->Ok_0.id@;
            &&& id.len() <= 8 ==> (#[trigger] entries[i]).id@ == id
            &&& id.len() > 8 ==> entries[i].id@ == id.take(8)
        }) by {
            assert(entries[i]@ == log_line(walk@[i]->Ok_0));
        }
        assert forall|i: int| 0 <= i < entries.len() implies ({
            let fields = decoded_commit(walk@[i]->Ok_0.data@)->Ok_0;
            &&& (#[trigger] entries[i]).subject@ == trimmed(lossy_text(fields.title))
            &&& fields.author is Ok
            &&& entries[i].author@ == lossy_text(fields.author->Ok_0)
            &&& fields.seconds == Ok::<i64, Seq<char>>(entries[i].committed_at)
        }) by {
            assert(entries[i]@ == log_line(walk@[i]->Ok_0));
        }
    }
}

/// A log fails at the first of the commits to show that cannot be read, and the error is why:
/// the walk failed there, or its data, its author or its time does not decode.
pub proof fn logs_fail_at_the_first_fault(history: History, error: GitError)
    requires
        is_log_error(history, error),
    ensures
        !(history is Unborn),
        history matches History::Failed(message) ==> error == GitError::Failed(message),
        history matches History::Walk(walk) ==> exists|i: int|
            0 <= i < walk@.len() && i < 200 && match #[trigger] walk@[i] {
                Err(message) => error == GitError::Failed(message),
                Ok(record) => match decoded_commit(record.data@) {
                    Err(cause) => error matches GitError::CommitData(told) && told@ == cause,
                    Ok(fields) => match (fields.author, fields.seconds) {
                        (Err(cause), _) => error matches GitError::CommitAuthor(told) && told@
                            == cause,
                        (_, Err(cause)) => error matches GitError::CommitTime(told) && told@
                            == cause,
                        _ => false,
                    },
                },
            } && forall|j: int|
                0 <= j < i ==> (#[trigger] walk@[j] matches Ok(record) && decoded_commit(
                    record.data@,
                ) is Ok),
{
    if let History::Walk(walk) = history {
        let steps = shown(walk@);
        let i = choose|i: int|
            0 <= i < steps.len() && is_step_error(#[trigger] steps[i], error) && !is_good_step(
                steps[i],
            ) && (forall|j: int| 0 <= j < i ==> is_good_step(#[trigger] steps[j]));
        assert(steps[i] == walk@[i]);
        assert forall|j: int| 0 <= j < i implies (#[trigger] walk@[j] matches Ok(record)
            && decoded_commit(record.data@) is Ok) by {
            assert(steps[j] == walk@[j]);
            assert(is_good_step(steps[j]));
        }
    }
}

/// Values that stand for the same hold the same, and a list stands for each of its items.
pub proof fn lists_stand_for_all_they_hold(
    worktree: WorktreeInfo,
    branch: BranchInfo,
    status: BranchStatus,
    worktrees: Seq<WorktreeInfo>,
    branches: Seq<BranchInfo>,
)
    ensures
        worktree@.key == worktree.key@,
        worktree.key is Main <==> worktree@.key is Main,
        worktree.key matches WorktreeKey::Linked(id) ==> worktree@.key == KeyModel::Linked(id@),
        worktree@.path == worktree.path@,
        worktree@.committed_at == worktree.committed_at,
        worktree@.locked == worktree.locked,
        worktree@.available == worktree.available,
        worktree.head is None <==> worktree@.head is None,
        worktree.head matches Some(head) ==> worktree@.head == Some(head@),
        worktree.branch is None <==> worktree@.branch is None,
        worktree.branch matches Some(name) ==> worktree@.branch == Some(name@),
        branch@.name == branch.name@,
        branch@.head == branch.head@,
        branch@.committed_at == branch.committed_at,
        branch@.checked_out_paths.len() == branch.checked_out_paths@.len(),
        forall|i: int|
            0 <= i < branch.checked_out_paths@.len() ==> #[trigger] branch@.checked_out_paths[i]
                == branch.checked_out_paths@[i]@,
        status@.branch == status.branch@,
        status@.upstream_state == status.upstream_state,
        status.upstream is None <==> status@.upstream is None,
        status.upstream matches Some(name) ==> status@.upstream == Some(name@),
        status@.ahead == status.ahead,
        status@.behind == status.behind,
        status@.changes == status.changes,
        status@.checked_out_paths == paths_of(status.checked_out_paths@),
        worktrees_of(worktrees).len() == worktrees.len(),
        forall|i: int|
            0 <= i < worktrees.len() ==> #[trigger] worktrees_of(worktrees)[i] == worktrees[i]@,
        branches_of(branches).len() == branches.len(),
        forall|i: int|
            0 <= i < branches.len() ==> #[trigger] branches_of(branches)[i] == branches[i]@,
{
}

/// What stands against a deletion, and a status, are told in full.
pub proof fn findings_stand_for_all_they_hold(
    assessment: DeletionAssessment,
    branch: BranchDeletionAssessment,
    status: WorktreeStatus,
)
    ensures
        assessment@.changes == entries_of(assessment.changes@),
        assessment@.locked == assessment.locked,
        assessment@.missing == assessment.missing,
        branch@.checked_out_paths == paths_of(branch.checked_out_paths@),
        branch@.unmerged == branch.unmerged,
        status@.reference == status.reference@,
        status@.entries == entries_of(status.entries@),
{
}

/// A local branch is named by its reference without `refs/heads/`; there can be one of a name
/// exactly where that full name has no fault, and the error tells the name and the fault.
pub proof fn branches_are_named_by_their_reference(
    name: Seq<char>,
    error: GitError,
    full_name: Seq<u8>,
)
    ensures
        branch_reference(name) == "refs/heads/"@ + name,
        is_branch_name(name) <==> name_fault("refs/heads/"@ + name) is None,
        is_name_error(name, error) <==> (error matches GitError::InvalidBranchName(shown, cause)
            && shown@ == name && name_fault("refs/heads/"@ + name) == Some(cause@)),
        is_local_branch(full_name, name) <==> full_name == encode_utf8("refs/heads/"@ + name)
            && name_fault("refs/heads/"@ + name) is None,
        short_name(full_name) matches Some(short) ==> shown_name(full_name) == short,
        short_name(full_name) is None ==> shown_name(full_name) == lossy_text(full_name),
{
}

/// The status of a worktree counts for a branch exactly where the worktree is there and its
/// `HEAD` names that branch.
pub proof fn worktrees_count_where_they_are_on_the_branch(worktree: WorktreeInfo, name: Seq<char>)
    ensures
        counts_for(worktree@, name) <==> worktree.available && (
        worktree.branch matches Some(branch) && branch@ == name),
        worktree@.is_on(name) <==> (worktree.branch matches Some(branch) && branch@ == name),
{
}

} // verus!
