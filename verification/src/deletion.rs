//! Deleting worktrees and branches: what is checked, and in which order things are removed.

use vstd::prelude::*;
use vstd::utf8::encode_utf8;

use crate::error::GitError;
use crate::git::{
    branch_assessments_tell_what_was_found, is_found_at, is_not_found, BranchDeleteResult,
    BranchDeletionAssessment, BranchDeletionFacts, BranchInfo, DeleteResult, DeletionAssessment,
    RepositoryManager, RepositoryModel, WorktreeInfo, WorktreeKey, WorktreeStatus,
};
use crate::objects::{branch_reference, local_branch_reference, name_fault};
use crate::path::{
    can_be_name, clone_parts, components, is_leading_name, is_plain_name, is_simple_path,
    is_single_name, parts_of, plain_names_are_single, simple_parts, FilePath, PartModel, PathPart,
};
use crate::status::StatusEntry;

verus! {

/// What an entry of a directory is; a symbolic link is not followed.
#[derive(Clone, Copy, Debug, PartialEq, Eq, Structural)]
pub enum FileKind {
    Directory,
    File,
    Symlink,
    Other,
}

/// The directories of the repository that a checkout belongs to, in canonical form.
#[derive(Debug)]
pub struct LinkedDirs {
    pub git_dir: Result<FilePath, String>,
    pub common_dir: Result<FilePath, String>,
}

/// What is found where a worktree is checked out. Paths are in canonical form.
#[derive(Debug)]
pub struct Checkout {
    /// What stands at the path of the worktree.
    pub kind: Result<FileKind, String>,
    /// What its `.git` entry is.
    pub dot_git: Result<FileKind, String>,
    /// The repository that is opened there.
    pub linked: Result<LinkedDirs, String>,
    /// The common directory of the repository that lists the worktree.
    pub expected_common: Result<FilePath, String>,
    /// The current directory of the process.
    pub current_dir: Result<FilePath, String>,
    /// The path of the worktree.
    pub real_path: Result<FilePath, String>,
}

/// What is found when a linked worktree is looked up. Without a checkout there is nothing at
/// the worktree's path.
#[derive(Debug)]
pub struct Site {
    pub worktrees: Result<Vec<WorktreeInfo>, String>,
    /// The directory for the administrative directories of worktrees, in canonical form.
    pub worktrees_dir: Result<FilePath, String>,
    /// The administrative directory of the worktree, which `admin_dir` names, in canonical form.
    pub admin_dir: Result<FilePath, String>,
    pub checkout: Option<Checkout>,
}

/// A site, and what else counts for an assessment.
#[derive(Debug)]
pub struct Inspection {
    pub site: Site,
    /// The status of the worktree, which is not looked at where there is no checkout.
    pub status: Result<WorktreeStatus, GitError>,
    /// There is a lock in the administrative directory.
    pub locked: bool,
}

/// The checkout is a real directory that belongs to the administrative directory and to the
/// repository.
pub open spec fn is_own_checkout(checkout: Checkout, admin_dir: FilePath) -> bool {
    &&& checkout.kind == Ok::<FileKind, String>(FileKind::Directory)
    &&& checkout.dot_git == Ok::<FileKind, String>(FileKind::File)
    &&& checkout.linked matches Ok(dirs)
    &&& dirs.git_dir matches Ok(git_dir)
    &&& git_dir@.same_place(admin_dir@)
    &&& dirs.common_dir matches Ok(common_dir)
    &&& checkout.expected_common matches Ok(expected)
    &&& common_dir@.same_place(expected@)
}

/// The first thing that is wrong with a checkout.
pub open spec fn checkout_fault(checkout: Checkout, admin_dir: FilePath) -> GitError {
    match (checkout.kind, checkout.dot_git, checkout.linked) {
        (Err(message), _, _) => GitError::Failed(message),
        (Ok(kind), _, _) if kind != FileKind::Directory => GitError::NotADirectory,
        (_, Err(message), _) => GitError::Failed(message),
        (_, Ok(kind), _) if kind != FileKind::File => GitError::GitEntryNotFile,
        (_, _, Err(message)) => GitError::Failed(message),
        (_, _, Ok(dirs)) => match (dirs.git_dir, dirs.common_dir, checkout.expected_common) {
            (Err(message), _, _) => GitError::Failed(message),
            (Ok(git_dir), _, _) if !git_dir@.same_place(admin_dir@) => GitError::WrongMetadata,
            (_, Err(message), _) => GitError::Failed(message),
            (_, _, Err(message)) => GitError::Failed(message),
            _ => GitError::WrongRepository,
        },
    }
}

/// The worktree is listed, its administrative directory is where it has to be, and what is
/// checked out belongs to it.
pub open spec fn is_own_site(key: WorktreeKey, site: Site) -> bool {
    &&& site.worktrees matches Ok(worktrees)
    &&& !is_not_found(worktrees@, key@)
    &&& site.worktrees_dir matches Ok(worktrees_dir)
    &&& site.admin_dir matches Ok(admin_dir)
    &&& admin_dir@.has_parent(worktrees_dir@)
    &&& site.checkout matches Some(checkout) ==> is_own_checkout(checkout, admin_dir)
}

/// The first thing that is wrong with a site.
pub open spec fn site_fault(key: WorktreeKey, site: Site) -> GitError {
    match (site.worktrees, site.worktrees_dir, site.admin_dir) {
        (Err(message), _, _) => GitError::Failed(message),
        (Ok(worktrees), _, _) if is_not_found(worktrees@, key@) => GitError::WorktreeGone,
        (_, Err(message), _) => GitError::Failed(message),
        (_, _, Err(message)) => GitError::Failed(message),
        (_, Ok(worktrees_dir), Ok(admin_dir)) => if !admin_dir@.has_parent(worktrees_dir@) {
            GitError::MetadataOutside
        } else {
            checkout_fault(site.checkout->0, admin_dir)
        },
    }
}

/// The components are among those that an identifier can have: those of a simple path, and
/// what the platform makes of any other text, which is one name only if the identifier starts
/// with that name and nothing else of it counts.
pub open spec fn are_components(id: Seq<char>, parts: Seq<PartModel>) -> bool {
    &&& is_simple_path(id) ==> parts == simple_parts(id)
    &&& is_single_name(parts) ==> is_leading_name(id, parts)
}

/// Every platform agrees on whether the identifier is one name: it is a simple path, or no
/// platform takes it for one.
pub open spec fn is_settled(key: WorktreeKey) -> bool {
    key matches WorktreeKey::Linked(id) ==> is_simple_path(id@) || forall|n: int|
        !(#[trigger] can_be_name(id@, n))
}

/// The name of the directory for administrative directories.
pub open spec fn worktrees_name() -> PartModel {
    PartModel::Normal(encode_utf8("worktrees"@))
}

/// The administrative directory of the worktree whose identifier has the components.
pub open spec fn admin_parts(repository: RepositoryModel, parts: Seq<PartModel>) -> Seq<PartModel> {
    repository.common_dir.parts.push(worktrees_name()) + parts
}

/// The directory is the administrative one of a linked worktree, whose identifier is one name.
pub open spec fn is_admin_dir(
    repository: RepositoryModel,
    key: WorktreeKey,
    directory: Seq<PartModel>,
) -> bool {
    key matches WorktreeKey::Linked(id) && exists|parts: Seq<PartModel>| #[trigger]
        are_components(id@, parts) && is_single_name(parts) && directory == admin_parts(
            repository,
            parts,
        )
}

/// The key is that of a linked worktree: its identifier is one name.
pub open spec fn is_linked_key(key: WorktreeKey) -> bool {
    key matches WorktreeKey::Linked(id) && exists|parts: Seq<PartModel>| #[trigger]
        are_components(id@, parts) && is_single_name(parts)
}

/// The key is that of the main worktree, or its identifier is not one name.
pub open spec fn is_no_linked_key(key: WorktreeKey) -> bool {
    key matches WorktreeKey::Linked(id) ==> exists|parts: Seq<PartModel>| #[trigger]
        are_components(id@, parts) && !is_single_name(parts)
}

/// What is wrong with a key.
pub open spec fn key_fault(key: WorktreeKey) -> GitError {
    match key {
        WorktreeKey::Main => GitError::MainWorktree,
        WorktreeKey::Linked(_) => GitError::InvalidIdentifier,
    }
}

/// The current directory is known not to lie in the checkout.
pub open spec fn is_elsewhere(checkout: Checkout) -> bool {
    &&& checkout.current_dir matches Ok(current)
    &&& checkout.real_path matches Ok(path)
    &&& !current@.is_within(path@)
}

/// Why the current directory is not known to lie elsewhere.
pub open spec fn place_fault(checkout: Checkout) -> GitError {
    match (checkout.current_dir, checkout.real_path) {
        (Err(message), _) => GitError::Failed(message),
        (_, Err(message)) => GitError::Failed(message),
        _ => GitError::CurrentDirectory,
    }
}

/// The worktree may be removed: the site is its own, and the current directory lies elsewhere.
pub open spec fn is_removable(key: WorktreeKey, site: Site) -> bool {
    &&& is_own_site(key, site)
    &&& site.checkout matches Some(checkout) ==> is_elsewhere(checkout)
}

/// The first thing that stands against removing a worktree.
pub open spec fn removal_fault(key: WorktreeKey, site: Site) -> GitError {
    if !is_own_site(key, site) {
        site_fault(key, site)
    } else {
        place_fault(site.checkout->0)
    }
}

/// The assessment says what the inspection found.
pub open spec fn is_assessment_of(assessment: DeletionAssessment, inspection: Inspection) -> bool {
    &&& assessment.missing == (inspection.site.checkout is None)
    &&& assessment.locked == inspection.locked
    &&& assessment.changes@ == changes_found(inspection)
}

/// The changes that an inspection found; none where there is no checkout.
pub open spec fn changes_found(inspection: Inspection) -> Seq<StatusEntry> {
    if inspection.site.checkout is None {
        Seq::empty()
    } else {
        inspection.status->Ok_0.entries@
    }
}

/// The worktree can be assessed: it may be removed, and its status is known where it matters.
pub open spec fn is_assessable(key: WorktreeKey, inspection: Inspection) -> bool {
    &&& is_removable(key, inspection.site)
    &&& inspection.site.checkout is Some ==> inspection.status is Ok
}

/// The inspection found local changes or a lock.
pub open spec fn found_obstacles(inspection: Inspection) -> bool {
    changes_found(inspection).len() > 0 || inspection.locked
}

/// Why a worktree cannot be assessed.
pub open spec fn assessment_fault(key: WorktreeKey, inspection: Inspection) -> GitError {
    if !is_removable(key, inspection.site) {
        removal_fault(key, inspection.site)
    } else {
        inspection.status->Err_0
    }
}

/// The answer is what an inspection tells about deleting a worktree, where the key is taken
/// for that of a linked worktree or is not.
pub open spec fn is_answer_to(
    is_linked: bool,
    key: WorktreeKey,
    inspection: Inspection,
    answer: Result<DeletionAssessment, GitError>,
) -> bool {
    match answer {
        Ok(assessment) => is_linked && is_assessable(key, inspection) && is_assessment_of(
            assessment,
            inspection,
        ),
        Err(error) => if is_linked {
            !is_assessable(key, inspection) && error == assessment_fault(key, inspection)
        } else {
            error == key_fault(key)
        },
    }
}

/// The answer is what an inspection tells about deleting a worktree.
pub open spec fn is_answer(
    key: WorktreeKey,
    inspection: Inspection,
    answer: Result<DeletionAssessment, GitError>,
) -> bool {
    match key {
        WorktreeKey::Main => is_answer_to(false, key, inspection, answer),
        WorktreeKey::Linked(id) => exists|parts: Seq<PartModel>| #[trigger]
            are_components(id@, parts) && is_answer_to(
                is_single_name(parts),
                key,
                inspection,
                answer,
            ),
    }
}

fn check_checkout(checkout: &Checkout, admin_dir: &FilePath) -> (r: Result<(), GitError>)
    ensures
        match r {
            Ok(()) => is_own_checkout(*checkout, *admin_dir),
            Err(error) => !is_own_checkout(*checkout, *admin_dir) && error == checkout_fault(
                *checkout,
                *admin_dir,
            ),
        },
{
    match &checkout.kind {
        Err(message) => return Err(GitError::Failed(message.clone())),
        Ok(kind) => if *kind != FileKind::Directory {
            return Err(GitError::NotADirectory);
        },
    }
    match &checkout.dot_git {
        Err(message) => return Err(GitError::Failed(message.clone())),
        Ok(kind) => if *kind != FileKind::File {
            return Err(GitError::GitEntryNotFile);
        },
    }
    let dirs = match &checkout.linked {
        Err(message) => return Err(GitError::Failed(message.clone())),
        Ok(dirs) => dirs,
    };
    match &dirs.git_dir {
        Err(message) => return Err(GitError::Failed(message.clone())),
        Ok(git_dir) => if !git_dir.is_same_place(admin_dir) {
            return Err(GitError::WrongMetadata);
        },
    }
    let common_dir = match &dirs.common_dir {
        Err(message) => return Err(GitError::Failed(message.clone())),
        Ok(common_dir) => common_dir,
    };
    match &checkout.expected_common {
        Err(message) => Err(GitError::Failed(message.clone())),
        Ok(expected) => if common_dir.is_same_place(expected) {
            Ok(())
        } else {
            Err(GitError::WrongRepository)
        },
    }
}

impl RepositoryManager {
    /// The directory for the administrative directories of worktrees.
    pub fn worktrees_dir(&self) -> (r: Vec<PathPart>)
        ensures
            parts_of(r@) == self@.common_dir.parts.push(worktrees_name()),
    {
        let mut directory = clone_parts(&self.common_dir.parts);
        let ghost before = directory@;
        directory.push(PathPart::Normal("worktrees".as_bytes_vec()));
        assert(parts_of(directory@) =~= parts_of(before).push(worktrees_name()));
        directory
    }

    /// Names the administrative directory of a linked worktree, given the components of its
    /// identifier, which has to be one name.
    pub fn join_admin_dir(&self, key: &WorktreeKey, parts: Vec<PathPart>) -> (r: Result<
        Vec<PathPart>,
        GitError,
    >)
        ensures
            match r {
                Ok(directory) => key is Linked && is_single_name(parts_of(parts@)) && parts_of(
                    directory@,
                ) == admin_parts(self@, parts_of(parts@)),
                Err(error) => !(key is Linked && is_single_name(parts_of(parts@))) && error
                    == key_fault(*key),
            },
    {
        if let WorktreeKey::Main = key {
            return Err(GitError::MainWorktree);
        }
        assert(parts_of(parts@).len() == parts.len());
        if parts.len() != 1 {
            return Err(GitError::InvalidIdentifier);
        }
        assert(parts_of(parts@)[0] == parts@[0]@);
        if let PathPart::Normal(_) = &parts[0] {
            let mut directory = self.worktrees_dir();
            let ghost before = directory@;
            let ghost added = parts@;
            let mut names = parts;
            directory.append(&mut names);
            assert(parts_of(directory@) =~= parts_of(before) + parts_of(added));
            Ok(directory)
        } else {
            Err(GitError::InvalidIdentifier)
        }
    }

    /// Names the administrative directory of a linked worktree: the one of its identifier, which
    /// has to be one name. The main worktree has none.
    pub fn admin_dir(&self, key: &WorktreeKey) -> (r: Result<Vec<PathPart>, GitError>)
        ensures
            match r {
                Ok(directory) => is_admin_dir(self@, *key, parts_of(directory@)),
                Err(error) => is_no_linked_key(*key) && error == key_fault(*key),
            },
            key matches WorktreeKey::Linked(id) ==> is_plain_name(id@) ==> (r matches Ok(directory)
                && parts_of(directory@) == self@.common_dir.parts + seq![
                worktrees_name(),
                PartModel::Normal(encode_utf8(id@)),
            ]),
    {
        let parts = match key {
            WorktreeKey::Main => Vec::new(),
            WorktreeKey::Linked(id) => components(id),
        };
        proof {
            if let WorktreeKey::Linked(id) = key {
                assert(are_components(id@, parts_of(parts@)));
                if is_plain_name(id@) {
                    plain_names_are_single(id@);
                    assert(admin_parts(self@, parts_of(parts@)) =~= self@.common_dir.parts + seq![
                        worktrees_name(),
                        PartModel::Normal(encode_utf8(id@)),
                    ]);
                }
            }
        }
        self.join_admin_dir(key, parts)
    }

    /// Checks that what is found at the site of a worktree is its own. Answers where the
    /// worktree is listed.
    pub fn check_site(&self, key: &WorktreeKey, site: &Site) -> (r: Result<usize, GitError>)
        ensures
            match r {
                Ok(at) => is_own_site(*key, *site) && is_found_at(
                    site.worktrees->Ok_0@,
                    key@,
                    at as int,
                ),
                Err(error) => !is_own_site(*key, *site) && error == site_fault(*key, *site),
            },
    {
        let worktrees = match &site.worktrees {
            Err(message) => return Err(GitError::Failed(message.clone())),
            Ok(worktrees) => worktrees,
        };
        let at = match self.find_worktree(worktrees, key) {
            Err(error) => return Err(error),
            Ok(at) => at,
        };
        assert(worktrees@[at as int]@.key == key@);
        let worktrees_dir = match &site.worktrees_dir {
            Err(message) => return Err(GitError::Failed(message.clone())),
            Ok(worktrees_dir) => worktrees_dir,
        };
        let admin_dir = match &site.admin_dir {
            Err(message) => return Err(GitError::Failed(message.clone())),
            Ok(admin_dir) => admin_dir,
        };
        if !admin_dir.is_child_of(worktrees_dir) {
            return Err(GitError::MetadataOutside);
        }
        if let Some(checkout) = &site.checkout {
            if let Err(error) = check_checkout(checkout, admin_dir) {
                return Err(error);
            }
        }
        Ok(at)
    }

    /// Checks that a worktree is a linked one and that what is found at its site is its own.
    /// Answers where the worktree is listed, and its administrative directory.
    pub fn validated_linked_worktree(&self, key: &WorktreeKey, site: &Site) -> (r: Result<
        (usize, Vec<PathPart>),
        GitError,
    >)
        ensures
            match r {
                Ok((at, directory)) => {
                    &&& is_own_site(*key, *site)
                    &&& is_found_at(site.worktrees->Ok_0@, key@, at as int)
                    &&& is_admin_dir(self@, *key, parts_of(directory@))
                },
                Err(error) => {
                    ||| is_no_linked_key(*key) && error == key_fault(*key)
                    ||| is_linked_key(*key) && !is_own_site(*key, *site) && error == site_fault(
                        *key,
                        *site,
                    )
                },
            },
            key matches WorktreeKey::Linked(id) ==> is_plain_name(id@) ==> match r {
                Ok((_, directory)) => parts_of(directory@) == self@.common_dir.parts + seq![
                    worktrees_name(),
                    PartModel::Normal(encode_utf8(id@)),
                ],
                Err(error) => !is_own_site(*key, *site) && error == site_fault(*key, *site),
            },
    {
        let directory = match self.admin_dir(key) {
            Err(error) => return Err(error),
            Ok(directory) => directory,
        };
        match self.check_site(key, site) {
            Err(error) => Err(error),
            Ok(at) => Ok((at, directory)),
        }
    }

    /// Refuses a worktree that the current directory lies in. Where nothing is checked out
    /// there is nothing to protect.
    pub fn protect_current_directory(&self, site: &Site) -> (r: Result<(), GitError>)
        ensures
            match r {
                Ok(()) => site.checkout matches Some(checkout) ==> is_elsewhere(checkout),
                Err(error) => site.checkout matches Some(checkout) && !is_elsewhere(checkout)
                    && error == place_fault(checkout),
            },
    {
        let checkout = match &site.checkout {
            None => return Ok(()),
            Some(checkout) => checkout,
        };
        let current = match &checkout.current_dir {
            Err(message) => return Err(GitError::Failed(message.clone())),
            Ok(current) => current,
        };
        let worktree = match &checkout.real_path {
            Err(message) => return Err(GitError::Failed(message.clone())),
            Ok(worktree) => worktree,
        };
        if current.starts_with(worktree) {
            return Err(GitError::CurrentDirectory);
        }
        Ok(())
    }

    /// Checks that a linked worktree may be removed. Answers where it is listed.
    pub fn check_removal(&self, key: &WorktreeKey, site: &Site) -> (r: Result<usize, GitError>)
        ensures
            match r {
                Ok(at) => is_removable(*key, *site) && is_found_at(
                    site.worktrees->Ok_0@,
                    key@,
                    at as int,
                ),
                Err(error) => !is_removable(*key, *site) && error == removal_fault(*key, *site),
            },
    {
        let at = match self.check_site(key, site) {
            Err(error) => return Err(error),
            Ok(at) => at,
        };
        match self.protect_current_directory(site) {
            Err(error) => Err(error),
            Ok(()) => Ok(at),
        }
    }

    /// Assesses what stands against deleting a linked worktree.
    pub fn assess_inspection(&self, key: &WorktreeKey, inspection: Inspection) -> (r: Result<
        DeletionAssessment,
        GitError,
    >)
        ensures
            is_answer_to(true, *key, inspection, r),
    {
        if let Err(error) = self.check_removal(key, &inspection.site) {
            return Err(error);
        }
        let missing = inspection.site.checkout.is_none();
        let changes = if missing {
            Vec::new()
        } else {
            match inspection.status {
                Err(error) => return Err(error),
                Ok(status) => status.entries,
            }
        };
        Ok(DeletionAssessment { changes, locked: inspection.locked, missing })
    }

    /// Assesses what stands against deleting a worktree. The main worktree, and an identifier
    /// that is not one name, are always refused.
    pub fn assess_deletion(&self, key: &WorktreeKey, inspection: Inspection) -> (r: Result<
        DeletionAssessment,
        GitError,
    >)
        ensures
            is_answer(*key, inspection, r),
    {
        if let Err(error) = self.validated_linked_worktree(key, &inspection.site) {
            return Err(error);
        }
        self.assess_inspection(key, inspection)
    }

    /// Begins to delete a worktree. The main worktree, and an identifier that is not one name,
    /// are refused before anything is looked at.
    pub fn delete_worktree(&self, key: WorktreeKey, force: bool) -> (r: Deletion)
        ensures
            is_start(self@, key, force, r),
    {
        match self.admin_dir(&key) {
            Err(error) => Deletion::Finished(Err(error)),
            Ok(directory) => Deletion::Inspect { key, directory, force },
        }
    }

    /// Goes on deleting a worktree after what was asked for has been done. An event that was
    /// not asked for changes nothing.
    pub fn continue_deletion(&self, deletion: Deletion, event: DeletionEvent) -> (r: Deletion)
        ensures
            is_step(deletion, event, r),
    {
        match (deletion, event) {
            (Deletion::Inspect { key, directory, force }, DeletionEvent::Inspected(inspection)) => {
                match self.assess_inspection(&key, inspection) {
                    Err(error) => Deletion::Finished(Err(error)),
                    Ok(assessment) => if assessment.requires_force() && !force {
                        Deletion::Finished(Ok(DeleteResult::NeedsForce(assessment)))
                    } else {
                        Deletion::Recheck { key, directory }
                    },
                }
            },
            (Deletion::Recheck { key, directory }, DeletionEvent::Rechecked(site)) => {
                match self.check_removal(&key, &site) {
                    Err(error) => Deletion::Finished(Err(error)),
                    Ok(at) => if site.checkout.is_some() {
                        Deletion::RemoveCheckout { at, directory }
                    } else {
                        Deletion::RemoveMetadata { directory }
                    },
                }
            },
            (
                Deletion::RemoveCheckout { directory, .. },
                DeletionEvent::Removed(result),
            ) => match result {
                Err(message) => Deletion::Finished(Err(GitError::Failed(message))),
                Ok(()) => Deletion::RemoveMetadata { directory },
            },
            (Deletion::RemoveMetadata { .. }, DeletionEvent::Removed(result)) => match result {
                Err(message) => Deletion::Finished(Err(GitError::Failed(message))),
                Ok(()) => Deletion::Finished(Ok(DeleteResult::Deleted)),
            },
            (deletion, _) => deletion,
        }
    }
}

/// How far the deletion of a worktree has come, and what has to be done next. The directory is
/// the administrative one, by its components.
#[derive(Debug)]
pub enum Deletion {
    /// Inspect the worktree.
    Inspect { key: WorktreeKey, directory: Vec<PathPart>, force: bool },
    /// Look at the site of the worktree once more.
    Recheck { key: WorktreeKey, directory: Vec<PathPart> },
    /// Remove the checkout of the worktree at this place of the list last looked at.
    RemoveCheckout { at: usize, directory: Vec<PathPart> },
    /// Remove the administrative directory.
    RemoveMetadata { directory: Vec<PathPart> },
    /// Nothing more is to be done.
    Finished(Result<DeleteResult, GitError>),
}

/// What came of a step of deleting a worktree.
#[derive(Debug)]
pub enum DeletionEvent {
    Inspected(Inspection),
    Rechecked(Site),
    Removed(Result<(), String>),
}

/// How deleting a worktree begins.
pub open spec fn is_start(
    repository: RepositoryModel,
    key: WorktreeKey,
    force: bool,
    deletion: Deletion,
) -> bool {
    match deletion {
        Deletion::Inspect { key: asked, directory, force: forced } => {
            &&& asked == key
            &&& forced == force
            &&& is_admin_dir(repository, key, parts_of(directory@))
        },
        Deletion::Finished(Err(error)) => is_no_linked_key(key) && error == key_fault(key),
        _ => false,
    }
}

/// What follows from a step of deleting a worktree.
pub open spec fn is_step(before: Deletion, event: DeletionEvent, after: Deletion) -> bool {
    match (before, event) {
        (Deletion::Inspect { key, directory, force }, DeletionEvent::Inspected(inspection)) => {
            if !is_assessable(key, inspection) {
                after == Deletion::Finished(Err(assessment_fault(key, inspection)))
            } else if found_obstacles(inspection) && !force {
                after matches Deletion::Finished(Ok(DeleteResult::NeedsForce(assessment)))
                    && is_assessment_of(assessment, inspection)
            } else {
                after == (Deletion::Recheck { key, directory })
            }
        },
        (Deletion::Recheck { key, directory }, DeletionEvent::Rechecked(site)) => {
            if !is_removable(key, site) {
                after == Deletion::Finished(Err(removal_fault(key, site)))
            } else if site.checkout is Some {
                after matches Deletion::RemoveCheckout { at, directory: kept } && kept == directory
                    && is_found_at(site.worktrees->Ok_0@, key@, at as int)
            } else {
                after == (Deletion::RemoveMetadata { directory })
            }
        },
        (Deletion::RemoveCheckout { directory, .. }, DeletionEvent::Removed(result)) => {
            match result {
                Ok(_) => after == (Deletion::RemoveMetadata { directory }),
                Err(message) => after == Deletion::Finished(Err(GitError::Failed(message))),
            }
        },
        (Deletion::RemoveMetadata { .. }, DeletionEvent::Removed(result)) => match result {
            Ok(_) => after == Deletion::Finished(Ok(DeleteResult::Deleted)),
            Err(message) => after == Deletion::Finished(Err(GitError::Failed(message))),
        },
        _ => after == before,
    }
}

/// The states that deleting a worktree goes through as events come in.
pub open spec fn is_course(
    repository: RepositoryModel,
    key: WorktreeKey,
    force: bool,
    states: Seq<Deletion>,
    events: Seq<DeletionEvent>,
) -> bool {
    &&& states.len() == events.len() + 1
    &&& is_start(repository, key, force, states[0])
    &&& forall|i: int| 0 <= i < events.len() ==> is_step(states[i], #[trigger] events[i], states[i + 1])
}

/// The administrative directory that a state carries.
pub open spec fn directory_of(deletion: Deletion) -> Option<Seq<PartModel>> {
    match deletion {
        Deletion::Inspect { directory, .. } => Some(parts_of(directory@)),
        Deletion::Recheck { directory, .. } => Some(parts_of(directory@)),
        Deletion::RemoveCheckout { directory, .. } => Some(parts_of(directory@)),
        Deletion::RemoveMetadata { directory } => Some(parts_of(directory@)),
        Deletion::Finished(_) => None,
    }
}

/// The deletion is about to remove something.
pub open spec fn is_removing(deletion: Deletion) -> bool {
    deletion is RemoveCheckout || deletion is RemoveMetadata
}

/// An inspection before step `n` allowed the deletion to go on: nothing stood against it, or
/// only what force overrides.
pub open spec fn was_cleared(
    key: WorktreeKey,
    force: bool,
    events: Seq<DeletionEvent>,
    n: int,
) -> bool {
    exists|i: int|
        0 <= i < n && i < events.len() && (#[trigger] events[i] matches DeletionEvent::Inspected(
            inspection,
        ) && is_assessable(key, inspection) && (found_obstacles(inspection) ==> force))
}

/// A second look at the site before step `n` found that the worktree may still be removed.
pub open spec fn was_rechecked(key: WorktreeKey, events: Seq<DeletionEvent>, n: int) -> bool {
    exists|i: int|
        0 <= i < n && i < events.len() && (#[trigger] events[i] matches DeletionEvent::Rechecked(site)
            && is_removable(key, site))
}

/// The last look at the site before step `n` found nothing checked out, or the checkout was
/// removed before step `n`.
pub open spec fn checkout_is_gone(
    states: Seq<Deletion>,
    events: Seq<DeletionEvent>,
    n: int,
) -> bool {
    exists|i: int|
        0 <= i < n && i < events.len() && match #[trigger] events[i] {
            DeletionEvent::Rechecked(site) => states[i] is Recheck && site.checkout is None,
            DeletionEvent::Removed(result) => states[i] is RemoveCheckout && result is Ok,
            _ => false,
        }
}

proof fn course_so_far(
    repository: RepositoryModel,
    key: WorktreeKey,
    force: bool,
    states: Seq<Deletion>,
    events: Seq<DeletionEvent>,
    n: int,
)
    requires
        is_course(repository, key, force, states, events),
        0 <= n < states.len(),
    ensures
        states[n] matches Deletion::Inspect { key: asked, force: forced, .. } ==> asked == key
            && forced == force,
        states[n] matches Deletion::Recheck { key: asked, .. } ==> asked == key,
        directory_of(states[n]) matches Some(directory) ==> is_admin_dir(repository, key, directory),
        directory_of(states[n]) is Some ==> directory_of(states[n]) == directory_of(states[0]),
        states[n] is Recheck || is_removing(states[n]) ==> was_cleared(key, force, events, n),
        is_removing(states[n]) ==> was_rechecked(key, events, n),
        states[n] is RemoveMetadata ==> checkout_is_gone(states, events, n),
        states[n] == Deletion::Finished(Ok(DeleteResult::Deleted)) ==> checkout_is_gone(
            states,
            events,
            n,
        ) && is_linked_key(key) && was_cleared(key, force, events, n) && was_rechecked(
            key,
            events,
            n,
        ),
    decreases n,
{
    if n > 0 {
        let before = states[n - 1];
        let event = events[n - 1];
        let after = states[n];
        course_so_far(repository, key, force, states, events, n - 1);
        assert(is_step(before, event, after));
        if was_cleared(key, force, events, n - 1) {
            assert(was_cleared(key, force, events, n));
        }
        if was_rechecked(key, events, n - 1) {
            assert(was_rechecked(key, events, n));
        }
        if checkout_is_gone(states, events, n - 1) {
            assert(checkout_is_gone(states, events, n));
        }
        match (before, event) {
            (Deletion::Inspect { .. }, DeletionEvent::Inspected(inspection)) => {
                if after is Recheck {
                    assert(is_assessable(key, inspection));
                    assert(was_cleared(key, force, events, n));
                }
            },
            (Deletion::Recheck { .. }, DeletionEvent::Rechecked(site)) => {
                if is_removing(after) {
                    assert(is_removable(key, site));
                    assert(was_rechecked(key, events, n));
                }
                if after is RemoveMetadata {
                    assert(checkout_is_gone(states, events, n));
                }
            },
            (Deletion::RemoveCheckout { .. }, DeletionEvent::Removed(result)) => {
                if result is Ok {
                    assert(checkout_is_gone(states, events, n));
                }
            },
            _ => {},
        }
    }
}

/// Whatever comes in, nothing of a worktree is removed but after an inspection of a linked
/// worktree, whose identifier is one name, found neither local changes nor a lock, or force was
/// given, and after a second look at its site found it to be the worktree's own and the current
/// directory elsewhere.
pub proof fn removal_is_earned(
    repository: RepositoryModel,
    key: WorktreeKey,
    force: bool,
    states: Seq<Deletion>,
    events: Seq<DeletionEvent>,
    n: int,
)
    requires
        is_course(repository, key, force, states, events),
        0 <= n < states.len(),
        is_removing(states[n]),
    ensures
        is_linked_key(key),
        was_cleared(key, force, events, n),
        was_rechecked(key, events, n),
        exists|i: int|
            0 <= i < n && (#[trigger] events[i] matches DeletionEvent::Inspected(inspection) && (
            force || !inspection.locked && (inspection.site.checkout is None
                || inspection.status->Ok_0.entries@.len() == 0))),
{
    course_so_far(repository, key, force, states, events, n);
    let i = choose|i: int|
        0 <= i < n && i < events.len() && (#[trigger] events[i] matches DeletionEvent::Inspected(
            inspection,
        ) && is_assessable(key, inspection) && (found_obstacles(inspection) ==> force));
    obstacles_are_changes_and_locks(events[i]->Inspected_0);
}

/// The administrative directory goes last: it is removed only when nothing is checked out any
/// more.
pub proof fn metadata_goes_last(
    repository: RepositoryModel,
    key: WorktreeKey,
    force: bool,
    states: Seq<Deletion>,
    events: Seq<DeletionEvent>,
    n: int,
)
    requires
        is_course(repository, key, force, states, events),
        0 <= n < states.len(),
        states[n] is RemoveMetadata,
    ensures
        checkout_is_gone(states, events, n),
{
    course_so_far(repository, key, force, states, events, n);
}

/// What is removed last is the administrative directory of the worktree: the one under the
/// common directory that its identifier names, the same at every step.
pub proof fn metadata_is_the_worktrees_own(
    repository: RepositoryModel,
    key: WorktreeKey,
    force: bool,
    states: Seq<Deletion>,
    events: Seq<DeletionEvent>,
    n: int,
)
    requires
        is_course(repository, key, force, states, events),
        0 <= n < states.len(),
        states[n] is RemoveMetadata,
    ensures
        directory_of(states[n]) == directory_of(states[0]),
        is_admin_dir(repository, key, directory_of(states[n])->0),
        key matches WorktreeKey::Linked(id) ==> is_plain_name(id@) ==> directory_of(states[n])->0
            == repository.common_dir.parts + seq![
            worktrees_name(),
            PartModel::Normal(encode_utf8(id@)),
        ],
{
    course_so_far(repository, key, force, states, events, n);
    if let WorktreeKey::Linked(id) = key {
        if is_plain_name(id@) {
            plain_names_are_single(id@);
            assert(admin_parts(repository, simple_parts(id@)) =~= repository.common_dir.parts + seq![
                worktrees_name(),
                PartModel::Normal(encode_utf8(id@)),
            ]);
        }
    }
}

/// The main worktree is never deleted: whatever comes in, the deletion stays refused.
pub proof fn main_worktree_stays(
    repository: RepositoryModel,
    force: bool,
    states: Seq<Deletion>,
    events: Seq<DeletionEvent>,
    n: int,
)
    requires
        is_course(repository, WorktreeKey::Main, force, states, events),
        0 <= n < states.len(),
    ensures
        states[n] == Deletion::Finished(Err(GitError::MainWorktree)),
    decreases n,
{
    if n > 0 {
        main_worktree_stays(repository, force, states, events, n - 1);
        assert(is_step(states[n - 1], events[n - 1], states[n]));
    }
}

/// A deletion that ended in success was that of a linked worktree, and was cleared and
/// rechecked before.
pub proof fn deleted_means_cleared(
    repository: RepositoryModel,
    key: WorktreeKey,
    force: bool,
    states: Seq<Deletion>,
    events: Seq<DeletionEvent>,
    n: int,
)
    requires
        is_course(repository, key, force, states, events),
        0 <= n < states.len(),
        states[n] == Deletion::Finished(Ok(DeleteResult::Deleted)),
    ensures
        is_linked_key(key),
        was_cleared(key, force, events, n),
        was_rechecked(key, events, n),
        checkout_is_gone(states, events, n),
{
    course_so_far(repository, key, force, states, events, n);
}

/// A worktree that may be removed is deleted once all steps have gone well: without local
/// changes and a lock, or by force.
pub proof fn removable_worktree_is_deleted(
    repository: RepositoryModel,
    key: WorktreeKey,
    force: bool,
    states: Seq<Deletion>,
    events: Seq<DeletionEvent>,
    inspection: Inspection,
    site: Site,
)
    requires
        is_course(repository, key, force, states, events),
        events == seq![
            DeletionEvent::Inspected(inspection),
            DeletionEvent::Rechecked(site),
            DeletionEvent::Removed(Ok(())),
            DeletionEvent::Removed(Ok(())),
        ],
        states[0] is Inspect,
        is_assessable(key, inspection),
        is_removable(key, site),
        found_obstacles(inspection) ==> force,
    ensures
        states[4] == Deletion::Finished(Ok(DeleteResult::Deleted)),
{
    assert(is_step(states[0], events[0], states[1]));
    assert(is_step(states[1], events[1], states[2]));
    assert(is_step(states[2], events[2], states[3]));
    assert(is_step(states[3], events[3], states[4]));
}

/// Local changes or a lock stop a deletion without force before anything is removed, whatever
/// comes in later. The answer says what was found.
pub proof fn obstacles_take_force(
    repository: RepositoryModel,
    key: WorktreeKey,
    states: Seq<Deletion>,
    events: Seq<DeletionEvent>,
    inspection: Inspection,
    n: int,
)
    requires
        is_course(repository, key, false, states, events),
        events.len() > 0,
        events[0] == DeletionEvent::Inspected(inspection),
        states[0] is Inspect,
        is_assessable(key, inspection),
        inspection.locked || (inspection.site.checkout is Some && (
        inspection.status matches Ok(status) && status.entries@.len() > 0)),
        1 <= n < states.len(),
    ensures
        states[n] matches Deletion::Finished(Ok(DeleteResult::NeedsForce(assessment))) && (
        assessment.changes@.len() > 0 || assessment.locked) && is_assessment_of(
            assessment,
            inspection,
        ),
        !(states[n] is RemoveCheckout) && !(states[n] is RemoveMetadata),
    decreases n,
{
    assert(is_step(states[n - 1], events[n - 1], states[n]));
    if n > 1 {
        obstacles_take_force(repository, key, states, events, inspection, n - 1);
    }
}

/// Force is never asked for where it was given.
pub proof fn force_is_not_asked_for_again(
    repository: RepositoryModel,
    key: WorktreeKey,
    states: Seq<Deletion>,
    events: Seq<DeletionEvent>,
    n: int,
)
    requires
        is_course(repository, key, true, states, events),
        0 <= n < states.len(),
    ensures
        !(states[n] matches Deletion::Finished(Ok(DeleteResult::NeedsForce(_)))),
    decreases n,
{
    if n > 0 {
        force_is_not_asked_for_again(repository, key, states, events, n - 1);
        course_so_far(repository, key, true, states, events, n - 1);
        assert(is_step(states[n - 1], events[n - 1], states[n]));
    }
}

/// Deleting a worktree goes by its assessment: on the same inspection, and where both take the
/// identifier for one name or both do not, what refuses the assessment refuses the deletion,
/// with or without force; force is asked for exactly where the assessment says so and none was
/// given, with the assessment as the answer; and only else does the deletion go on.
pub proof fn deletion_goes_by_the_assessment(
    repository: RepositoryModel,
    key: WorktreeKey,
    force: bool,
    states: Seq<Deletion>,
    events: Seq<DeletionEvent>,
    inspection: Inspection,
    answer: Result<DeletionAssessment, GitError>,
    n: int,
)
    requires
        is_course(repository, key, force, states, events),
        events.len() > 0,
        events[0] == DeletionEvent::Inspected(inspection),
        is_answer_to(states[0] is Inspect, key, inspection, answer),
        1 <= n < states.len(),
    ensures
        follows_assessment(force, answer, states, n),
    decreases n,
{
    assert(is_step(states[n - 1], events[n - 1], states[n]));
    if n > 1 {
        deletion_goes_by_the_assessment(
            repository,
            key,
            force,
            states,
            events,
            inspection,
            answer,
            n - 1,
        );
    }
}

/// The state after step `n` of a deletion goes by an assessment.
pub open spec fn follows_assessment(
    force: bool,
    answer: Result<DeletionAssessment, GitError>,
    states: Seq<Deletion>,
    n: int,
) -> bool {
    match answer {
        Err(error) => states[n] == Deletion::Finished(Err(error)),
        Ok(assessment) => if assessment.needs_force() && !force {
            states[n] matches Deletion::Finished(Ok(DeleteResult::NeedsForce(given)))
                && given.changes@ == assessment.changes@ && given.locked == assessment.locked
                && given.missing == assessment.missing
        } else {
            &&& states[1] is Recheck
            &&& states[n] !is Inspect
            &&& !(states[n] matches Deletion::Finished(Ok(DeleteResult::NeedsForce(_))))
        },
    }
}

/// A deletion goes by any assessment of the same inspection, whatever the key. Only of an
/// identifier that not every platform reads alike, one of the two may say that it is not one
/// name; of every other key, what refuses one refuses the other with the same error.
pub proof fn deletions_and_assessments_agree(
    repository: RepositoryModel,
    key: WorktreeKey,
    force: bool,
    states: Seq<Deletion>,
    events: Seq<DeletionEvent>,
    inspection: Inspection,
    answer: Result<DeletionAssessment, GitError>,
    n: int,
)
    requires
        is_course(repository, key, force, states, events),
        events.len() > 0,
        events[0] == DeletionEvent::Inspected(inspection),
        is_answer(key, inspection, answer),
        1 <= n < states.len(),
    ensures
        is_settled(key) ==> follows_assessment(force, answer, states, n),
        follows_assessment(force, answer, states, n) || answer == Err::<
            DeletionAssessment,
            GitError,
        >(GitError::InvalidIdentifier) || states[n] == Deletion::Finished(
            Err(GitError::InvalidIdentifier),
        ),
    decreases n,
{
    if is_answer_to(states[0] is Inspect, key, inspection, answer) {
        deletion_goes_by_the_assessment(
            repository,
            key,
            force,
            states,
            events,
            inspection,
            answer,
            n,
        );
    } else if n > 1 {
        deletions_and_assessments_agree(
            repository,
            key,
            force,
            states,
            events,
            inspection,
            answer,
            n - 1,
        );
    }
    assert(is_step(states[n - 1], events[n - 1], states[n]));
}

/// How far the deletion of a branch has come, and what has to be done next.
#[derive(Debug)]
pub enum BranchDeletion {
    /// Inspect the branch of this name and full reference name.
    Inspect { name: String, reference: String, force: bool },
    /// Delete this reference.
    Delete { reference: String },
    /// Nothing more is to be done.
    Finished(Result<BranchDeleteResult, GitError>),
}

/// What came of a step of deleting a branch.
pub enum BranchDeletionEvent {
    Inspected(BranchDeletionFacts),
    Deleted(Result<(), String>),
}

impl BranchDeletionEvent {
    pub open spec fn wf(self) -> bool {
        self matches BranchDeletionEvent::Inspected(facts) ==> facts.wf()
    }
}

/// How deleting a branch begins.
pub open spec fn is_branch_start(name: Seq<char>, force: bool, deletion: BranchDeletion) -> bool {
    match deletion {
        BranchDeletion::Inspect { name: asked, reference, force: forced } => {
            &&& asked@ == name
            &&& forced == force
            &&& reference@ == branch_reference(name)
            &&& name_fault(reference@) is None
        },
        BranchDeletion::Finished(Err(GitError::InvalidBranchName(shown, cause))) => {
            &&& shown@ == name
            &&& name_fault(branch_reference(name)) == Some(cause@)
        },
        _ => false,
    }
}

/// What follows from a step of deleting a branch.
pub open spec fn is_branch_step(
    before: BranchDeletion,
    event: BranchDeletionEvent,
    after: BranchDeletion,
) -> bool {
    match (before, event) {
        (
            BranchDeletion::Inspect { name, reference, force },
            BranchDeletionEvent::Inspected(facts),
        ) => if !facts.is_known() {
            after matches BranchDeletion::Finished(Err(error)) && facts.is_fault(error)
        } else if facts.is_checked_out(name@) {
            after == BranchDeletion::Finished(Err(GitError::CheckedOut(name)))
        } else if facts.is_unmerged() && !force {
            after matches BranchDeletion::Finished(Ok(BranchDeleteResult::NeedsForce(assessment)))
                && assessment@ == facts.assessment(name@)
        } else {
            after == (BranchDeletion::Delete { reference })
        },
        (BranchDeletion::Delete { .. }, BranchDeletionEvent::Deleted(result)) => match result {
            Ok(_) => after == BranchDeletion::Finished(Ok(BranchDeleteResult::Deleted)),
            Err(message) => after == BranchDeletion::Finished(Err(GitError::Failed(message))),
        },
        _ => after == before,
    }
}

impl RepositoryManager {
    /// Decides about deleting a branch after it has been assessed: a branch that is checked
    /// out is refused, and one that is not merged takes force.
    pub fn decide_branch_deletion(
        &self,
        name: String,
        reference: String,
        force: bool,
        assessment: BranchDeletionAssessment,
    ) -> (r: BranchDeletion)
        ensures
            r == if assessment.checked_out_paths@.len() > 0 {
                BranchDeletion::Finished(Err(GitError::CheckedOut(name)))
            } else if assessment.unmerged && !force {
                BranchDeletion::Finished(Ok(BranchDeleteResult::NeedsForce(assessment)))
            } else {
                BranchDeletion::Delete { reference }
            },
    {
        if !assessment.checked_out_paths.is_empty() {
            return BranchDeletion::Finished(Err(GitError::CheckedOut(name)));
        }
        if assessment.unmerged && !force {
            return BranchDeletion::Finished(Ok(BranchDeleteResult::NeedsForce(assessment)));
        }
        BranchDeletion::Delete { reference }
    }

    /// Begins to delete a branch. A name that cannot be that of a local branch is refused.
    pub fn delete_branch(&self, name: &str, force: bool) -> (r: BranchDeletion)
        ensures
            is_branch_start(name@, force, r),
    {
        match local_branch_reference(name) {
            Ok(reference) => BranchDeletion::Inspect { name: name.to_owned(), reference, force },
            Err(error) => BranchDeletion::Finished(Err(error)),
        }
    }

    /// Goes on deleting a branch after what was asked for has been done. An event that was
    /// not asked for changes nothing.
    pub fn continue_branch_deletion(
        &self,
        deletion: BranchDeletion,
        event: BranchDeletionEvent,
    ) -> (r: BranchDeletion)
        requires
            event.wf(),
        ensures
            is_branch_step(deletion, event, r),
    {
        match (deletion, event) {
            (
                BranchDeletion::Inspect { name, reference, force },
                BranchDeletionEvent::Inspected(facts),
            ) => match self.assess_known_branch(&name, &facts) {
                Err(error) => BranchDeletion::Finished(Err(error)),
                Ok(assessment) => {
                    assert(assessment@.checked_out_paths.len()
                        == assessment.checked_out_paths@.len());
                    self.decide_branch_deletion(name, reference, force, assessment)
                },
            },
            (BranchDeletion::Delete { .. }, BranchDeletionEvent::Deleted(result)) => match result {
                Err(message) => BranchDeletion::Finished(Err(GitError::Failed(message))),
                Ok(()) => BranchDeletion::Finished(Ok(BranchDeleteResult::Deleted)),
            },
            (deletion, _) => deletion,
        }
    }
}

/// The states that deleting a branch goes through as events come in.
pub open spec fn is_branch_course(
    name: Seq<char>,
    force: bool,
    states: Seq<BranchDeletion>,
    events: Seq<BranchDeletionEvent>,
) -> bool {
    &&& states.len() == events.len() + 1
    &&& is_branch_start(name, force, states[0])
    &&& forall|i: int|
        0 <= i < events.len() ==> is_branch_step(states[i], #[trigger] events[i], states[i + 1])
}

/// An inspection before step `n` found the branch checked out nowhere, and merged unless
/// force was given.
pub open spec fn branch_was_cleared(
    name: Seq<char>,
    force: bool,
    events: Seq<BranchDeletionEvent>,
    n: int,
) -> bool {
    exists|i: int|
        0 <= i < n && i < events.len() && (
        #[trigger] events[i] matches BranchDeletionEvent::Inspected(facts) && facts.is_known()
            && !facts.is_checked_out(name) && (facts.is_unmerged() ==> force))
}

/// Whatever comes in, the only reference that is deleted is that of the local branch asked
/// for, and only after an inspection found it checked out nowhere, and merged unless force
/// was given.
pub proof fn branch_removal_is_earned(
    name: Seq<char>,
    force: bool,
    states: Seq<BranchDeletion>,
    events: Seq<BranchDeletionEvent>,
    n: int,
)
    requires
        is_branch_course(name, force, states, events),
        0 <= n < states.len(),
    ensures
        states[n] matches BranchDeletion::Delete { reference } ==> reference@ == branch_reference(
            name,
        ) && branch_was_cleared(name, force, events, n),
        states[n] == BranchDeletion::Finished(Ok(BranchDeleteResult::Deleted))
            ==> branch_was_cleared(name, force, events, n),
        states[n] matches BranchDeletion::Inspect { name: asked, reference, force: forced }
            ==> asked@ == name && reference@ == branch_reference(name) && forced == force,
    decreases n,
{
    if n > 0 {
        let before = states[n - 1];
        let event = events[n - 1];
        let after = states[n];
        branch_removal_is_earned(name, force, states, events, n - 1);
        assert(is_branch_step(before, event, after));
        if branch_was_cleared(name, force, events, n - 1) {
            assert(branch_was_cleared(name, force, events, n));
        }
        match (before, event) {
            (BranchDeletion::Inspect { .. }, BranchDeletionEvent::Inspected(_)) => {
                if after is Delete {
                    assert(branch_was_cleared(name, force, events, n));
                }
            },
            _ => {},
        }
    }
}

/// A branch that is checked out nowhere is deleted once all steps have gone well: where it is
/// merged, or by force.
pub proof fn removable_branch_is_deleted(
    name: Seq<char>,
    force: bool,
    states: Seq<BranchDeletion>,
    events: Seq<BranchDeletionEvent>,
    facts: BranchDeletionFacts,
)
    requires
        is_branch_course(name, force, states, events),
        states[0] is Inspect,
        events == seq![
            BranchDeletionEvent::Inspected(facts),
            BranchDeletionEvent::Deleted(Ok(())),
        ],
        facts.is_known(),
        !facts.is_checked_out(name),
        facts.is_unmerged() ==> force,
    ensures
        states[2] == BranchDeletion::Finished(Ok(BranchDeleteResult::Deleted)),
{
    assert(is_branch_step(states[0], events[0], states[1]));
    assert(is_branch_step(states[1], events[1], states[2]));
}

/// A branch that is checked out is never deleted, not even by force: whatever comes in later,
/// the deletion stays refused.
pub proof fn checked_out_branch_stays(
    name: Seq<char>,
    force: bool,
    states: Seq<BranchDeletion>,
    events: Seq<BranchDeletionEvent>,
    facts: BranchDeletionFacts,
    n: int,
)
    requires
        is_branch_course(name, force, states, events),
        events.len() > 0,
        events[0] == BranchDeletionEvent::Inspected(facts),
        facts.is_known(),
        states[0] is Inspect,
        facts.is_checked_out(name),
        1 <= n < states.len(),
    ensures
        states[n] matches BranchDeletion::Finished(Err(GitError::CheckedOut(shown))) && shown@
            == name,
    decreases n,
{
    assert(is_branch_step(states[n - 1], events[n - 1], states[n]));
    if n > 1 {
        checked_out_branch_stays(name, force, states, events, facts, n - 1);
    }
}

/// A branch that is not merged is not deleted without force: whatever comes in later, the
/// deletion stays stopped.
pub proof fn unmerged_branch_takes_force(
    name: Seq<char>,
    states: Seq<BranchDeletion>,
    events: Seq<BranchDeletionEvent>,
    facts: BranchDeletionFacts,
    n: int,
)
    requires
        is_branch_course(name, false, states, events),
        events.len() > 0,
        events[0] == BranchDeletionEvent::Inspected(facts),
        facts.is_known(),
        states[0] is Inspect,
        !facts.is_checked_out(name),
        facts.is_unmerged(),
        1 <= n < states.len(),
    ensures
        states[n] matches BranchDeletion::Finished(Ok(BranchDeleteResult::NeedsForce(_))),
    decreases n,
{
    assert(is_branch_step(states[n - 1], events[n - 1], states[n]));
    if n > 1 {
        unmerged_branch_takes_force(name, states, events, facts, n - 1);
    }
}

/// What stands against a deletion is a lock, or a single change of whatever area and kind in a
/// checkout that is there.
pub proof fn obstacles_are_changes_and_locks(inspection: Inspection)
    ensures
        inspection.locked ==> found_obstacles(inspection),
        inspection.site.checkout is Some && (inspection.status matches Ok(status)
            && status.entries@.len() > 0) ==> found_obstacles(inspection),
        found_obstacles(inspection) && !inspection.locked ==> inspection.site.checkout is Some
            && inspection.status->Ok_0.entries@.len() > 0,
{
}

/// An assessment lists all changes of the status and no others, and tells a lock and a missing
/// checkout as they were found; without a checkout there are no changes.
pub proof fn assessments_tell_what_was_found(
    key: WorktreeKey,
    inspection: Inspection,
    answer: Result<DeletionAssessment, GitError>,
)
    requires
        is_answer(key, inspection, answer),
    ensures
        key is Main ==> answer == Err::<DeletionAssessment, GitError>(GitError::MainWorktree),
        answer matches Ok(assessment) ==> {
            &&& assessment.locked == inspection.locked
            &&& assessment.missing <==> inspection.site.checkout is None
            &&& inspection.site.checkout is None ==> assessment.changes@.len() == 0
            &&& inspection.site.checkout is Some ==> (inspection.status matches Ok(status)
                && assessment.changes@ == status.entries@)
            &&& may_be_removed(key, inspection.site)
        },
        key matches WorktreeKey::Linked(id) ==> (is_plain_name(id@) ==> (answer is Ok
            <==> may_be_removed(key, inspection.site) && (inspection.site.checkout is Some
            ==> inspection.status is Ok))),
{
    removable_sites_are_the_worktrees_own(key, inspection.site);
    if let WorktreeKey::Linked(id) = key {
        if is_plain_name(id@) {
            plain_names_are_single(id@);
        }
    }
}

/// A worktree may be removed from a site where it is listed, its administrative directory
/// stands in the directory for those, and, if something is checked out, that is a directory
/// with a `.git` file that leads to this administrative directory and to the same repository,
/// and the current directory is not that one or below it.
pub open spec fn may_be_removed(key: WorktreeKey, site: Site) -> bool {
    &&& site.worktrees matches Ok(worktrees)
    &&& exists|i: int| 0 <= i < worktrees@.len() && (#[trigger] worktrees@[i]).key@ == key@
    &&& site.worktrees_dir matches Ok(worktrees_dir)
    &&& site.admin_dir matches Ok(admin_dir)
    &&& admin_dir@.parts.len() == worktrees_dir@.parts.len() + 1
    &&& worktrees_dir@.parts.is_prefix_of(admin_dir@.parts)
    &&& !(admin_dir@.parts.last() is Root) && !(admin_dir@.parts.last() is Prefix)
    &&& site.checkout matches Some(checkout) ==> {
        &&& checkout.kind matches Ok(kind)
        &&& kind is Directory
        &&& checkout.dot_git matches Ok(dot_git)
        &&& dot_git is File
        &&& checkout.linked matches Ok(dirs)
        &&& dirs.git_dir matches Ok(git_dir)
        &&& git_dir@.parts == admin_dir@.parts
        &&& dirs.common_dir matches Ok(common_dir)
        &&& checkout.expected_common matches Ok(expected)
        &&& common_dir@.parts == expected@.parts
        &&& checkout.current_dir matches Ok(current)
        &&& checkout.real_path matches Ok(path)
        &&& !path@.parts.is_prefix_of(current@.parts)
    }
}

/// Exactly such worktrees are removed.
pub proof fn removable_sites_are_the_worktrees_own(key: WorktreeKey, site: Site)
    ensures
        is_removable(key, site) <==> may_be_removed(key, site),
{
    if let Ok(worktrees) = site.worktrees {
        assert(forall|i: int| (#[trigger] worktrees@[i])@.key == worktrees@[i].key@);
        if let (Ok(worktrees_dir), Ok(admin_dir)) = (site.worktrees_dir, site.admin_dir) {
            let admin = admin_dir@.parts;
            if admin.len() > 0 {
                assert(admin.drop_last() == admin.take(admin.len() - 1));
                if may_be_removed(key, site) {
                    assert(worktrees_dir@.parts =~= admin.drop_last());
                }
            }
        }
    }
}

/// A refusal to remove a worktree names its cause.
pub proof fn refusals_name_their_cause(key: WorktreeKey, site: Site, error: GitError)
    requires
        !is_removable(key, site),
        error == removal_fault(key, site),
    ensures
        error is WorktreeGone ==> (site.worktrees matches Ok(worktrees) && forall|i: int|
            0 <= i < worktrees@.len() ==> (#[trigger] worktrees@[i]).key@ != key@),
        error is MetadataOutside ==> (site.worktrees_dir matches Ok(worktrees_dir)
            && site.admin_dir matches Ok(admin_dir) && !(admin_dir@.has_parent(worktrees_dir@))),
        error is NotADirectory ==> (site.checkout matches Some(checkout)
            && checkout.kind matches Ok(kind) && !(kind is Directory)),
        error is GitEntryNotFile ==> (site.checkout matches Some(checkout)
            && checkout.dot_git matches Ok(kind) && !(kind is File)),
        error is WrongMetadata ==> (site.checkout matches Some(checkout)
            && checkout.linked matches Ok(dirs) && dirs.git_dir matches Ok(git_dir)
            && git_dir@.parts != site.admin_dir->Ok_0@.parts),
        error is WrongRepository ==> (site.checkout matches Some(checkout)
            && checkout.linked matches Ok(dirs) && dirs.common_dir matches Ok(common_dir)
            && checkout.expected_common matches Ok(expected) && common_dir@.parts
            != expected@.parts),
        error is CurrentDirectory ==> (site.checkout matches Some(checkout)
            && checkout.current_dir matches Ok(current) && checkout.real_path matches Ok(path)
            && path@.parts.is_prefix_of(current@.parts)),
        error is WorktreeGone || error is MetadataOutside || error is NotADirectory
            || error is GitEntryNotFile || error is WrongMetadata || error is WrongRepository
            || error is CurrentDirectory || error is Failed,
        site.worktrees matches Err(message) ==> error == GitError::Failed(message),
        site.worktrees matches Ok(worktrees) ==> ((forall|i: int|
            0 <= i < worktrees@.len() ==> (#[trigger] worktrees@[i]).key@ != key@)
            ==> error is WorktreeGone),
{
    if let Ok(worktrees) = site.worktrees {
        assert(forall|i: int| (#[trigger] worktrees@[i])@.key == worktrees@[i].key@);
    }
}

/// A deletion begins with an inspection where the identifier is one plain name, of that
/// worktree and with the force that was asked for; the main worktree is refused at once.
pub proof fn deletions_of_plain_names_begin(
    repository: RepositoryModel,
    key: WorktreeKey,
    force: bool,
    deletion: Deletion,
)
    requires
        is_start(repository, key, force, deletion),
    ensures
        key is Main ==> deletion == Deletion::Finished(Err(GitError::MainWorktree)),
        key matches WorktreeKey::Linked(id) ==> (is_plain_name(id@) ==> (
        deletion matches Deletion::Inspect { key: asked, directory, force: forced } && asked == key
            && forced == force && parts_of(directory@) == repository.common_dir.parts + seq![
            PartModel::Normal(encode_utf8("worktrees"@)),
            PartModel::Normal(encode_utf8(id@)),
        ])),
{
    if let WorktreeKey::Linked(id) = key {
        if is_plain_name(id@) {
            plain_names_are_single(id@);
            assert(admin_parts(repository, simple_parts(id@)) =~= repository.common_dir.parts + seq![
                PartModel::Normal(encode_utf8("worktrees"@)),
                PartModel::Normal(encode_utf8(id@)),
            ]);
        }
    }
}

/// An identifier that is empty, `.` or `..`, that starts with a slash, or that is two plain
/// names with a slash between them, is refused.
pub proof fn other_identifiers_are_refused(
    repository: RepositoryModel,
    id: String,
    left: Seq<char>,
    right: Seq<char>,
    force: bool,
    deletion: Deletion,
)
    requires
        is_start(repository, WorktreeKey::Linked(id), force, deletion),
        ({
            ||| id@.len() == 0
            ||| id@ == seq!['.']
            ||| id@ == seq!['.', '.']
            ||| id@.len() > 0 && id@[0] == '/'
            ||| is_plain_name(left) && is_plain_name(right) && id@ == left + seq!['/'] + right
        }),
    ensures
        deletion == Deletion::Finished(Err(GitError::InvalidIdentifier)),
{
    other_identifiers_are_no_names(id, left, right);
}

/// Such an identifier is not assessed either.
pub proof fn other_identifiers_are_not_assessed(
    id: String,
    left: Seq<char>,
    right: Seq<char>,
    inspection: Inspection,
    answer: Result<DeletionAssessment, GitError>,
)
    requires
        is_answer(WorktreeKey::Linked(id), inspection, answer),
        ({
            ||| id@.len() == 0
            ||| id@ == seq!['.']
            ||| id@ == seq!['.', '.']
            ||| id@.len() > 0 && id@[0] == '/'
            ||| is_plain_name(left) && is_plain_name(right) && id@ == left + seq!['/'] + right
        }),
    ensures
        answer == Err::<DeletionAssessment, GitError>(GitError::InvalidIdentifier),
{
    other_identifiers_are_no_names(id, left, right);
}

proof fn other_identifiers_are_no_names(id: String, left: Seq<char>, right: Seq<char>)
    requires
        ({
            ||| id@.len() == 0
            ||| id@ == seq!['.']
            ||| id@ == seq!['.', '.']
            ||| id@.len() > 0 && id@[0] == '/'
            ||| is_plain_name(left) && is_plain_name(right) && id@ == left + seq!['/'] + right
        }),
    ensures
        forall|n: int| !(#[trigger] can_be_name(id@, n)),
{
    assert forall|n: int| !(#[trigger] can_be_name(id@, n)) by {
        if can_be_name(id@, n) {
            if id@.len() == 1 {
                assert(id@.take(n) =~= id@);
            } else if id@ == seq!['.', '.'] {
                if n == 2 {
                    assert(id@.take(n) =~= id@);
                } else {
                    assert(id@.take(n) =~= seq!['.']);
                }
            } else if is_plain_name(left) && is_plain_name(right) && id@ == left + seq!['/']
                + right {
                let at = left.len() as int;
                assert(id@[at] == '/');
                assert forall|i: int| 0 <= i < right.len() implies id@[at + 1 + i]
                    == #[trigger] right[i] by {}
                if n <= at {
                    if right.len() > 1 {
                        assert(right[0] == id@[at + 1]);
                        assert(right[1] == id@[at + 2]);
                    } else {
                        assert(right[0] == id@[at + 1]);
                        assert(right =~= seq![right[0]]);
                    }
                }
            }
        }
    }
}

/// What an inspection and a second look decide, in full: refused where the worktree may not be
/// removed or its status is not known; stopped where a change or a lock was found and force
/// was not given; else gone on with, and the checkout removed first where there is one.
pub proof fn deletions_go_on_where_they_may(
    before: Deletion,
    event: DeletionEvent,
    after: Deletion,
)
    requires
        is_step(before, event, after),
    ensures
        before is Finished ==> after == before,
        before matches Deletion::Inspect { key, directory, force } ==> (
        event matches DeletionEvent::Inspected(inspection) ==> {
            let found = inspection.locked || (inspection.site.checkout is Some
                && inspection.status->Ok_0.entries@.len() > 0);
            let known = may_be_removed(key, inspection.site) && (inspection.site.checkout is Some
                ==> inspection.status is Ok);
            &&& !known ==> after is Finished && after->Finished_0 is Err
            &&& known && found && !force ==> (after matches Deletion::Finished(
                Ok(DeleteResult::NeedsForce(assessment)),
            ) && assessment.locked == inspection.locked && (inspection.site.checkout is Some
                ==> assessment.changes@ == inspection.status->Ok_0.entries@))
            &&& known && (!found || force) ==> after == (Deletion::Recheck { key, directory })
        }),
        before matches Deletion::Recheck { key, directory } ==> (
        event matches DeletionEvent::Rechecked(site) ==> {
            &&& !may_be_removed(key, site) ==> after is Finished && after->Finished_0 is Err
            &&& may_be_removed(key, site) && site.checkout is None ==> after == (
            Deletion::RemoveMetadata { directory })
            &&& may_be_removed(key, site) && site.checkout is Some ==> (
            after matches Deletion::RemoveCheckout { at, directory: kept } && kept == directory
                && at < site.worktrees->Ok_0@.len() && site.worktrees->Ok_0@[at as int].key@ == key@
                && forall|i: int|
                0 <= i < at ==> (#[trigger] site.worktrees->Ok_0@[i]).key@ != key@)
        }),
        before matches Deletion::RemoveCheckout { directory, .. } ==> (
        event matches DeletionEvent::Removed(result) ==> match result {
            Ok(_) => after == (Deletion::RemoveMetadata { directory }),
            Err(message) => after == Deletion::Finished(Err(GitError::Failed(message))),
        }),
        before is RemoveMetadata ==> (event matches DeletionEvent::Removed(result)
            ==> match result {
            Ok(_) => after == Deletion::Finished(Ok(DeleteResult::Deleted)),
            Err(message) => after == Deletion::Finished(Err(GitError::Failed(message))),
        }),
{
    match (before, event) {
        (Deletion::Inspect { key, .. }, DeletionEvent::Inspected(inspection)) => {
            removable_sites_are_the_worktrees_own(key, inspection.site);
            obstacles_are_changes_and_locks(inspection);
        },
        (Deletion::Recheck { key, .. }, DeletionEvent::Rechecked(site)) => {
            removable_sites_are_the_worktrees_own(key, site);
            if site.checkout is Some && may_be_removed(key, site) {
                let at = after->RemoveCheckout_at as int;
                let worktrees = site.worktrees->Ok_0@;
                assert(worktrees[at]@.key == key@);
                assert(forall|i: int| (#[trigger] worktrees[i])@.key == worktrees[i].key@);
            }
        },
        _ => {},
    }
}

/// Deleting a branch begins with an inspection of the local branch of that name, unless there
/// cannot be one.
pub proof fn branch_deletions_begin(name: Seq<char>, force: bool, deletion: BranchDeletion)
    requires
        is_branch_start(name, force, deletion),
    ensures
        name_fault("refs/heads/"@ + name) is None <==> deletion is Inspect,
        deletion matches BranchDeletion::Inspect { name: asked, reference, force: forced } ==> asked@
            == name && forced == force && reference@ == "refs/heads/"@ + name,
        !(deletion is Inspect) ==> (deletion matches BranchDeletion::Finished(
            Err(GitError::InvalidBranchName(shown, cause)),
        ) && shown@ == name && name_fault("refs/heads/"@ + name) == Some(cause@)),
{
}

/// A branch that any entry of the list shows as checked out is never deleted, with or without
/// force, where each name is listed once.
pub proof fn branches_in_use_stay(
    name: Seq<char>,
    force: bool,
    states: Seq<BranchDeletion>,
    events: Seq<BranchDeletionEvent>,
    facts: BranchDeletionFacts,
    branches: Seq<BranchInfo>,
    i: int,
    n: int,
)
    requires
        is_branch_course(name, force, states, events),
        events.len() > 0,
        events[0] == BranchDeletionEvent::Inspected(facts),
        facts.branches matches Ok(listed) && listed@ == branches,
        0 <= i < branches.len(),
        branches[i].name@ == name,
        branches[i].checked_out_paths@.len() > 0,
        forall|j: int, k: int|
            0 <= j < k < branches.len() ==> (#[trigger] branches[j]).name@ != (
            #[trigger] branches[k]).name@,
        1 <= n < states.len(),
    ensures
        !(states[n] is Delete),
        states[n] != BranchDeletion::Finished(Ok(BranchDeleteResult::Deleted)),
        states[0] is Inspect && facts.tip is Ok && (facts.head is None || facts.head->0 is Ok) ==> (
        states[n] matches BranchDeletion::Finished(Err(GitError::CheckedOut(shown))) && shown@
            == name),
    decreases n,
{
    assert(is_branch_step(states[n - 1], events[n - 1], states[n]));
    branch_assessments_tell_what_was_found(name, facts, arbitrary());
    if n > 1 {
        branches_in_use_stay(name, force, states, events, facts, branches, i, n - 1);
        branches_finish_at_once(name, force, states, events, facts, n - 1);
    }
    if n == 1 {
        assert forall|j: int| 0 <= j < i implies (#[trigger] branches[j]).name@ != name by {
            assert(branches[i].name@ == name);
        }
    }
}

proof fn branches_finish_at_once(
    name: Seq<char>,
    force: bool,
    states: Seq<BranchDeletion>,
    events: Seq<BranchDeletionEvent>,
    facts: BranchDeletionFacts,
    n: int,
)
    requires
        is_branch_course(name, force, states, events),
        events.len() > 0,
        events[0] == BranchDeletionEvent::Inspected(facts),
        1 <= n < states.len(),
    ensures
        states[n] is Delete || states[n] is Finished,
    decreases n,
{
    assert(is_branch_step(states[n - 1], events[n - 1], states[n]));
    if n > 1 {
        branches_finish_at_once(name, force, states, events, facts, n - 1);
    }
}

/// What an inspection of a branch decides, in full: refused where something is not known or
/// the first entry of the branch names a place; stopped where `HEAD` does not reach its tip,
/// or there is none, and force was not given; else its reference is deleted.
pub proof fn branch_deletions_go_on_where_they_may(
    before: BranchDeletion,
    event: BranchDeletionEvent,
    after: BranchDeletion,
)
    requires
        is_branch_step(before, event, after),
    ensures
        before is Finished ==> after == before,
        before matches BranchDeletion::Inspect { name, reference, force } ==> (
        event matches BranchDeletionEvent::Inspected(facts) ==> {
            let known = facts.tip is Ok && facts.branches is Ok && (facts.head is None
                || facts.head->0 is Ok);
            let branches = facts.branches->Ok_0@;
            let merged = facts.head matches Some(Ok(commits)) && commits@.contains(
                facts.tip->Ok_0,
            );
            &&& !known ==> after is Finished && after->Finished_0 is Err
            &&& known ==> forall|i: int|
                0 <= i < branches.len() && (#[trigger] branches[i]).name@ == name@ && (forall|
                    j: int,
                |
                    0 <= j < i ==> (#[trigger] branches[j]).name@ != name@) ==> {
                    let places = branches[i].checked_out_paths@;
                    &&& places.len() > 0 ==> after == BranchDeletion::Finished(
                        Err(GitError::CheckedOut(name)),
                    )
                    &&& places.len() == 0 && !merged && !force ==> (
                    after matches BranchDeletion::Finished(
                        Ok(BranchDeleteResult::NeedsForce(assessment)),
                    ) && assessment.unmerged && assessment.checked_out_paths@.len() == 0)
                    &&& places.len() == 0 && (merged || force) ==> after == (
                    BranchDeletion::Delete { reference })
                }
            &&& known && (forall|i: int|
                0 <= i < branches.len() ==> (#[trigger] branches[i]).name@ != name@) ==> {
                &&& !merged && !force ==> (after matches BranchDeletion::Finished(
                    Ok(BranchDeleteResult::NeedsForce(assessment)),
                ) && assessment.unmerged)
                &&& merged || force ==> after == (BranchDeletion::Delete { reference })
            }
        }),
        before is Delete ==> (event matches BranchDeletionEvent::Deleted(result) ==> match result {
            Ok(_) => after == BranchDeletion::Finished(Ok(BranchDeleteResult::Deleted)),
            Err(message) => after == BranchDeletion::Finished(Err(GitError::Failed(message))),
        }),
{
    if let (BranchDeletion::Inspect { name, .. }, BranchDeletionEvent::Inspected(facts)) = (
        before,
        event,
    ) {
        branch_assessments_tell_what_was_found(name@, facts, arbitrary());
        if let BranchDeletion::Finished(Ok(BranchDeleteResult::NeedsForce(assessment))) = after {
            assert(assessment@.checked_out_paths.len() == assessment.checked_out_paths@.len());
        }
    }
}

/// What stands against removing a worktree is told in this order: that the list of worktrees
/// cannot be read or does not name it, that the two administrative directories cannot be found
/// or are apart, that its checkout is not a directory, has no `.git` file or belongs to another
/// worktree or repository, and that the current directory is in it.
pub proof fn refusals_come_in_order(key: WorktreeKey, site: Site, error: GitError)
    requires
        error == removal_fault(key, site),
        !may_be_removed(key, site),
    ensures
        site.worktrees matches Err(message) ==> error == GitError::Failed(message),
        site.worktrees matches Ok(worktrees) ==> {
            let listed = exists|i: int|
                0 <= i < worktrees@.len() && (#[trigger] worktrees@[i]).key@ == key@;
            &&& !listed ==> error is WorktreeGone
            &&& listed ==> match (site.worktrees_dir, site.admin_dir) {
                (Err(message), _) => error == GitError::Failed(message),
                (Ok(_), Err(message)) => error == GitError::Failed(message),
                (Ok(worktrees_dir), Ok(admin_dir)) => {
                    let inside = admin_dir@.parts.len() == worktrees_dir@.parts.len() + 1
                        && worktrees_dir@.parts.is_prefix_of(admin_dir@.parts) && !(
                    admin_dir@.parts.last() is Root) && !(admin_dir@.parts.last() is Prefix);
                    &&& !inside ==> error is MetadataOutside
                    &&& inside ==> (site.checkout matches Some(checkout) && is_told_of(
                        checkout,
                        admin_dir,
                        error,
                    ))
                },
            }
        },
{
    removable_sites_are_the_worktrees_own(key, site);
    if let Ok(worktrees) = site.worktrees {
        assert(forall|i: int| (#[trigger] worktrees@[i])@.key == worktrees@[i].key@);
        if let (Ok(worktrees_dir), Ok(admin_dir)) = (site.worktrees_dir, site.admin_dir) {
            let admin = admin_dir@.parts;
            if admin.len() > 0 {
                assert(admin.drop_last() == admin.take(admin.len() - 1));
                if admin.len() == worktrees_dir@.parts.len() + 1
                    && worktrees_dir@.parts.is_prefix_of(admin) {
                    assert(worktrees_dir@.parts =~= admin.drop_last());
                }
            }
        }
    }
}

/// The error is that of the first thing that is wrong with a checkout.
pub open spec fn is_told_of(checkout: Checkout, admin_dir: FilePath, error: GitError) -> bool {
    match checkout.kind {
        Err(message) => error == GitError::Failed(message),
        Ok(kind) => if !(kind is Directory) {
            error is NotADirectory
        } else {
            match checkout.dot_git {
                Err(message) => error == GitError::Failed(message),
                Ok(dot_git) => if !(dot_git is File) {
                    error is GitEntryNotFile
                } else {
                    match checkout.linked {
                        Err(message) => error == GitError::Failed(message),
                        Ok(dirs) => is_told_of_dirs(checkout, dirs, admin_dir, error),
                    }
                },
            }
        },
    }
}

/// The error is that of the first thing that is wrong with the repository of a checkout, or
/// with where the current directory is.
pub open spec fn is_told_of_dirs(
    checkout: Checkout,
    dirs: LinkedDirs,
    admin_dir: FilePath,
    error: GitError,
) -> bool {
    match dirs.git_dir {
        Err(message) => error == GitError::Failed(message),
        Ok(git_dir) => if git_dir@.parts != admin_dir@.parts {
            error is WrongMetadata
        } else {
            match (dirs.common_dir, checkout.expected_common) {
                (Err(message), _) => error == GitError::Failed(message),
                (Ok(_), Err(message)) => error == GitError::Failed(message),
                (Ok(common_dir), Ok(expected)) => if common_dir@.parts != expected@.parts {
                    error is WrongRepository
                } else {
                    match (checkout.current_dir, checkout.real_path) {
                        (Err(message), _) => error == GitError::Failed(message),
                        (Ok(_), Err(message)) => error == GitError::Failed(message),
                        (Ok(current), Ok(path)) => error is CurrentDirectory
                            && path@.parts.is_prefix_of(current@.parts),
                    }
                },
            }
        },
    }
}

/// An inspection that stops a deletion does so with the first thing that stands against it, or
/// with the failure of the status; and so does an assessment.
pub proof fn inspections_stop_with_their_cause(
    before: Deletion,
    event: DeletionEvent,
    after: Deletion,
    key: WorktreeKey,
    inspection: Inspection,
    answer: Result<DeletionAssessment, GitError>,
)
    requires
        is_step(before, event, after),
        is_answer(key, inspection, answer),
    ensures
        before matches Deletion::Inspect { key: asked, .. } ==> (
        event matches DeletionEvent::Inspected(found) ==> {
            &&& !may_be_removed(asked, found.site) ==> after == Deletion::Finished(
                Err(removal_fault(asked, found.site)),
            )
            &&& may_be_removed(asked, found.site) && found.site.checkout is Some ==> (
            found.status matches Err(error) ==> after == Deletion::Finished(Err(error)))
            &&& after matches Deletion::Finished(Ok(DeleteResult::NeedsForce(assessment))) ==> {
                &&& assessment.missing <==> found.site.checkout is None
                &&& found.site.checkout is None ==> assessment.changes@.len() == 0
            }
        }),
        before matches Deletion::Recheck { key: asked, .. } ==> (
        event matches DeletionEvent::Rechecked(site) ==> (!may_be_removed(asked, site) ==> after
            == Deletion::Finished(Err(removal_fault(asked, site))))),
        key matches WorktreeKey::Linked(id) ==> (is_plain_name(id@) ==> {
            &&& !may_be_removed(key, inspection.site) ==> answer == Err::<
                DeletionAssessment,
                GitError,
            >(removal_fault(key, inspection.site))
            &&& may_be_removed(key, inspection.site) && inspection.site.checkout is Some ==> (
            inspection.status matches Err(error) ==> answer == Err::<DeletionAssessment, GitError>(
                error,
            ))
        }),
{
    removable_sites_are_the_worktrees_own(key, inspection.site);
    if let WorktreeKey::Linked(id) = key {
        if is_plain_name(id@) {
            plain_names_are_single(id@);
        }
    }
    match (before, event) {
        (Deletion::Inspect { key: asked, .. }, DeletionEvent::Inspected(found)) => {
            removable_sites_are_the_worktrees_own(asked, found.site);
        },
        (Deletion::Recheck { key: asked, .. }, DeletionEvent::Rechecked(site)) => {
            removable_sites_are_the_worktrees_own(asked, site);
        },
        _ => {},
    }
}

/// An event that was not asked for changes nothing.
pub proof fn other_events_change_nothing(
    before: Deletion,
    event: DeletionEvent,
    after: Deletion,
    branch_before: BranchDeletion,
    branch_event: BranchDeletionEvent,
    branch_after: BranchDeletion,
)
    requires
        is_step(before, event, after),
        is_branch_step(branch_before, branch_event, branch_after),
    ensures
        before is Inspect && !(event is Inspected) ==> after == before,
        before is Recheck && !(event is Rechecked) ==> after == before,
        before is RemoveCheckout && !(event is Removed) ==> after == before,
        before is RemoveMetadata && !(event is Removed) ==> after == before,
        branch_before is Inspect && !(branch_event is Inspected) ==> branch_after == branch_before,
        branch_before is Delete && !(branch_event is Deleted) ==> branch_after == branch_before,
{
}

/// Deleting a branch stops at the first thing that is not known, with its message, and what it
/// says to take force is what was found.
pub proof fn branch_inspections_stop_with_their_cause(
    name: String,
    reference: String,
    force: bool,
    facts: BranchDeletionFacts,
    after: BranchDeletion,
)
    requires
        is_branch_step(
            BranchDeletion::Inspect { name, reference, force },
            BranchDeletionEvent::Inspected(facts),
            after,
        ),
    ensures
        facts.tip matches Err(message) ==> after == BranchDeletion::Finished(
            Err(GitError::Failed(message)),
        ),
        facts.tip is Ok ==> (facts.branches matches Err(message) ==> after
            == BranchDeletion::Finished(Err(GitError::Failed(message)))),
        facts.tip is Ok && facts.branches is Ok ==> (facts.head matches Some(Err(message)) ==> after
            == BranchDeletion::Finished(Err(GitError::Failed(message)))),
        after matches BranchDeletion::Finished(Ok(BranchDeleteResult::NeedsForce(assessment)))
            ==> assessment.unmerged && assessment.checked_out_paths@.len() == 0 && !force,
        after matches BranchDeletion::Finished(Ok(result)) ==> result is NeedsForce,
{
    if let BranchDeletion::Finished(Ok(BranchDeleteResult::NeedsForce(assessment))) = after {
        assert(assessment@.checked_out_paths.len() == assessment.checked_out_paths@.len());
    }
}

} // verus!
