use std::path::{Component, Path};

use gix::bstr::ByteSlice;
use tempfile::TempDir;

use worktree_explorer::commits::{reachable_commits, CommitId};
use worktree_explorer::deletion::{
    BranchDeletion, BranchDeletionEvent, Deletion, Inspection, Site,
};
use worktree_explorer::error::GitError;
use worktree_explorer::git::{
    BranchDeleteResult, BranchDeletionFacts, BranchFacts, BranchInfo, BranchStatusFacts,
    DeletionAssessment, History, MainCheckout, RepositoryManager, SurveyedWorktree, UpstreamFacts,
    UpstreamState, WorktreeInfo, WorktreeKey, WorktreeStatus,
};
use worktree_explorer::history::{head_details, CommitRecord, HeadFacts, TipFacts, LOG_LIMIT};
use worktree_explorer::path::{FilePath, PathPart};
use worktree_explorer::status::{ChangeKind, StatusArea, StatusEntry};
use worktree_explorer::text::abbreviate_id;

fn file_path(path: &Path) -> FilePath {
    let parts = path
        .components()
        .map(|part| match part {
            Component::Prefix(_) => panic!("paths here have no prefix"),
            Component::RootDir => PathPart::Root,
            Component::CurDir => PathPart::CurrentDir,
            Component::ParentDir => PathPart::ParentDir,
            Component::Normal(name) => PathPart::Normal(name.as_encoded_bytes().to_vec()),
        })
        .collect();
    FilePath::new(parts, path.display().to_string())
}

fn init_repository() -> (TempDir, RepositoryManager) {
    let directory = tempfile::tempdir().expect("temporary directory should be created");
    let repository = gix::init(directory.path()).expect("repository should initialize");
    let git_dir = file_path(repository.git_dir());
    let manager = RepositoryManager::from_repository(
        git_dir.clone(),
        git_dir,
        Some(file_path(directory.path())),
    );
    (directory, manager)
}

fn commit_data(repository: &gix::Repository, id: gix::ObjectId) -> Vec<u8> {
    repository
        .find_object(id)
        .expect("object should be found")
        .data
        .clone()
}

fn head_facts(repository: &gix::Repository) -> HeadFacts {
    let id = repository.head_id().ok().map(|id| id.detach());
    HeadFacts {
        id: id.map(|id| id.to_string()),
        commit: id.map(|id| commit_data(repository, id)),
        reference: repository
            .head_name()
            .ok()
            .flatten()
            .map(|name| name.as_bstr().to_vec()),
    }
}

fn list_worktrees(manager: &RepositoryManager, path: &Path) -> Vec<WorktreeInfo> {
    let repository = gix::open(path).expect("repository should open");
    let main = MainCheckout {
        path: file_path(path),
        head: head_details(&head_facts(&repository)),
        available: true,
    };
    manager
        .list_worktrees(Some(main), Ok(Vec::new()))
        .expect("worktrees should be listed")
}

fn list_branches(manager: &RepositoryManager, path: &Path) -> Vec<BranchInfo> {
    let repository = gix::open(path).expect("repository should open");
    let mut references = Vec::new();
    let platform = repository.references().expect("references should be accessible");
    for reference in platform
        .local_branches()
        .expect("branches should be enumerated")
        .peeled()
        .expect("branches should be peeled")
    {
        let reference = reference.expect("branch should be read");
        let id = reference.try_id().map(|id| id.detach());
        references.push(Ok(BranchFacts {
            full_name: reference.name().as_bstr().to_vec(),
            id: id.map(|id| id.to_string()),
            tip: match id {
                Some(id) => TipFacts::Commit(commit_data(&repository, id)),
                None => TipFacts::NotACommit,
            },
        }));
    }
    manager
        .list_branches(&list_worktrees(manager, path), &references)
        .expect("branches should be listed")
}

fn open_as_author(path: &Path) -> gix::Repository {
    let options = gix::open::Options::default()
        .config_overrides(["user.name=Test Author", "user.email=test@example.invalid"]);
    gix::open_opts(path, options).expect("repository should open")
}

fn commit_id(id: gix::ObjectId) -> CommitId {
    let bytes = id.as_bytes();
    let mut head = [0u8; 16];
    let mut tail = [0u8; 4];
    head.copy_from_slice(&bytes[..16]);
    tail.copy_from_slice(&bytes[16..]);
    CommitId {
        head: u128::from_be_bytes(head),
        tail: u32::from_be_bytes(tail),
    }
}

#[test]
fn abbreviates_object_ids() {
    assert_eq!(abbreviate_id("0123456789abcdef"), "01234567");
}

#[test]
fn force_is_required_for_dirty_or_locked_worktrees() {
    assert!(
        !DeletionAssessment {
            changes: Vec::new(),
            locked: false,
            missing: false,
        }
        .requires_force()
    );
    assert!(
        DeletionAssessment {
            changes: vec![StatusEntry {
                area: StatusArea::Worktree,
                kind: ChangeKind::Modified,
                path: "changed.txt".to_owned(),
            }],
            locked: false,
            missing: false,
        }
        .requires_force()
    );
    assert!(
        DeletionAssessment {
            changes: Vec::new(),
            locked: true,
            missing: false,
        }
        .requires_force()
    );
}

#[test]
fn refuses_to_delete_main_worktree() {
    let (directory, manager) = init_repository();
    let inspection = Inspection {
        site: Site {
            worktrees: Ok(list_worktrees(&manager, directory.path())),
            worktrees_dir: Ok(file_path(directory.path())),
            admin_dir: Ok(file_path(directory.path())),
            checkout: None,
        },
        status: Ok(WorktreeStatus {
            reference: "main".to_owned(),
            entries: Vec::new(),
        }),
        locked: false,
    };
    let error = manager
        .assess_deletion(&WorktreeKey::Main, inspection)
        .expect_err("main worktree deletion should be rejected");

    assert!(error.message().contains("main worktree"));
    assert!(matches!(
        manager.delete_worktree(WorktreeKey::Main, true),
        Deletion::Finished(Err(GitError::MainWorktree))
    ));
}

#[test]
fn limits_history_to_two_hundred_commits() {
    let (directory, manager) = init_repository();
    let repository = gix::open(directory.path()).expect("repository should open");
    let signature = gix::actor::SignatureRef {
        name: b"Test Author".as_bstr(),
        email: b"test@example.invalid".as_bstr(),
        time: "1700000000 +0000",
    };
    let tree = repository.empty_tree().id;
    let mut parent = None;
    for number in 0..201 {
        let parents = parent.iter().copied();
        let commit = repository
            .commit_as(
                signature,
                signature,
                "HEAD",
                format!("commit {number}"),
                tree,
                parents,
            )
            .expect("commit should be created")
            .detach();
        parent = Some(commit);
    }

    let walk = repository
        .head_id()
        .expect("HEAD should resolve")
        .ancestors()
        .sorting(gix::revision::walk::Sorting::ByCommitTime(
            gix::traverse::commit::simple::CommitTimeOrder::NewestFirst,
        ))
        .all()
        .expect("history should be walked")
        .map(|info| {
            let id = info.expect("history should be walked").id;
            Ok(CommitRecord {
                id: id.to_string(),
                data: commit_data(&repository, id),
            })
        })
        .collect::<Vec<_>>();
    assert_eq!(walk.len(), 201);
    let worktrees = list_worktrees(&manager, directory.path());
    let entries = manager
        .log(&worktrees[0], &History::Walk(walk))
        .expect("history should be loaded");

    assert_eq!(entries.len(), LOG_LIMIT);
    assert_eq!(entries[0].subject, "commit 200");
    assert_eq!(entries[0].author, "Test Author");
    assert_eq!(worktrees[0].committed_at, Some(1_700_000_000));
}

#[test]
fn lists_local_branches_and_reports_status() {
    let (directory, manager) = init_repository();
    let repository = open_as_author(directory.path());
    let signature = gix::actor::SignatureRef {
        name: b"Test Author".as_bstr(),
        email: b"test@example.invalid".as_bstr(),
        time: "1700000000 +0000",
    };
    let tree = repository.empty_tree().id;
    repository
        .commit_as(
            signature,
            signature,
            "HEAD",
            "initial",
            tree,
            std::iter::empty::<gix::ObjectId>(),
        )
        .expect("initial commit should be created");

    let branches = list_branches(&manager, directory.path());
    assert_eq!(branches.len(), 1);
    assert_eq!(branches[0].checked_out_paths.len(), 1);
    assert_eq!(branches[0].head.len(), 8);

    let name = branches[0].name.clone();
    let reference = repository
        .find_reference(&format!("refs/heads/{name}"))
        .expect("branch should be found");
    assert!(reference
        .remote_tracking_ref_name(gix::remote::Direction::Fetch)
        .is_none());
    let status = manager
        .branch_status(
            &name,
            BranchStatusFacts {
                reference: Ok(()),
                branches: Ok(branches),
                upstream: Ok(UpstreamFacts::NotConfigured),
                worktrees: Ok(list_worktrees(&manager, directory.path())
                    .into_iter()
                    .map(|info| SurveyedWorktree {
                        info,
                        status: Ok(WorktreeStatus {
                            reference: name.clone(),
                            entries: Vec::new(),
                        }),
                    })
                    .collect()),
            },
        )
        .expect("branch status should be calculated");
    assert_eq!(status.upstream_state, UpstreamState::NotConfigured);
    assert_eq!(status.ahead, 0);
    assert_eq!(status.behind, 0);

    let head = repository
        .head_id()
        .expect("HEAD should resolve after initial commit")
        .detach();
    repository
        .reference(
            "refs/heads/topic",
            head,
            gix::refs::transaction::PreviousValue::MustNotExist,
            "create topic",
        )
        .expect("topic branch should be created");

    let deletion = manager.delete_branch("topic", false);
    assert!(matches!(
        &deletion,
        BranchDeletion::Inspect { name, reference, force: false }
            if name == "topic" && reference == "refs/heads/topic"
    ));
    let walk = repository
        .head_id()
        .expect("HEAD should resolve after initial commit")
        .ancestors()
        .all()
        .expect("history should be walked")
        .map(|info| Ok(commit_id(info.expect("history should be walked").id)))
        .collect::<Vec<_>>();
    let facts = BranchDeletionFacts {
        tip: Ok(commit_id(head)),
        branches: Ok(list_branches(&manager, directory.path())),
        head: Some(Ok(
            reachable_commits(walk).expect("commits should be collected")
        )),
    };
    let deletion =
        manager.continue_branch_deletion(deletion, BranchDeletionEvent::Inspected(facts));
    let BranchDeletion::Delete { reference } = &deletion else {
        panic!("topic branch should be deleted");
    };
    let full_name: gix::refs::FullName = reference
        .as_str()
        .try_into()
        .expect("reference name should be valid");
    let mut main = open_as_author(directory.path());
    main.delete_local_branches([full_name])
        .expect("topic branch should be deleted");
    let deletion =
        manager.continue_branch_deletion(deletion, BranchDeletionEvent::Deleted(Ok(())));
    assert!(matches!(
        deletion,
        BranchDeletion::Finished(Ok(BranchDeleteResult::Deleted))
    ));
    assert_eq!(list_branches(&manager, directory.path()).len(), 1);
}
