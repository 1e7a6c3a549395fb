use std::path::{Path, Prefix};

use worktree_explorer::commits::{reachable_commits, CommitId, CommitSet};
use worktree_explorer::deletion::{
    BranchDeletion, BranchDeletionEvent, Checkout, Deletion, DeletionEvent, FileKind, Inspection,
    LinkedDirs, Site,
};
use worktree_explorer::discovery::{
    discover_repositories, push_unique_repository, Child, Search,
};
use worktree_explorer::error::GitError;
use worktree_explorer::git::{
    BranchDeleteResult, BranchDeletionFacts, BranchInfo, DeleteResult, RepositoryManager,
    WorktreeInfo, WorktreeKey, WorktreeStatus,
};
use worktree_explorer::path::{FilePath, PathPart, PathPrefix};
use worktree_explorer::status::{ChangeKind, StatusArea, StatusEntry};

fn path(text: &str) -> FilePath {
    let mut parts = Vec::new();
    if text.starts_with('/') {
        parts.push(PathPart::Root);
    }
    for name in text.split('/').filter(|name| !name.is_empty()) {
        parts.push(PathPart::Normal(name.as_bytes().to_vec()));
    }
    FilePath::new(parts, text.to_owned())
}

fn repository(root: &str) -> RepositoryManager {
    let git_dir = format!("{root}/.git");
    RepositoryManager::from_repository(path(&git_dir), path(&git_dir), Some(path(root)))
}

fn key() -> WorktreeKey {
    WorktreeKey::Linked("linked".to_owned())
}

fn info() -> WorktreeInfo {
    WorktreeInfo {
        key: key(),
        path: path("/linked"),
        head: None,
        committed_at: None,
        branch: Some("linked".to_owned()),
        locked: false,
        available: true,
    }
}

fn checkout() -> Checkout {
    Checkout {
        kind: Ok(FileKind::Directory),
        dot_git: Ok(FileKind::File),
        linked: Ok(LinkedDirs {
            git_dir: Ok(path("/r/.git/worktrees/linked")),
            common_dir: Ok(path("/r/.git")),
        }),
        expected_common: Ok(path("/r/.git")),
        current_dir: Ok(path("/r")),
        real_path: Ok(path("/linked")),
    }
}

fn site() -> Site {
    Site {
        worktrees: Ok(vec![info()]),
        worktrees_dir: Ok(path("/r/.git/worktrees")),
        admin_dir: Ok(path("/r/.git/worktrees/linked")),
        checkout: Some(checkout()),
    }
}

fn inspection(site: Site, changes: Vec<StatusEntry>, locked: bool) -> Inspection {
    Inspection {
        site,
        status: Ok(WorktreeStatus {
            reference: "linked".to_owned(),
            entries: changes,
        }),
        locked,
    }
}

fn change() -> StatusEntry {
    StatusEntry {
        area: StatusArea::Worktree,
        kind: ChangeKind::Added,
        path: "untracked.txt".to_owned(),
    }
}

fn with_checkout(change: impl FnOnce(&mut Checkout)) -> Site {
    let mut checkout = checkout();
    change(&mut checkout);
    Site {
        checkout: Some(checkout),
        ..site()
    }
}

fn refusal(site: Site) -> GitError {
    repository("/r")
        .assess_deletion(&key(), inspection(site, Vec::new(), false))
        .expect_err("deletion should be refused")
}

#[test]
fn a_clean_worktree_is_deleted_checkout_first() {
    let manager = repository("/r");
    let deletion = manager.delete_worktree(key(), false);
    assert!(matches!(&deletion, Deletion::Inspect { force: false, .. }));
    let deletion = manager.continue_deletion(
        deletion,
        DeletionEvent::Inspected(inspection(site(), Vec::new(), false)),
    );
    assert!(matches!(&deletion, Deletion::Recheck { .. }));
    let deletion = manager.continue_deletion(deletion, DeletionEvent::Rechecked(site()));
    assert!(matches!(&deletion, Deletion::RemoveCheckout { at: 0, .. }));
    let deletion = manager.continue_deletion(deletion, DeletionEvent::Removed(Ok(())));
    assert!(matches!(
        &deletion,
        Deletion::RemoveMetadata { directory }
            if *directory == path("/r/.git/worktrees/linked").parts
    ));
    let deletion = manager.continue_deletion(deletion, DeletionEvent::Removed(Ok(())));
    assert!(matches!(
        deletion,
        Deletion::Finished(Ok(DeleteResult::Deleted))
    ));
}

#[test]
fn only_the_metadata_of_a_missing_worktree_is_removed() {
    let manager = repository("/r");
    let missing = || Site {
        checkout: None,
        ..site()
    };
    let mut found = inspection(missing(), Vec::new(), false);
    found.status = Err(GitError::Failed("there is nothing to look at".to_owned()));
    let assessment = manager
        .assess_deletion(&key(), found)
        .expect("missing worktree should be assessed");
    assert!(assessment.missing);
    assert!(!assessment.requires_force());
    let deletion = manager.continue_deletion(
        manager.delete_worktree(key(), false),
        DeletionEvent::Inspected(inspection(missing(), Vec::new(), false)),
    );
    let deletion = manager.continue_deletion(deletion, DeletionEvent::Rechecked(missing()));
    assert!(matches!(
        &deletion,
        Deletion::RemoveMetadata { directory }
            if *directory == path("/r/.git/worktrees/linked").parts
    ));
    let deletion =
        manager.continue_deletion(deletion, DeletionEvent::Removed(Err("in use".to_owned())));
    assert!(matches!(
        deletion,
        Deletion::Finished(Err(GitError::Failed(message))) if message == "in use"
    ));
}

#[test]
fn changes_and_locks_take_force() {
    let manager = repository("/r");
    let deletion = manager.continue_deletion(
        manager.delete_worktree(key(), false),
        DeletionEvent::Inspected(inspection(site(), vec![change()], false)),
    );
    let Deletion::Finished(Ok(DeleteResult::NeedsForce(assessment))) = deletion else {
        panic!("changed worktree should take force");
    };
    assert_eq!(assessment.changes, vec![change()]);
    assert!(!assessment.locked);
    let deletion = manager.continue_deletion(
        manager.delete_worktree(key(), false),
        DeletionEvent::Inspected(inspection(site(), Vec::new(), true)),
    );
    let Deletion::Finished(Ok(DeleteResult::NeedsForce(assessment))) = deletion else {
        panic!("locked worktree should take force");
    };
    assert!(assessment.locked);
    let deletion = manager.continue_deletion(
        manager.delete_worktree(key(), true),
        DeletionEvent::Inspected(inspection(site(), vec![change()], true)),
    );
    assert!(matches!(deletion, Deletion::Recheck { .. }));
}

#[test]
fn a_worktree_that_changed_hands_is_not_removed() {
    let manager = repository("/r");
    let deletion = manager.continue_deletion(
        manager.delete_worktree(key(), true),
        DeletionEvent::Inspected(inspection(site(), Vec::new(), false)),
    );
    let moved = with_checkout(|checkout| checkout.current_dir = Ok(path("/linked/src")));
    let deletion = manager.continue_deletion(deletion, DeletionEvent::Rechecked(moved));
    assert!(matches!(
        &deletion,
        Deletion::Finished(Err(GitError::CurrentDirectory))
    ));
    let deletion = manager.continue_deletion(deletion, DeletionEvent::Removed(Ok(())));
    assert!(matches!(
        deletion,
        Deletion::Finished(Err(GitError::CurrentDirectory))
    ));
}

#[test]
fn events_that_were_not_asked_for_change_nothing() {
    let manager = repository("/r");
    let deletion = manager.delete_worktree(key(), false);
    let deletion = manager.continue_deletion(deletion, DeletionEvent::Removed(Ok(())));
    assert!(matches!(&deletion, Deletion::Inspect { .. }));
    let deletion = manager.continue_deletion(deletion, DeletionEvent::Rechecked(site()));
    assert!(matches!(deletion, Deletion::Inspect { .. }));
}

#[test]
fn identifiers_are_single_names() {
    let manager = repository("/r");
    for id in [
        "", ".", "..", "/", "/linked", "//linked", "two/names", "two//names", "two/./names",
        "a/b/c", "../linked", "./linked", "linked/..", "./.", "a/b:c", "c:/linked", "a\\b/c",
        "./a:b", "../a:b", "a:b/..", "a\\b/../", "/a:b", "a/...\\",
    ] {
        assert!(
            matches!(
                manager.delete_worktree(WorktreeKey::Linked(id.to_owned()), true),
                Deletion::Finished(Err(GitError::InvalidIdentifier))
            ),
            "{id}"
        );
    }
    for (id, name) in [
        ("a name", "a name"),
        ("linked/", "linked"),
        ("linked//", "linked"),
        ("linked/.", "linked"),
        ("...", "..."),
        ("zweig-ä", "zweig-ä"),
    ] {
        let deletion = manager.delete_worktree(WorktreeKey::Linked(id.to_owned()), true);
        assert!(
            matches!(
                &deletion,
                Deletion::Inspect { directory, force: true, .. }
                    if *directory == path(&format!("/r/.git/worktrees/{name}")).parts
            ),
            "{id}"
        );
    }
}

#[test]
fn administrative_directories_stand_under_the_common_one() {
    let manager = repository("/r");
    assert_eq!(manager.worktrees_dir(), path("/r/.git/worktrees").parts);
    assert_eq!(manager.admin_dir(&key()), Ok(path("/r/.git/worktrees/linked").parts));
    assert_eq!(manager.admin_dir(&WorktreeKey::Main), Err(GitError::MainWorktree));
    assert_eq!(
        manager.admin_dir(&WorktreeKey::Linked("../linked".to_owned())),
        Err(GitError::InvalidIdentifier)
    );
    let name = || PathPart::Normal(b"name".to_vec());
    let wide = vec![PathPart::Normal(vec![0xff])];
    assert!(matches!(
        manager.join_admin_dir(&key(), wide),
        Ok(directory) if directory.last() == Some(&PathPart::Normal(vec![0xff]))
    ));
    for parts in [
        Vec::new(),
        vec![name(), name()],
        vec![PathPart::ParentDir],
        vec![PathPart::Prefix(PathPrefix::Drive(b'C')), name()],
    ] {
        assert_eq!(manager.join_admin_dir(&key(), parts), Err(GitError::InvalidIdentifier));
    }
    let validated = manager.validated_linked_worktree(&key(), &site());
    assert_eq!(validated, Ok((0, path("/r/.git/worktrees/linked").parts)));
    assert_eq!(
        manager.validated_linked_worktree(&WorktreeKey::Linked("..".to_owned()), &site()),
        Err(GitError::InvalidIdentifier)
    );
    assert_eq!(
        manager.validated_linked_worktree(&WorktreeKey::Linked("other".to_owned()), &site()),
        Err(GitError::WorktreeGone)
    );
}

#[test]
fn deletions_go_by_their_assessment() {
    let manager = repository("/r");
    let inspections: [fn() -> Inspection; 5] = [
        || inspection(site(), Vec::new(), false),
        || inspection(site(), vec![change()], false),
        || inspection(site(), Vec::new(), true),
        || inspection(with_checkout(|c| c.kind = Ok(FileKind::Other)), vec![change()], false),
        || Inspection {
            status: Err(GitError::Failed("no status".to_owned())),
            ..inspection(site(), Vec::new(), false)
        },
    ];
    for id in ["linked", "linked/", "two/names", "", "a/b:c", "a:b", "a\\b"] {
        for force in [false, true] {
            for inspect in inspections {
                let key = WorktreeKey::Linked(id.to_owned());
                let answer = manager.assess_deletion(&key, inspect());
                let deletion = manager.continue_deletion(
                    manager.delete_worktree(key, force),
                    DeletionEvent::Inspected(inspect()),
                );
                match (answer, deletion) {
                    (Err(error), Deletion::Finished(Err(refused))) => assert_eq!(error, refused),
                    (Ok(found), Deletion::Finished(Ok(DeleteResult::NeedsForce(given)))) => {
                        assert!(found.requires_force() && !force);
                        assert_eq!(found, given);
                    }
                    (Ok(found), Deletion::Recheck { .. }) => {
                        assert!(!found.requires_force() || force);
                    }
                    (answer, deletion) => panic!("{answer:?} but {deletion:?}"),
                }
            }
        }
    }
}

#[test]
fn every_doubt_about_a_worktree_refuses_its_deletion() {
    let text = || "cannot be read".to_owned();
    let failed = || GitError::Failed("cannot be read".to_owned());
    assert_eq!(
        refusal(Site {
            worktrees: Err(text()),
            ..site()
        }),
        failed()
    );
    assert_eq!(
        refusal(Site {
            worktrees: Ok(Vec::new()),
            ..site()
        }),
        GitError::WorktreeGone
    );
    assert_eq!(
        refusal(Site {
            worktrees_dir: Err(text()),
            ..site()
        }),
        failed()
    );
    assert_eq!(
        refusal(Site {
            admin_dir: Err(text()),
            ..site()
        }),
        failed()
    );
    for outside in ["/r/.git/worktrees", "/r/.git/worktrees/a/linked", "/linked"] {
        assert_eq!(
            refusal(Site {
                admin_dir: Ok(path(outside)),
                ..site()
            }),
            GitError::MetadataOutside
        );
    }
    assert_eq!(refusal(with_checkout(|c| c.kind = Err(text()))), failed());
    for kind in [FileKind::File, FileKind::Symlink, FileKind::Other] {
        assert_eq!(
            refusal(with_checkout(|c| c.kind = Ok(kind))),
            GitError::NotADirectory
        );
    }
    assert_eq!(refusal(with_checkout(|c| c.dot_git = Err(text()))), failed());
    for kind in [FileKind::Directory, FileKind::Symlink, FileKind::Other] {
        assert_eq!(
            refusal(with_checkout(|c| c.dot_git = Ok(kind))),
            GitError::GitEntryNotFile
        );
    }
    assert_eq!(refusal(with_checkout(|c| c.linked = Err(text()))), failed());
    assert_eq!(
        refusal(with_checkout(|c| {
            c.linked = Ok(LinkedDirs {
                git_dir: Ok(path("/r/.git/worktrees/other")),
                common_dir: Ok(path("/r/.git")),
            })
        })),
        GitError::WrongMetadata
    );
    assert_eq!(
        refusal(with_checkout(|c| {
            c.linked = Ok(LinkedDirs {
                git_dir: Ok(path("/r/.git/worktrees/linked")),
                common_dir: Ok(path("/other/.git")),
            })
        })),
        GitError::WrongRepository
    );
    assert_eq!(refusal(with_checkout(|c| c.expected_common = Err(text()))), failed());
    assert_eq!(refusal(with_checkout(|c| c.current_dir = Err(text()))), failed());
    assert_eq!(refusal(with_checkout(|c| c.real_path = Err(text()))), failed());
    assert_eq!(
        refusal(with_checkout(|c| c.current_dir = Ok(path("/linked")))),
        GitError::CurrentDirectory
    );
    let near = inspection(
        with_checkout(|c| c.current_dir = Ok(path("/linked-too"))),
        Vec::new(),
        false,
    );
    assert!(repository("/r").assess_deletion(&key(), near).is_ok());
    let mut unknown = inspection(site(), Vec::new(), false);
    unknown.status = Err(GitError::WorktreeGone);
    assert_eq!(
        repository("/r").assess_deletion(&key(), unknown),
        Err(GitError::WorktreeGone)
    );
}

#[test]
fn errors_say_what_is_wrong() {
    let name = || "x".to_owned();
    let texts = [
        (GitError::MainWorktree, "the main worktree cannot be deleted"),
        (GitError::InvalidIdentifier, "invalid linked worktree identifier"),
        (GitError::WorktreeGone, "selected worktree no longer exists"),
        (
            GitError::MetadataOutside,
            "worktree metadata is outside the repository worktrees directory",
        ),
        (GitError::NotADirectory, "worktree path is not a real directory"),
        (GitError::GitEntryNotFile, "worktree .git entry is not a file"),
        (
            GitError::WrongMetadata,
            "worktree .git entry does not point to its administrative directory",
        ),
        (
            GitError::WrongRepository,
            "worktree belongs to a different common repository",
        ),
        (
            GitError::CurrentDirectory,
            "the worktree containing the current directory cannot be deleted",
        ),
        (GitError::CheckedOut(name()), "branch x is checked out in a worktree"),
        (GitError::NotACommit, "branch tip is not a commit"),
        (GitError::BranchTime(name()), "failed to read branch commit time: x"),
        (GitError::CommitData(name()), "failed to decode commit: x"),
        (GitError::CommitAuthor(name()), "failed to decode commit author: x"),
        (GitError::CommitTime(name()), "failed to decode commit time: x"),
        (GitError::Failed(name()), "x"),
    ];
    for (error, text) in texts {
        assert_eq!(error.message(), text);
    }
}

fn commits(heads: &[u128]) -> CommitSet {
    let walk = heads.iter().map(|head| Ok(CommitId { head: *head, tail: 0 })).collect();
    reachable_commits(walk).expect("walk should succeed")
}

fn branch(name: &str, places: &[&str]) -> BranchInfo {
    BranchInfo {
        name: name.to_owned(),
        head: "01234567".to_owned(),
        committed_at: 0,
        checked_out_paths: places.iter().map(|place| path(place)).collect(),
    }
}

fn facts(places: &[&str], head: Option<&[u128]>) -> BranchDeletionEvent {
    BranchDeletionEvent::Inspected(BranchDeletionFacts {
        tip: Ok(CommitId { head: 5, tail: 0 }),
        branches: Ok(vec![branch("other", &["/r"]), branch("topic", places)]),
        head: head.map(|heads| Ok(commits(heads))),
    })
}

#[test]
fn a_branch_that_is_checked_out_is_never_deleted() {
    let manager = repository("/r");
    for force in [false, true] {
        let deletion = manager.continue_branch_deletion(
            manager.delete_branch("topic", force),
            facts(&["/linked"], Some(&[5])),
        );
        assert!(matches!(
            deletion,
            BranchDeletion::Finished(Err(GitError::CheckedOut(name))) if name == "topic"
        ));
    }
}

#[test]
fn an_unmerged_branch_takes_force() {
    let manager = repository("/r");
    for head in [Some([1, 2].as_slice()), None] {
        let deletion = manager
            .continue_branch_deletion(manager.delete_branch("topic", false), facts(&[], head));
        let BranchDeletion::Finished(Ok(BranchDeleteResult::NeedsForce(assessment))) = deletion
        else {
            panic!("unmerged branch should take force");
        };
        assert!(assessment.unmerged);
        let deletion = manager
            .continue_branch_deletion(manager.delete_branch("topic", true), facts(&[], head));
        assert!(matches!(
            deletion,
            BranchDeletion::Delete { reference } if reference == "refs/heads/topic"
        ));
    }
}

#[test]
fn a_merged_branch_is_deleted() {
    let manager = repository("/r");
    let deletion = manager.delete_branch("topic", false);
    let deletion = manager.continue_branch_deletion(deletion, facts(&[], Some(&[5, 6])));
    let deletion =
        manager.continue_branch_deletion(deletion, BranchDeletionEvent::Deleted(Ok(())));
    assert!(matches!(
        deletion,
        BranchDeletion::Finished(Ok(BranchDeleteResult::Deleted))
    ));
    let deletion = manager.delete_branch("topic", false);
    let deletion = manager.continue_branch_deletion(deletion, facts(&[], Some(&[5, 6])));
    let deletion = manager.continue_branch_deletion(
        deletion,
        BranchDeletionEvent::Deleted(Err("locked".to_owned())),
    );
    assert!(matches!(
        deletion,
        BranchDeletion::Finished(Err(GitError::Failed(message))) if message == "locked"
    ));
}

#[test]
fn what_cannot_be_found_out_about_a_branch_is_the_error() {
    let manager = repository("/r");
    let unknown = |tip, branches, head| BranchDeletionFacts { tip, branches, head };
    let tip = || Ok(CommitId { head: 5, tail: 0 });
    let text = |text: &str| text.to_owned();
    assert_eq!(
        manager.assess_branch_deletion("topic", &unknown(Err(text("tip")), Err(text("list")), None)),
        Err(GitError::Failed(text("tip")))
    );
    assert_eq!(
        manager.assess_branch_deletion("topic", &unknown(tip(), Err(text("list")), None)),
        Err(GitError::Failed(text("list")))
    );
    assert_eq!(
        manager.assess_branch_deletion(
            "topic",
            &unknown(tip(), Ok(Vec::new()), Some(Err(text("walk"))))
        ),
        Err(GitError::Failed(text("walk")))
    );
    let known = unknown(tip(), Ok(vec![branch("topic", &["/a"])]), Some(Ok(commits(&[5]))));
    let assessment = manager
        .assess_branch_deletion("topic", &known)
        .expect("branch should be assessed");
    assert!(!assessment.unmerged);
    assert_eq!(assessment.checked_out_paths, vec![path("/a")]);
    assert!(matches!(
        manager.delete_branch("two..dots", true),
        BranchDeletion::Finished(Err(GitError::InvalidBranchName(_, _)))
    ));
}

fn child(place: &str, root: &str) -> Child {
    Child {
        path: path(place),
        is_dir: Ok(true),
        has_git: true,
        repository: Some(Ok(repository(root))),
    }
}

fn search(around: Option<RepositoryManager>, children: Vec<Child>) -> Search {
    Search::Below {
        directory: Ok(path("/s")),
        is_dir: true,
        around: Ok(around),
        children: Ok(children),
    }
}

fn roots(search: Search) -> Vec<String> {
    discover_repositories(search)
        .expect("repositories should be discovered")
        .iter()
        .map(|repository| repository.root().text.clone())
        .collect()
}

#[test]
fn repositories_are_listed_once_and_by_root() {
    assert_eq!(
        roots(search(
            Some(repository("/s/m")),
            vec![
                child("/s/z", "/s/z"),
                child("/s/m", "/s/m"),
                child("/s/linked", "/s/z"),
                child("/s/a", "/s/a"),
            ]
        )),
        ["/s/a", "/s/m", "/s/z"]
    );
    assert_eq!(
        discover_repositories(Search::Around(Ok(repository("/r"))))
            .expect("repository should be discovered")
            .len(),
        1
    );
    let mut found = Vec::new();
    push_unique_repository(&mut found, repository("/a"));
    push_unique_repository(&mut found, repository("/b"));
    push_unique_repository(&mut found, repository("/a"));
    assert_eq!(found.len(), 2);
}

#[test]
fn children_without_a_repository_are_passed_over() {
    let file = Child {
        is_dir: Ok(false),
        ..child("/s/file", "/s/file")
    };
    let plain = Child {
        has_git: false,
        repository: Some(Err("is not looked at".to_owned())),
        ..child("/s/plain", "/s/plain")
    };
    let broken = Child {
        repository: None,
        ..child("/s/broken", "/s/broken")
    };
    assert_eq!(
        roots(search(None, vec![file, plain, broken, child("/s/a", "/s/a")])),
        ["/s/a"]
    );
}

#[test]
fn searches_fail_at_the_first_fault() {
    let fault = |search: Search| discover_repositories(search).expect_err("search should fail");
    assert_eq!(
        fault(Search::Around(Err("no repository".to_owned()))),
        GitError::Failed("no repository".to_owned())
    );
    assert_eq!(
        fault(search(None, Vec::new())),
        GitError::NoRepositories("/s".to_owned())
    );
    assert_eq!(
        fault(Search::Below {
            directory: Ok(path("/s")),
            is_dir: false,
            around: Ok(None),
            children: Ok(Vec::new()),
        })
        .message(),
        "search path /s is not a directory"
    );
    assert_eq!(
        fault(search(None, Vec::new())).message(),
        "no Git repositories found in /s or its immediate children"
    );
    let odd = |place: &str| Child {
        is_dir: Err(format!("cannot inspect {place}")),
        ..child(place, place)
    };
    assert_eq!(
        fault(search(
            Some(repository("/s")),
            vec![child("/s/m", "/s/m"), odd("/s/y"), odd("/s/b")]
        )),
        GitError::Failed("cannot inspect /s/b".to_owned())
    );
    let unreadable = Child {
        repository: Some(Err("cannot read /s/c".to_owned())),
        ..child("/s/c", "/s/c")
    };
    assert_eq!(
        fault(search(None, vec![odd("/s/d"), unreadable])),
        GitError::Failed("cannot read /s/c".to_owned())
    );
}

#[test]
fn paths_are_ordered_by_component() {
    assert!(path("/a/b").is_le(&path("/a-b")));
    assert!(!path("/a-b").is_le(&path("/a/b")));
    assert!(path("/a").is_le(&path("/a/b")));
    assert!(path("/a/b/").is_same_place(&path("/a/b")));
    assert!(path("/a/b").starts_with(&path("/a")));
    assert!(!path("/ab").starts_with(&path("/a")));
    assert!(path("/a").is_child_of(&path("/")));
    assert!(!path("/").is_child_of(&path("/")));
}

#[test]
fn prefixes_are_ordered_by_kind_and_drives_without_case() {
    let name = || b"n".to_vec();
    let ascending = [
        PathPrefix::Verbatim(b"z".to_vec()),
        PathPrefix::VerbatimShare(b"a".to_vec(), b"b".to_vec()),
        PathPrefix::VerbatimShare(b"a".to_vec(), b"c".to_vec()),
        PathPrefix::VerbatimShare(b"ab".to_vec(), b"a".to_vec()),
        PathPrefix::VerbatimDrive(b'A'),
        PathPrefix::VerbatimDrive(b'c'),
        PathPrefix::Device(name()),
        PathPrefix::Share(name(), name()),
        PathPrefix::Drive(b'C'),
        PathPrefix::Drive(b'd'),
    ]
    .map(|prefix| FilePath::new(vec![PathPart::Prefix(prefix), PathPart::Root], String::new()));
    for (i, left) in ascending.iter().enumerate() {
        for (j, right) in ascending.iter().enumerate() {
            assert_eq!(left.is_le(right), i <= j, "{i} {j}");
            assert_eq!(left.is_same_place(right), i == j, "{i} {j}");
        }
        assert!(left.is_le(&path("/")));
    }
    let name = |text: &'static str| Path::new(text).as_os_str();
    let of_std = [
        Prefix::Verbatim(name("z")),
        Prefix::VerbatimUNC(name("a"), name("b")),
        Prefix::VerbatimUNC(name("a"), name("c")),
        Prefix::VerbatimUNC(name("ab"), name("a")),
        Prefix::VerbatimDisk(b'A'),
        Prefix::VerbatimDisk(b'C'),
        Prefix::DeviceNS(name("n")),
        Prefix::UNC(name("n"), name("n")),
        Prefix::Disk(b'C'),
        Prefix::Disk(b'D'),
    ];
    assert!(of_std.windows(2).all(|pair| pair[0] < pair[1]));
    let drive = |letter| {
        FilePath::new(
            vec![PathPart::Prefix(PathPrefix::Drive(letter)), PathPart::Root],
            String::new(),
        )
    };
    assert!(drive(b'c').is_same_place(&drive(b'C')));
    assert!(drive(b'c').starts_with(&drive(b'C')));
    assert!(drive(b'c').is_le(&drive(b'C')) && drive(b'C').is_le(&drive(b'c')));
}
