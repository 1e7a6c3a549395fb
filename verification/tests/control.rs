use worktree_explorer::app::{App, Listing};
use worktree_explorer::control::{Answer, Outcome, Request};
use worktree_explorer::error::GitError;
use worktree_explorer::git::{
    BranchDeleteResult, BranchDeletionAssessment, BranchInfo, BranchStatus, DeleteResult,
    DeletionAssessment, RepositoryManager, UpstreamState, WorktreeInfo, WorktreeKey,
    WorktreeStatus,
};
use worktree_explorer::history::LogEntry;
use worktree_explorer::keys::{KeyCode, KeyEvent};
use worktree_explorer::path::{FilePath, PathPart};
use worktree_explorer::screen::{status_line_count, ConfirmationPhase, DeletionMode, Screen};
use worktree_explorer::status::{ChangeCounts, ChangeKind, StatusArea, StatusEntry};
use worktree_explorer::tree::{ExploreMode, TreeIdentity};

fn path(text: &str) -> FilePath {
    let mut parts = Vec::new();
    if text.starts_with('/') {
        parts.push(PathPart::Root);
    }
    for name in text.split('/').filter(|name| !name.is_empty()) {
        parts.push(PathPart::Normal(name.as_bytes().to_vec()));
    }
    FilePath::new(parts, text.to_owned())
}

fn repository(root: &str) -> RepositoryManager {
    let git_dir = format!("{root}/.git");
    RepositoryManager::from_repository(path(&git_dir), path(&git_dir), Some(path(root)))
}

fn worktree(key: WorktreeKey, place: &str) -> WorktreeInfo {
    WorktreeInfo {
        key,
        path: path(place),
        head: None,
        committed_at: None,
        branch: Some("main".to_owned()),
        locked: false,
        available: true,
    }
}

fn linked(id: &str) -> WorktreeInfo {
    worktree(WorktreeKey::Linked(id.to_owned()), &format!("/{id}"))
}

fn branch(name: &str) -> BranchInfo {
    BranchInfo {
        name: name.to_owned(),
        head: "01234567".to_owned(),
        committed_at: 0,
        checked_out_paths: Vec::new(),
    }
}

fn listing(worktrees: Vec<WorktreeInfo>, branches: Vec<BranchInfo>) -> Listing {
    Listing {
        worktrees: Ok(worktrees),
        branches: Ok(branches),
    }
}

/// Two repositories: one with its main worktree and one linked worktree, one with its main
/// worktree alone.
fn worktree_app() -> App {
    App::new(
        vec![
            (
                repository("/one"),
                listing(vec![worktree(WorktreeKey::Main, "/one"), linked("a")], Vec::new()),
            ),
            (
                repository("/two"),
                listing(vec![worktree(WorktreeKey::Main, "/two")], Vec::new()),
            ),
        ],
        true,
        false,
    )
    .expect("application should initialize")
}

/// Two repositories, of which only the second has branches.
fn branch_app() -> App {
    App::new(
        vec![
            (repository("/one"), listing(Vec::new(), Vec::new())),
            (
                repository("/two"),
                listing(Vec::new(), vec![branch("main"), branch("topic")]),
            ),
        ],
        true,
        true,
    )
    .expect("application should initialize")
}

fn press(app: &mut App, code: KeyCode) -> Outcome {
    app.handle_key(KeyEvent {
        code,
        control: false,
    })
}

fn ask(app: &mut App, letter: char) -> Request {
    match press(app, KeyCode::Char(letter)) {
        Outcome::Ask(request) => request,
        outcome => panic!("{letter} should ask for something, not {outcome:?}"),
    }
}

fn assessment(changes: usize, locked: bool) -> DeletionAssessment {
    DeletionAssessment {
        changes: (0..changes)
            .map(|n| StatusEntry {
                area: StatusArea::Worktree,
                kind: ChangeKind::Modified,
                path: format!("file {n}"),
            })
            .collect(),
        locked,
        missing: false,
    }
}

#[test]
fn the_first_failure_to_list_a_repository_is_the_error() {
    let failed = |text: &str| Listing {
        worktrees: Err(GitError::Failed(text.to_owned())),
        branches: Ok(Vec::new()),
    };
    let error = App::new(
        vec![
            (repository("/one"), listing(Vec::new(), Vec::new())),
            (repository("/two"), failed("two")),
            (repository("/three"), failed("three")),
        ],
        false,
        false,
    )
    .expect_err("application should not initialize");
    assert_eq!(error, GitError::Failed("two".to_owned()));
    let no_branches = || {
        vec![(
            repository("/one"),
            Listing {
                worktrees: Ok(Vec::new()),
                branches: Err(GitError::NotACommit),
            },
        )]
    };
    assert!(App::new(no_branches(), false, true).is_err());
    let app = App::new(no_branches(), false, false).expect("branches should not matter");
    assert_eq!(app.selected, 0);
    assert_eq!(app.mode, ExploreMode::Worktrees);
}

#[test]
fn keys_move_the_selection_over_the_rows() {
    let mut app = worktree_app();
    assert_eq!(app.row_count(), 5);
    assert_eq!(app.selected, 1);
    press(&mut app, KeyCode::Down);
    press(&mut app, KeyCode::Char('j'));
    assert_eq!(app.selected, 3);
    press(&mut app, KeyCode::Down);
    press(&mut app, KeyCode::Down);
    assert_eq!(app.selected, 4);
    press(&mut app, KeyCode::Char('k'));
    press(&mut app, KeyCode::Up);
    assert_eq!(app.selected, 2);
    app.page_size = 3;
    press(&mut app, KeyCode::PageUp);
    assert_eq!(app.selected, 0);
    press(&mut app, KeyCode::Up);
    assert_eq!(app.selected, 0);
    press(&mut app, KeyCode::PageDown);
    assert_eq!(app.selected, 3);
    press(&mut app, KeyCode::PageDown);
    assert_eq!(app.selected, 4);
}

#[test]
fn a_selection_behind_the_rows_is_kept_or_brought_back() {
    let mut app = worktree_app();
    app.selected = 9;
    press(&mut app, KeyCode::Down);
    assert_eq!(app.selected, 9);
    press(&mut app, KeyCode::PageDown);
    assert_eq!(app.selected, 4);
    let mut app = branch_app();
    app.selected = 9;
    press(&mut app, KeyCode::Down);
    assert_eq!(app.selected, 3);
}

#[test]
fn rows_are_found_by_identity() {
    let app = worktree_app();
    let identity = TreeIdentity::Worktree(path("/two"), WorktreeKey::Main);
    assert_eq!(app.row_for_identity(&identity), Some(4));
    assert_eq!(
        app.row_for_identity(&TreeIdentity::Repository(path("/two/"))),
        Some(3)
    );
    assert_eq!(
        app.row_for_identity(&TreeIdentity::Branch(path("/two"), "main".to_owned())),
        None
    );
    let mut app = branch_app();
    app.selected = 3;
    assert_eq!(
        app.selected_identity(),
        Some(TreeIdentity::Branch(path("/two"), "topic".to_owned()))
    );
    assert_eq!(app.selected_branch().map(|(at, branch)| (at, branch.name)), Some((1, "topic".to_owned())));
    app.selected = 4;
    assert_eq!(app.selected_identity(), None);
    assert!(app.selected_branch().is_none());
}

#[test]
fn every_row_is_found_again_by_its_identity() {
    for mut app in [worktree_app(), branch_app()] {
        for at in 0..app.row_count() {
            app.selected = at;
            let identity = app.selected_identity().expect("row should have an identity");
            assert_eq!(app.row_for_identity(&identity), Some(at));
        }
    }
}

#[test]
fn hiding_repositories_keeps_the_selection_where_it_is_shown() {
    let mut app = worktree_app();
    app.selected = 2;
    press(&mut app, KeyCode::Char('h'));
    assert!(app.hide_without_linked);
    assert_eq!(app.row_count(), 3);
    assert_eq!(app.selected, 2);
    press(&mut app, KeyCode::Char('h'));
    assert_eq!(app.row_count(), 5);
    assert_eq!(app.selected, 2);
    app.selected = 4;
    press(&mut app, KeyCode::Char('h'));
    assert_eq!(app.selected, 1);
    let mut app = branch_app();
    assert!(app.group_is_visible(&app.repositories[0]));
    app.selected = 3;
    press(&mut app, KeyCode::Char('h'));
    assert_eq!(app.row_count(), 3);
    assert_eq!(app.selected, 2);
    assert!(!app.group_is_visible(&app.repositories[0]));
    app.recursive = false;
    assert_eq!(app.row_count(), 4);
    press(&mut app, KeyCode::Char('h'));
    assert!(app.hide_without_linked);
}

#[test]
fn a_refresh_keeps_what_is_selected() {
    let mut app = worktree_app();
    app.selected = 4;
    let request = ask(&mut app, 'r');
    assert!(matches!(request, Request::Refresh));
    app.answer(
        request,
        Answer::Listings(vec![
            listing(vec![worktree(WorktreeKey::Main, "/one")], Vec::new()),
            listing(vec![worktree(WorktreeKey::Main, "/two"), linked("b")], Vec::new()),
        ]),
    );
    assert_eq!(app.row_count(), 5);
    assert_eq!(app.selected, 3);
    assert_eq!(
        app.selected_identity(),
        Some(TreeIdentity::Worktree(path("/two"), WorktreeKey::Main))
    );
    app.selected = 4;
    app.refresh(vec![
        listing(vec![worktree(WorktreeKey::Main, "/one")], Vec::new()),
        listing(vec![worktree(WorktreeKey::Main, "/two")], Vec::new()),
    ]);
    assert_eq!(app.selected, 3);
}

#[test]
fn a_refresh_stops_at_the_first_failure() {
    let mut app = branch_app();
    app.selected = 3;
    app.refresh_preserving_message(vec![
        Listing {
            worktrees: Ok(vec![linked("a")]),
            branches: Err(GitError::NotACommit),
        },
        listing(Vec::new(), Vec::new()),
    ]);
    assert_eq!(app.message, Some("branch tip is not a commit".to_owned()));
    assert_eq!(app.selected, 3);
    assert_eq!(app.repositories[0].worktrees.len(), 1);
    assert_eq!(app.repositories[1].branches.len(), 2);
    app.refresh(Vec::new());
    assert_eq!(app.message, None);
    assert_eq!(app.repositories[1].branches.len(), 2);
}

#[test]
fn questions_are_about_the_selected_worktree() {
    let mut app = worktree_app();
    app.selected = 2;
    let request = ask(&mut app, 'l');
    assert!(matches!(
        &request,
        Request::Log { repository_index: 0, worktree } if worktree.key == WorktreeKey::Linked("a".to_owned())
    ));
    app.answer(request, Answer::Log(Err(GitError::WorktreeGone)));
    assert_eq!(app.message, Some("selected worktree no longer exists".to_owned()));
    let request = ask(&mut app, 'l');
    assert_eq!(app.message, None);
    let entry = LogEntry {
        id: "01234567".to_owned(),
        subject: "subject".to_owned(),
        author: "author".to_owned(),
        committed_at: 0,
    };
    app.answer(request, Answer::Log(Ok(vec![entry])));
    assert!(matches!(&app.view, Screen::Log { entries, offset: 0, .. } if entries.len() == 1));
    press(&mut app, KeyCode::End);
    press(&mut app, KeyCode::Char('q'));
    assert!(matches!(app.view, Screen::Worktrees));
    let request = ask(&mut app, 's');
    assert!(matches!(&request, Request::Status { .. }));
    app.answer(
        request,
        Answer::Status(Ok(WorktreeStatus {
            reference: "main".to_owned(),
            entries: assessment(3, false).changes,
        })),
    );
    press(&mut app, KeyCode::End);
    assert!(matches!(app.view, Screen::Status { offset: 3, .. }));
    press(&mut app, KeyCode::Esc);
    assert!(matches!(app.view, Screen::Worktrees));
    app.selected = 3;
    for letter in ['l', 's', 'd'] {
        assert!(matches!(press(&mut app, KeyCode::Char(letter)), Outcome::Continue));
        assert_eq!(app.message, Some("select a worktree, not a repository".to_owned()));
    }
}

#[test]
fn deleting_a_worktree_takes_one_confirmation_and_force_another() {
    let mut app = worktree_app();
    app.selected = 2;
    let request = ask(&mut app, 'd');
    app.answer(request, Answer::Assessment(Ok(assessment(4, false))));
    assert!(matches!(
        app.view,
        Screen::ConfirmDelete { repository_index: 0, phase: ConfirmationPhase::Initial, .. }
    ));
    assert!(app.pending_deletion().is_none());
    press(&mut app, KeyCode::Char('j'));
    press(&mut app, KeyCode::Down);
    assert!(matches!(app.view, Screen::ConfirmDelete { offset: 2, .. }));
    press(&mut app, KeyCode::Char('y'));
    let Some((0, key, false)) = app.pending_deletion() else {
        panic!("deletion should be pending");
    };
    assert_eq!(key, WorktreeKey::Linked("a".to_owned()));
    press(&mut app, KeyCode::Esc);
    assert!(app.pending_deletion().is_some());
    let outcome =
        app.process_pending_deletion(Ok(DeleteResult::NeedsForce(assessment(4, true))));
    assert!(matches!(outcome, Outcome::Continue));
    assert!(matches!(
        app.view,
        Screen::ConfirmDelete { phase: ConfirmationPhase::Force, offset: 0, .. }
    ));
    press(&mut app, KeyCode::Char('D'));
    assert!(matches!(app.pending_deletion(), Some((0, _, true))));
    let outcome = app.process_pending_deletion(Ok(DeleteResult::Deleted));
    assert!(matches!(outcome, Outcome::Ask(Request::Refresh)));
    assert!(matches!(app.view, Screen::Worktrees));
}

#[test]
fn any_other_key_cancels_a_deletion() {
    for (phase, code) in [
        (ConfirmationPhase::Initial, KeyCode::Char('Y')),
        (ConfirmationPhase::Initial, KeyCode::Char('D')),
        (ConfirmationPhase::Initial, KeyCode::Home),
        (ConfirmationPhase::Force, KeyCode::Char('d')),
        (ConfirmationPhase::Force, KeyCode::Char('y')),
        (ConfirmationPhase::Force, KeyCode::Esc),
    ] {
        let mut app = worktree_app();
        app.view = Screen::ConfirmDelete {
            repository_index: 0,
            worktree: linked("a"),
            assessment: assessment(2, true),
            phase,
            offset: 0,
        };
        press(&mut app, code);
        assert!(matches!(app.view, Screen::Worktrees), "{phase:?} {code:?}");
        let mut app = branch_app();
        app.view = Screen::ConfirmBranchDelete {
            repository_index: 1,
            branch: branch("topic"),
            assessment: BranchDeletionAssessment {
                checked_out_paths: Vec::new(),
                unmerged: true,
            },
            phase,
        };
        press(&mut app, code);
        assert!(matches!(app.view, Screen::Worktrees), "{phase:?} {code:?}");
    }
}

#[test]
fn failed_deletions_are_reported() {
    let mut app = worktree_app();
    let deleting = |mode| Screen::Deleting {
        repository_index: 0,
        worktree: linked("a"),
        mode,
    };
    app.view = deleting(DeletionMode::Force);
    let outcome =
        app.process_pending_deletion(Ok(DeleteResult::NeedsForce(assessment(1, false))));
    assert!(matches!(outcome, Outcome::Continue));
    assert_eq!(
        app.message,
        Some("worktree state changed; deletion was not performed".to_owned())
    );
    assert!(matches!(app.view, Screen::Worktrees));
    app.view = deleting(DeletionMode::Normal);
    let outcome = app.process_pending_deletion(Err(GitError::CurrentDirectory));
    let Outcome::Ask(Request::RefreshKeepingMessage) = outcome else {
        panic!("the list should be refreshed");
    };
    app.answer(
        Request::RefreshKeepingMessage,
        Answer::Listings(vec![
            listing(Vec::new(), Vec::new()),
            listing(Vec::new(), Vec::new()),
        ]),
    );
    assert_eq!(
        app.message,
        Some("the worktree containing the current directory cannot be deleted".to_owned())
    );
    assert_eq!(app.row_count(), 2);
    let outcome = app.process_pending_deletion(Ok(DeleteResult::Deleted));
    assert!(matches!(outcome, Outcome::Continue));
}

#[test]
fn branches_are_logged_and_compared() {
    let mut app = branch_app();
    app.selected = 3;
    let request = ask(&mut app, 'l');
    assert!(matches!(
        &request,
        Request::BranchLog { repository_index: 1, branch } if branch.name == "topic"
    ));
    app.answer(request, Answer::Log(Ok(Vec::new())));
    assert!(matches!(&app.view, Screen::BranchLog { branch, .. } if branch.name == "topic"));
    press(&mut app, KeyCode::Esc);
    let request = ask(&mut app, 's');
    let status = BranchStatus {
        branch: "topic".to_owned(),
        upstream: None,
        upstream_state: UpstreamState::NotConfigured,
        ahead: 0,
        behind: 0,
        checked_out_paths: vec![path("/a"), path("/b")],
        changes: ChangeCounts {
            staged: 1,
            unstaged: 0,
            untracked: 2,
            deleted: 0,
            conflicted: 0,
        },
    };
    assert_eq!(status_line_count(&status), 6);
    app.answer(request, Answer::BranchStatus(Ok(status)));
    press(&mut app, KeyCode::End);
    assert!(matches!(app.view, Screen::BranchStatus { offset: 5, .. }));
    press(&mut app, KeyCode::Home);
    press(&mut app, KeyCode::Char('q'));
    assert!(matches!(app.view, Screen::Worktrees));
    app.selected = 1;
    for letter in ['l', 's', 'd'] {
        press(&mut app, KeyCode::Char(letter));
        assert_eq!(app.message, Some("select a branch, not a repository".to_owned()));
    }
}

#[test]
fn deleting_a_branch_takes_one_confirmation_and_force_another() {
    let mut app = branch_app();
    app.selected = 2;
    let request = ask(&mut app, 'd');
    app.answer(
        request,
        Answer::BranchAssessment(Ok(BranchDeletionAssessment {
            checked_out_paths: vec![path("/a"), path("/b")],
            unmerged: false,
        })),
    );
    assert!(matches!(app.view, Screen::Worktrees));
    assert_eq!(app.message, Some("branch is checked out in /a, /b".to_owned()));
    let request = ask(&mut app, 'd');
    let unmerged = || BranchDeletionAssessment {
        checked_out_paths: Vec::new(),
        unmerged: true,
    };
    app.answer(request, Answer::BranchAssessment(Ok(unmerged())));
    press(&mut app, KeyCode::Char('y'));
    let Some((1, name, false)) = app.pending_branch_deletion() else {
        panic!("deletion should be pending");
    };
    assert_eq!(name, "main");
    app.process_pending_branch_deletion(Ok(BranchDeleteResult::NeedsForce(unmerged())));
    press(&mut app, KeyCode::Char('D'));
    assert!(matches!(app.pending_branch_deletion(), Some((1, _, true))));
    app.process_pending_branch_deletion(Ok(BranchDeleteResult::NeedsForce(unmerged())));
    assert_eq!(
        app.message,
        Some("branch state changed; deletion was not performed".to_owned())
    );
    app.view = Screen::DeletingBranch {
        repository_index: 1,
        branch: branch("main"),
        mode: DeletionMode::Normal,
    };
    assert!(matches!(
        app.process_pending_branch_deletion(Ok(BranchDeleteResult::Deleted)),
        Outcome::Ask(Request::Refresh)
    ));
    assert_eq!(app.message, None);
    app.view = Screen::DeletingBranch {
        repository_index: 1,
        branch: branch("main"),
        mode: DeletionMode::Normal,
    };
    assert!(matches!(
        app.process_pending_branch_deletion(Err(GitError::CheckedOut("main".to_owned()))),
        Outcome::Ask(Request::RefreshKeepingMessage)
    ));
    assert_eq!(
        app.message,
        Some("branch main is checked out in a worktree".to_owned())
    );
}

#[test]
fn only_two_keys_leave_the_explorer() {
    for mut app in [worktree_app(), branch_app()] {
        assert!(matches!(press(&mut app, KeyCode::Char('q')), Outcome::Quit));
        assert!(matches!(press(&mut app, KeyCode::Esc), Outcome::Continue));
        assert!(matches!(press(&mut app, KeyCode::Char('c')), Outcome::Continue));
        app.view = Screen::Deleting {
            repository_index: 0,
            worktree: linked("a"),
            mode: DeletionMode::Normal,
        };
        assert!(matches!(press(&mut app, KeyCode::Char('q')), Outcome::Continue));
        let interrupt = KeyEvent {
            code: KeyCode::Char('c'),
            control: true,
        };
        assert!(matches!(app.handle_key(interrupt), Outcome::Quit));
    }
}

#[test]
fn answers_to_something_else_change_nothing() {
    let mut app = worktree_app();
    app.answer(Request::Refresh, Answer::Log(Ok(Vec::new())));
    app.answer(
        Request::Log {
            repository_index: 0,
            worktree: linked("a"),
        },
        Answer::Listings(Vec::new()),
    );
    assert!(matches!(app.view, Screen::Worktrees));
    assert_eq!(app.message, None);
    assert_eq!(app.row_count(), 5);
}
