use worktree_explorer::clock::{age_at, read_time, relative_age};
use worktree_explorer::commits::{ahead_behind, reachable_commits, CommitId, CommitSet};
use worktree_explorer::error::GitError;
use worktree_explorer::git::{
    compare_with_upstream, reference_text, BranchFacts, BranchInfo, BranchStatusFacts, History,
    LinkedCheckout, MainCheckout, RepositoryManager, SurveyedWorktree, Upstream, UpstreamFacts,
    UpstreamState, WorktreeInfo, WorktreeKey, WorktreeStatus,
};
use worktree_explorer::history::{
    commit_details, head_details, log_entry, log_from_id, CommitRecord, HeadDetails, HeadFacts,
    TipFacts,
};
use worktree_explorer::objects::local_branch_reference;
use worktree_explorer::path::{FilePath, PathPart};
use worktree_explorer::status::{
    count_changes, sorted_entries, status_entry, ChangeCounts, ChangeKind, IndexChange, ItemChange,
    StatusArea, StatusEntry, StatusItem, WorktreeChange,
};
use worktree_explorer::text::{abbreviate_id, is_text_le, join, number, pad_right, trim};

const ID: &str = "0123456789abcdef0123456789abcdef01234567";

const COMMIT: &str = "tree 4b825dc642cb6eb9a060e54bf8d69288fbee4904\n\
    author Ann Author <ann@example.invalid> 1700000000 +0000\n\
    committer Carl Committer <carl@example.invalid> 1700000100 +0100\n\
    \n\
    \x20 Fix the tree  \n\
    \n\
    Body of the message.\n";

fn path(text: &str) -> FilePath {
    let mut parts = Vec::new();
    if text.starts_with('/') {
        parts.push(PathPart::Root);
    }
    for name in text.split('/').filter(|name| !name.is_empty()) {
        parts.push(PathPart::Normal(name.as_bytes().to_vec()));
    }
    FilePath::new(parts, text.to_owned())
}

fn manager() -> RepositoryManager {
    RepositoryManager::from_repository(path("/r/.git"), path("/r/.git"), Some(path("/r")))
}

fn worktree(key: WorktreeKey, place: &str, branch: Option<&str>, available: bool) -> WorktreeInfo {
    WorktreeInfo {
        key,
        path: path(place),
        head: Some("01234567".to_owned()),
        committed_at: Some(1_700_000_000),
        branch: branch.map(|name| name.to_owned()),
        locked: false,
        available,
    }
}

fn record(data: &str) -> CommitRecord {
    CommitRecord {
        id: ID.to_owned(),
        data: data.as_bytes().to_vec(),
    }
}

fn id(n: u128) -> CommitId {
    CommitId { head: n, tail: 7 }
}

fn commits(ids: &[CommitId]) -> CommitSet {
    reachable_commits(ids.iter().map(|id| Ok(*id)).collect()).expect("walk should succeed")
}

#[test]
fn ages_are_shown_in_the_largest_unit_that_fills_them() {
    let cases: [(i64, &str); 16] = [
        (0, "0s ago"),
        (59, "59s ago"),
        (60, "1m ago"),
        (3_599, "59m ago"),
        (3_600, "1h ago"),
        (86_399, "23h ago"),
        (86_400, "1d ago"),
        (2_591_999, "29d ago"),
        (2_592_000, "30d ago"),
        (2_592_001, "1mo ago"),
        (31_535_999, "12mo ago"),
        (31_536_000, "12mo ago"),
        (31_536_001, "1y ago"),
        (63_072_000, "2y ago"),
        (-5, "0s ago"),
        (i64::MAX, "292471208677y ago"),
    ];
    for (seconds, expected) in cases {
        assert_eq!(age_at(0, -seconds), expected, "{seconds}");
    }
    assert_eq!(age_at(i64::MAX, i64::MIN), "292471208677y ago");
}

#[test]
fn the_clock_has_passed_the_epoch() {
    assert!(relative_age(0).ends_with("y ago"));
    assert_eq!(relative_age(i64::MAX), "0s ago");
    assert_eq!(read_time(Some(1_700_000_000)), 1_700_000_000);
    assert_eq!(read_time(None), 0);
    assert_eq!(read_time(Some(u64::MAX)), -1);
    assert_eq!(read_time(Some(1 << 63)), i64::MIN);
}

#[test]
fn numbers_and_columns_are_written_out() {
    assert_eq!(number(0), "0");
    assert_eq!(number(10), "10");
    assert_eq!(number(u64::MAX), "18446744073709551615");
    assert_eq!(pad_right("äb", 4), "äb  ");
    assert_eq!(pad_right("abcdef", 4), "abcdef");
    assert_eq!(join(&vec!["a".to_owned(), "b".to_owned()], ", "), "a, b");
    assert_eq!(join(&Vec::new(), ", "), "");
    assert_eq!(abbreviate_id("äöü"), "äöü");
    assert_eq!(abbreviate_id("äöüäöüäöüäöü"), "äöüäöüäö");
}

#[test]
fn reference_names_are_checked_and_shortened() {
    assert_eq!(local_branch_reference("topic"), Ok("refs/heads/topic".to_owned()));
    let error = local_branch_reference("two..dots").expect_err("name should be refused");
    let GitError::InvalidBranchName(name, cause) = &error else {
        panic!("name should be invalid");
    };
    assert_eq!(name, "two..dots");
    assert!(!cause.is_empty());
    assert_eq!(
        error.message(),
        format!("invalid local branch name two..dots: {cause}")
    );
    assert_eq!(reference_text(&b"refs/heads/topic".to_vec()), "topic");
    assert_eq!(reference_text(&b"refs/remotes/origin/main".to_vec()), "origin/main");
    assert_eq!(reference_text(&b"refs/heads/a/b".to_vec()), "a/b");
}

#[test]
fn commits_are_decoded_for_the_log() {
    let entry = log_entry(&record(COMMIT)).expect("commit should be decoded");
    assert_eq!(entry.id, "01234567");
    assert_eq!(entry.subject, "Fix the tree");
    assert_eq!(entry.author, "Ann Author");
    assert_eq!(entry.committed_at, 1_700_000_100);
}

#[test]
fn broken_commits_are_errors_of_the_log() {
    assert!(matches!(
        log_entry(&record("no commit at all")),
        Err(GitError::CommitData(_))
    ));
    for (time, cause) in [
        ("", "The commit date could not be parsed: invalid time: \"\""),
        (
            "yesterday",
            "The commit could not be decoded fully or partially: object parsing failed",
        ),
    ] {
        let commit = COMMIT.replace("1700000100 +0100", time);
        assert_eq!(
            commit_details(ID, &TipFacts::Commit(commit.into_bytes())),
            Err(GitError::BranchTime(cause.to_owned()))
        );
    }
}

#[test]
fn heads_are_detached_unborn_or_on_a_branch() {
    let on_branch = head_details(&HeadFacts {
        id: Some(ID.to_owned()),
        commit: Some(COMMIT.as_bytes().to_vec()),
        reference: Some(b"refs/heads/main".to_vec()),
    });
    assert_eq!(
        on_branch,
        HeadDetails {
            head: Some("01234567".to_owned()),
            committed_at: Some(1_700_000_100),
            branch: Some("main".to_owned()),
        }
    );
    let mut info = worktree(WorktreeKey::Main, "/r", Some("main"), true);
    assert_eq!(info.reference_label(), "main");
    info.branch = None;
    assert_eq!(info.reference_label(), "detached HEAD");
    info.head = None;
    assert_eq!(info.reference_label(), "unborn HEAD");
    let unborn = head_details(&HeadFacts {
        id: None,
        commit: Some(COMMIT.as_bytes().to_vec()),
        reference: None,
    });
    assert_eq!(unborn.head, None);
    assert_eq!(unborn.committed_at, None);
}

#[test]
fn the_main_worktree_is_listed_first() {
    let head = || HeadDetails {
        head: None,
        committed_at: None,
        branch: Some("main".to_owned()),
    };
    let main = || MainCheckout {
        path: path("/r"),
        head: head(),
        available: true,
    };
    let linked = |id: &str, base: Result<FilePath, String>| LinkedCheckout {
        id: id.to_owned(),
        base,
        locked: true,
        available: false,
        head: None,
    };
    let listed = manager()
        .list_worktrees(Some(main()), Ok(vec![linked("a", Ok(path("/a")))]))
        .expect("worktrees should be listed");
    assert_eq!(listed.len(), 2);
    assert_eq!(listed[0].key, WorktreeKey::Main);
    assert!(!listed[0].locked);
    assert_eq!(listed[1].key, WorktreeKey::Linked("a".to_owned()));
    assert!(listed[1].locked);
    assert_eq!(listed[1].reference_label(), "unborn HEAD");
    assert_eq!(
        manager().list_worktrees(
            Some(main()),
            Ok(vec![
                linked("a", Ok(path("/a"))),
                linked("b", Err("no path for b".to_owned())),
                linked("c", Err("no path for c".to_owned())),
            ])
        ),
        Err(GitError::Failed("no path for b".to_owned()))
    );
    assert_eq!(
        manager().list_worktrees(Some(main()), Err("no worktrees".to_owned())),
        Err(GitError::Failed("no worktrees".to_owned()))
    );
}

#[test]
fn worktrees_are_found_by_key() {
    let listed = vec![
        worktree(WorktreeKey::Main, "/r", Some("main"), true),
        worktree(WorktreeKey::Linked("a".to_owned()), "/a", None, false),
    ];
    let key = WorktreeKey::Linked("a".to_owned());
    assert_eq!(manager().find_worktree(&listed, &key), Ok(1));
    assert_eq!(
        manager().find_available_worktree(&listed, &key),
        Err(GitError::Unavailable("/a".to_owned()))
    );
    assert_eq!(manager().find_available_worktree(&listed, &WorktreeKey::Main), Ok(0));
    assert_eq!(
        manager().find_worktree(&listed, &WorktreeKey::Linked("b".to_owned())),
        Err(GitError::WorktreeGone)
    );
    assert_eq!(
        manager().log(&listed[1], &History::Unborn),
        Err(GitError::Unavailable("/a".to_owned()))
    );
    assert_eq!(manager().log(&listed[0], &History::Unborn), Ok(Vec::new()));
    assert_eq!(
        manager().log(&listed[0], &History::Failed("no head".to_owned())),
        Err(GitError::Failed("no head".to_owned()))
    );
    assert!(matches!(
        manager().log_branch("two..dots", &History::Unborn),
        Err(GitError::InvalidBranchName(_, _))
    ));
    assert_eq!(manager().log_branch("main", &History::Unborn), Ok(Vec::new()));
}

fn branch(name: &str) -> Result<BranchFacts, String> {
    Ok(BranchFacts {
        full_name: format!("refs/heads/{name}").into_bytes(),
        id: Some(ID.to_owned()),
        tip: TipFacts::Commit(COMMIT.as_bytes().to_vec()),
    })
}

#[test]
fn branches_are_sorted_by_name_and_know_their_checkouts() {
    let worktrees = vec![
        worktree(WorktreeKey::Main, "/r", Some("main"), true),
        worktree(WorktreeKey::Linked("a".to_owned()), "/a", Some("topic"), true),
        worktree(WorktreeKey::Linked("b".to_owned()), "/b", Some("topic"), false),
    ];
    let found = vec![branch("topic"), branch("ärger"), branch("main"), branch("Zebra")];
    let listed = manager()
        .list_branches(&worktrees, &found)
        .expect("branches should be listed");
    let names = listed.iter().map(|branch| branch.name.as_str()).collect::<Vec<_>>();
    assert_eq!(names, ["Zebra", "main", "topic", "ärger"]);
    let places = listed[2]
        .checked_out_paths
        .iter()
        .map(|path| path.text.as_str())
        .collect::<Vec<_>>();
    assert_eq!(places, ["/a", "/b"]);
    assert!(listed[0].checked_out_paths.is_empty());
    assert_eq!(listed[1].head, "01234567");
    assert_eq!(listed[1].committed_at, 1_700_000_100);
}

#[test]
fn different_branches_strictly_ascend() {
    let found = ["b", "a/b", "a", "refs/heads/a", "B", "a-b", "ab"]
        .into_iter()
        .map(branch)
        .collect::<Vec<_>>();
    let listed = manager()
        .list_branches(&Vec::new(), &found)
        .expect("branches should be listed");
    assert_eq!(listed.len(), found.len());
    assert!(listed.windows(2).all(|pair| pair[0].name < pair[1].name));
    assert_eq!(listed[6].name, "refs/heads/a");
}

#[test]
fn the_first_branch_that_cannot_be_listed_is_the_error() {
    let empty = Ok(BranchFacts {
        full_name: b"refs/heads/empty".to_vec(),
        id: None,
        tip: TipFacts::NotACommit,
    });
    let error = manager()
        .list_branches(&Vec::new(), &vec![branch("main"), empty])
        .expect_err("branch without an object should be refused");
    assert_eq!(error, GitError::NoObject("empty".to_owned()));
    assert_eq!(
        error.message(),
        "local branch empty does not point to an object"
    );
    assert_eq!(
        manager().list_branches(&Vec::new(), &vec![Err("unreadable".to_owned()), branch("main")]),
        Err(GitError::Failed("unreadable".to_owned()))
    );
}

#[test]
fn commits_are_compared_as_sets() {
    let ours = commits(&[id(1), id(2), id(3), id(2)]);
    let theirs = commits(&[id(3), CommitId { head: 3, tail: 8 }]);
    assert_eq!(ahead_behind(&ours, &theirs), (2, 1));
    assert_eq!(ahead_behind(&ours, &ours), (0, 0));
    assert!(ours.contains(id(2)));
    assert!(!ours.contains(id(4)));
    let failed = reachable_commits(vec![Ok(id(1)), Err("broken".to_owned()), Err("later".to_owned())]);
    assert!(matches!(failed, Err(GitError::Failed(message)) if message == "broken"));
}

#[test]
fn upstreams_are_compared() {
    assert_eq!(
        compare_with_upstream(&UpstreamFacts::NotConfigured),
        Upstream::NotConfigured
    );
    let name = b"refs/remotes/origin/main".to_vec();
    assert_eq!(
        compare_with_upstream(&UpstreamFacts::Missing(name.clone())),
        Upstream::Missing("origin/main".to_owned())
    );
    assert_eq!(
        compare_with_upstream(&UpstreamFacts::Present(
            name,
            commits(&[id(1), id(2)]),
            commits(&[id(1)])
        )),
        Upstream::Present("origin/main".to_owned(), 1, 0)
    );
}

fn entry(area: StatusArea, kind: ChangeKind, path: &str) -> StatusEntry {
    StatusEntry {
        area,
        kind,
        path: path.to_owned(),
    }
}

fn status(entries: Vec<StatusEntry>) -> WorktreeStatus {
    WorktreeStatus {
        reference: "main".to_owned(),
        entries,
    }
}

fn branch_info(name: &str, places: &[&str]) -> BranchInfo {
    BranchInfo {
        name: name.to_owned(),
        head: "01234567".to_owned(),
        committed_at: 0,
        checked_out_paths: places.iter().map(|place| path(place)).collect(),
    }
}

#[test]
fn the_status_of_a_branch_counts_the_changes_of_its_worktrees() {
    let worktrees = || {
        vec![
            worktree(WorktreeKey::Main, "/r", Some("main"), true),
            worktree(WorktreeKey::Linked("a".to_owned()), "/a", Some("topic"), true),
            worktree(WorktreeKey::Linked("b".to_owned()), "/b", Some("main"), false),
        ]
    };
    let facts = |statuses: Vec<Result<WorktreeStatus, GitError>>| BranchStatusFacts {
        reference: Ok(()),
        branches: Ok(vec![branch_info("main", &["/r", "/b"]), branch_info("topic", &["/a"])]),
        upstream: Ok(UpstreamFacts::Present(
            b"refs/remotes/origin/main".to_vec(),
            commits(&[id(1), id(2)]),
            commits(&[id(1), id(3), id(4)]),
        )),
        worktrees: Ok(worktrees()
            .into_iter()
            .zip(statuses)
            .map(|(info, status)| SurveyedWorktree { info, status })
            .collect()),
    };
    let fault = |message: &str| Err(GitError::Failed(message.to_owned()));
    assert!(manager().needs_status(&worktrees()[0], "main"));
    assert!(!manager().needs_status(&worktrees()[1], "main"));
    assert!(!manager().needs_status(&worktrees()[2], "main"));
    let found = manager()
        .branch_status(
            "main",
            facts(vec![
                Ok(status(vec![
                    entry(StatusArea::Index, ChangeKind::Modified, "staged"),
                    entry(StatusArea::Worktree, ChangeKind::Modified, "changed"),
                    entry(StatusArea::Worktree, ChangeKind::Added, "new"),
                    entry(StatusArea::Worktree, ChangeKind::Deleted, "deleted"),
                    entry(StatusArea::Worktree, ChangeKind::Conflict, "conflict"),
                ])),
                fault("does not count"),
                fault("does not count"),
            ]),
        )
        .expect("status should be calculated");
    assert_eq!(found.branch, "main");
    assert_eq!(found.upstream, Some("origin/main".to_owned()));
    assert_eq!(found.upstream_state, UpstreamState::Present);
    assert_eq!((found.ahead, found.behind), (1, 2));
    assert_eq!(found.checked_out_paths.len(), 2);
    assert_eq!(
        found.changes,
        ChangeCounts {
            staged: 1,
            unstaged: 1,
            untracked: 1,
            deleted: 1,
            conflicted: 1,
        }
    );
    let failed = manager().branch_status(
        "main",
        facts(vec![fault("first"), Ok(status(Vec::new())), fault("last")]),
    );
    assert_eq!(failed, Err(GitError::Failed("first".to_owned())));
    let failed = manager().branch_status(
        "topic",
        facts(vec![fault("first"), fault("second"), fault("last")]),
    );
    assert_eq!(failed, Err(GitError::Failed("second".to_owned())));
    assert!(matches!(
        manager().branch_status("two..dots", facts(Vec::new())),
        Err(GitError::InvalidBranchName(_, _))
    ));
}

#[test]
fn changes_are_classified() {
    let found = |change| {
        status_entry(&StatusItem {
            location: b"f".to_vec(),
            change,
        })
        .map(|entry| (entry.area, entry.kind))
    };
    let index = |change| found(ItemChange::TreeIndex(change));
    let files = |change| found(ItemChange::IndexWorktree(Some(change)));
    assert_eq!(index(IndexChange::Addition), Some((StatusArea::Index, ChangeKind::Added)));
    assert_eq!(index(IndexChange::Deletion), Some((StatusArea::Index, ChangeKind::Deleted)));
    assert_eq!(
        index(IndexChange::Modification),
        Some((StatusArea::Index, ChangeKind::Modified))
    );
    assert_eq!(
        index(IndexChange::Rewrite { copy: false }),
        Some((StatusArea::Index, ChangeKind::Renamed))
    );
    assert_eq!(
        index(IndexChange::Rewrite { copy: true }),
        Some((StatusArea::Index, ChangeKind::Copied))
    );
    let cases = [
        (WorktreeChange::Removed, ChangeKind::Deleted),
        (WorktreeChange::Added, ChangeKind::Added),
        (WorktreeChange::Modified, ChangeKind::Modified),
        (WorktreeChange::TypeChange, ChangeKind::TypeChanged),
        (WorktreeChange::Renamed, ChangeKind::Renamed),
        (WorktreeChange::Copied, ChangeKind::Copied),
        (WorktreeChange::IntentToAdd, ChangeKind::IntentToAdd),
        (WorktreeChange::Conflict, ChangeKind::Conflict),
    ];
    for (change, kind) in cases {
        assert_eq!(files(change), Some((StatusArea::Worktree, kind)));
    }
    assert_eq!(found(ItemChange::IndexWorktree(None)), None);
}

#[test]
fn labels_name_the_kinds_of_changes() {
    let labels = [
        (ChangeKind::Added, "added"),
        (ChangeKind::Modified, "modified"),
        (ChangeKind::Deleted, "deleted"),
        (ChangeKind::Renamed, "renamed"),
        (ChangeKind::Copied, "copied"),
        (ChangeKind::TypeChanged, "type changed"),
        (ChangeKind::Conflict, "conflict"),
        (ChangeKind::IntentToAdd, "intent to add"),
    ];
    for (kind, label) in labels {
        assert_eq!(kind.label(), label);
    }
}

#[test]
fn statuses_are_sorted_by_area_kind_and_path() {
    let item = |location: &[u8], change| StatusItem {
        location: location.to_vec(),
        change,
    };
    let items = || {
        vec![
            item(b"z", ItemChange::IndexWorktree(Some(WorktreeChange::Added))),
            item(b"a\xff", ItemChange::IndexWorktree(Some(WorktreeChange::Added))),
            item(b"same", ItemChange::IndexWorktree(None)),
            item(b"m", ItemChange::TreeIndex(IndexChange::Modification)),
            item(b"n", ItemChange::TreeIndex(IndexChange::Addition)),
        ]
    };
    let expected = vec![
        entry(StatusArea::Index, ChangeKind::Added, "n"),
        entry(StatusArea::Index, ChangeKind::Modified, "m"),
        entry(StatusArea::Worktree, ChangeKind::Added, "a\u{fffd}"),
        entry(StatusArea::Worktree, ChangeKind::Added, "z"),
    ];
    assert_eq!(sorted_entries(&items()), expected);
    let info = worktree(WorktreeKey::Main, "/r", Some("main"), true);
    assert_eq!(
        manager().status(&info, Ok(items())),
        Ok(WorktreeStatus {
            reference: "main".to_owned(),
            entries: expected,
        })
    );
    assert_eq!(
        manager().status(&info, Err("no status".to_owned())),
        Err(GitError::Failed("no status".to_owned()))
    );
    let gone = worktree(WorktreeKey::Main, "/r", Some("main"), false);
    let error = manager()
        .status(&gone, Ok(Vec::new()))
        .expect_err("missing worktree should be refused");
    assert_eq!(error.message(), "worktree /r is unavailable");
}

#[test]
fn every_change_counts_once() {
    let areas = [StatusArea::Index, StatusArea::Worktree];
    let kinds = [
        ChangeKind::Added,
        ChangeKind::Modified,
        ChangeKind::Deleted,
        ChangeKind::Renamed,
        ChangeKind::Copied,
        ChangeKind::TypeChanged,
        ChangeKind::Conflict,
        ChangeKind::IntentToAdd,
    ];
    let mut entries = Vec::new();
    for area in areas {
        for kind in kinds {
            entries.push(entry(area, kind, "f"));
        }
    }
    assert_eq!(
        count_changes(&entries),
        ChangeCounts {
            staged: 6,
            unstaged: 5,
            untracked: 1,
            deleted: 2,
            conflicted: 2,
        }
    );
    assert_eq!(count_changes(&Vec::new()), ChangeCounts::default());
}

#[test]
fn texts_are_ordered_as_by_std() {
    let texts = ["", "a", "ab", "b", "B", "ä", "\u{ffff}", "\u{10000}", "a\u{10000}", "a\u{fffd}"];
    for left in texts {
        for right in texts {
            assert_eq!(is_text_le(left, right), left <= right, "{left:?} {right:?}");
        }
    }
}

#[test]
fn texts_are_trimmed_as_by_std() {
    for code in 0..=0x10ffff {
        if let Some(c) = char::from_u32(code) {
            let text = format!("{c} a{c}b {c}");
            assert_eq!(trim(&text), text.trim(), "{code:x}");
        }
    }
    assert_eq!(trim(""), "");
    assert_eq!(trim(" \t\n"), "");
    assert_eq!(trim(" both ends \u{3000}"), "both ends");
}
