use worktree_explorer::app::{App, Listing};
use worktree_explorer::git::{
    BranchDeletionAssessment, BranchInfo, BranchStatus, DeletionAssessment, RepositoryManager,
    UpstreamState, WorktreeInfo, WorktreeKey, WorktreeStatus,
};
use worktree_explorer::history::LogEntry;
use worktree_explorer::layout::{centered_rect, split_body_and_footer, Area};
use worktree_explorer::path::{FilePath, PathPart};
use worktree_explorer::render::{
    append_change_count, draw_branch, draw_branch_confirmation, draw_branch_status,
    draw_confirmation, draw_log, draw_status, draw_worktree,
};
use worktree_explorer::screen::{ConfirmationPhase, DeletionMode, Screen};
use worktree_explorer::status::{ChangeCounts, ChangeKind, StatusArea, StatusEntry};
use worktree_explorer::tree::ExploreMode;
use worktree_explorer::widget::{Color, Line, Style, Widget};

const SCREEN: Area = Area {
    x: 0,
    y: 0,
    width: 80,
    height: 24,
};

fn path(text: &str) -> FilePath {
    let mut parts = Vec::new();
    if text.starts_with('/') {
        parts.push(PathPart::Root);
    }
    for name in text.split('/').filter(|name| !name.is_empty()) {
        parts.push(PathPart::Normal(name.as_bytes().to_vec()));
    }
    FilePath::new(parts, text.to_owned())
}

fn repository(root: &str) -> RepositoryManager {
    let git_dir = format!("{root}/.git");
    RepositoryManager::from_repository(path(&git_dir), path(&git_dir), Some(path(root)))
}

fn worktree(key: WorktreeKey, place: &str) -> WorktreeInfo {
    WorktreeInfo {
        key,
        path: path(place),
        head: Some("01234567".to_owned()),
        committed_at: Some(1_000),
        branch: Some("main".to_owned()),
        locked: false,
        available: true,
    }
}

fn app(branches: bool) -> App {
    let listing = |root: &str| Listing {
        worktrees: Ok(vec![
            worktree(WorktreeKey::Main, root),
            worktree(WorktreeKey::Linked("a".to_owned()), "/a"),
        ]),
        branches: Ok(vec![branch("main", &[root]), branch("topic", &[])]),
    };
    App::new(
        vec![
            (repository("/one"), listing("/one")),
            (repository("/two"), listing("/two")),
        ],
        true,
        branches,
    )
    .expect("application should initialize")
}

fn branch(name: &str, places: &[&str]) -> BranchInfo {
    BranchInfo {
        name: name.to_owned(),
        head: "01234567".to_owned(),
        committed_at: 1_000,
        checked_out_paths: places.iter().map(|place| path(place)).collect(),
    }
}

fn change(n: usize) -> StatusEntry {
    StatusEntry {
        area: StatusArea::Worktree,
        kind: ChangeKind::Modified,
        path: format!("file {n}"),
    }
}

fn text_of(line: &Line) -> String {
    line.spans.iter().map(|span| span.text.as_str()).collect()
}

fn texts(lines: &[Line]) -> Vec<String> {
    lines.iter().map(text_of).collect()
}

#[test]
fn worktrees_are_drawn_in_columns() {
    let line = draw_worktree(&worktree(WorktreeKey::Main, "/one"), false, true, 1_090);
    assert_eq!(
        text_of(&line),
        "  ├─ 01234567 1m ago     main                 /one [main]"
    );
    assert_eq!(line.spans[1].style, Style::color(Color::White));
    assert_eq!(line.spans[4].style, Style::plain());
    let gone = WorktreeInfo {
        head: None,
        committed_at: None,
        branch: None,
        locked: true,
        available: false,
        ..worktree(WorktreeKey::Linked("a".to_owned()), "/a")
    };
    let line = draw_worktree(&gone, true, false, 0);
    assert_eq!(
        text_of(&line),
        "  └─ -------- —          unborn HEAD          /a [locked, missing]"
    );
    assert_eq!(line.spans[1].style, Style::color(Color::DarkGray));
    assert_eq!(line.spans[5].style, Style::color(Color::Yellow));
}

#[test]
fn branches_are_drawn_with_their_checkouts() {
    assert_eq!(
        text_of(&draw_branch(&branch("topic", &["/a", "/b"]), true, false, 1_000)),
        "  └─ 01234567 0s ago     topic [checked out: /a, /b]"
    );
    assert_eq!(
        text_of(&draw_branch(&branch("main", &[]), false, false, 8_200)),
        "  ├─ 01234567 2h ago     main"
    );
}

#[test]
fn every_row_of_the_tree_has_a_line() {
    let app = app(false);
    let lines = app.draw_rows(ExploreMode::Worktrees, 1_000);
    assert_eq!(lines.len(), app.row_count());
    assert_eq!(
        texts(&lines),
        [
            "▾ /one",
            "  ├─ 01234567 0s ago     main                 /one [main]",
            "  └─ 01234567 0s ago     main                 /a",
            "▾ /two",
            "  ├─ 01234567 0s ago     main                 /two [main]",
            "  └─ 01234567 0s ago     main                 /a",
        ]
    );
    assert_eq!(lines[1].spans[1].style, Style::color(Color::White));
    assert_eq!(lines[2].spans[1].style, Style::color(Color::DarkGray));
    assert_eq!(lines[0].spans[1].style, Style::bold());
}

#[test]
fn lists_have_help_below_them() {
    let mut app = app(false);
    app.selected = 99;
    let widgets = app.render_at(SCREEN, 1_000);
    assert_eq!(widgets.len(), 2);
    let Widget::List { area, title, items, selected, highlight, symbol } = &widgets[0] else {
        panic!("a list should be drawn");
    };
    assert_eq!(title, " Repositories and worktrees ");
    assert_eq!(items.len(), 6);
    assert_eq!(*selected, Some(5));
    assert_eq!(*highlight, Style::selected());
    assert_eq!(symbol, "› ");
    assert_eq!((area.height, area.width), (22, 80));
    let Widget::Text { text, style, area, .. } = &widgets[1] else {
        panic!("help should be drawn");
    };
    assert_eq!(
        text,
        "↑/↓ or j/k select   PgUp/PgDn page   l logs   s status   d delete   r refresh   h hide without linked   q quit"
    );
    assert_eq!(*style, Style::color(Color::DarkGray));
    assert_eq!((area.y, area.height), (22, 2));
    app.message = Some("broken".to_owned());
    let widgets = app.render_at(SCREEN, 1_000);
    assert!(matches!(
        &widgets[1],
        Widget::Text { text, style, .. } if text == "Error: broken" && *style == Style::color(Color::Red)
    ));
}

#[test]
fn help_names_the_filter_only_where_there_is_one() {
    let help = |app: &App| {
        let widgets = app.render_at(SCREEN, 1_000);
        let Widget::Text { text, .. } = &widgets[1] else {
            panic!("help should be drawn");
        };
        text.clone()
    };
    let mut app = app(true);
    assert!(help(&app).contains("   h hide empty   q quit"));
    app.hide_without_linked = true;
    assert!(help(&app).contains("   h show all   q quit"));
    app.recursive = false;
    assert!(help(&app).contains("   r refresh   q quit"));
}

#[test]
fn an_empty_list_has_no_selection() {
    let app = App::new(Vec::new(), false, false).expect("application should initialize");
    let widgets = app.render_at(SCREEN, 0);
    assert!(matches!(&widgets[0], Widget::List { selected: None, .. }));
}

#[test]
fn logs_show_commits_or_that_there_are_none() {
    assert_eq!(
        texts(&draw_log(&Vec::new(), "No commits reachable from HEAD", 0)),
        ["No commits reachable from HEAD"]
    );
    let entry = LogEntry {
        id: "01234567".to_owned(),
        subject: "Fix the tree".to_owned(),
        author: "Ann".to_owned(),
        committed_at: 0,
    };
    assert_eq!(
        texts(&draw_log(&vec![entry], "", 172_800)),
        ["01234567 Fix the tree  Ann · 2d ago"]
    );
}

#[test]
fn statuses_show_changes_or_that_there_are_none() {
    let status = |entries| WorktreeStatus {
        reference: "main".to_owned(),
        entries,
    };
    assert_eq!(
        texts(&draw_status(&status(Vec::new()))),
        ["On main", "Working tree clean"]
    );
    let staged = StatusEntry {
        area: StatusArea::Index,
        kind: ChangeKind::TypeChanged,
        path: "link".to_owned(),
    };
    assert_eq!(
        texts(&draw_status(&status(vec![staged, change(1)]))),
        [
            "On main",
            "staged   type changed  link",
            "worktree modified      file 1",
        ]
    );
}

fn branch_status() -> BranchStatus {
    BranchStatus {
        branch: "topic".to_owned(),
        upstream: Some("origin/topic".to_owned()),
        upstream_state: UpstreamState::Present,
        ahead: 0,
        behind: 0,
        checked_out_paths: Vec::new(),
        changes: ChangeCounts::default(),
    }
}

#[test]
fn the_status_of_a_branch_names_its_upstream() {
    assert_eq!(
        texts(&draw_branch_status(&branch_status())),
        ["Branch topic", "Up to date with upstream", "Not checked out"]
    );
    let apart = BranchStatus {
        ahead: 2,
        behind: 1,
        ..branch_status()
    };
    assert_eq!(
        texts(&draw_branch_status(&apart)),
        [
            "Branch topic",
            "Ahead of origin/topic by 2 commit(s)",
            "Behind origin/topic by 1 commit(s)",
            "Not checked out",
        ]
    );
    let missing = BranchStatus {
        upstream_state: UpstreamState::Missing,
        ..branch_status()
    };
    assert_eq!(
        texts(&draw_branch_status(&missing))[1],
        "Upstream origin/topic is missing"
    );
    let none = BranchStatus {
        upstream: None,
        upstream_state: UpstreamState::NotConfigured,
        ..branch_status()
    };
    assert_eq!(texts(&draw_branch_status(&none))[1], "No configured upstream");
    let unknown = BranchStatus {
        upstream: None,
        upstream_state: UpstreamState::Missing,
        ..branch_status()
    };
    assert_eq!(
        texts(&draw_branch_status(&unknown))[1],
        "Upstream (unknown) is missing"
    );
}

#[test]
fn the_status_of_a_checked_out_branch_counts_its_changes() {
    let clean = BranchStatus {
        checked_out_paths: vec![path("/a"), path("/b")],
        ..branch_status()
    };
    assert_eq!(
        texts(&draw_branch_status(&clean))[2..],
        ["Checked out at /a", "Checked out at /b", "Working tree clean"]
    );
    let mut lines = Vec::new();
    append_change_count(
        &mut lines,
        ChangeCounts {
            staged: 1,
            unstaged: 2,
            untracked: 3,
            deleted: 4,
            conflicted: 5,
        },
    );
    assert_eq!(
        texts(&lines),
        [
            "1 staged file(s)",
            "2 unstaged file(s)",
            "3 untracked file(s)",
            "4 deleted file(s)",
            "5 conflicted file(s)",
        ]
    );
}

#[test]
fn the_question_about_a_worktree_shows_the_changes_that_fit() {
    let assessment = DeletionAssessment {
        changes: (0..5).map(change).collect(),
        locked: true,
        missing: false,
    };
    let lines = |phase, offset, height| {
        texts(&draw_confirmation(
            &worktree(WorktreeKey::Linked("a".to_owned()), "/a"),
            &assessment,
            phase,
            offset,
            height,
        ))
    };
    assert_eq!(
        lines(ConfirmationPhase::Initial, 1, 10),
        [
            "/a",
            "This worktree is locked.",
            "Changes (5)",
            "worktree modified      file 1",
            "worktree modified      file 2",
            "Showing 2–3 of 5 · ↑/↓ or j/k scroll",
            "Delete this worktree? y/N",
        ]
    );
    assert_eq!(
        lines(ConfirmationPhase::Force, 4, 0),
        [
            "/a",
            "This worktree is locked.",
            "Changes (5)",
            "worktree modified      file 4",
            "Showing 5–5 of 5 · ↑/↓ or j/k scroll",
            "This permanently discards local worktree data.",
            "Press uppercase D to force deletion; any other key cancels.",
        ]
    );
    assert_eq!(lines(ConfirmationPhase::Initial, 0, 13).len(), 9);
    let missing = DeletionAssessment {
        changes: Vec::new(),
        locked: false,
        missing: true,
    };
    assert_eq!(
        texts(&draw_confirmation(
            &worktree(WorktreeKey::Linked("a".to_owned()), "/a"),
            &missing,
            ConfirmationPhase::Initial,
            0,
            8,
        )),
        [
            "/a",
            "The checkout is missing; only stale metadata will be removed.",
            "Delete this worktree? y/N",
        ]
    );
}

#[test]
fn the_question_about_a_branch_says_that_it_is_not_merged() {
    let lines = |unmerged, phase| {
        texts(&draw_branch_confirmation(
            &branch("topic", &[]),
            &BranchDeletionAssessment {
                checked_out_paths: Vec::new(),
                unmerged,
            },
            phase,
        ))
    };
    assert_eq!(
        lines(false, ConfirmationPhase::Initial),
        ["topic", "Delete this local branch? y/N"]
    );
    assert_eq!(
        lines(true, ConfirmationPhase::Force),
        [
            "topic",
            "This branch is not merged into the repository HEAD.",
            "This permanently discards the unmerged branch.",
            "Press uppercase D to force deletion; any other key cancels.",
        ]
    );
}

#[test]
fn screens_are_drawn_over_or_in_place_of_the_list() {
    let mut worktrees = app(false);
    worktrees.view = Screen::Log {
        worktree: worktree(WorktreeKey::Main, "/one"),
        entries: Vec::new(),
        offset: 70_000,
    };
    let widgets = worktrees.render_at(SCREEN, 0);
    assert_eq!(widgets.len(), 2);
    assert!(matches!(
        &widgets[0],
        Widget::Paragraph { title, scroll: 65_535, .. } if title == " Log — /one "
    ));
    assert!(matches!(
        &widgets[1],
        Widget::Text { text, centered: true, .. }
            if text == "↑/↓ or j/k scroll   PgUp/PgDn page   Esc/q back"
    ));
    worktrees.view = Screen::Deleting {
        repository_index: 0,
        worktree: worktree(WorktreeKey::Main, "/one"),
        mode: DeletionMode::Normal,
    };
    let widgets = worktrees.render_at(SCREEN, 0);
    assert_eq!(widgets.len(), 4);
    assert!(matches!(&widgets[2], Widget::Clear { .. }));
    assert!(matches!(
        &widgets[3],
        Widget::Paragraph { title, lines, .. }
            if title == " Delete worktree " && texts(lines) == ["/one", "Deleting..."]
    ));
    worktrees.view = Screen::BranchStatus {
        status: branch_status(),
        offset: 0,
    };
    assert!(worktrees.render_at(SCREEN, 0).is_empty());
    let mut branches = app(true);
    branches.view = Screen::BranchStatus {
        status: branch_status(),
        offset: 0,
    };
    let widgets = branches.render_at(SCREEN, 0);
    assert_eq!(widgets.len(), 4);
    assert!(matches!(
        &widgets[2],
        Widget::Paragraph { title, .. } if title == " Branch status "
    ));
}

#[test]
fn drawing_notes_the_size_of_a_page() {
    let mut app = app(false);
    for (height, page) in [(0, 1), (4, 1), (5, 1), (6, 2), (24, 20)] {
        app.render(Area { height, ..SCREEN });
        assert_eq!(app.page_size, page);
    }
}

#[test]
fn popups_stand_in_the_middle() {
    let popup = centered_rect(76, 5, SCREEN);
    assert_eq!((popup.x, popup.y), (10, 10));
    assert_eq!((popup.width, popup.height), (60, 5));
    let small = Area {
        x: 3,
        y: 4,
        width: 10,
        height: 2,
    };
    let popup = centered_rect(76, 8, small);
    assert_eq!((popup.x, popup.y), (4, 4));
    assert_eq!((popup.width, popup.height), (8, 2));
}

/// How much of a length lies before the largest coordinate.
fn reach(start: u16, length: u16) -> u32 {
    u32::from(length).min(u32::from(u16::MAX - start))
}

#[test]
fn popups_have_their_exact_place() {
    let starts = [0, 1, 7, 300, 65000, 65533, 65535];
    let lengths = [0, 1, 2, 3, 5, 8, 23, 24, 79, 80, 119, 200, 4001, 65534, 65535];
    for percent in [0, 1, 2, 33, 50, 75, 76, 99, 100] {
        for start in starts {
            for length in lengths {
                let area = Area {
                    x: start,
                    y: 2,
                    width: length,
                    height: 9,
                };
                let popup = centered_rect(percent, 4, area);
                let total = reach(start, length);
                let side = u32::from((100 - percent) / 2);
                let left = (total * side + 50) / 100;
                let right = (total * (side + u32::from(percent)) + 50) / 100;
                assert_eq!(u32::from(popup.x - start), left, "{percent} {start} {length}");
                assert_eq!(u32::from(popup.width), right - left, "{percent} {start} {length}");
                assert_eq!((popup.y, popup.height), (5, 4));
            }
        }
    }
    for wanted in [0, 1, 2, 5, 8, 40, 65535] {
        for start in starts {
            for length in lengths {
                let area = Area {
                    x: 1,
                    y: start,
                    width: 50,
                    height: length,
                };
                let popup = centered_rect(76, wanted, area);
                let total = reach(start, length);
                let height = total.min(u32::from(wanted));
                let above = (total - height + 1) / 2;
                assert_eq!(u32::from(popup.y - start), above, "{wanted} {start} {length}");
                assert_eq!(u32::from(popup.height), height, "{wanted} {start} {length}");
                assert_eq!((popup.x, popup.width), (7, 38));
            }
        }
    }
}

#[test]
fn popups_are_as_wide_as_their_share() {
    for width in 0..400 {
        let popup = centered_rect(76, 5, Area { width, ..SCREEN });
        let share = i32::from(width) * 76;
        assert!((i32::from(popup.width) * 100 - share).abs() < 100);
        let right = i32::from(width) - i32::from(popup.x) - i32::from(popup.width);
        assert!((i32::from(popup.x) - right).abs() <= 1);
    }
}

#[test]
fn footers_stand_below_the_body() {
    let (body, footer) = split_body_and_footer(SCREEN, 1);
    assert_eq!((body.y, body.height), (0, 23));
    assert_eq!((footer.y, footer.height), (23, 1));
    for wanted in [0, 1, 2, 3, 30, 65535] {
        for start in [0, 1, 65000, 65531, 65535] {
            for height in [0, 1, 2, 3, 4, 5, 6, 24, 40, 65535] {
                let area = Area {
                    x: 5,
                    y: start,
                    width: 60,
                    height,
                };
                let (body, footer) = split_body_and_footer(area, wanted);
                let total = reach(start, height);
                let upper = if 3 + u32::from(wanted) <= total {
                    total - u32::from(wanted)
                } else {
                    total.min(3)
                };
                assert_eq!((body.x, body.y, body.width), (5, start, 60));
                assert_eq!((footer.x, footer.width), (5, 60));
                assert_eq!(u32::from(body.height), upper, "{wanted} {start} {height}");
                assert_eq!(footer.y, body.y + body.height, "{wanted} {start} {height}");
                assert_eq!(u32::from(footer.height), total - upper);
            }
        }
    }
}
