use std::time::{SystemTime, UNIX_EPOCH};

use ratatui::backend::TestBackend;
use ratatui::layout::{Alignment, Rect};
use ratatui::widgets::{Block, Borders, Clear, List, ListItem, ListState, Paragraph, Wrap};
use ratatui::Terminal;

use worktree_explorer::app::{App, Listing};
use worktree_explorer::clock::relative_age;
use worktree_explorer::git::{
    BranchInfo, DeletionAssessment, RepositoryManager, WorktreeInfo, WorktreeKey,
};
use worktree_explorer::keys::{handle_scroll_key, KeyCode, KeyEvent};
use worktree_explorer::layout::Area;
use worktree_explorer::path::{FilePath, PathPart};
use worktree_explorer::screen::{ConfirmationPhase, DeletionMode, Screen};
use worktree_explorer::tree::TreeIdentity;
use worktree_explorer::widget::{Line, Widget};

fn path(text: &str) -> FilePath {
    let mut parts = Vec::new();
    if text.starts_with('/') {
        parts.push(PathPart::Root);
    }
    for name in text.split('/').filter(|name| !name.is_empty()) {
        parts.push(PathPart::Normal(name.as_bytes().to_vec()));
    }
    FilePath::new(parts, text.to_owned())
}

fn worktree(key: WorktreeKey, place: &str, branch: &str) -> WorktreeInfo {
    WorktreeInfo {
        key,
        path: path(place),
        head: None,
        committed_at: None,
        branch: Some(branch.to_owned()),
        locked: false,
        available: true,
    }
}

fn repository_manager(root: &str) -> (RepositoryManager, Listing) {
    let git_dir = format!("{root}/.git");
    let manager = RepositoryManager::from_repository(
        path(&git_dir),
        path(&git_dir),
        Some(path(root)),
    );
    let listing = Listing {
        worktrees: Ok(vec![worktree(WorktreeKey::Main, root, "main")]),
        branches: Ok(Vec::<BranchInfo>::new()),
    };
    (manager, listing)
}

fn key(code: KeyCode) -> KeyEvent {
    KeyEvent {
        code,
        control: false,
    }
}

fn text_of(line: &Line) -> String {
    line.spans.iter().map(|span| span.text.as_str()).collect()
}

fn rect(area: Area) -> Rect {
    Rect::new(area.x, area.y, area.width, area.height)
}

/// What a terminal of 80 columns and 24 rows shows.
fn draw(widgets: &[Widget]) -> String {
    let backend = TestBackend::new(80, 24);
    let mut terminal = Terminal::new(backend).expect("test terminal should initialize");
    terminal
        .draw(|frame| {
            for widget in widgets {
                match widget {
                    Widget::Clear { area } => frame.render_widget(Clear, rect(*area)),
                    Widget::List {
                        area,
                        title,
                        items,
                        selected,
                        symbol,
                        ..
                    } => {
                        let items = items
                            .iter()
                            .map(|line| ListItem::new(text_of(line)))
                            .collect::<Vec<_>>();
                        let list = List::new(items)
                            .block(
                                Block::default()
                                    .borders(Borders::ALL)
                                    .title(title.as_str()),
                            )
                            .highlight_symbol(symbol.as_str());
                        let mut state = ListState::default().with_selected(*selected);
                        frame.render_stateful_widget(list, rect(*area), &mut state);
                    }
                    Widget::Paragraph {
                        area,
                        title,
                        lines,
                        scroll,
                        ..
                    } => {
                        let lines = lines
                            .iter()
                            .map(|line| ratatui::text::Line::from(text_of(line)))
                            .collect::<Vec<_>>();
                        let paragraph = Paragraph::new(lines)
                            .alignment(Alignment::Center)
                            .block(
                                Block::default()
                                    .borders(Borders::ALL)
                                    .title(title.as_str()),
                            )
                            .scroll((*scroll, 0));
                        frame.render_widget(paragraph, rect(*area));
                    }
                    Widget::Text { area, text, .. } => {
                        let paragraph = Paragraph::new(text.as_str()).wrap(Wrap { trim: true });
                        frame.render_widget(paragraph, rect(*area));
                    }
                }
            }
        })
        .expect("widgets should render");
    terminal
        .backend()
        .buffer()
        .content()
        .iter()
        .map(|cell| cell.symbol())
        .collect::<String>()
}

const SCREEN: Area = Area {
    x: 0,
    y: 0,
    width: 80,
    height: 24,
};

#[test]
fn scroll_stays_within_content() {
    let mut offset = 0;
    handle_scroll_key(key(KeyCode::Down), &mut offset, 2, 10);
    assert_eq!(offset, 1);
    handle_scroll_key(key(KeyCode::Down), &mut offset, 2, 10);
    assert_eq!(offset, 1);
    handle_scroll_key(key(KeyCode::Up), &mut offset, 2, 10);
    assert_eq!(offset, 0);
}

#[test]
fn page_scroll_moves_by_the_visible_page_size() {
    let mut offset = 2;
    handle_scroll_key(key(KeyCode::PageDown), &mut offset, 20, 5);
    assert_eq!(offset, 7);
    handle_scroll_key(key(KeyCode::PageUp), &mut offset, 20, 5);
    assert_eq!(offset, 2);
}

#[test]
fn age_format_uses_largest_relevant_unit() {
    let now = SystemTime::now()
        .duration_since(UNIX_EPOCH)
        .expect("system clock must be after the Unix epoch")
        .as_secs() as i64;
    assert_eq!(relative_age(now - 90), "1m ago");
    assert_eq!(relative_age(now - 7_200), "2h ago");
}

#[test]
fn repository_and_worktree_are_separate_tree_rows() {
    let app = App::new(vec![repository_manager("/one")], false, false)
        .expect("application should initialize");

    assert_eq!(app.row_count(), 2);
    assert_eq!(app.selected, 1);
    assert!(app.selected_worktree().is_some());
    assert!(matches!(
        app.selected_identity(),
        Some(TreeIdentity::Worktree(_, WorktreeKey::Main))
    ));
}

#[test]
fn recursive_filter_keeps_only_repositories_with_linked_worktrees() {
    let mut app = App::new(
        vec![repository_manager("/one"), repository_manager("/two")],
        true,
        false,
    )
    .expect("application should initialize");
    app.repositories[1].worktrees.push(worktree(
        WorktreeKey::Linked("feature".to_owned()),
        "feature",
        "feature",
    ));

    assert_eq!(app.row_count(), 5);
    app.toggle_hide_without_linked();

    assert!(app.hide_without_linked);
    assert_eq!(app.row_count(), 3);
    assert_eq!(app.selected, 1);
    assert!(matches!(
        app.selected_identity(),
        Some(TreeIdentity::Worktree(_, WorktreeKey::Main))
    ));
}

#[test]
fn confirmed_deletion_renders_progress_before_processing() {
    let mut app = App::new(vec![repository_manager("/one")], false, false)
        .expect("application should initialize");
    let worktree = app.repositories[0].worktrees[0].clone();
    app.view = Screen::ConfirmDelete {
        repository_index: 0,
        worktree: worktree.clone(),
        assessment: DeletionAssessment {
            changes: Vec::new(),
            locked: false,
            missing: false,
        },
        phase: ConfirmationPhase::Initial,
        offset: 0,
    };

    app.handle_initial_confirmation(key(KeyCode::Char('y')));
    assert!(matches!(
        app.view,
        Screen::Deleting {
            mode: DeletionMode::Normal,
            ..
        }
    ));

    let contents = draw(&app.render(SCREEN));

    assert!(contents.contains("Deleting..."));
    assert!(!contents.contains("Delete this worktree?"));
}

#[test]
fn force_confirmation_enters_force_deletion_progress() {
    let mut app = App::new(vec![repository_manager("/one")], false, false)
        .expect("application should initialize");
    let worktree = app.repositories[0].worktrees[0].clone();
    app.view = Screen::ConfirmDelete {
        repository_index: 0,
        worktree,
        assessment: DeletionAssessment {
            changes: Vec::new(),
            locked: true,
            missing: false,
        },
        phase: ConfirmationPhase::Force,
        offset: 0,
    };

    app.handle_force_confirmation(key(KeyCode::Char('D')));

    assert!(matches!(
        app.view,
        Screen::Deleting {
            mode: DeletionMode::Force,
            ..
        }
    ));
}
