//! What the explorer draws for its state.

use vstd::prelude::*;

use crate::app::{App, AppModel};
use crate::clock::{age_at, age_text, elapsed, unix_now};
use crate::git::{
    AssessmentModel, BranchAssessmentModel, BranchDeletionAssessment, BranchInfo, BranchModel,
    BranchStatus, BranchStatusModel, DeletionAssessment, StatusModel, UpstreamState, WorktreeInfo,
    WorktreeKey, WorktreeModel, WorktreeStatus,
};
use crate::history::{log_lines, LogEntry, LogModel};
use crate::keys::limited;
use crate::layout::{
    body_area, centered_rect, footer_area, least, popup_area, split_body_and_footer, Area,
};
use crate::path::{join_paths, path_texts, PathModel};
use crate::screen::{one_if, sort_count, ConfirmationPhase, Screen, ScreenModel};
use crate::status::{entries_of, ChangeCounts, EntryModel, StatusArea, StatusEntry};
use crate::text::{concat, concat3, decimal, join, joined, number, pad_right, padded, texts_of};
use crate::tree::{
    group_rows_stand_together, word, ExploreMode, GroupModel, RepositoryGroup, Row,
};
use crate::widget::{
    colored, lines_of, no_lines, plain, push_line, styled, widgets_of, Color, Line, SpanModel, Style,
    Widget, WidgetModel,
};

verus! {

/// A text in a column of some width, and a space behind it.
pub open spec fn column(text: Seq<char>, width: nat) -> Seq<char> {
    padded(text, width) + " "@
}

fn fill_column(text: &str, width: usize) -> (r: String)
    ensures
        r@ == column(text@, width as nat),
{
    concat(&pad_right(text, width), " ")
}

/// The line of a repository in the list.
pub open spec fn repository_line(group: GroupModel) -> Seq<SpanModel> {
    seq![
        colored("▾ "@, Color::Magenta),
        styled(group.repository.root.text, Style::bold_style()),
    ]
}

/// What joins an item to its repository.
pub open spec fn connector(is_last: bool) -> Seq<char> {
    if is_last {
        "  └─ "@
    } else {
        "  ├─ "@
    }
}

/// The color of the columns before the name of an item, which stands out where the item is
/// selected.
pub open spec fn metadata_color(is_selected: bool) -> Color {
    if is_selected {
        Color::White
    } else {
        Color::DarkGray
    }
}

/// The words that mark a worktree.
pub open spec fn markers(worktree: WorktreeModel) -> Seq<Seq<char>> {
    let main = if worktree.key is Main {
        seq!["main"@]
    } else {
        Seq::empty()
    };
    let locked = if worktree.locked {
        seq!["locked"@]
    } else {
        Seq::empty()
    };
    let missing = if worktree.available {
        Seq::empty()
    } else {
        seq!["missing"@]
    };
    main + locked + missing
}

/// The marks of a worktree in brackets, if it has any.
pub open spec fn marker_text(worktree: WorktreeModel) -> Seq<char> {
    if markers(worktree).len() == 0 {
        ""@
    } else {
        " ["@ + joined(markers(worktree), ", "@) + "]"@
    }
}

/// The age of an optional timestamp.
pub open spec fn age_or_dash(committed_at: Option<i64>, now: i64) -> Seq<char> {
    match committed_at {
        Some(timestamp) => age_text(elapsed(now, timestamp)),
        None => "—"@,
    }
}

/// The line of a worktree in the list: its commit, the age of that, what is checked out, where
/// it is, and its marks.
pub open spec fn worktree_line(
    worktree: WorktreeModel,
    is_last: bool,
    is_selected: bool,
    now: i64,
) -> Seq<SpanModel> {
    let head = match worktree.head {
        Some(head) => head,
        None => "--------"@,
    };
    seq![
        colored(connector(is_last), Color::DarkGray),
        colored(column(head, 8), metadata_color(is_selected)),
        colored(column(age_or_dash(worktree.committed_at, now), 10), metadata_color(is_selected)),
        colored(column(worktree.reference(), 20), Color::Cyan),
        plain(worktree.path.text),
        colored(marker_text(worktree), Color::Yellow),
    ]
}

/// Where a branch is checked out, in brackets, if it is anywhere.
pub open spec fn checkout_text(branch: BranchModel) -> Seq<char> {
    if branch.checked_out_paths.len() == 0 {
        ""@
    } else {
        " [checked out: "@ + joined(path_texts(branch.checked_out_paths), ", "@) + "]"@
    }
}

/// The line of a branch in the list: its commit, the age of that, its name, and where it is
/// checked out.
pub open spec fn branch_line(
    branch: BranchModel,
    is_last: bool,
    is_selected: bool,
    now: i64,
) -> Seq<SpanModel> {
    seq![
        colored(connector(is_last), Color::DarkGray),
        colored(column(branch.head, 8), metadata_color(is_selected)),
        colored(
            column(age_text(elapsed(now, branch.committed_at)), 10),
            metadata_color(is_selected),
        ),
        colored(branch.name + checkout_text(branch), Color::Cyan),
    ]
}

/// The line of a row.
pub open spec fn row_line(
    groups: Seq<GroupModel>,
    kind: ExploreMode,
    row: Row,
    is_selected: bool,
    now: i64,
) -> Seq<SpanModel> {
    match row {
        Row::Repository(i) => repository_line(groups[i]),
        Row::Item(i, j) => {
            let is_last = j == groups[i].item_count(kind) - 1;
            match kind {
                ExploreMode::Worktrees => worktree_line(
                    groups[i].worktrees[j],
                    is_last,
                    is_selected,
                    now,
                ),
                ExploreMode::Branches => branch_line(
                    groups[i].branches[j],
                    is_last,
                    is_selected,
                    now,
                ),
            }
        },
    }
}

/// The lines of rows, one for each.
pub open spec fn row_lines(
    groups: Seq<GroupModel>,
    kind: ExploreMode,
    rows: Seq<Row>,
    selected: nat,
    now: i64,
) -> Seq<Seq<SpanModel>> {
    Seq::new(rows.len(), |k: int| row_line(groups, kind, rows[k], k == selected, now))
}

fn metadata_style(is_selected: bool) -> (r: Style)
    ensures
        r == Style::color_style(metadata_color(is_selected)),
{
    if is_selected {
        Style::color(Color::White)
    } else {
        Style::color(Color::DarkGray)
    }
}

fn connector_text(is_last: bool) -> (r: String)
    ensures
        r@ == connector(is_last),
{
    if is_last {
        "  └─ ".to_owned()
    } else {
        "  ├─ ".to_owned()
    }
}

fn draw_repository(group: &RepositoryGroup) -> (r: Line)
    ensures
        r@ == repository_line(group@),
{
    let line = Line::of("▾ ".to_owned(), Style::color(Color::Magenta)).with(
        group.repository.root.text.clone(),
        Style::bold(),
    );
    assert(line@ =~= repository_line(group@));
    line
}

fn draw_markers(worktree: &WorktreeInfo) -> (r: String)
    ensures
        r@ == marker_text(worktree@),
{
    let mut words: Vec<String> = Vec::new();
    if let WorktreeKey::Main = worktree.key {
        words.push("main".to_owned());
    }
    if worktree.locked {
        words.push("locked".to_owned());
    }
    if !worktree.available {
        words.push("missing".to_owned());
    }
    assert(texts_of(words@) =~= markers(worktree@));
    assert(texts_of(words@).len() == words.len());
    if words.is_empty() {
        "".to_owned()
    } else {
        concat3(" [", &join(&words, ", "), "]")
    }
}

/// Draws the line of a worktree.
pub fn draw_worktree(worktree: &WorktreeInfo, is_last: bool, is_selected: bool, now: i64) -> (r:
    Line)
    ensures
        r@ == worktree_line(worktree@, is_last, is_selected, now),
{
    let head = match &worktree.head {
        Some(head) => fill_column(head, 8),
        None => fill_column("--------", 8),
    };
    let age = match worktree.committed_at {
        Some(timestamp) => age_at(now, timestamp),
        None => "—".to_owned(),
    };
    let line = Line::of(connector_text(is_last), Style::color(Color::DarkGray)).with(
        head,
        metadata_style(is_selected),
    ).with(fill_column(&age, 10), metadata_style(is_selected)).with(
        fill_column(worktree.reference_label(), 20),
        Style::color(Color::Cyan),
    ).with(worktree.path.text.clone(), Style::plain()).with(
        draw_markers(worktree),
        Style::color(Color::Yellow),
    );
    assert(line@ =~= worktree_line(worktree@, is_last, is_selected, now));
    line
}

/// Draws the line of a branch.
pub fn draw_branch(branch: &BranchInfo, is_last: bool, is_selected: bool, now: i64) -> (r: Line)
    ensures
        r@ == branch_line(branch@, is_last, is_selected, now),
{
    assert(branch@.checked_out_paths.len() == branch.checked_out_paths.len());
    let checkout = if branch.checked_out_paths.is_empty() {
        "".to_owned()
    } else {
        concat3(" [checked out: ", &join_paths(&branch.checked_out_paths, ", "), "]")
    };
    let line = Line::of(connector_text(is_last), Style::color(Color::DarkGray)).with(
        fill_column(&branch.head, 8),
        metadata_style(is_selected),
    ).with(fill_column(&age_at(now, branch.committed_at), 10), metadata_style(is_selected)).with(
        concat(&branch.name, &checkout),
        Style::color(Color::Cyan),
    );
    assert(line@ =~= branch_line(branch@, is_last, is_selected, now));
    line
}

fn draw_item(
    group: &RepositoryGroup,
    kind: ExploreMode,
    j: usize,
    is_selected: bool,
    now: i64,
    Ghost(groups): Ghost<Seq<GroupModel>>,
    Ghost(i): Ghost<int>,
) -> (r: Line)
    requires
        0 <= i < groups.len(),
        groups[i] == group@,
        j < group@.item_count(kind),
    ensures
        r@ == row_line(groups, kind, Row::Item(i, j as int), is_selected, now),
{
    let is_last = j == group.item_count(kind) - 1;
    match kind {
        ExploreMode::Worktrees => {
            assert(group@.worktrees[j as int] == group.worktrees@[j as int]@);
            draw_worktree(&group.worktrees[j], is_last, is_selected, now)
        },
        ExploreMode::Branches => {
            assert(group@.branches[j as int] == group.branches@[j as int]@);
            draw_branch(&group.branches[j], is_last, is_selected, now)
        },
    }
}

impl App {
    /// Draws the rows of the tree.
    pub fn draw_rows(&self, kind: ExploreMode, now: i64) -> (r: Vec<Line>)
        ensures
            lines_of(r@) == row_lines(
                self@.groups,
                kind,
                self@.tree().rows_with(kind),
                self@.selected,
                now,
            ),
    {
        let ghost tree = self@.tree();
        let ghost groups = self@.groups;
        let selected = self.selected;
        let mut lines = no_lines();
        let mut i: usize = 0;
        assert(lines_of(lines@) =~= row_lines(
            groups,
            kind,
            tree.rows_before(kind, 0),
            selected as nat,
            now,
        ));
        while i < self.repositories.len()
            invariant
                i <= self.repositories.len(),
                tree == self@.tree(),
                groups == self@.groups,
                selected == self.selected,
                lines_of(lines@) == row_lines(
                    groups,
                    kind,
                    tree.rows_before(kind, i as int),
                    selected as nat,
                    now,
                ),
            decreases self.repositories.len() - i,
        {
            let group = &self.repositories[i];
            assert(groups[i as int] == group@);
            let ghost before = tree.rows_before(kind, i as int);
            proof {
                group_rows_stand_together(tree, kind, i as int);
            }
            if self.group_is_visible(group) {
                assert(tree.is_shown(i as int));
                let ghost own = tree.group_rows(kind, i as int);
                push_line(&mut lines, draw_repository(group));
                let items = group.item_count(kind);
                let mut j: usize = 0;
                assert(before + own.take(1) =~= before.push(Row::Repository(i as int)));
                assert(lines_of(lines@) =~= row_lines(
                    groups,
                    kind,
                    before + own.take(1),
                    selected as nat,
                    now,
                ));
                while j < items
                    invariant
                        j <= items,
                        i < self.repositories.len(),
                        *group == self.repositories@[i as int],
                        groups == self@.groups,
                        groups[i as int] == group@,
                        items == group@.item_count(kind),
                        own == tree.group_rows(kind, i as int),
                        tree == self@.tree(),
                        tree.is_shown(i as int),
                        selected == self.selected,
                        lines_of(lines@) == row_lines(
                            groups,
                            kind,
                            before + own.take(j + 1),
                            selected as nat,
                            now,
                        ),
                    decreases items - j,
                {
                    let ghost rows = before + own.take(j + 1);
                    assert(lines_of(lines@).len() == lines.len());
                    let is_selected = lines.len() == selected;
                    let line = draw_item(
                        group,
                        kind,
                        j,
                        is_selected,
                        now,
                        Ghost(groups),
                        Ghost(i as int),
                    );
                    push_line(&mut lines, line);
                    assert(own[j + 1] == Row::Item(i as int, j as int));
                    assert(before + own.take(j + 2) =~= rows.push(Row::Item(i as int, j as int)));
                    assert(lines_of(lines@) =~= row_lines(
                        groups,
                        kind,
                        before + own.take(j + 2),
                        selected as nat,
                        now,
                    ));
                    j = j + 1;
                }
                assert(own.take(items + 1) =~= own);
            }
            i = i + 1;
        }
        lines
    }
}

/// What stands below the list: an error, or the keys.
pub open spec fn help_text(app: AppModel, kind: ExploreMode) -> Seq<char> {
    match app.message {
        Some(message) => "Error: "@ + message,
        None => {
            let filter = if !app.recursive {
                ""@
            } else if app.hide_without_linked {
                "   h show all"@
            } else {
                match kind {
                    ExploreMode::Worktrees => "   h hide without linked"@,
                    ExploreMode::Branches => "   h hide empty"@,
                }
            };
            "↑/↓ or j/k select   PgUp/PgDn page   l logs   s status   d delete   r refresh"@ + filter
                + "   q quit"@
        },
    }
}

/// The title of a list.
pub open spec fn list_title(kind: ExploreMode) -> Seq<char> {
    match kind {
        ExploreMode::Worktrees => " Repositories and worktrees "@,
        ExploreMode::Branches => " Repositories and local branches "@,
    }
}

/// The list and what stands below it.
pub open spec fn list_widgets(
    app: AppModel,
    kind: ExploreMode,
    now: i64,
    body: Area,
    footer: Area,
) -> Seq<WidgetModel> {
    seq![
        WidgetModel::List {
            area: body,
            title: list_title(kind),
            items: row_lines(app.groups, kind, app.tree().rows_with(kind), app.selected, now),
            selected: if app.row_count() > 0 {
                Some(limited(app.selected, app.row_count()))
            } else {
                None
            },
            highlight: Style::selected_style(),
            symbol: "› "@,
        },
        WidgetModel::Text {
            area: footer,
            text: help_text(app, kind),
            style: Style::color_style(
                if app.message is Some {
                    Color::Red
                } else {
                    Color::DarkGray
                },
            ),
            centered: false,
            wrapped: true,
        },
    ]
}

impl App {
    fn draw_help(&self, kind: ExploreMode) -> (r: String)
        ensures
            r@ == help_text(self@, kind),
    {
        match &self.message {
            Some(message) => concat("Error: ", message),
            None => {
                let filter = if !self.recursive {
                    ""
                } else if self.hide_without_linked {
                    "   h show all"
                } else {
                    match kind {
                        ExploreMode::Worktrees => "   h hide without linked",
                        ExploreMode::Branches => "   h hide empty",
                    }
                };
                concat3(
                    "↑/↓ or j/k select   PgUp/PgDn page   l logs   s status   d delete   r refresh",
                    filter,
                    "   q quit",
                )
            },
        }
    }

    /// Draws the list and what stands below it.
    pub fn draw_list(&self, kind: ExploreMode, now: i64, body: Area, footer: Area) -> (r: Vec<Widget>)
        ensures
            widgets_of(r@) == list_widgets(self@, kind, now, body, footer),
    {
        let count = self.row_count();
        let selected: Option<usize> = if count == 0 {
            None
        } else if self.selected < count {
            Some(self.selected)
        } else {
            Some(count - 1)
        };
        let title = match kind {
            ExploreMode::Worktrees => " Repositories and worktrees ",
            ExploreMode::Branches => " Repositories and local branches ",
        };
        let color = if self.message.is_some() {
            Color::Red
        } else {
            Color::DarkGray
        };
        let mut widgets: Vec<Widget> = Vec::new();
        widgets.push(
            Widget::List {
                area: body,
                title: title.to_owned(),
                items: self.draw_rows(kind, now),
                selected,
                highlight: Style::selected(),
                symbol: "› ".to_owned(),
            },
        );
        widgets.push(
            Widget::Text {
                area: footer,
                text: self.draw_help(kind),
                style: Style::color(color),
                centered: false,
                wrapped: true,
            },
        );
        assert(widgets_of(widgets@) =~= list_widgets(self@, kind, now, body, footer));
        widgets
    }
}

/// A list in an area, with the keys below it.
pub open spec fn list_in(app: AppModel, kind: ExploreMode, now: i64, area: Area) -> Seq<
    WidgetModel,
> {
    list_widgets(app, kind, now, body_area(area, 2), footer_area(area, 2))
}

impl App {
    /// Draws the list of worktrees.
    pub fn render_worktrees(&self, area: Area, now: i64) -> (r: Vec<Widget>)
        ensures
            widgets_of(r@) == list_in(self@, ExploreMode::Worktrees, now, area),
    {
        let (body, footer) = split_body_and_footer(area, 2);
        self.draw_list(ExploreMode::Worktrees, now, body, footer)
    }
}

/// Details in a frame, scrolled, and the keys below them.
pub open spec fn detail_widgets(
    title: Seq<char>,
    lines: Seq<Seq<SpanModel>>,
    offset: nat,
    body: Area,
    footer: Area,
) -> Seq<WidgetModel> {
    seq![
        WidgetModel::Paragraph {
            area: body,
            title,
            lines,
            centered: false,
            wrapped: false,
            scroll: if offset > u16::MAX {
                u16::MAX as nat
            } else {
                offset
            },
        },
        detail_help(footer),
    ]
}

/// The keys below details.
pub open spec fn detail_help(area: Area) -> WidgetModel {
    WidgetModel::Text {
        area,
        text: "↑/↓ or j/k scroll   PgUp/PgDn page   Esc/q back"@,
        style: Style::color_style(Color::DarkGray),
        centered: true,
        wrapped: false,
    }
}

/// Draws the keys below details.
pub fn render_detail_help(area: Area) -> (r: Widget)
    ensures
        r@ == detail_help(area),
{
    Widget::Text {
        area,
        text: "↑/↓ or j/k scroll   PgUp/PgDn page   Esc/q back".to_owned(),
        style: Style::color(Color::DarkGray),
        centered: true,
        wrapped: false,
    }
}

/// Draws details in a frame.
pub fn draw_details(title: String, lines: Vec<Line>, offset: usize, body: Area, footer: Area) -> (r:
    Vec<Widget>)
    ensures
        widgets_of(r@) == detail_widgets(title@, lines_of(lines@), offset as nat, body, footer),
{
    let scroll: u16 = if offset > u16::MAX as usize {
        u16::MAX
    } else {
        offset as u16
    };
    let mut widgets: Vec<Widget> = Vec::new();
    widgets.push(
        Widget::Paragraph { area: body, title, lines, centered: false, wrapped: false, scroll },
    );
    widgets.push(render_detail_help(footer));
    assert(widgets_of(widgets@) =~= detail_widgets(
        title@,
        lines_of(lines@),
        offset as nat,
        body,
        footer,
    ));
    widgets
}

/// Details in an area, with the keys below them.
pub open spec fn details_in(
    title: Seq<char>,
    lines: Seq<Seq<SpanModel>>,
    offset: nat,
    area: Area,
) -> Seq<WidgetModel> {
    detail_widgets(title, lines, offset, body_area(area, 1), footer_area(area, 1))
}

fn render_details(title: String, lines: Vec<Line>, offset: usize, area: Area) -> (r: Vec<Widget>)
    ensures
        widgets_of(r@) == details_in(title@, lines_of(lines@), offset as nat, area),
{
    let (body, footer) = split_body_and_footer(area, 1);
    draw_details(title, lines, offset, body, footer)
}

/// A line of plain text.
pub open spec fn text_line(text: Seq<char>) -> Seq<SpanModel> {
    seq![plain(text)]
}

fn draw_text(text: &str) -> (r: Line)
    ensures
        r@ == text_line(text@),
{
    Line::of(text.to_owned(), Style::plain())
}

/// The line of a commit in a log.
pub open spec fn log_entry_line(entry: LogModel, now: i64) -> Seq<SpanModel> {
    seq![
        colored(entry.id + " "@, Color::Yellow),
        plain(entry.subject + "  "@),
        colored(
            entry.author + " · "@ + age_text(elapsed(now, entry.committed_at)),
            Color::DarkGray,
        ),
    ]
}

/// The lines of a log, or the one that says that there are no commits.
pub open spec fn log_view(entries: Seq<LogModel>, none: Seq<char>, now: i64) -> Seq<Seq<SpanModel>> {
    if entries.len() == 0 {
        seq![text_line(none)]
    } else {
        entries.map_values(|entry: LogModel| log_entry_line(entry, now))
    }
}

fn draw_log_entry(entry: &LogEntry, now: i64) -> (r: Line)
    ensures
        r@ == log_entry_line(entry@, now),
{
    let line = Line::of(concat(&entry.id, " "), Style::color(Color::Yellow)).with(
        concat(&entry.subject, "  "),
        Style::plain(),
    ).with(
        concat3(&entry.author, " · ", &age_at(now, entry.committed_at)),
        Style::color(Color::DarkGray),
    );
    assert(line@ =~= log_entry_line(entry@, now));
    line
}

/// Draws the lines of a log.
pub fn draw_log(entries: &Vec<LogEntry>, none: &str, now: i64) -> (r: Vec<Line>)
    ensures
        lines_of(r@) == log_view(log_lines(entries@), none@, now),
{
    let ghost all = log_lines(entries@);
    assert(all.len() == entries.len());
    let mut lines = no_lines();
    if entries.is_empty() {
        push_line(&mut lines, draw_text(none));
        assert(lines_of(lines@) =~= seq![text_line(none@)]);
        return lines;
    }
    let mut i: usize = 0;
    while i < entries.len()
        invariant
            i <= entries.len(),
            all == log_lines(entries@),
            lines_of(lines@).len() == i,
            forall|j: int|
                0 <= j < i ==> (#[trigger] lines_of(lines@)[j]) == log_entry_line(all[j], now),
        decreases entries.len() - i,
    {
        assert(all[i as int] == entries@[i as int]@);
        push_line(&mut lines, draw_log_entry(&entries[i], now));
        i = i + 1;
    }
    assert(lines_of(lines@) =~= log_view(all, none@, now));
    lines
}

/// The word for where a change was found.
pub open spec fn area_word(area: StatusArea) -> Seq<char> {
    match area {
        StatusArea::Index => "staged"@,
        StatusArea::Worktree => "worktree"@,
    }
}

/// The line of a change.
pub open spec fn change_line(entry: EntryModel) -> Seq<SpanModel> {
    seq![
        colored(padded(area_word(entry.area), 9), Color::DarkGray),
        colored(padded(entry.kind.word(), 14), Color::Yellow),
        plain(entry.path),
    ]
}

fn draw_change(entry: &StatusEntry) -> (r: Line)
    ensures
        r@ == change_line(entry@),
{
    let area = match entry.area {
        StatusArea::Index => "staged",
        StatusArea::Worktree => "worktree",
    };
    let line = Line::of(pad_right(area, 9), Style::color(Color::DarkGray)).with(
        pad_right(entry.kind.label(), 14),
        Style::color(Color::Yellow),
    ).with(entry.path.clone(), Style::plain());
    assert(line@ =~= change_line(entry@));
    line
}

/// The lines of changes, one for each.
pub open spec fn change_lines(entries: Seq<EntryModel>) -> Seq<Seq<SpanModel>> {
    entries.map_values(|entry: EntryModel| change_line(entry))
}

fn draw_changes(entries: &Vec<StatusEntry>, from: usize, to: usize, lines: &mut Vec<Line>)
    requires
        from <= to <= entries.len(),
    ensures
        lines_of(final(lines)@) == lines_of(old(lines)@) + change_lines(
            entries_of(entries@).subrange(from as int, to as int),
        ),
{
    let ghost all = entries_of(entries@);
    let ghost before = lines_of(lines@);
    let mut i: usize = from;
    assert(before + change_lines(all.subrange(from as int, from as int)) =~= before);
    while i < to
        invariant
            from <= i <= to <= entries.len(),
            all == entries_of(entries@),
            lines_of(lines@) == before + change_lines(all.subrange(from as int, i as int)),
        decreases to - i,
    {
        assert(all[i as int] == entries@[i as int]@);
        assert(all.subrange(from as int, i + 1) =~= all.subrange(from as int, i as int).push(
            all[i as int],
        ));
        push_line(lines, draw_change(&entries[i]));
        assert(lines_of(lines@) =~= before + change_lines(all.subrange(from as int, i + 1)));
        i = i + 1;
    }
}

/// The lines of the status of a worktree.
pub open spec fn status_view(status: StatusModel) -> Seq<Seq<SpanModel>> {
    let first = seq![colored("On "@, Color::DarkGray), colored(status.reference, Color::Cyan)];
    if status.entries.len() == 0 {
        seq![first, text_line("Working tree clean"@)]
    } else {
        seq![first] + change_lines(status.entries)
    }
}

/// Draws the lines of the status of a worktree.
pub fn draw_status(status: &WorktreeStatus) -> (r: Vec<Line>)
    ensures
        lines_of(r@) == status_view(status@),
{
    let mut lines = no_lines();
    let first = Line::of("On ".to_owned(), Style::color(Color::DarkGray)).with(
        status.reference.clone(),
        Style::color(Color::Cyan),
    );
    let ghost first_model = first@;
    push_line(&mut lines, first);
    assert(status@.entries.len() == status.entries.len());
    if status.entries.is_empty() {
        push_line(&mut lines, draw_text("Working tree clean"));
    } else {
        draw_changes(&status.entries, 0, status.entries.len(), &mut lines);
        assert(status@.entries.subrange(0, status.entries.len() as int) =~= status@.entries);
    }
    assert(first_model =~= seq![
        colored("On "@, Color::DarkGray),
        colored(status@.reference, Color::Cyan),
    ]);
    assert(lines_of(lines@) =~= status_view(status@));
    lines
}

/// The line of a count of files, if there are any.
pub open spec fn count_line(count: nat, what: Seq<char>) -> Seq<Seq<SpanModel>> {
    if count > 0 {
        seq![text_line(decimal(count) + what)]
    } else {
        Seq::empty()
    }
}

/// The lines of the counts of changes, or the one that says that there are none.
pub open spec fn count_lines(counts: ChangeCounts) -> Seq<Seq<SpanModel>> {
    if counts == ChangeCounts::none() {
        seq![text_line("Working tree clean"@)]
    } else {
        count_line(counts.staged as nat, " staged file(s)"@) + count_line(
            counts.unstaged as nat,
            " unstaged file(s)"@,
        ) + count_line(counts.untracked as nat, " untracked file(s)"@) + count_line(
            counts.deleted as nat,
            " deleted file(s)"@,
        ) + count_line(counts.conflicted as nat, " conflicted file(s)"@)
    }
}

fn append_count(lines: &mut Vec<Line>, count: usize, what: &str)
    ensures
        lines_of(final(lines)@) == lines_of(old(lines)@) + count_line(count as nat, what@),
{
    let ghost before = lines_of(lines@);
    if count > 0 {
        push_line(lines, draw_text(&concat(&number(count as u64), what)));
    }
    assert(lines_of(lines@) =~= before + count_line(count as nat, what@));
}

/// Adds the lines of the counts of changes.
pub fn append_change_count(lines: &mut Vec<Line>, counts: ChangeCounts)
    ensures
        lines_of(final(lines)@) == lines_of(old(lines)@) + count_lines(counts),
{
    let ghost before = lines_of(lines@);
    append_count(lines, counts.staged, " staged file(s)");
    append_count(lines, counts.unstaged, " unstaged file(s)");
    append_count(lines, counts.untracked, " untracked file(s)");
    append_count(lines, counts.deleted, " deleted file(s)");
    append_count(lines, counts.conflicted, " conflicted file(s)");
    if counts == ChangeCounts::default() {
        push_line(lines, draw_text("Working tree clean"));
    }
    assert(lines_of(lines@) =~= before + count_lines(counts));
}

/// The name of the upstream, or what stands for it.
pub open spec fn upstream_name(status: BranchStatusModel, other: Seq<char>) -> Seq<char> {
    match status.upstream {
        Some(name) => name,
        None => other,
    }
}

/// How a branch compares with its upstream.
pub open spec fn upstream_lines(status: BranchStatusModel) -> Seq<Seq<SpanModel>> {
    match status.upstream_state {
        UpstreamState::NotConfigured => seq![text_line("No configured upstream"@)],
        UpstreamState::Missing => seq![
            text_line("Upstream "@ + upstream_name(status, "(unknown)"@) + " is missing"@),
        ],
        UpstreamState::Present => {
            let ahead = if status.ahead > 0 {
                seq![
                    text_line(
                        "Ahead of "@ + upstream_name(status, "upstream"@) + " by "@ + decimal(
                            status.ahead,
                        ) + " commit(s)"@,
                    ),
                ]
            } else {
                Seq::empty()
            };
            let behind = if status.behind > 0 {
                seq![
                    text_line(
                        "Behind "@ + upstream_name(status, "upstream"@) + " by "@ + decimal(
                            status.behind,
                        ) + " commit(s)"@,
                    ),
                ]
            } else {
                Seq::empty()
            };
            if status.ahead == 0 && status.behind == 0 {
                seq![text_line("Up to date with upstream"@)]
            } else {
                ahead + behind
            }
        },
    }
}

/// Where a branch is checked out, and what is changed there.
pub open spec fn place_lines(status: BranchStatusModel) -> Seq<Seq<SpanModel>> {
    if status.checked_out_paths.len() == 0 {
        seq![text_line("Not checked out"@)]
    } else {
        checkout_lines(status.checked_out_paths) + count_lines(status.changes)
    }
}

/// The lines of places, one for each.
pub open spec fn checkout_lines(paths: Seq<PathModel>) -> Seq<Seq<SpanModel>> {
    paths.map_values(|path: PathModel| text_line("Checked out at "@ + path.text))
}

/// The lines of the status of a branch.
pub open spec fn branch_status_view(status: BranchStatusModel) -> Seq<Seq<SpanModel>> {
    seq![seq![colored("Branch "@ + status.branch, Color::Cyan)]] + upstream_lines(status)
        + place_lines(status)
}

fn count_of_commits(relation: &str, upstream: &str, count: usize) -> (r: Line)
    ensures
        r@ == text_line(relation@ + upstream@ + " by "@ + decimal(count as nat) + " commit(s)"@),
{
    let mut text = concat3(relation, upstream, " by ");
    text.append(&number(count as u64));
    text.append(" commit(s)");
    draw_text(&text)
}

fn draw_upstream(status: &BranchStatus, lines: &mut Vec<Line>)
    ensures
        lines_of(final(lines)@) == lines_of(old(lines)@) + upstream_lines(status@),
{
    let ghost before = lines_of(lines@);
    match status.upstream_state {
        UpstreamState::NotConfigured => push_line(lines, draw_text("No configured upstream")),
        UpstreamState::Missing => {
            let name = match &status.upstream {
                Some(name) => name.as_str(),
                None => "(unknown)",
            };
            push_line(lines, draw_text(&concat3("Upstream ", name, " is missing")));
        },
        UpstreamState::Present => {
            let name = match &status.upstream {
                Some(name) => name.as_str(),
                None => "upstream",
            };
            if status.ahead > 0 {
                push_line(lines, count_of_commits("Ahead of ", name, status.ahead));
            }
            if status.behind > 0 {
                push_line(lines, count_of_commits("Behind ", name, status.behind));
            }
            if status.ahead == 0 && status.behind == 0 {
                push_line(lines, draw_text("Up to date with upstream"));
            }
        },
    }
    assert(lines_of(lines@) =~= before + upstream_lines(status@));
}

fn draw_places(status: &BranchStatus, lines: &mut Vec<Line>)
    ensures
        lines_of(final(lines)@) == lines_of(old(lines)@) + place_lines(status@),
{
    let ghost before = lines_of(lines@);
    let ghost paths = status@.checked_out_paths;
    assert(paths.len() == status.checked_out_paths.len());
    if status.checked_out_paths.is_empty() {
        push_line(lines, draw_text("Not checked out"));
        assert(lines_of(lines@) =~= before + place_lines(status@));
        return;
    }
    let mut i: usize = 0;
    assert(before + checkout_lines(paths.take(0)) =~= before);
    while i < status.checked_out_paths.len()
        invariant
            i <= status.checked_out_paths.len(),
            paths == status@.checked_out_paths,
            lines_of(lines@) == before + checkout_lines(paths.take(i as int)),
        decreases status.checked_out_paths.len() - i,
    {
        assert(paths[i as int] == status.checked_out_paths@[i as int]@);
        assert(paths.take(i + 1) =~= paths.take(i as int).push(paths[i as int]));
        push_line(
            lines,
            draw_text(&concat("Checked out at ", &status.checked_out_paths[i].text)),
        );
        assert(lines_of(lines@) =~= before + checkout_lines(paths.take(i + 1)));
        i = i + 1;
    }
    assert(paths.take(paths.len() as int) =~= paths);
    append_change_count(lines, status.changes);
    assert(lines_of(lines@) =~= before + place_lines(status@));
}

/// Draws the lines of the status of a branch.
pub fn draw_branch_status(status: &BranchStatus) -> (r: Vec<Line>)
    ensures
        lines_of(r@) == branch_status_view(status@),
{
    let mut lines = no_lines();
    push_line(
        &mut lines,
        Line::of(concat("Branch ", &status.branch), Style::color(Color::Cyan)),
    );
    draw_upstream(status, &mut lines);
    draw_places(status, &mut lines);
    assert(lines_of(lines@) =~= branch_status_view(status@));
    lines
}

/// A popup: the place is cleared, and lines are drawn in a frame.
pub open spec fn popup_widgets(
    popup: Area,
    title: Seq<char>,
    lines: Seq<Seq<SpanModel>>,
    wrapped: bool,
) -> Seq<WidgetModel> {
    seq![
        WidgetModel::Clear { area: popup },
        WidgetModel::Paragraph { area: popup, title, lines, centered: true, wrapped, scroll: 0 },
    ]
}

fn draw_popup(popup: Area, title: &str, lines: Vec<Line>, wrapped: bool) -> (r: Vec<Widget>)
    ensures
        widgets_of(r@) == popup_widgets(popup, title@, lines_of(lines@), wrapped),
{
    let mut widgets: Vec<Widget> = Vec::new();
    widgets.push(Widget::Clear { area: popup });
    widgets.push(
        Widget::Paragraph {
            area: popup,
            title: title.to_owned(),
            lines,
            centered: true,
            wrapped,
            scroll: 0,
        },
    );
    assert(widgets_of(widgets@) =~= popup_widgets(popup, title@, lines_of(lines@), wrapped));
    widgets
}

/// A line if something holds.
pub open spec fn line_if(holds: bool, line: Seq<SpanModel>) -> Seq<Seq<SpanModel>> {
    if holds {
        seq![line]
    } else {
        Seq::empty()
    }
}

/// What the question about deleting a worktree says before the changes.
pub open spec fn confirmation_head(worktree: WorktreeModel, assessment: AssessmentModel) -> Seq<
    Seq<SpanModel>,
> {
    seq![text_line(worktree.path.text)] + line_if(
        assessment.locked,
        seq![colored("This worktree is locked."@, Color::Yellow)],
    ) + line_if(
        assessment.missing,
        text_line("The checkout is missing; only stale metadata will be removed."@),
    ) + line_if(
        assessment.changes.len() > 0,
        seq![
            styled(
                "Changes ("@ + decimal(assessment.changes.len()) + ")"@,
                Style::bold_style(),
            ),
        ],
    )
}

/// How many changes fit in a popup below `above` lines, with room for a border and three more
/// lines; at least one is shown.
pub open spec fn visible_changes(popup_height: u16, above: nat) -> nat {
    let room = popup_height - 2 - (above + 3);
    if room < 1 {
        1
    } else {
        room as nat
    }
}

/// The changes that are shown, and which of them these are where not all fit.
pub open spec fn confirmation_changes(changes: Seq<EntryModel>, offset: nat, visible: nat) -> Seq<
    Seq<SpanModel>,
> {
    let from = least(offset, changes.len());
    let to = least(offset + visible, changes.len());
    change_lines(changes.subrange(from as int, to as int)) + line_if(
        changes.len() > visible,
        seq![
            colored(
                "Showing "@ + decimal(word(offset + 1)) + "–"@ + decimal(to) + " of "@ + decimal(
                    changes.len(),
                ) + " · ↑/↓ or j/k scroll"@,
                Color::DarkGray,
            ),
        ],
    )
}

/// What the question about deleting a worktree says at the end.
pub open spec fn confirmation_foot(phase: ConfirmationPhase) -> Seq<Seq<SpanModel>> {
    match phase {
        ConfirmationPhase::Initial => seq![text_line("Delete this worktree? y/N"@)],
        ConfirmationPhase::Force => seq![
            seq![
                styled(
                    "This permanently discards local worktree data."@,
                    Style::bold_color_style(Color::Red),
                ),
            ],
            text_line("Press uppercase D to force deletion; any other key cancels."@),
        ],
    }
}

/// The lines of the question about deleting a worktree.
pub open spec fn confirmation_view(
    worktree: WorktreeModel,
    assessment: AssessmentModel,
    phase: ConfirmationPhase,
    offset: nat,
    popup_height: u16,
) -> Seq<Seq<SpanModel>> {
    let head = confirmation_head(worktree, assessment);
    let changes = if assessment.changes.len() == 0 {
        Seq::empty()
    } else {
        confirmation_changes(
            assessment.changes,
            offset,
            visible_changes(popup_height, head.len()),
        )
    };
    head + changes + confirmation_foot(phase)
}

fn push_line_if(lines: &mut Vec<Line>, holds: bool, line: Line)
    ensures
        lines_of(final(lines)@) == lines_of(old(lines)@) + line_if(holds, line@),
{
    let ghost before = lines_of(lines@);
    if holds {
        push_line(lines, line);
    }
    assert(lines_of(lines@) =~= before + line_if(holds, line@));
}

fn draw_confirmation_head(worktree: &WorktreeInfo, assessment: &DeletionAssessment) -> (r: Vec<Line>)
    ensures
        lines_of(r@) == confirmation_head(worktree@, assessment@),
{
    assert(assessment@.changes.len() == assessment.changes.len());
    let mut lines = no_lines();
    push_line(&mut lines, draw_text(&worktree.path.text));
    push_line_if(
        &mut lines,
        assessment.locked,
        Line::of("This worktree is locked.".to_owned(), Style::color(Color::Yellow)),
    );
    push_line_if(
        &mut lines,
        assessment.missing,
        draw_text("The checkout is missing; only stale metadata will be removed."),
    );
    push_line_if(
        &mut lines,
        !assessment.changes.is_empty(),
        Line::of(
            concat3("Changes (", &number(assessment.changes.len() as u64), ")"),
            Style::bold(),
        ),
    );
    assert(lines_of(lines@) =~= confirmation_head(worktree@, assessment@));
    lines
}

fn showing(from: usize, to: usize, of: usize) -> (r: Line)
    ensures
        r@ == seq![
            colored(
                "Showing "@ + decimal(from as nat) + "–"@ + decimal(to as nat) + " of "@ + decimal(
                    of as nat,
                ) + " · ↑/↓ or j/k scroll"@,
                Color::DarkGray,
            ),
        ],
{
    let mut text = concat3("Showing ", &number(from as u64), "–");
    text.append(&number(to as u64));
    text.append(" of ");
    text.append(&number(of as u64));
    text.append(" · ↑/↓ or j/k scroll");
    Line::of(text, Style::color(Color::DarkGray))
}

fn draw_confirmation_changes(
    changes: &Vec<StatusEntry>,
    offset: usize,
    visible: usize,
    lines: &mut Vec<Line>,
)
    ensures
        lines_of(final(lines)@) == lines_of(old(lines)@) + confirmation_changes(
            entries_of(changes@),
            offset as nat,
            visible as nat,
        ),
{
    let ghost before = lines_of(lines@);
    let ghost all = entries_of(changes@);
    let len = changes.len();
    assert(all.len() == len);
    let from = if offset < len {
        offset
    } else {
        len
    };
    let end = offset.saturating_add(visible);
    let to = if end < len {
        end
    } else {
        len
    };
    draw_changes(changes, from, to, lines);
    push_line_if(lines, len > visible, showing(offset.saturating_add(1), to, len));
    assert(lines_of(lines@) =~= before + confirmation_changes(all, offset as nat, visible as nat));
}

/// Draws the lines of the question about deleting a worktree.
pub fn draw_confirmation(
    worktree: &WorktreeInfo,
    assessment: &DeletionAssessment,
    phase: ConfirmationPhase,
    offset: usize,
    popup_height: u16,
) -> (r: Vec<Line>)
    ensures
        lines_of(r@) == confirmation_view(
            worktree@,
            assessment@,
            phase,
            offset as nat,
            popup_height,
        ),
{
    let ghost head = confirmation_head(worktree@, assessment@);
    let mut lines = draw_confirmation_head(worktree, assessment);
    assert(lines_of(lines@).len() == lines.len());
    assert(assessment@.changes.len() == assessment.changes.len());
    if !assessment.changes.is_empty() {
        let reserved = lines.len().saturating_add(3);
        let room = (popup_height.saturating_sub(2) as usize).saturating_sub(reserved);
        let visible = if room < 1 {
            1
        } else {
            room
        };
        assert(visible == visible_changes(popup_height, head.len()));
        draw_confirmation_changes(&assessment.changes, offset, visible, &mut lines);
    }
    match phase {
        ConfirmationPhase::Initial => {
            push_line(&mut lines, draw_text("Delete this worktree? y/N"));
        },
        ConfirmationPhase::Force => {
            push_line(
                &mut lines,
                Line::of(
                    "This permanently discards local worktree data.".to_owned(),
                    Style::bold_color(Color::Red),
                ),
            );
            push_line(
                &mut lines,
                draw_text("Press uppercase D to force deletion; any other key cancels."),
            );
        },
    }
    assert(lines_of(lines@) =~= confirmation_view(
        worktree@,
        assessment@,
        phase,
        offset as nat,
        popup_height,
    ));
    lines
}

/// The lines of the question about deleting a branch.
pub open spec fn branch_confirmation_view(
    branch: BranchModel,
    assessment: BranchAssessmentModel,
    phase: ConfirmationPhase,
) -> Seq<Seq<SpanModel>> {
    seq![text_line(branch.name)] + line_if(
        assessment.unmerged,
        seq![
            colored("This branch is not merged into the repository HEAD."@, Color::Yellow),
        ],
    ) + match phase {
        ConfirmationPhase::Initial => seq![text_line("Delete this local branch? y/N"@)],
        ConfirmationPhase::Force => seq![
            seq![
                styled(
                    "This permanently discards the unmerged branch."@,
                    Style::bold_color_style(Color::Red),
                ),
            ],
            text_line("Press uppercase D to force deletion; any other key cancels."@),
        ],
    }
}

/// Draws the lines of the question about deleting a branch.
pub fn draw_branch_confirmation(
    branch: &BranchInfo,
    assessment: &BranchDeletionAssessment,
    phase: ConfirmationPhase,
) -> (r: Vec<Line>)
    ensures
        lines_of(r@) == branch_confirmation_view(branch@, assessment@, phase),
{
    let mut lines = no_lines();
    push_line(&mut lines, draw_text(&branch.name));
    push_line_if(
        &mut lines,
        assessment.unmerged,
        Line::of(
            "This branch is not merged into the repository HEAD.".to_owned(),
            Style::color(Color::Yellow),
        ),
    );
    match phase {
        ConfirmationPhase::Initial => {
            push_line(&mut lines, draw_text("Delete this local branch? y/N"));
        },
        ConfirmationPhase::Force => {
            push_line(
                &mut lines,
                Line::of(
                    "This permanently discards the unmerged branch.".to_owned(),
                    Style::bold_color(Color::Red),
                ),
            );
            push_line(
                &mut lines,
                draw_text("Press uppercase D to force deletion; any other key cancels."),
            );
        },
    }
    assert(lines_of(lines@) =~= branch_confirmation_view(branch@, assessment@, phase));
    lines
}

/// The lines that say that something is being deleted.
pub open spec fn deleting_view(what: Seq<char>) -> Seq<Seq<SpanModel>> {
    seq![text_line(what), seq![styled("Deleting..."@, Style::bold_style())]]
}

/// Draws the lines that say that something is being deleted.
pub fn draw_deleting(what: &str) -> (r: Vec<Line>)
    ensures
        lines_of(r@) == deleting_view(what@),
{
    let mut lines = no_lines();
    push_line(&mut lines, draw_text(what));
    push_line(&mut lines, Line::of("Deleting...".to_owned(), Style::bold()));
    assert(lines_of(lines@) =~= deleting_view(what@));
    lines
}

/// How much of the width a popup takes, in percent.
pub const POPUP_SHARE: u16 = 76;

/// A popup of some height in the middle of an area.
pub open spec fn popup_in(
    height: u16,
    area: Area,
    title: Seq<char>,
    lines: Seq<Seq<SpanModel>>,
) -> Seq<WidgetModel> {
    popup_widgets(popup_area(POPUP_SHARE, height, area), title, lines, false)
}

/// The height that the question about deleting a worktree wants: a line for each change and
/// eight more, but no more than leaves a line above and below.
pub open spec fn confirmation_height(changes: nat, area: Area) -> u16 {
    let wanted = least(changes + 8, u16::MAX as nat);
    let room: nat = if area.height < 2 {
        0
    } else {
        (area.height - 2) as nat
    };
    least(wanted, room) as u16
}

/// The question about deleting a worktree.
pub open spec fn confirmation_in(
    area: Area,
    worktree: WorktreeModel,
    assessment: AssessmentModel,
    phase: ConfirmationPhase,
    offset: nat,
) -> Seq<WidgetModel> {
    let height = confirmation_height(assessment.changes.len(), area);
    let popup = popup_area(POPUP_SHARE, height, area);
    popup_widgets(
        popup,
        " Confirm deletion "@,
        confirmation_view(worktree, assessment, phase, offset, popup.height),
        true,
    )
}

/// The title of a log.
pub open spec fn log_title(what: Seq<char>) -> Seq<char> {
    " Log — "@ + what + " "@
}

/// The title of a status.
pub open spec fn status_title(what: Seq<char>) -> Seq<char> {
    " Status — "@ + what + " "@
}

fn render_popup(height: u16, area: Area, title: &str, lines: Vec<Line>) -> (r: Vec<Widget>)
    ensures
        widgets_of(r@) == popup_in(height, area, title@, lines_of(lines@)),
{
    let popup = centered_rect(POPUP_SHARE, height, area);
    draw_popup(popup, title, lines, false)
}

impl App {
    /// Draws the log of a worktree.
    pub fn render_log(
        &self,
        area: Area,
        now: i64,
        worktree: &WorktreeInfo,
        entries: &Vec<LogEntry>,
        offset: usize,
    ) -> (r: Vec<Widget>)
        ensures
            widgets_of(r@) == details_in(
                log_title(worktree@.path.text),
                log_view(log_lines(entries@), "No commits reachable from HEAD"@, now),
                offset as nat,
                area,
            ),
    {
        let lines = draw_log(entries, "No commits reachable from HEAD", now);
        render_details(concat3(" Log — ", &worktree.path.text, " "), lines, offset, area)
    }

    /// Draws the status of a worktree.
    pub fn render_status(
        &self,
        area: Area,
        worktree: &WorktreeInfo,
        status: &WorktreeStatus,
        offset: usize,
    ) -> (r: Vec<Widget>)
        ensures
            widgets_of(r@) == details_in(
                status_title(worktree@.path.text),
                status_view(status@),
                offset as nat,
                area,
            ),
    {
        let title = concat3(" Status — ", &worktree.path.text, " ");
        render_details(title, draw_status(status), offset, area)
    }

    /// Draws the log of a branch.
    pub fn render_branch_log(
        &self,
        area: Area,
        now: i64,
        branch: &BranchInfo,
        entries: &Vec<LogEntry>,
        offset: usize,
    ) -> (r: Vec<Widget>)
        ensures
            widgets_of(r@) == details_in(
                log_title(branch@.name),
                log_view(log_lines(entries@), "No commits reachable from this branch"@, now),
                offset as nat,
                area,
            ),
    {
        let lines = draw_log(entries, "No commits reachable from this branch", now);
        render_details(concat3(" Log — ", &branch.name, " "), lines, offset, area)
    }

    /// Draws the status of a branch.
    pub fn render_branch_status(&self, area: Area, status: &BranchStatus, offset: usize) -> (r: Vec<
        Widget,
    >)
        ensures
            widgets_of(r@) == details_in(
                " Branch status "@,
                branch_status_view(status@),
                offset as nat,
                area,
            ),
    {
        render_details(" Branch status ".to_owned(), draw_branch_status(status), offset, area)
    }

    /// Draws the question about deleting a worktree.
    pub fn render_confirmation(
        &self,
        area: Area,
        worktree: &WorktreeInfo,
        assessment: &DeletionAssessment,
        phase: ConfirmationPhase,
        offset: usize,
    ) -> (r: Vec<Widget>)
        ensures
            widgets_of(r@) == confirmation_in(
                area,
                worktree@,
                assessment@,
                phase,
                offset as nat,
            ),
    {
        assert(assessment@.changes.len() == assessment.changes.len());
        let wanted = assessment.changes.len().saturating_add(8);
        let desired: u16 = if wanted < u16::MAX as usize {
            wanted as u16
        } else {
            u16::MAX
        };
        let room = area.height.saturating_sub(2);
        let height = if desired < room {
            desired
        } else {
            room
        };
        assert(height == confirmation_height(assessment@.changes.len(), area));
        let popup = centered_rect(POPUP_SHARE, height, area);
        let lines = draw_confirmation(worktree, assessment, phase, offset, popup.height);
        draw_popup(popup, " Confirm deletion ", lines, true)
    }

    /// Draws that a worktree is being deleted.
    pub fn render_deleting(&self, area: Area, worktree: &WorktreeInfo) -> (r: Vec<Widget>)
        ensures
            widgets_of(r@) == popup_in(
                5,
                area,
                " Delete worktree "@,
                deleting_view(worktree@.path.text),
            ),
    {
        render_popup(5, area, " Delete worktree ", draw_deleting(&worktree.path.text))
    }

    /// Draws the question about deleting a branch.
    pub fn render_branch_confirmation(
        &self,
        area: Area,
        branch: &BranchInfo,
        assessment: &BranchDeletionAssessment,
        phase: ConfirmationPhase,
    ) -> (r: Vec<Widget>)
        ensures
            widgets_of(r@) == popup_in(
                8,
                area,
                " Confirm branch deletion "@,
                branch_confirmation_view(branch@, assessment@, phase),
            ),
    {
        let lines = draw_branch_confirmation(branch, assessment, phase);
        render_popup(8, area, " Confirm branch deletion ", lines)
    }

    /// Draws that a branch is being deleted.
    pub fn render_branch_deleting(&self, area: Area, branch: &BranchInfo) -> (r: Vec<Widget>)
        ensures
            widgets_of(r@) == popup_in(
                5,
                area,
                " Delete branch "@,
                deleting_view(branch@.name),
            ),
    {
        render_popup(5, area, " Delete branch ", draw_deleting(&branch.name))
    }
}

/// What is drawn over the list of branches.
pub open spec fn branch_overlay(screen: ScreenModel, now: i64, area: Area) -> Seq<WidgetModel> {
    match screen {
        ScreenModel::BranchLog { branch, entries, offset } => details_in(
            log_title(branch.name),
            log_view(entries, "No commits reachable from this branch"@, now),
            offset,
            area,
        ),
        ScreenModel::BranchStatus { status, offset } => details_in(
            " Branch status "@,
            branch_status_view(status),
            offset,
            area,
        ),
        ScreenModel::ConfirmBranchDelete { branch, assessment, phase, .. } => popup_in(
            8,
            area,
            " Confirm branch deletion "@,
            branch_confirmation_view(branch, assessment, phase),
        ),
        ScreenModel::DeletingBranch { branch, .. } => popup_in(
            5,
            area,
            " Delete branch "@,
            deleting_view(branch.name),
        ),
        _ => Seq::empty(),
    }
}

/// What is drawn over the list of worktrees.
pub open spec fn worktree_overlay(screen: ScreenModel, area: Area) -> Seq<WidgetModel> {
    match screen {
        ScreenModel::ConfirmDelete { worktree, assessment, phase, offset, .. } => {
            confirmation_in(area, worktree, assessment, phase, offset)
        },
        ScreenModel::Deleting { worktree, .. } => popup_in(
            5,
            area,
            " Delete worktree "@,
            deleting_view(worktree.path.text),
        ),
        _ => Seq::empty(),
    }
}

/// What is drawn for a state. Where worktrees are managed, a log or a status is drawn in
/// place of the list and screens for branches are not drawn; everything else is drawn over
/// the list.
pub open spec fn frame(app: AppModel, now: i64, area: Area) -> Seq<WidgetModel> {
    match (app.mode, app.screen) {
        (ExploreMode::Branches, screen) => list_in(app, app.mode, now, area) + branch_overlay(
            screen,
            now,
            area,
        ),
        (ExploreMode::Worktrees, ScreenModel::Log { worktree, entries, offset }) => details_in(
            log_title(worktree.path.text),
            log_view(entries, "No commits reachable from HEAD"@, now),
            offset,
            area,
        ),
        (ExploreMode::Worktrees, ScreenModel::Status { worktree, status, offset }) => details_in(
            status_title(worktree.path.text),
            status_view(status),
            offset,
            area,
        ),
        (ExploreMode::Worktrees, ScreenModel::BranchLog { .. })
        | (ExploreMode::Worktrees, ScreenModel::BranchStatus { .. })
        | (ExploreMode::Worktrees, ScreenModel::ConfirmBranchDelete { .. })
        | (ExploreMode::Worktrees, ScreenModel::DeletingBranch { .. }) => Seq::empty(),
        (ExploreMode::Worktrees, screen) => list_in(app, app.mode, now, area) + worktree_overlay(
            screen,
            area,
        ),
    }
}

fn append_widgets(widgets: &mut Vec<Widget>, over: Vec<Widget>)
    ensures
        widgets_of(final(widgets)@) == widgets_of(old(widgets)@) + widgets_of(over@),
{
    let ghost before = widgets@;
    let mut over = over;
    let ghost added = over@;
    widgets.append(&mut over);
    assert(widgets@ == before + added);
    assert(widgets_of(widgets@) =~= widgets_of(before) + widgets_of(added));
}

fn no_widgets() -> (r: Vec<Widget>)
    ensures
        widgets_of(r@) == Seq::<WidgetModel>::empty(),
{
    let widgets: Vec<Widget> = Vec::new();
    assert(widgets_of(widgets@) =~= Seq::empty());
    widgets
}

impl App {
    /// Draws the list of branches and what is over it.
    pub fn render_branches(&self, area: Area, now: i64) -> (r: Vec<Widget>)
        ensures
            widgets_of(r@) == list_in(self@, ExploreMode::Branches, now, area) + branch_overlay(
                self@.screen,
                now,
                area,
            ),
    {
        let (body, footer) = split_body_and_footer(area, 2);
        let mut widgets = self.draw_list(ExploreMode::Branches, now, body, footer);
        let over = match &self.view {
            Screen::BranchLog { branch, entries, offset } => {
                self.render_branch_log(area, now, branch, entries, *offset)
            },
            Screen::BranchStatus { status, offset } => {
                self.render_branch_status(area, status, *offset)
            },
            Screen::ConfirmBranchDelete { branch, assessment, phase, .. } => {
                self.render_branch_confirmation(area, branch, assessment, *phase)
            },
            Screen::DeletingBranch { branch, .. } => self.render_branch_deleting(area, branch),
            _ => no_widgets(),
        };
        append_widgets(&mut widgets, over);
        widgets
    }

    /// Draws the state as of a time.
    pub fn render_at(&self, area: Area, now: i64) -> (r: Vec<Widget>)
        ensures
            widgets_of(r@) == frame(self@, now, area),
    {
        if let ExploreMode::Branches = self.mode {
            return self.render_branches(area, now);
        }
        match &self.view {
            Screen::Log { worktree, entries, offset } => {
                self.render_log(area, now, worktree, entries, *offset)
            },
            Screen::Status { worktree, status, offset } => {
                self.render_status(area, worktree, status, *offset)
            },
            Screen::Worktrees => self.render_over_worktrees(area, now, no_widgets()),
            Screen::ConfirmDelete { worktree, assessment, phase, offset, .. } => {
                let over = self.render_confirmation(area, worktree, assessment, *phase, *offset);
                self.render_over_worktrees(area, now, over)
            },
            Screen::Deleting { worktree, .. } => {
                let over = self.render_deleting(area, worktree);
                self.render_over_worktrees(area, now, over)
            },
            _ => no_widgets(),
        }
    }

    fn render_over_worktrees(&self, area: Area, now: i64, over: Vec<Widget>) -> (r: Vec<Widget>)
        ensures
            widgets_of(r@) == list_in(self@, ExploreMode::Worktrees, now, area) + widgets_of(over@),
    {
        let mut widgets = self.render_worktrees(area, now);
        append_widgets(&mut widgets, over);
        widgets
    }

    /// Draws the state as of now, whatever the clock says that is, and notes how many rows a
    /// page has: what the height leaves beside the frame and the help, but at least one.
    pub fn render(&mut self, area: Area) -> (r: Vec<Widget>)
        ensures
            final(self)@ == (AppModel { page_size: page_size_for(area), ..old(self)@ }),
            exists|now: i64| widgets_of(r@) == #[trigger] frame(final(self)@, now, area),
    {
        let rows = area.height.saturating_sub(4) as usize;
        self.page_size = if rows < 1 {
            1
        } else {
            rows
        };
        self.render_at(area, unix_now())
    }
}

/// How many rows a page has.
pub open spec fn page_size_for(area: Area) -> nat {
    if area.height < 5 {
        1
    } else {
        (area.height - 4) as nat
    }
}

/// The question about deleting a worktree shows every change at some offset that scrolling
/// can reach.
pub proof fn every_change_can_be_reviewed(
    worktree: WorktreeModel,
    assessment: AssessmentModel,
    phase: ConfirmationPhase,
    popup_height: u16,
    k: int,
)
    requires
        0 <= k < assessment.changes.len(),
    ensures
        confirmation_view(worktree, assessment, phase, k as nat, popup_height).contains(
            change_line(assessment.changes[k]),
        ),
{
    let head = confirmation_head(worktree, assessment);
    let visible = visible_changes(popup_height, head.len());
    let changes = assessment.changes;
    let from = least(k as nat, changes.len());
    let to = least((k + visible) as nat, changes.len());
    let shown = confirmation_changes(changes, k as nat, visible);
    let view = confirmation_view(worktree, assessment, phase, k as nat, popup_height);
    assert(change_lines(changes.subrange(from as int, to as int))[0] == change_line(changes[k]));
    assert(shown[0] == change_line(changes[k]));
    assert(view[head.len() as int] == shown[0]);
}

/// The status of a branch scrolls by as many lines as are drawn, or one more or less, where
/// commits are counted only against an upstream that is there and changes only where the
/// branch is checked out.
pub proof fn branch_status_scrolls_over_its_lines(status: BranchStatusModel)
    requires
        status.upstream_state !is Present ==> status.ahead == 0 && status.behind == 0,
        status.checked_out_paths.len() == 0 ==> status.changes == ChangeCounts::none(),
    ensures
        status.line_count() <= branch_status_view(status).len() + 1,
        branch_status_view(status).len() <= status.line_count() + 1,
{
    let changes = status.changes;
    assert(count_lines(changes).len() == if changes == ChangeCounts::none() {
        1
    } else {
        sort_count(changes)
    });
    assert(upstream_lines(status).len() <= 1 + one_if(status.ahead > 0) + one_if(
        status.behind > 0,
    ));
}

/// The row of a worktree shows its short commit, the age of that, its branch, its path, and in
/// brackets whether it is the main one, locked or missing.
pub proof fn worktree_rows_tell_of_the_worktree(
    worktree: WorktreeModel,
    is_last: bool,
    is_selected: bool,
    now: i64,
)
    ensures
        ({
            let line = worktree_line(worktree, is_last, is_selected, now);
            &&& line.len() == 6
            &&& is_last ==> line[0].text == "  └─ "@
            &&& !is_last ==> line[0].text == "  ├─ "@
            &&& worktree.head is None ==> line[1].text == padded("--------"@, 8) + " "@
            &&& worktree.head matches Some(head) ==> line[1].text == padded(head, 8) + " "@
            &&& worktree.committed_at is None ==> line[2].text == padded("—"@, 10) + " "@
            &&& worktree.committed_at matches Some(timestamp) ==> line[2].text == padded(
                age_text(elapsed(now, timestamp)),
                10,
            ) + " "@
            &&& line[3].text == padded(worktree.reference(), 20) + " "@
            &&& line[4].text == worktree.path.text
            &&& line[0].style.foreground == Some(Color::DarkGray)
            &&& is_selected ==> line[1].style.foreground == Some(Color::White)
                && line[2].style.foreground == Some(Color::White)
            &&& !is_selected ==> line[1].style.foreground == Some(Color::DarkGray)
                && line[2].style.foreground == Some(Color::DarkGray)
            &&& line[3].style.foreground == Some(Color::Cyan)
            &&& line[4].style.foreground is None
            &&& line[5].style.foreground == Some(Color::Yellow)
        }),
{
}

/// The marks behind a worktree: `main`, `locked` and `missing`, each exactly where it holds.
pub proof fn marks_are_those_that_hold(worktree: WorktreeModel)
    ensures
        ({
            let main = worktree.key is Main;
            let locked = worktree.locked;
            let missing = !worktree.available;
            let marks = marker_text(worktree);
            &&& !main && !locked && !missing ==> marks == ""@
            &&& main && !locked && !missing ==> marks == " ["@ + "main"@ + "]"@
            &&& !main && locked && !missing ==> marks == " ["@ + "locked"@ + "]"@
            &&& !main && !locked && missing ==> marks == " ["@ + "missing"@ + "]"@
            &&& main && locked && !missing ==> marks == " ["@ + ("main"@ + ", "@ + "locked"@) + "]"@
            &&& main && !locked && missing ==> marks == " ["@ + ("main"@ + ", "@ + "missing"@)
                + "]"@
            &&& !main && locked && missing ==> marks == " ["@ + ("locked"@ + ", "@ + "missing"@)
                + "]"@
            &&& main && locked && missing ==> marks == " ["@ + ("main"@ + ", "@ + "locked"@ + ", "@
                + "missing"@) + "]"@
        }),
{
    reveal_with_fuel(joined, 4);
    let words = markers(worktree);
    if words.len() > 1 {
        assert(words.drop_last().len() == words.len() - 1);
        assert(words.drop_last()[0] == words[0]);
    }
    if words.len() > 2 {
        assert(words.drop_last()[1] == words[1]);
        assert(words.drop_last().drop_last()[0] == words[0]);
    }
}

/// The row of a branch shows its short commit, the age of that, its name, and the path of each
/// checkout.
pub proof fn branch_rows_tell_of_the_branch(
    branch: BranchModel,
    is_last: bool,
    is_selected: bool,
    now: i64,
)
    ensures
        ({
            let line = branch_line(branch, is_last, is_selected, now);
            let paths = branch.checked_out_paths;
            &&& line.len() == 4
            &&& is_last ==> line[0].text == "  └─ "@
            &&& !is_last ==> line[0].text == "  ├─ "@
            &&& line[1].text == padded(branch.head, 8) + " "@
            &&& line[2].text == padded(age_text(elapsed(now, branch.committed_at)), 10) + " "@
            &&& paths.len() == 0 ==> line[3].text == branch.name + ""@
            &&& paths.len() == 1 ==> line[3].text == branch.name + (" [checked out: "@
                + paths[0].text + "]"@)
            &&& paths.len() == 2 ==> line[3].text == branch.name + (" [checked out: "@ + (
            paths[0].text + ", "@ + paths[1].text) + "]"@)
            &&& paths.len() > 0 ==> line[3].text == branch.name + (" [checked out: "@ + joined(
                paths.map_values(|path: PathModel| path.text),
                ", "@,
            ) + "]"@)
            &&& line[0].style.foreground == Some(Color::DarkGray)
            &&& is_selected ==> line[1].style.foreground == Some(Color::White)
                && line[2].style.foreground == Some(Color::White)
            &&& !is_selected ==> line[1].style.foreground == Some(Color::DarkGray)
                && line[2].style.foreground == Some(Color::DarkGray)
            &&& line[3].style.foreground == Some(Color::Cyan)
        }),
{
    reveal_with_fuel(joined, 3);
    let paths = branch.checked_out_paths;
    let texts = path_texts(paths);
    assert(texts =~= paths.map_values(|path: PathModel| path.text));
    if texts.len() == 2 {
        assert(texts.drop_last().len() == 1);
        assert(texts.drop_last()[0] == texts[0]);
    }
}

/// A list has a line for each row of the tree, in order: the root of a repository, or the
/// worktree or branch of the row, the last of each group and the selected one being marked.
pub proof fn lists_draw_every_row(
    groups: Seq<GroupModel>,
    kind: ExploreMode,
    rows: Seq<Row>,
    selected: nat,
    now: i64,
    k: int,
)
    requires
        0 <= k < rows.len(),
    ensures
        ({
            let lines = row_lines(groups, kind, rows, selected, now);
            &&& lines.len() == rows.len()
            &&& rows[k] matches Row::Repository(i) ==> {
                &&& lines[k].len() == 2
                &&& lines[k][0].text == "▾ "@
                &&& lines[k][0].style.foreground == Some(Color::Magenta)
                &&& lines[k][1].text == groups[i].repository.root.text
                &&& lines[k][1].style.bold
            }
            &&& rows[k] matches Row::Item(i, j) ==> {
                &&& kind is Worktrees ==> lines[k] == worktree_line(
                    groups[i].worktrees[j],
                    j + 1 == groups[i].worktrees.len(),
                    k == selected,
                    now,
                )
                &&& kind is Branches ==> lines[k] == branch_line(
                    groups[i].branches[j],
                    j + 1 == groups[i].branches.len(),
                    k == selected,
                    now,
                )
            }
        }),
{
}

/// A list shows the rows of the tree with the selected one marked, and below it the message in
/// red, or the keys.
pub proof fn lists_show_the_selection_and_the_message(
    app: AppModel,
    kind: ExploreMode,
    now: i64,
    body: Area,
    footer: Area,
)
    requires
        app.tree().rows().len() <= usize::MAX,
    ensures
        ({
            let widgets = list_widgets(app, kind, now, body, footer);
            let rows = app.tree().rows().len();
            &&& widgets.len() == 2
            &&& widgets[0] matches WidgetModel::List {
                area,
                title,
                items,
                selected,
                highlight,
                symbol,
            }
            &&& area == body
            &&& kind is Worktrees ==> title == " Repositories and worktrees "@
            &&& kind is Branches ==> title == " Repositories and local branches "@
            &&& items == row_lines(
                app.groups,
                kind,
                app.tree().rows_with(kind),
                app.selected,
                now,
            )
            &&& rows == 0 ==> selected is None
            &&& app.selected < rows ==> selected == Some(app.selected)
            &&& rows > 0 && app.selected >= rows ==> selected == Some((rows - 1) as nat)
            &&& highlight.bold && highlight.background == Some(Color::DarkGray)
            &&& symbol == "› "@
        }),
        ({
            let widgets = list_widgets(app, kind, now, body, footer);
            &&& widgets[1] matches WidgetModel::Text { area, text, style, centered, wrapped }
            &&& area == footer
            &&& !centered && wrapped
            &&& app.message matches Some(message) ==> text == "Error: "@ + message
                && style.foreground == Some(Color::Red)
            &&& app.message is None ==> style.foreground == Some(Color::DarkGray)
            &&& app.message is None && !app.recursive ==> text
                == "↑/↓ or j/k select   PgUp/PgDn page   l logs   s status   d delete   r refresh"@
                + ""@ + "   q quit"@
            &&& app.message is None && app.recursive && app.hide_without_linked ==> text
                == "↑/↓ or j/k select   PgUp/PgDn page   l logs   s status   d delete   r refresh"@
                + "   h show all"@ + "   q quit"@
            &&& app.message is None && app.recursive && !app.hide_without_linked && kind is Worktrees
                ==> text
                == "↑/↓ or j/k select   PgUp/PgDn page   l logs   s status   d delete   r refresh"@
                + "   h hide without linked"@ + "   q quit"@
            &&& app.message is None && app.recursive && !app.hide_without_linked && kind is Branches
                ==> text
                == "↑/↓ or j/k select   PgUp/PgDn page   l logs   s status   d delete   r refresh"@
                + "   h hide empty"@ + "   q quit"@
        }),
{
}

/// A log shows for each commit its short id, subject, author and age, or says that there is
/// none.
pub proof fn logs_show_every_commit(entries: Seq<LogModel>, none: Seq<char>, now: i64)
    ensures
        ({
            let lines = log_view(entries, none, now);
            &&& entries.len() == 0 ==> lines.len() == 1 && lines[0].len() == 1 && lines[0][0].text
                == none
            &&& entries.len() > 0 ==> lines.len() == entries.len()
            &&& forall|i: int|
                0 <= i < entries.len() ==> {
                    let line = #[trigger] lines[i];
                    &&& line.len() == 3
                    &&& line[0].text == entries[i].id + " "@
                    &&& line[1].text == entries[i].subject + "  "@
                    &&& line[2].text == entries[i].author + " · "@ + age_text(
                        elapsed(now, entries[i].committed_at),
                    )
                }
        }),
{
}

/// A status shows what is checked out and, for each change, where it was found, its kind and
/// its path, or says that there is none.
pub proof fn statuses_show_every_entry(status: StatusModel)
    ensures
        ({
            let lines = status_view(status);
            &&& lines[0].len() == 2
            &&& lines[0][0].text == "On "@
            &&& lines[0][1].text == status.reference
            &&& status.entries.len() == 0 ==> lines.len() == 2 && lines[1].len() == 1
                && lines[1][0].text == "Working tree clean"@
            &&& status.entries.len() > 0 ==> lines.len() == status.entries.len() + 1
            &&& forall|i: int|
                0 <= i < status.entries.len() ==> {
                    let line = lines[i + 1];
                    let entry = #[trigger] status.entries[i];
                    &&& line.len() == 3
                    &&& entry.area is Index ==> line[0].text == padded("staged"@, 9)
                    &&& entry.area is Worktree ==> line[0].text == padded("worktree"@, 9)
                    &&& line[1].text == padded(entry.kind.word(), 14)
                    &&& line[2].text == entry.path
                }
        }),
{
}

/// Changes are told by a line for each count that is not zero, in the order of the sorts, or by
/// one that says that there are none.
pub proof fn counts_are_told_where_they_are_not_zero(counts: ChangeCounts)
    ensures
        ({
            let lines = count_lines(counts);
            let a = if counts.staged > 0 {
                1int
            } else {
                0
            };
            let b = if counts.unstaged > 0 {
                a + 1
            } else {
                a
            };
            let c = if counts.untracked > 0 {
                b + 1
            } else {
                b
            };
            let d = if counts.deleted > 0 {
                c + 1
            } else {
                c
            };
            let e = if counts.conflicted > 0 {
                d + 1
            } else {
                d
            };
            &&& e == 0 ==> lines.len() == 1 && lines[0].len() == 1 && lines[0][0].text
                == "Working tree clean"@
            &&& e > 0 ==> lines.len() == e
            &&& counts.staged > 0 ==> lines[0].len() == 1 && lines[0][0].text == decimal(
                counts.staged as nat,
            ) + " staged file(s)"@
            &&& counts.unstaged > 0 ==> lines[a].len() == 1 && lines[a][0].text == decimal(
                counts.unstaged as nat,
            ) + " unstaged file(s)"@
            &&& counts.untracked > 0 ==> lines[b].len() == 1 && lines[b][0].text == decimal(
                counts.untracked as nat,
            ) + " untracked file(s)"@
            &&& counts.deleted > 0 ==> lines[c].len() == 1 && lines[c][0].text == decimal(
                counts.deleted as nat,
            ) + " deleted file(s)"@
            &&& counts.conflicted > 0 ==> lines[d].len() == 1 && lines[d][0].text == decimal(
                counts.conflicted as nat,
            ) + " conflicted file(s)"@
        }),
{
}

/// How a branch compares with its upstream is told in words: that there is none, that it is
/// missing, by how many commits the branch is ahead and behind, or that it is neither.
pub proof fn upstreams_are_told_as_they_compare(status: BranchStatusModel)
    ensures
        ({
            let lines = upstream_lines(status);
            let name = match status.upstream {
                Some(name) => name,
                None => "upstream"@,
            };
            &&& status.upstream_state is NotConfigured ==> lines == seq![
                text_line("No configured upstream"@),
            ]
            &&& status.upstream_state is Missing && status.upstream is None ==> lines == seq![
                text_line("Upstream "@ + "(unknown)"@ + " is missing"@),
            ]
            &&& status.upstream_state is Missing ==> (status.upstream matches Some(known) ==> lines
                == seq![text_line("Upstream "@ + known + " is missing"@)])
            &&& status.upstream_state is Present && status.ahead == 0 && status.behind == 0
                ==> lines == seq![text_line("Up to date with upstream"@)]
            &&& status.upstream_state is Present && status.ahead > 0 && status.behind == 0
                ==> lines == seq![
                text_line("Ahead of "@ + name + " by "@ + decimal(status.ahead) + " commit(s)"@),
            ]
            &&& status.upstream_state is Present && status.ahead == 0 && status.behind > 0
                ==> lines == seq![
                text_line("Behind "@ + name + " by "@ + decimal(status.behind) + " commit(s)"@),
            ]
            &&& status.upstream_state is Present && status.ahead > 0 && status.behind > 0
                ==> lines == seq![
                text_line("Ahead of "@ + name + " by "@ + decimal(status.ahead) + " commit(s)"@),
                text_line("Behind "@ + name + " by "@ + decimal(status.behind) + " commit(s)"@),
            ]
        }),
{
}

/// The status of a branch names the branch, tells how it compares with its upstream, and shows
/// each checkout and the changes in them, or that there is no checkout.
pub proof fn branch_statuses_show_every_finding(status: BranchStatusModel)
    ensures
        ({
            let lines = branch_status_view(status);
            let upstream = upstream_lines(status);
            let paths = status.checked_out_paths;
            let counts = count_lines(status.changes);
            let from = 1 + upstream.len();
            &&& lines[0].len() == 1
            &&& lines[0][0].text == "Branch "@ + status.branch
            &&& lines[0][0].style.foreground == Some(Color::Cyan)
            &&& lines.subrange(1, from as int) == upstream
            &&& paths.len() == 0 ==> lines.len() == from + 1 && lines.last() == text_line(
                "Not checked out"@,
            )
            &&& paths.len() > 0 ==> {
                &&& lines.len() == from + paths.len() + counts.len()
                &&& lines.skip((from + paths.len()) as int) == counts
            }
            &&& forall|i: int|
                0 <= i < paths.len() ==> lines[from + i] == text_line(
                    "Checked out at "@ + (#[trigger] paths[i]).text,
                )
        }),
{
    let lines = branch_status_view(status);
    let upstream = upstream_lines(status);
    let paths = status.checked_out_paths;
    let counts = count_lines(status.changes);
    let from = 1 + upstream.len();
    assert(lines.subrange(1, from as int) =~= upstream);
    if paths.len() > 0 {
        assert(lines.skip((from + paths.len()) as int) =~= counts);
    }
}

/// A line of text is that text as the terminal shows it.
pub proof fn lines_of_text_are_plain(text: Seq<char>)
    ensures
        text_line(text).len() == 1,
        text_line(text)[0].text == text,
        text_line(text)[0].style.foreground is None,
        text_line(text)[0].style.background is None,
        !text_line(text)[0].style.bold,
{
}

/// The question about deleting a worktree begins with its path, and says where it is locked,
/// where it is missing, and how many changes there are.
pub proof fn questions_begin_with_what_was_found(
    worktree: WorktreeModel,
    assessment: AssessmentModel,
)
    ensures
        ({
            let lines = confirmation_head(worktree, assessment);
            let a = if assessment.locked {
                2int
            } else {
                1
            };
            let b = if assessment.missing {
                a + 1
            } else {
                a
            };
            &&& lines.len() == if assessment.changes.len() > 0 {
                b + 1
            } else {
                b
            }
            &&& lines[0] == text_line(worktree.path.text)
            &&& assessment.locked ==> lines[1].len() == 1 && lines[1][0].text
                == "This worktree is locked."@
            &&& assessment.missing ==> lines[a] == text_line(
                "The checkout is missing; only stale metadata will be removed."@,
            )
            &&& assessment.changes.len() > 0 ==> lines[b].len() == 1 && lines[b][0].text
                == "Changes ("@ + decimal(assessment.changes.len()) + ")"@
        }),
{
}

/// Below that the question shows the changes from the offset on, as many as there is room for,
/// but at least one, and says which these are where there are more.
pub proof fn questions_show_the_changes_from_the_offset_on(
    changes: Seq<EntryModel>,
    offset: nat,
    popup_height: u16,
    above: nat,
)
    requires
        changes.len() <= usize::MAX,
        offset < changes.len(),
    ensures
        ({
            let room = visible_changes(popup_height, above);
            let lines = confirmation_changes(changes, offset, room);
            let shown = if offset + room < changes.len() {
                room
            } else {
                (changes.len() - offset) as nat
            };
            &&& popup_height >= above + 6 ==> room + above + 5 == popup_height
            &&& popup_height < above + 6 ==> room == 1
            &&& changes.len() <= room ==> lines.len() == shown
            &&& changes.len() > room ==> {
                &&& lines.len() == shown + 1
                &&& lines.last().len() == 1
                &&& lines.last()[0].text == "Showing "@ + decimal(offset + 1) + "–"@ + decimal(
                    offset + shown,
                ) + " of "@ + decimal(changes.len()) + " · ↑/↓ or j/k scroll"@
            }
            &&& forall|k: int|
                0 <= k < shown ==> #[trigger] lines[k] == change_line(changes[offset + k])
        }),
{
    let room = visible_changes(popup_height, above);
    let lines = confirmation_changes(changes, offset, room);
    let to = least(offset + room, changes.len()) as int;
    let own = change_lines(changes.subrange(offset as int, to));
    assert forall|k: int| 0 <= k < to - offset implies #[trigger] lines[k] == change_line(
        changes[offset + k],
    ) by {
        assert(lines[k] == own[k]);
    }
}

/// The question ends with the key that confirms, and warns before force.
pub proof fn questions_end_with_the_key(
    worktree: WorktreeModel,
    assessment: AssessmentModel,
    phase: ConfirmationPhase,
    offset: nat,
    popup_height: u16,
)
    ensures
        ({
            let lines = confirmation_view(worktree, assessment, phase, offset, popup_height);
            let head = confirmation_head(worktree, assessment);
            let changes = confirmation_changes(
                assessment.changes,
                offset,
                visible_changes(popup_height, head.len()),
            );
            let n = if assessment.changes.len() > 0 {
                head.len() + changes.len()
            } else {
                head.len()
            };
            &&& lines.take(head.len() as int) == head
            &&& assessment.changes.len() > 0 ==> lines.subrange(head.len() as int, n as int)
                == changes
            &&& phase is Initial ==> lines.skip(n as int) == seq![
                text_line("Delete this worktree? y/N"@),
            ]
            &&& phase is Force ==> {
                &&& lines.len() == n + 2
                &&& lines[n as int].len() == 1
                &&& lines[n as int][0].text == "This permanently discards local worktree data."@
                &&& lines[n as int][0].style.foreground == Some(Color::Red)
                &&& lines[n as int + 1] == text_line(
                    "Press uppercase D to force deletion; any other key cancels."@,
                )
            }
        }),
{
    let lines = confirmation_view(worktree, assessment, phase, offset, popup_height);
    let head = confirmation_head(worktree, assessment);
    let changes = confirmation_changes(
        assessment.changes,
        offset,
        visible_changes(popup_height, head.len()),
    );
    let n = if assessment.changes.len() > 0 {
        head.len() + changes.len()
    } else {
        head.len()
    };
    let foot = confirmation_foot(phase);
    assert(lines.take(head.len() as int) =~= head);
    if assessment.changes.len() > 0 {
        assert(lines.subrange(head.len() as int, n as int) =~= changes);
    }
    assert(lines.skip(n as int) =~= foot);
    if phase is Force {
        assert(lines[n as int] == foot[0]);
        assert(lines[n as int + 1] == foot[1]);
    }
}

/// The line of a change shows where it was found, its kind and its path.
pub proof fn changes_are_drawn_as_they_are(entry: EntryModel)
    ensures
        change_line(entry).len() == 3,
        entry.area is Index ==> change_line(entry)[0].text == padded("staged"@, 9),
        entry.area is Worktree ==> change_line(entry)[0].text == padded("worktree"@, 9),
        change_line(entry)[1].text == padded(entry.kind.word(), 14),
        change_line(entry)[2].text == entry.path,
{
}

/// The question about deleting a branch names it, says where it is not merged, and ends with
/// the key that confirms.
pub proof fn branch_questions_tell_what_is_at_stake(
    branch: BranchModel,
    assessment: BranchAssessmentModel,
    phase: ConfirmationPhase,
)
    ensures
        ({
            let lines = branch_confirmation_view(branch, assessment, phase);
            let a = if assessment.unmerged {
                2int
            } else {
                1
            };
            &&& lines[0] == text_line(branch.name)
            &&& assessment.unmerged ==> lines[1].len() == 1 && lines[1][0].text
                == "This branch is not merged into the repository HEAD."@
            &&& phase is Initial ==> lines.len() == a + 1 && lines[a] == text_line(
                "Delete this local branch? y/N"@,
            )
            &&& phase is Force ==> lines.len() == a + 2 && lines[a].len() == 1 && lines[a][0].text
                == "This permanently discards the unmerged branch."@ && lines[a + 1] == text_line(
                "Press uppercase D to force deletion; any other key cancels."@,
            )
        }),
{
}

/// A popup is drawn over a place that was cleared, and details are drawn above the keys,
/// scrolled as far as the terminal can.
pub proof fn popups_and_details_fill_their_areas(
    height: u16,
    area: Area,
    title: Seq<char>,
    lines: Seq<Seq<SpanModel>>,
    offset: nat,
    wrapped: bool,
)
    ensures
        ({
            let popup = popup_area(76, height, area);
            &&& popup_in(height, area, title, lines) == popup_widgets(popup, title, lines, false)
            &&& popup_widgets(popup, title, lines, wrapped).len() == 2
            &&& popup_widgets(popup, title, lines, wrapped)[0] == (WidgetModel::Clear {
                area: popup,
            })
            &&& popup_widgets(popup, title, lines, wrapped)[1] == (WidgetModel::Paragraph {
                area: popup,
                title,
                lines,
                centered: true,
                wrapped,
                scroll: 0,
            })
        }),
        ({
            let widgets = details_in(title, lines, offset, area);
            &&& widgets.len() == 2
            &&& widgets[0] matches WidgetModel::Paragraph {
                area: place,
                title: shown_title,
                lines: shown_lines,
                centered,
                wrapped,
                scroll,
            }
            &&& place == body_area(area, 1)
            &&& shown_title == title
            &&& shown_lines == lines
            &&& !centered && !wrapped
            &&& offset <= 65535 ==> scroll == offset
            &&& offset > 65535 ==> scroll == 65535
        }),
        ({
            let widgets = details_in(title, lines, offset, area);
            &&& widgets[1] matches WidgetModel::Text { area: place, text, style, centered, wrapped }
            &&& place == footer_area(area, 1)
            &&& text == "↑/↓ or j/k scroll   PgUp/PgDn page   Esc/q back"@
            &&& style.foreground == Some(Color::DarkGray)
            &&& centered && !wrapped
        }),
{
}

/// The question about deleting a worktree is as high as its changes and eight lines more, where
/// that leaves a line of the screen above and below; else as high as it can be so.
pub proof fn questions_are_as_high_as_their_changes(changes: nat, area: Area)
    ensures
        changes + 10 <= area.height ==> confirmation_height(changes, area) == changes + 8,
        changes + 10 > area.height && area.height >= 2 ==> confirmation_height(changes, area) + 2
            == area.height,
        area.height < 2 ==> confirmation_height(changes, area) == 0,
        area.height >= 5 ==> page_size_for(area) + 4 == area.height,
        area.height < 5 ==> page_size_for(area) == 1,
{
}

/// What is drawn where worktrees are managed: a log or a status in place of the list, and a
/// question or a running deletion over it.
pub proof fn worktree_screens_are_drawn(app: AppModel, now: i64, area: Area)
    requires
        app.mode is Worktrees,
    ensures
        ({
            let list = list_widgets(
                app,
                ExploreMode::Worktrees,
                now,
                body_area(area, 2),
                footer_area(area, 2),
            );
            &&& app.screen is Worktrees ==> frame(app, now, area) == list
            &&& app.screen matches ScreenModel::Log { worktree, entries, offset } ==> frame(
                app,
                now,
                area,
            ) == details_in(
                " Log — "@ + worktree.path.text + " "@,
                log_view(entries, "No commits reachable from HEAD"@, now),
                offset,
                area,
            )
            &&& app.screen matches ScreenModel::Status { worktree, status, offset } ==> frame(
                app,
                now,
                area,
            ) == details_in(
                " Status — "@ + worktree.path.text + " "@,
                status_view(status),
                offset,
                area,
            )
            &&& app.screen matches ScreenModel::ConfirmDelete {
                worktree,
                assessment,
                phase,
                offset,
                ..
            } ==> {
                let popup = popup_area(
                    76,
                    confirmation_height(assessment.changes.len(), area),
                    area,
                );
                frame(app, now, area) == list + popup_widgets(
                    popup,
                    " Confirm deletion "@,
                    confirmation_view(worktree, assessment, phase, offset, popup.height),
                    true,
                )
            }
            &&& app.screen matches ScreenModel::Deleting { worktree, .. } ==> frame(app, now, area)
                == list + popup_in(
                5,
                area,
                " Delete worktree "@,
                seq![
                    text_line(worktree.path.text),
                    seq![styled("Deleting..."@, Style::bold_style())],
                ],
            )
            &&& app.screen is BranchLog || app.screen is BranchStatus
                || app.screen is ConfirmBranchDelete || app.screen is DeletingBranch ==> frame(
                app,
                now,
                area,
            ).len() == 0
        }),
{
    let list = list_in(app, ExploreMode::Worktrees, now, area);
    assert(list + Seq::<WidgetModel>::empty() =~= list);
}

/// What is drawn where branches are managed: everything is drawn over the list.
pub proof fn branch_screens_are_drawn(app: AppModel, now: i64, area: Area)
    requires
        app.mode is Branches,
    ensures
        ({
            let list = list_widgets(
                app,
                ExploreMode::Branches,
                now,
                body_area(area, 2),
                footer_area(area, 2),
            );
            &&& app.screen matches ScreenModel::BranchLog { branch, entries, offset } ==> frame(
                app,
                now,
                area,
            ) == list + details_in(
                " Log — "@ + branch.name + " "@,
                log_view(entries, "No commits reachable from this branch"@, now),
                offset,
                area,
            )
            &&& app.screen matches ScreenModel::BranchStatus { status, offset } ==> frame(
                app,
                now,
                area,
            ) == list + details_in(" Branch status "@, branch_status_view(status), offset, area)
            &&& app.screen matches ScreenModel::ConfirmBranchDelete {
                branch,
                assessment,
                phase,
                ..
            } ==> frame(app, now, area) == list + popup_in(
                8,
                area,
                " Confirm branch deletion "@,
                branch_confirmation_view(branch, assessment, phase),
            )
            &&& app.screen matches ScreenModel::DeletingBranch { branch, .. } ==> frame(
                app,
                now,
                area,
            ) == list + popup_in(
                5,
                area,
                " Delete branch "@,
                seq![text_line(branch.name), seq![styled("Deleting..."@, Style::bold_style())]],
            )
            &&& app.screen is Worktrees || app.screen is Log || app.screen is Status
                || app.screen is ConfirmDelete || app.screen is Deleting ==> frame(app, now, area)
                == list
        }),
{
    let list = list_in(app, ExploreMode::Branches, now, area);
    assert(list + Seq::<WidgetModel>::empty() =~= list);
}

} // verus!
