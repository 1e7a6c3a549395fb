//! How the explorer answers to keys, and to what it asked for.

use vstd::prelude::*;

use crate::app::{selection_returns_to_a_row, App, AppModel, Listing};
use crate::error::GitError;
use crate::git::{
    BranchDeleteResult, BranchDeletionAssessment, BranchInfo, BranchModel, BranchStatus,
    DeleteResult, DeletionAssessment, WorktreeInfo, WorktreeKey, WorktreeModel, WorktreeStatus,
};
use crate::history::{log_lines, LogEntry};
use crate::keys::{limited, move_down, raised, KeyCode, KeyEvent};
use crate::path::{join_paths, path_texts};
use crate::screen::{ConfirmationPhase, DeletionMode, Screen, ScreenModel};
use crate::text::{concat, joined};
use crate::tree::{rows_are_of_shown_groups, ExploreMode, Row};

verus! {

/// Something that has to be found out before the explorer can go on. Repositories are named by
/// their place in the list of groups.
#[derive(Debug)]
pub enum Request {
    /// List all repositories again; the message is cleared.
    Refresh,
    /// List all repositories again under the message that is shown.
    RefreshKeepingMessage,
    Log { repository_index: usize, worktree: WorktreeInfo },
    Status { repository_index: usize, worktree: WorktreeInfo },
    Assessment { repository_index: usize, worktree: WorktreeInfo },
    BranchLog { repository_index: usize, branch: BranchInfo },
    BranchStatus { repository_index: usize, branch: BranchInfo },
    BranchAssessment { repository_index: usize, branch: BranchInfo },
}

/// What a request stands for.
pub enum RequestModel {
    Refresh,
    RefreshKeepingMessage,
    Log { repository_index: nat, worktree: WorktreeModel },
    Status { repository_index: nat, worktree: WorktreeModel },
    Assessment { repository_index: nat, worktree: WorktreeModel },
    BranchLog { repository_index: nat, branch: BranchModel },
    BranchStatus { repository_index: nat, branch: BranchModel },
    BranchAssessment { repository_index: nat, branch: BranchModel },
}

impl View for Request {
    type V = RequestModel;

    open spec fn view(&self) -> RequestModel {
        match *self {
            Request::Refresh => RequestModel::Refresh,
            Request::RefreshKeepingMessage => RequestModel::RefreshKeepingMessage,
            Request::Log { repository_index, worktree } => RequestModel::Log {
                repository_index: repository_index as nat,
                worktree: worktree@,
            },
            Request::Status { repository_index, worktree } => RequestModel::Status {
                repository_index: repository_index as nat,
                worktree: worktree@,
            },
            Request::Assessment { repository_index, worktree } => RequestModel::Assessment {
                repository_index: repository_index as nat,
                worktree: worktree@,
            },
            Request::BranchLog { repository_index, branch } => RequestModel::BranchLog {
                repository_index: repository_index as nat,
                branch: branch@,
            },
            Request::BranchStatus { repository_index, branch } => RequestModel::BranchStatus {
                repository_index: repository_index as nat,
                branch: branch@,
            },
            Request::BranchAssessment { repository_index, branch } => {
                RequestModel::BranchAssessment {
                    repository_index: repository_index as nat,
                    branch: branch@,
                }
            },
        }
    }
}

impl RequestModel {
    /// The place of the repository that the request is about.
    pub open spec fn repository(self) -> Option<nat> {
        match self {
            RequestModel::Refresh => None,
            RequestModel::RefreshKeepingMessage => None,
            RequestModel::Log { repository_index, .. } => Some(repository_index),
            RequestModel::Status { repository_index, .. } => Some(repository_index),
            RequestModel::Assessment { repository_index, .. } => Some(repository_index),
            RequestModel::BranchLog { repository_index, .. } => Some(repository_index),
            RequestModel::BranchStatus { repository_index, .. } => Some(repository_index),
            RequestModel::BranchAssessment { repository_index, .. } => Some(repository_index),
        }
    }
}

/// What came of a request.
#[derive(Debug)]
pub enum Answer {
    Listings(Vec<Listing>),
    Log(Result<Vec<LogEntry>, GitError>),
    Status(Result<WorktreeStatus, GitError>),
    Assessment(Result<DeletionAssessment, GitError>),
    BranchStatus(Result<BranchStatus, GitError>),
    BranchAssessment(Result<BranchDeletionAssessment, GitError>),
}

/// What is to be done after a key.
#[derive(Debug)]
pub enum Outcome {
    Continue,
    Quit,
    Ask(Request),
}

/// What an outcome stands for.
pub enum OutcomeModel {
    Continue,
    Quit,
    Ask(RequestModel),
}

impl View for Outcome {
    type V = OutcomeModel;

    open spec fn view(&self) -> OutcomeModel {
        match *self {
            Outcome::Continue => OutcomeModel::Continue,
            Outcome::Quit => OutcomeModel::Quit,
            Outcome::Ask(request) => OutcomeModel::Ask(request@),
        }
    }
}

/// The letters that ask for something about the selected item.
pub enum Question {
    Log,
    Status,
    Deletion,
}

/// The question that a key asks.
pub open spec fn question(code: KeyCode) -> Option<Question> {
    match code {
        KeyCode::Char('l') => Some(Question::Log),
        KeyCode::Char('s') => Some(Question::Status),
        KeyCode::Char('d') => Some(Question::Deletion),
        _ => None,
    }
}

impl AppModel {
    /// The request for a question about a worktree.
    pub open spec fn about_worktree(self, what: Question, i: int, j: int) -> RequestModel {
        let repository_index = i as nat;
        let worktree = self.groups[i].worktrees[j];
        match what {
            Question::Log => RequestModel::Log { repository_index, worktree },
            Question::Status => RequestModel::Status { repository_index, worktree },
            Question::Deletion => RequestModel::Assessment { repository_index, worktree },
        }
    }

    /// The request for a question about a branch.
    pub open spec fn about_branch(self, what: Question, i: int, j: int) -> RequestModel {
        let repository_index = i as nat;
        let branch = self.groups[i].branches[j];
        match what {
            Question::Log => RequestModel::BranchLog { repository_index, branch },
            Question::Status => RequestModel::BranchStatus { repository_index, branch },
            Question::Deletion => RequestModel::BranchAssessment { repository_index, branch },
        }
    }

    /// A question about the selected item. On the row of a repository it is a mistake.
    pub open spec fn asked(self, what: Question, kind: ExploreMode) -> (AppModel, OutcomeModel) {
        match (self.selected_item(kind), kind) {
            (Some((i, j)), ExploreMode::Worktrees) => (
                self,
                OutcomeModel::Ask(self.about_worktree(what, i, j)),
            ),
            (Some((i, j)), ExploreMode::Branches) => (
                self,
                OutcomeModel::Ask(self.about_branch(what, i, j)),
            ),
            (None, ExploreMode::Worktrees) => (
                AppModel { message: Some("select a worktree, not a repository"@), ..self },
                OutcomeModel::Continue,
            ),
            (None, ExploreMode::Branches) => (
                AppModel { message: Some("select a branch, not a repository"@), ..self },
                OutcomeModel::Continue,
            ),
        }
    }

    /// The row below the selected one. Behind the last row a list of worktrees stays where it
    /// is; a list of branches goes to its last row.
    pub open spec fn row_below(self, kind: ExploreMode) -> nat {
        match kind {
            ExploreMode::Worktrees => if self.selected + 1 < self.row_count() {
                self.selected + 1
            } else {
                self.selected
            },
            ExploreMode::Branches => limited(self.selected + 1, self.row_count()),
        }
    }

    /// The state and the outcome after a key on the list.
    pub open spec fn after_list_key(self, code: KeyCode, kind: ExploreMode) -> (
        AppModel,
        OutcomeModel,
    ) {
        let app = AppModel { message: None, ..self };
        match code {
            KeyCode::Char('q') => (app, OutcomeModel::Quit),
            KeyCode::Up | KeyCode::Char('k') => (
                AppModel { selected: raised(app.selected, 1), ..app },
                OutcomeModel::Continue,
            ),
            KeyCode::Down | KeyCode::Char('j') => (
                AppModel { selected: app.row_below(kind), ..app },
                OutcomeModel::Continue,
            ),
            KeyCode::PageUp => (
                AppModel { selected: raised(app.selected, app.page_size), ..app },
                OutcomeModel::Continue,
            ),
            KeyCode::PageDown => (
                AppModel {
                    selected: limited(app.selected + app.page_size, app.row_count()),
                    ..app
                },
                OutcomeModel::Continue,
            ),
            KeyCode::Char('h') if app.recursive => (app.after_toggle(), OutcomeModel::Continue),
            KeyCode::Char('r') => (app, OutcomeModel::Ask(RequestModel::Refresh)),
            _ => match question(code) {
                Some(what) => app.asked(what, kind),
                None => (app, OutcomeModel::Continue),
            },
        }
    }

    /// The state after a key on a screen of details: it scrolls, or leads back to the list.
    pub open spec fn after_detail_key(self, code: KeyCode) -> AppModel {
        AppModel {
            screen: match code {
                KeyCode::Esc | KeyCode::Char('q') => ScreenModel::Worktrees,
                _ => self.screen.after_scroll(code, self.page_size),
            },
            ..self
        }
    }

    /// The state after a key that should confirm deleting a worktree. Any key but the
    /// expected one leads back to the list.
    pub open spec fn after_confirmation(
        self,
        code: KeyCode,
        expected: char,
        mode: DeletionMode,
    ) -> AppModel {
        AppModel {
            screen: if code != KeyCode::Char(expected) {
                ScreenModel::Worktrees
            } else {
                match self.screen {
                    ScreenModel::ConfirmDelete { repository_index, worktree, .. } => {
                        ScreenModel::Deleting { repository_index, worktree, mode }
                    },
                    _ => self.screen,
                }
            },
            ..self
        }
    }

    /// The state after a key on the question about deleting a branch.
    pub open spec fn after_branch_confirmation(self, code: KeyCode) -> AppModel {
        AppModel {
            screen: match (self.screen, code) {
                (
                    ScreenModel::ConfirmBranchDelete {
                        repository_index,
                        branch,
                        phase: ConfirmationPhase::Initial,
                        ..
                    },
                    KeyCode::Char('y'),
                ) => ScreenModel::DeletingBranch {
                    repository_index,
                    branch,
                    mode: DeletionMode::Normal,
                },
                (
                    ScreenModel::ConfirmBranchDelete {
                        repository_index,
                        branch,
                        phase: ConfirmationPhase::Force,
                        ..
                    },
                    KeyCode::Char('D'),
                ) => ScreenModel::DeletingBranch {
                    repository_index,
                    branch,
                    mode: DeletionMode::Force,
                },
                _ => ScreenModel::Worktrees,
            },
            ..self
        }
    }

    /// The state and the outcome after a key, where branches are managed.
    pub open spec fn after_branch_key(self, code: KeyCode) -> (AppModel, OutcomeModel) {
        match self.screen {
            ScreenModel::Worktrees => self.after_list_key(code, ExploreMode::Branches),
            ScreenModel::BranchLog { .. } | ScreenModel::BranchStatus { .. } => (
                self.after_detail_key(code),
                OutcomeModel::Continue,
            ),
            ScreenModel::ConfirmBranchDelete { .. } => (
                self.after_branch_confirmation(code),
                OutcomeModel::Continue,
            ),
            _ => (self, OutcomeModel::Continue),
        }
    }

    /// The state and the outcome after a key, where worktrees are managed.
    pub open spec fn after_worktree_mode_key(self, code: KeyCode) -> (AppModel, OutcomeModel) {
        match self.screen {
            ScreenModel::Worktrees => self.after_list_key(code, ExploreMode::Worktrees),
            ScreenModel::Log { .. } | ScreenModel::Status { .. } => (
                self.after_detail_key(code),
                OutcomeModel::Continue,
            ),
            ScreenModel::ConfirmDelete { phase, .. } => (
                if reviews(code) {
                    AppModel { screen: self.screen.after_scroll(code, self.page_size), ..self }
                } else {
                    match phase {
                        ConfirmationPhase::Initial => self.after_confirmation(
                            code,
                            'y',
                            DeletionMode::Normal,
                        ),
                        ConfirmationPhase::Force => self.after_confirmation(
                            code,
                            'D',
                            DeletionMode::Force,
                        ),
                    }
                },
                OutcomeModel::Continue,
            ),
            _ => (self, OutcomeModel::Continue),
        }
    }

    /// The state and the outcome after a key.
    pub open spec fn after_key(self, key: KeyEvent) -> (AppModel, OutcomeModel) {
        if key.control && key.code == KeyCode::Char('c') {
            (self, OutcomeModel::Quit)
        } else {
            match self.mode {
                ExploreMode::Branches => self.after_branch_key(key.code),
                ExploreMode::Worktrees => self.after_worktree_mode_key(key.code),
            }
        }
    }
}

/// The key scrolls the changes that a question about a deletion shows.
pub open spec fn reviews(code: KeyCode) -> bool {
    match code {
        KeyCode::Up | KeyCode::Down | KeyCode::PageUp | KeyCode::PageDown => true,
        KeyCode::Char('j') | KeyCode::Char('k') => true,
        _ => false,
    }
}

impl App {
    /// Answers to a key on the list of worktrees.
    pub fn handle_worktree_key(&mut self, key: KeyEvent) -> (r: Outcome)
        ensures
            (final(self)@, r@) == old(self)@.after_list_key(key.code, ExploreMode::Worktrees),
    {
        self.message = None;
        match key.code {
            KeyCode::Char('q') => return Outcome::Quit,
            KeyCode::Up | KeyCode::Char('k') => self.selected = self.selected.saturating_sub(1),
            KeyCode::Down | KeyCode::Char('j') => {
                let count = self.row_count();
                if count > 0 && self.selected < count - 1 {
                    self.selected = self.selected + 1;
                }
            },
            KeyCode::PageUp => self.selected = self.selected.saturating_sub(self.page_size),
            KeyCode::PageDown => {
                self.selected = move_down(self.selected, self.page_size, self.row_count());
            },
            KeyCode::Char('h') if self.recursive => self.toggle_hide_without_linked(),
            KeyCode::Char('r') => return Outcome::Ask(Request::Refresh),
            KeyCode::Char('l') | KeyCode::Char('s') | KeyCode::Char('d') => {
                if let Some((repository_index, worktree)) = self.selected_worktree() {
                    return Outcome::Ask(match key.code {
                        KeyCode::Char('l') => Request::Log { repository_index, worktree },
                        KeyCode::Char('s') => Request::Status { repository_index, worktree },
                        _ => Request::Assessment { repository_index, worktree },
                    });
                }
                self.message = Some("select a worktree, not a repository".to_owned());
            },
            _ => {},
        }
        Outcome::Continue
    }

    fn handle_branch_list_key(&mut self, key: KeyEvent) -> (r: Outcome)
        ensures
            (final(self)@, r@) == old(self)@.after_list_key(key.code, ExploreMode::Branches),
    {
        self.message = None;
        match key.code {
            KeyCode::Char('q') => return Outcome::Quit,
            KeyCode::Up | KeyCode::Char('k') => self.selected = self.selected.saturating_sub(1),
            KeyCode::Down | KeyCode::Char('j') => {
                self.selected = move_down(self.selected, 1, self.row_count());
            },
            KeyCode::PageUp => self.selected = self.selected.saturating_sub(self.page_size),
            KeyCode::PageDown => {
                self.selected = move_down(self.selected, self.page_size, self.row_count());
            },
            KeyCode::Char('h') if self.recursive => self.toggle_hide_without_linked(),
            KeyCode::Char('r') => return Outcome::Ask(Request::Refresh),
            KeyCode::Char('l') | KeyCode::Char('s') | KeyCode::Char('d') => {
                if let Some((repository_index, branch)) = self.selected_branch() {
                    return Outcome::Ask(match key.code {
                        KeyCode::Char('l') => Request::BranchLog { repository_index, branch },
                        KeyCode::Char('s') => Request::BranchStatus { repository_index, branch },
                        _ => Request::BranchAssessment { repository_index, branch },
                    });
                }
                self.message = Some("select a branch, not a repository".to_owned());
            },
            _ => {},
        }
        Outcome::Continue
    }

    fn handle_detail_key(&mut self, key: KeyEvent)
        ensures
            final(self)@ == old(self)@.after_detail_key(key.code),
    {
        let page_size = self.page_size;
        match key.code {
            KeyCode::Esc | KeyCode::Char('q') => self.view = Screen::Worktrees,
            _ => self.view.scroll(key, page_size),
        }
    }

    /// Answers to a key, where branches are managed.
    pub fn handle_branch_key(&mut self, key: KeyEvent) -> (r: Outcome)
        ensures
            (final(self)@, r@) == old(self)@.after_branch_key(key.code),
    {
        match &self.view {
            Screen::Worktrees => return self.handle_branch_list_key(key),
            Screen::BranchLog { .. } | Screen::BranchStatus { .. } => self.handle_detail_key(key),
            Screen::ConfirmBranchDelete { repository_index, branch, phase, .. } => {
                let mode = match (*phase, key.code) {
                    (ConfirmationPhase::Initial, KeyCode::Char('y')) => Some(DeletionMode::Normal),
                    (ConfirmationPhase::Force, KeyCode::Char('D')) => Some(DeletionMode::Force),
                    _ => None,
                };
                self.view = match mode {
                    Some(mode) => Screen::DeletingBranch {
                        repository_index: *repository_index,
                        branch: branch.clone(),
                        mode,
                    },
                    None => Screen::Worktrees,
                };
            },
            _ => {},
        }
        Outcome::Continue
    }

    fn confirm(&mut self, key: KeyEvent, expected: char, mode: DeletionMode)
        ensures
            final(self)@ == old(self)@.after_confirmation(key.code, expected, mode),
    {
        if key.code != KeyCode::Char(expected) {
            self.view = Screen::Worktrees;
            return;
        }
        if let Screen::ConfirmDelete { repository_index, worktree, .. } = &self.view {
            self.view = Screen::Deleting {
                repository_index: *repository_index,
                worktree: worktree.clone(),
                mode,
            };
        }
    }

    /// Answers to a key on the first question about deleting a worktree.
    pub fn handle_initial_confirmation(&mut self, key: KeyEvent)
        ensures
            final(self)@ == old(self)@.after_confirmation(key.code, 'y', DeletionMode::Normal),
    {
        self.confirm(key, 'y', DeletionMode::Normal);
    }

    /// Answers to a key on the question about deleting a worktree by force.
    pub fn handle_force_confirmation(&mut self, key: KeyEvent)
        ensures
            final(self)@ == old(self)@.after_confirmation(key.code, 'D', DeletionMode::Force),
    {
        self.confirm(key, 'D', DeletionMode::Force);
    }

    /// Answers to a key.
    pub fn handle_key(&mut self, key: KeyEvent) -> (r: Outcome)
        ensures
            (final(self)@, r@) == old(self)@.after_key(key),
    {
        if key.control && key.code == KeyCode::Char('c') {
            return Outcome::Quit;
        }
        if let ExploreMode::Branches = self.mode {
            return self.handle_branch_key(key);
        }
        let page_size = self.page_size;
        match &self.view {
            Screen::Worktrees => return self.handle_worktree_key(key),
            Screen::Log { .. } | Screen::Status { .. } => self.handle_detail_key(key),
            Screen::ConfirmDelete { phase, .. } => match key.code {
                KeyCode::Up
                | KeyCode::Down
                | KeyCode::Char('j')
                | KeyCode::Char('k')
                | KeyCode::PageUp
                | KeyCode::PageDown => self.view.scroll(key, page_size),
                _ => match *phase {
                    ConfirmationPhase::Initial => self.handle_initial_confirmation(key),
                    ConfirmationPhase::Force => self.handle_force_confirmation(key),
                },
            },
            _ => {},
        }
        Outcome::Continue
    }
}

/// The message for an answer that is a failure.
pub open spec fn failed(app: AppModel, error: GitError) -> AppModel {
    AppModel { message: Some(error.text()), ..app }
}

impl AppModel {
    /// The state after an answer to what the explorer asked for. An answer to something else
    /// changes nothing.
    pub open spec fn after_answer(self, request: RequestModel, answer: Answer) -> AppModel {
        match (request, answer) {
            (RequestModel::Refresh, Answer::Listings(listings)) => (AppModel {
                message: None,
                ..self
            }).after_refresh(listings@),
            (RequestModel::RefreshKeepingMessage, Answer::Listings(listings)) => self.after_refresh(
                listings@,
            ),
            (RequestModel::Log { worktree, .. }, Answer::Log(result)) => match result {
                Ok(entries) => AppModel {
                    screen: ScreenModel::Log { worktree, entries: log_lines(entries@), offset: 0 },
                    ..self
                },
                Err(error) => failed(self, error),
            },
            (RequestModel::Status { worktree, .. }, Answer::Status(result)) => match result {
                Ok(status) => AppModel {
                    screen: ScreenModel::Status { worktree, status: status@, offset: 0 },
                    ..self
                },
                Err(error) => failed(self, error),
            },
            (
                RequestModel::Assessment { repository_index, worktree },
                Answer::Assessment(result),
            ) => match result {
                Ok(assessment) => AppModel {
                    screen: ScreenModel::ConfirmDelete {
                        repository_index,
                        worktree,
                        assessment: assessment@,
                        phase: ConfirmationPhase::Initial,
                        offset: 0,
                    },
                    ..self
                },
                Err(error) => failed(self, error),
            },
            (RequestModel::BranchLog { branch, .. }, Answer::Log(result)) => match result {
                Ok(entries) => AppModel {
                    screen: ScreenModel::BranchLog {
                        branch,
                        entries: log_lines(entries@),
                        offset: 0,
                    },
                    ..self
                },
                Err(error) => failed(self, error),
            },
            (RequestModel::BranchStatus { .. }, Answer::BranchStatus(result)) => match result {
                Ok(status) => AppModel {
                    screen: ScreenModel::BranchStatus { status: status@, offset: 0 },
                    ..self
                },
                Err(error) => failed(self, error),
            },
            (
                RequestModel::BranchAssessment { repository_index, branch },
                Answer::BranchAssessment(result),
            ) => match result {
                Ok(assessment) => if assessment@.checked_out_paths.len() == 0 {
                    AppModel {
                        screen: ScreenModel::ConfirmBranchDelete {
                            repository_index,
                            branch,
                            assessment: assessment@,
                            phase: ConfirmationPhase::Initial,
                        },
                        ..self
                    }
                } else {
                    AppModel {
                        message: Some(
                            "branch is checked out in "@ + joined(
                                path_texts(assessment@.checked_out_paths),
                                ", "@,
                            ),
                        ),
                        ..self
                    }
                },
                Err(error) => failed(self, error),
            },
            _ => self,
        }
    }

    /// The state and the outcome after a worktree was to be deleted.
    pub open spec fn after_deletion(self, result: Result<DeleteResult, GitError>) -> (
        AppModel,
        OutcomeModel,
    ) {
        match (self.screen, result) {
            (ScreenModel::Deleting { .. }, Ok(DeleteResult::Deleted)) => (
                AppModel { message: None, screen: ScreenModel::Worktrees, ..self },
                OutcomeModel::Ask(RequestModel::Refresh),
            ),
            (
                ScreenModel::Deleting { repository_index, worktree, mode: DeletionMode::Normal },
                Ok(DeleteResult::NeedsForce(assessment)),
            ) => (
                AppModel {
                    screen: ScreenModel::ConfirmDelete {
                        repository_index,
                        worktree,
                        assessment: assessment@,
                        phase: ConfirmationPhase::Force,
                        offset: 0,
                    },
                    ..self
                },
                OutcomeModel::Continue,
            ),
            (
                ScreenModel::Deleting { mode: DeletionMode::Force, .. },
                Ok(DeleteResult::NeedsForce(_)),
            ) => (
                AppModel {
                    message: Some("worktree state changed; deletion was not performed"@),
                    screen: ScreenModel::Worktrees,
                    ..self
                },
                OutcomeModel::Continue,
            ),
            (ScreenModel::Deleting { .. }, Err(error)) => (
                AppModel { screen: ScreenModel::Worktrees, ..failed(self, error) },
                OutcomeModel::Ask(RequestModel::RefreshKeepingMessage),
            ),
            _ => (self, OutcomeModel::Continue),
        }
    }

    /// The state and the outcome after a branch was to be deleted.
    pub open spec fn after_branch_deletion(self, result: Result<BranchDeleteResult, GitError>) -> (
        AppModel,
        OutcomeModel,
    ) {
        match (self.screen, result) {
            (ScreenModel::DeletingBranch { .. }, Ok(BranchDeleteResult::Deleted)) => (
                AppModel { message: None, screen: ScreenModel::Worktrees, ..self },
                OutcomeModel::Ask(RequestModel::Refresh),
            ),
            (
                ScreenModel::DeletingBranch { repository_index, branch, mode: DeletionMode::Normal },
                Ok(BranchDeleteResult::NeedsForce(assessment)),
            ) => (
                AppModel {
                    screen: ScreenModel::ConfirmBranchDelete {
                        repository_index,
                        branch,
                        assessment: assessment@,
                        phase: ConfirmationPhase::Force,
                    },
                    ..self
                },
                OutcomeModel::Continue,
            ),
            (
                ScreenModel::DeletingBranch { mode: DeletionMode::Force, .. },
                Ok(BranchDeleteResult::NeedsForce(_)),
            ) => (
                AppModel {
                    message: Some("branch state changed; deletion was not performed"@),
                    screen: ScreenModel::Worktrees,
                    ..self
                },
                OutcomeModel::Continue,
            ),
            (ScreenModel::DeletingBranch { .. }, Err(error)) => (
                AppModel { screen: ScreenModel::Worktrees, ..failed(self, error) },
                OutcomeModel::Ask(RequestModel::RefreshKeepingMessage),
            ),
            _ => (self, OutcomeModel::Continue),
        }
    }
}

impl App {
    fn show_log(&mut self, worktree: WorktreeInfo, result: Result<Vec<LogEntry>, GitError>)
        ensures
            final(self)@ == match result {
                Ok(entries) => AppModel {
                    screen: ScreenModel::Log {
                        worktree: worktree@,
                        entries: log_lines(entries@),
                        offset: 0,
                    },
                    ..old(self)@
                },
                Err(error) => failed(old(self)@, error),
            },
    {
        match result {
            Ok(entries) => self.view = Screen::Log { worktree, entries, offset: 0 },
            Err(error) => self.message = Some(error.message()),
        }
    }

    fn ask_about_branch(
        &mut self,
        repository_index: usize,
        branch: BranchInfo,
        assessment: BranchDeletionAssessment,
    )
        ensures
            final(self)@ == old(self)@.after_answer(
                RequestModel::BranchAssessment {
                    repository_index: repository_index as nat,
                    branch: branch@,
                },
                Answer::BranchAssessment(Ok(assessment)),
            ),
    {
        assert(assessment@.checked_out_paths.len() == assessment.checked_out_paths.len());
        if assessment.checked_out_paths.is_empty() {
            self.view = Screen::ConfirmBranchDelete {
                repository_index,
                branch,
                assessment,
                phase: ConfirmationPhase::Initial,
            };
        } else {
            let places = join_paths(&assessment.checked_out_paths, ", ");
            self.message = Some(concat("branch is checked out in ", &places));
        }
    }

    /// Takes in the answer to what was asked for.
    pub fn answer(&mut self, request: Request, answer: Answer)
        ensures
            final(self)@ == old(self)@.after_answer(request@, answer),
    {
        match (request, answer) {
            (Request::Refresh, Answer::Listings(listings)) => self.refresh(listings),
            (Request::RefreshKeepingMessage, Answer::Listings(listings)) => {
                self.refresh_preserving_message(listings);
            },
            (Request::Log { worktree, .. }, Answer::Log(result)) => {
                self.show_log(worktree, result);
            },
            (Request::Status { worktree, .. }, Answer::Status(result)) => match result {
                Ok(status) => self.view = Screen::Status { worktree, status, offset: 0 },
                Err(error) => self.message = Some(error.message()),
            },
            (Request::Assessment { repository_index, worktree }, Answer::Assessment(result)) => {
                match result {
                    Ok(assessment) => {
                        self.view = Screen::ConfirmDelete {
                            repository_index,
                            worktree,
                            assessment,
                            phase: ConfirmationPhase::Initial,
                            offset: 0,
                        };
                    },
                    Err(error) => self.message = Some(error.message()),
                }
            },
            (Request::BranchLog { branch, .. }, Answer::Log(result)) => match result {
                Ok(entries) => self.view = Screen::BranchLog { branch, entries, offset: 0 },
                Err(error) => self.message = Some(error.message()),
            },
            (Request::BranchStatus { .. }, Answer::BranchStatus(result)) => match result {
                Ok(status) => self.view = Screen::BranchStatus { status, offset: 0 },
                Err(error) => self.message = Some(error.message()),
            },
            (
                Request::BranchAssessment { repository_index, branch },
                Answer::BranchAssessment(result),
            ) => match result {
                Ok(assessment) => self.ask_about_branch(repository_index, branch, assessment),
                Err(error) => self.message = Some(error.message()),
            },
            _ => {},
        }
    }

    /// The worktree that is to be deleted now: the place of its repository, its key, and
    /// whether force was confirmed.
    pub fn pending_deletion(&self) -> (r: Option<(usize, WorktreeKey, bool)>)
        ensures
            match (self@.screen, r) {
                (
                    ScreenModel::Deleting { repository_index, worktree, mode },
                    Some((i, key, force)),
                ) => i == repository_index && key@ == worktree.key && force == (mode is Force),
                (ScreenModel::Deleting { .. }, None) => false,
                (_, Some(_)) => false,
                (_, None) => true,
            },
    {
        match &self.view {
            Screen::Deleting { repository_index, worktree, mode } => {
                Some((*repository_index, worktree.key.clone(), mode.force()))
            },
            _ => None,
        }
    }

    /// Takes in what came of deleting the pending worktree.
    pub fn process_pending_deletion(&mut self, result: Result<DeleteResult, GitError>) -> (r:
        Outcome)
        ensures
            (final(self)@, r@) == old(self)@.after_deletion(result),
    {
        let (repository_index, worktree, mode) = match &self.view {
            Screen::Deleting { repository_index, worktree, mode } => {
                (*repository_index, worktree.clone(), *mode)
            },
            _ => return Outcome::Continue,
        };
        match result {
            Ok(DeleteResult::Deleted) => {
                self.message = None;
                self.view = Screen::Worktrees;
                Outcome::Ask(Request::Refresh)
            },
            Ok(DeleteResult::NeedsForce(assessment)) => {
                match mode {
                    DeletionMode::Normal => {
                        self.view = Screen::ConfirmDelete {
                            repository_index,
                            worktree,
                            assessment,
                            phase: ConfirmationPhase::Force,
                            offset: 0,
                        };
                    },
                    DeletionMode::Force => {
                        self.message = Some(
                            "worktree state changed; deletion was not performed".to_owned(),
                        );
                        self.view = Screen::Worktrees;
                    },
                }
                Outcome::Continue
            },
            Err(error) => {
                self.message = Some(error.message());
                self.view = Screen::Worktrees;
                Outcome::Ask(Request::RefreshKeepingMessage)
            },
        }
    }

    /// The branch that is to be deleted now: the place of its repository, its name, and
    /// whether force was confirmed.
    pub fn pending_branch_deletion(&self) -> (r: Option<(usize, String, bool)>)
        ensures
            match (self@.screen, r) {
                (
                    ScreenModel::DeletingBranch { repository_index, branch, mode },
                    Some((i, name, force)),
                ) => i == repository_index && name@ == branch.name && force == (mode is Force),
                (ScreenModel::DeletingBranch { .. }, None) => false,
                (_, Some(_)) => false,
                (_, None) => true,
            },
    {
        match &self.view {
            Screen::DeletingBranch { repository_index, branch, mode } => {
                Some((*repository_index, branch.name.clone(), mode.force()))
            },
            _ => None,
        }
    }

    /// Takes in what came of deleting the pending branch.
    pub fn process_pending_branch_deletion(
        &mut self,
        result: Result<BranchDeleteResult, GitError>,
    ) -> (r: Outcome)
        ensures
            (final(self)@, r@) == old(self)@.after_branch_deletion(result),
    {
        let (repository_index, branch, mode) = match &self.view {
            Screen::DeletingBranch { repository_index, branch, mode } => {
                (*repository_index, branch.clone(), *mode)
            },
            _ => return Outcome::Continue,
        };
        match result {
            Ok(BranchDeleteResult::Deleted) => {
                self.message = None;
                self.view = Screen::Worktrees;
                Outcome::Ask(Request::Refresh)
            },
            Ok(BranchDeleteResult::NeedsForce(assessment)) => {
                match mode {
                    DeletionMode::Normal => {
                        self.view = Screen::ConfirmBranchDelete {
                            repository_index,
                            branch,
                            assessment,
                            phase: ConfirmationPhase::Force,
                        };
                    },
                    DeletionMode::Force => {
                        self.message = Some(
                            "branch state changed; deletion was not performed".to_owned(),
                        );
                        self.view = Screen::Worktrees;
                    },
                }
                Outcome::Continue
            },
            Err(error) => {
                self.message = Some(error.message());
                self.view = Screen::Worktrees;
                Outcome::Ask(Request::RefreshKeepingMessage)
            },
        }
    }
}

/// Everything that can happen to the explorer.
pub enum Event {
    Key(KeyEvent),
    Answer(RequestModel, Answer),
    Deleted(Result<DeleteResult, GitError>),
    BranchDeleted(Result<BranchDeleteResult, GitError>),
}

impl AppModel {
    /// The state after something has happened.
    pub open spec fn after(self, event: Event) -> AppModel {
        match event {
            Event::Key(key) => self.after_key(key).0,
            Event::Answer(request, answer) => self.after_answer(request, answer),
            Event::Deleted(result) => self.after_deletion(result).0,
            Event::BranchDeleted(result) => self.after_branch_deletion(result).0,
        }
    }

    /// A deletion of this worktree has been asked about in a phase.
    pub open spec fn asks_about(
        self,
        repository_index: nat,
        worktree: WorktreeModel,
        phase: ConfirmationPhase,
    ) -> bool {
        self.screen matches ScreenModel::ConfirmDelete {
            repository_index: shown_index,
            worktree: shown_worktree,
            phase: shown_phase,
            ..
        } && shown_index == repository_index && shown_worktree == worktree && shown_phase == phase
    }

    /// A deletion of this branch has been asked about in a phase.
    pub open spec fn asks_about_branch(
        self,
        repository_index: nat,
        branch: BranchModel,
        phase: ConfirmationPhase,
    ) -> bool {
        self.screen matches ScreenModel::ConfirmBranchDelete {
            repository_index: shown_index,
            branch: shown_branch,
            phase: shown_phase,
            ..
        } && shown_index == repository_index && shown_branch == branch && shown_phase == phase
    }
}

/// The key that confirms in a phase.
pub open spec fn confirming_key(phase: ConfirmationPhase) -> KeyCode {
    match phase {
        ConfirmationPhase::Initial => KeyCode::Char('y'),
        ConfirmationPhase::Force => KeyCode::Char('D'),
    }
}

/// The phase of the question that a way of deleting answers.
pub open spec fn phase_of(mode: DeletionMode) -> ConfirmationPhase {
    match mode {
        DeletionMode::Normal => ConfirmationPhase::Initial,
        DeletionMode::Force => ConfirmationPhase::Force,
    }
}

/// Deleting a worktree starts only when the user was asked about that worktree and pressed the
/// key of the question: `y`, or uppercase `D` where force was asked about.
pub proof fn deletion_requires_confirmation(app: AppModel, event: Event)
    requires
        app.screen !is Deleting,
    ensures
        app.after(event).screen matches ScreenModel::Deleting { repository_index, worktree, mode }
            ==> {
            &&& app.asks_about(repository_index, worktree, phase_of(mode))
            &&& event matches Event::Key(key)
            &&& key.code == confirming_key(phase_of(mode))
        },
{
}

/// Deleting a branch starts only when the user was asked about that branch and pressed the key
/// of the question.
pub proof fn branch_deletion_requires_confirmation(app: AppModel, event: Event)
    requires
        app.screen !is DeletingBranch,
    ensures
        app.after(event).screen matches ScreenModel::DeletingBranch {
            repository_index,
            branch,
            mode,
        } ==> {
            &&& app.asks_about_branch(repository_index, branch, phase_of(mode))
            &&& event matches Event::Key(key)
            &&& key.code == confirming_key(phase_of(mode))
        },
{
}

/// Force is asked about only after a deletion without it was confirmed and found to take it,
/// and then with what was found.
pub proof fn force_is_a_second_question(
    app: AppModel,
    event: Event,
    repository_index: nat,
    worktree: WorktreeModel,
)
    requires
        !app.asks_about(repository_index, worktree, ConfirmationPhase::Force),
        app.after(event).asks_about(repository_index, worktree, ConfirmationPhase::Force),
    ensures
        app.screen == (ScreenModel::Deleting {
            repository_index,
            worktree,
            mode: DeletionMode::Normal,
        }),
        event matches Event::Deleted(Ok(DeleteResult::NeedsForce(assessment)))
            && app.after(event).screen == (ScreenModel::ConfirmDelete {
            repository_index,
            worktree,
            assessment: assessment@,
            phase: ConfirmationPhase::Force,
            offset: 0,
        }),
{
}

/// Force is asked about a branch only after a deletion without it was confirmed and found to
/// take it.
pub proof fn branch_force_is_a_second_question(
    app: AppModel,
    event: Event,
    repository_index: nat,
    branch: BranchModel,
)
    requires
        !app.asks_about_branch(repository_index, branch, ConfirmationPhase::Force),
        app.after(event).asks_about_branch(repository_index, branch, ConfirmationPhase::Force),
    ensures
        app.screen == (ScreenModel::DeletingBranch {
            repository_index,
            branch,
            mode: DeletionMode::Normal,
        }),
        event matches Event::BranchDeleted(Ok(BranchDeleteResult::NeedsForce(_))),
{
}

/// The states that the explorer goes through from its list on, as things happen.
pub open spec fn is_session(states: Seq<AppModel>, events: Seq<Event>) -> bool {
    &&& states.len() == events.len() + 1
    &&& states[0].screen is Worktrees
    &&& forall|i: int|
        0 <= i < events.len() ==> states[i + 1] == states[i].after(#[trigger] events[i])
}

/// At step `i` the user was asked about deleting the worktree and pressed the key of the
/// question.
pub open spec fn confirms(
    states: Seq<AppModel>,
    events: Seq<Event>,
    i: int,
    repository_index: nat,
    worktree: WorktreeModel,
    phase: ConfirmationPhase,
) -> bool {
    &&& 0 <= i < events.len()
    &&& states[i].asks_about(repository_index, worktree, phase)
    &&& events[i] matches Event::Key(key)
    &&& key.code == confirming_key(phase)
}

/// Before step `n` the user confirmed deleting the worktree.
pub open spec fn was_confirmed(
    states: Seq<AppModel>,
    events: Seq<Event>,
    n: int,
    repository_index: nat,
    worktree: WorktreeModel,
) -> bool {
    exists|i: int|
        i < n && #[trigger] confirms(
            states,
            events,
            i,
            repository_index,
            worktree,
            ConfirmationPhase::Initial,
        )
}

/// Before step `n` the user confirmed deleting the worktree, and later confirmed it by force.
pub open spec fn was_confirmed_twice(
    states: Seq<AppModel>,
    events: Seq<Event>,
    n: int,
    repository_index: nat,
    worktree: WorktreeModel,
) -> bool {
    exists|j: int|
        j < n && #[trigger] confirms(
            states,
            events,
            j,
            repository_index,
            worktree,
            ConfirmationPhase::Force,
        ) && was_confirmed(states, events, j, repository_index, worktree)
}

/// Whatever happens, a worktree is being deleted only after the user confirmed that, and by
/// force only after the user confirmed it twice: with `y`, and with uppercase `D` when the
/// first deletion was found to take force.
pub proof fn force_takes_two_confirmations(
    states: Seq<AppModel>,
    events: Seq<Event>,
    n: int,
    repository_index: nat,
    worktree: WorktreeModel,
)
    requires
        is_session(states, events),
        0 <= n < states.len(),
    ensures
        states[n].screen == (ScreenModel::Deleting {
            repository_index,
            worktree,
            mode: DeletionMode::Normal,
        }) ==> was_confirmed(states, events, n, repository_index, worktree),
        states[n].asks_about(repository_index, worktree, ConfirmationPhase::Force)
            ==> was_confirmed(states, events, n, repository_index, worktree),
        states[n].screen == (ScreenModel::Deleting {
            repository_index,
            worktree,
            mode: DeletionMode::Force,
        }) ==> was_confirmed_twice(states, events, n, repository_index, worktree),
    decreases n,
{
    if n > 0 {
        let before = states[n - 1];
        let event = events[n - 1];
        let after = states[n];
        force_takes_two_confirmations(states, events, n - 1, repository_index, worktree);
        assert(after == before.after(event));
        if was_confirmed(states, events, n - 1, repository_index, worktree) {
            assert(was_confirmed(states, events, n, repository_index, worktree));
        }
        if was_confirmed_twice(states, events, n - 1, repository_index, worktree) {
            assert(was_confirmed_twice(states, events, n, repository_index, worktree));
        }
        if before.screen !is Deleting {
            deletion_requires_confirmation(before, event);
            if let ScreenModel::Deleting { mode, .. } = after.screen {
                assert(states[n - 1] == before && events[n - 1] == event);
                if mode is Normal && after.screen == (ScreenModel::Deleting {
                    repository_index,
                    worktree,
                    mode,
                }) {
                    assert(confirms(
                        states,
                        events,
                        n - 1,
                        repository_index,
                        worktree,
                        ConfirmationPhase::Initial,
                    ));
                }
                if mode is Force && after.screen == (ScreenModel::Deleting {
                    repository_index,
                    worktree,
                    mode,
                }) {
                    assert(confirms(
                        states,
                        events,
                        n - 1,
                        repository_index,
                        worktree,
                        ConfirmationPhase::Force,
                    ));
                    assert(was_confirmed(states, events, n - 1, repository_index, worktree));
                }
            }
        }
        if after.asks_about(repository_index, worktree, ConfirmationPhase::Force)
            && !before.asks_about(repository_index, worktree, ConfirmationPhase::Force) {
            force_is_a_second_question(before, event, repository_index, worktree);
        }
    }
}

/// At step `i` the user was asked about deleting the branch and pressed the key of the
/// question.
pub open spec fn branch_confirms(
    states: Seq<AppModel>,
    events: Seq<Event>,
    i: int,
    repository_index: nat,
    branch: BranchModel,
    phase: ConfirmationPhase,
) -> bool {
    &&& 0 <= i < events.len()
    &&& states[i].asks_about_branch(repository_index, branch, phase)
    &&& events[i] matches Event::Key(key)
    &&& key.code == confirming_key(phase)
}

/// Before step `n` the user confirmed deleting the branch.
pub open spec fn branch_was_confirmed(
    states: Seq<AppModel>,
    events: Seq<Event>,
    n: int,
    repository_index: nat,
    branch: BranchModel,
) -> bool {
    exists|i: int|
        i < n && #[trigger] branch_confirms(
            states,
            events,
            i,
            repository_index,
            branch,
            ConfirmationPhase::Initial,
        )
}

/// Before step `n` the user confirmed deleting the branch, and later confirmed it by force.
pub open spec fn branch_was_confirmed_twice(
    states: Seq<AppModel>,
    events: Seq<Event>,
    n: int,
    repository_index: nat,
    branch: BranchModel,
) -> bool {
    exists|j: int|
        j < n && #[trigger] branch_confirms(
            states,
            events,
            j,
            repository_index,
            branch,
            ConfirmationPhase::Force,
        ) && branch_was_confirmed(states, events, j, repository_index, branch)
}

/// Whatever happens, a branch is being deleted only after the user confirmed that, and by
/// force only after the user confirmed it twice: with `y`, and with uppercase `D` when the
/// first deletion was found to take force.
pub proof fn branch_force_takes_two_confirmations(
    states: Seq<AppModel>,
    events: Seq<Event>,
    n: int,
    repository_index: nat,
    branch: BranchModel,
)
    requires
        is_session(states, events),
        0 <= n < states.len(),
    ensures
        states[n].screen == (ScreenModel::DeletingBranch {
            repository_index,
            branch,
            mode: DeletionMode::Normal,
        }) ==> branch_was_confirmed(states, events, n, repository_index, branch),
        states[n].asks_about_branch(repository_index, branch, ConfirmationPhase::Force)
            ==> branch_was_confirmed(states, events, n, repository_index, branch),
        states[n].screen == (ScreenModel::DeletingBranch {
            repository_index,
            branch,
            mode: DeletionMode::Force,
        }) ==> branch_was_confirmed_twice(states, events, n, repository_index, branch),
    decreases n,
{
    if n > 0 {
        let before = states[n - 1];
        let event = events[n - 1];
        let after = states[n];
        branch_force_takes_two_confirmations(states, events, n - 1, repository_index, branch);
        assert(after == before.after(event));
        if branch_was_confirmed(states, events, n - 1, repository_index, branch) {
            assert(branch_was_confirmed(states, events, n, repository_index, branch));
        }
        if branch_was_confirmed_twice(states, events, n - 1, repository_index, branch) {
            assert(branch_was_confirmed_twice(states, events, n, repository_index, branch));
        }
        if before.screen !is DeletingBranch {
            branch_deletion_requires_confirmation(before, event);
            if let ScreenModel::DeletingBranch { mode, .. } = after.screen {
                assert(states[n - 1] == before && events[n - 1] == event);
                if mode is Normal && after.screen == (ScreenModel::DeletingBranch {
                    repository_index,
                    branch,
                    mode,
                }) {
                    assert(branch_confirms(
                        states,
                        events,
                        n - 1,
                        repository_index,
                        branch,
                        ConfirmationPhase::Initial,
                    ));
                }
                if mode is Force && after.screen == (ScreenModel::DeletingBranch {
                    repository_index,
                    branch,
                    mode,
                }) {
                    assert(branch_confirms(
                        states,
                        events,
                        n - 1,
                        repository_index,
                        branch,
                        ConfirmationPhase::Force,
                    ));
                    assert(branch_was_confirmed(states, events, n - 1, repository_index, branch));
                }
            }
        }
        if after.asks_about_branch(repository_index, branch, ConfirmationPhase::Force)
            && !before.asks_about_branch(repository_index, branch, ConfirmationPhase::Force) {
            branch_force_is_a_second_question(before, event, repository_index, branch);
        }
    }
}

/// A branch that is checked out is never asked about: the answer that says so leads to a
/// message and leaves the screen.
pub proof fn checked_out_branches_are_not_asked_about(
    app: AppModel,
    request: RequestModel,
    assessment: BranchDeletionAssessment,
)
    requires
        assessment@.checked_out_paths.len() > 0,
    ensures
        app.after_answer(request, Answer::BranchAssessment(Ok(assessment))).screen == app.screen,
{
}

/// The explorer is left only by control and `c`, or by `q` on the list.
pub proof fn only_two_keys_quit(app: AppModel, key: KeyEvent)
    ensures
        app.after_key(key).1 is Quit <==> (key.control && key.code == KeyCode::Char('c')) || (
        app.screen is Worktrees && key.code == KeyCode::Char('q')),
{
}

/// `Esc` and `q` lead from any screen but a running deletion back to the list.
pub proof fn escape_leads_to_the_list(app: AppModel, key: KeyEvent)
    requires
        key.code == KeyCode::Esc || key.code == KeyCode::Char('q'),
        match app.mode {
            ExploreMode::Worktrees => app.screen is Log || app.screen is Status
                || app.screen is ConfirmDelete,
            ExploreMode::Branches => app.screen is BranchLog || app.screen is BranchStatus
                || app.screen is ConfirmBranchDelete,
        },
    ensures
        app.after_key(key).0.screen is Worktrees,
        app.after_key(key).1 is Continue,
{
}

/// While a deletion is under way no key but control and `c` does anything.
pub proof fn deletion_ignores_keys(app: AppModel, key: KeyEvent)
    requires
        app.screen is Deleting || app.screen is DeletingBranch,
        !(key.control && key.code == KeyCode::Char('c')),
    ensures
        app.after_key(key) == (app, OutcomeModel::Continue),
{
}

/// What the explorer asks for is about a repository that is there.
pub proof fn requests_are_in_range(app: AppModel, key: KeyEvent)
    ensures
        app.after_key(key).1 matches OutcomeModel::Ask(request) ==> (
        request.repository() matches Some(i) ==> i < app.groups.len()),
{
    let cleared = AppModel { message: None, ..app };
    let rows_of_worktrees = cleared.tree().rows_with(ExploreMode::Worktrees);
    let rows_of_branches = cleared.tree().rows_with(ExploreMode::Branches);
    let n = app.groups.len() as int;
    if app.selected < rows_of_worktrees.len() {
        rows_are_of_shown_groups(
            cleared.tree(),
            ExploreMode::Worktrees,
            n,
            app.selected as int,
        );
    }
    if app.selected < rows_of_branches.len() {
        rows_are_of_shown_groups(cleared.tree(), ExploreMode::Branches, n, app.selected as int);
    }
}

/// A deletion stays about a repository that is there, whatever happens; answers are to
/// requests about such a repository.
pub proof fn deletions_stay_in_range(app: AppModel, event: Event)
    requires
        app.wf(),
        event matches Event::Answer(request, _) ==> (request.repository() matches Some(i) ==> i
            < app.groups.len()),
    ensures
        app.after(event).wf(),
        app.after(event).groups.len() == app.groups.len(),
{
}

/// A key leaves the groups as they are, and moves the selection only from row to row.
pub proof fn keys_keep_the_selection_on_a_row(app: AppModel, key: KeyEvent)
    requires
        app.is_on_a_row(),
    ensures
        app.after_key(key).0.groups == app.groups,
        app.after_key(key).0.is_on_a_row(),
{
    let cleared = AppModel { message: None, ..app };
    selection_returns_to_a_row(cleared, Seq::empty());
    assert(cleared.tree() == app.tree());
}

/// Two states differ in nothing but the selection, the screen and the message.
pub open spec fn is_same_beneath(app: AppModel, other: AppModel) -> bool {
    &&& app.groups == other.groups
    &&& app.recursive == other.recursive
    &&& app.hide_without_linked == other.hide_without_linked
    &&& app.page_size == other.page_size
    &&& app.mode == other.mode
}

/// On the list a key clears the message, and the arrow keys, the page keys, `j` and `k` move the
/// selection by a row or a page, as far as there are rows.
pub proof fn list_keys_move_the_selection(app: AppModel, key: KeyEvent)
    requires
        app.screen is Worktrees,
        app.tree().rows().len() <= usize::MAX,
        key.code == KeyCode::Up || key.code == KeyCode::Down || key.code == KeyCode::PageUp
            || key.code == KeyCode::PageDown || key.code == KeyCode::Char('j') || key.code
            == KeyCode::Char('k'),
    ensures
        ({
            let rows = app.tree().rows().len();
            let (after, outcome) = app.after_key(key);
            &&& outcome is Continue
            &&& is_same_beneath(after, app)
            &&& after.screen is Worktrees
            &&& after.message is None
            &&& key.code == KeyCode::Up || key.code == KeyCode::Char('k') ==> if app.selected == 0 {
                after.selected == 0
            } else {
                after.selected + 1 == app.selected
            }
            &&& key.code == KeyCode::PageUp ==> if app.selected < app.page_size {
                after.selected == 0
            } else {
                after.selected + app.page_size == app.selected
            }
            &&& key.code == KeyCode::Down || key.code == KeyCode::Char('j') ==> {
                &&& app.selected + 1 < rows ==> after.selected == app.selected + 1
                &&& app.selected + 1 == rows ==> after.selected == app.selected
                &&& app.selected >= rows && app.mode is Worktrees ==> after.selected == app.selected
                &&& app.selected >= rows && app.mode is Branches && rows > 0 ==> after.selected + 1
                    == rows
                &&& app.selected >= rows && app.mode is Branches && rows == 0 ==> after.selected
                    == 0
            }
            &&& key.code == KeyCode::PageDown ==> {
                &&& app.selected + app.page_size < rows ==> after.selected == app.selected
                    + app.page_size
                &&& app.selected + app.page_size >= rows && rows > 0 ==> after.selected + 1 == rows
                &&& rows == 0 ==> after.selected == 0
            }
        }),
{
    let cleared = AppModel { message: None, ..app };
    assert(cleared.tree() == app.tree());
}

/// On the list `l`, `s` and `d` ask for the log, the status and what deleting it takes of the
/// item in the selected row, and of no other; where that is no item, the explorer says so.
pub proof fn list_questions_are_about_the_selected_item(app: AppModel, key: KeyEvent)
    requires
        app.screen is Worktrees,
        key.code == KeyCode::Char('l') || key.code == KeyCode::Char('s') || key.code
            == KeyCode::Char('d'),
    ensures
        ({
            let rows = app.tree().rows();
            let (after, outcome) = app.after_key(key);
            &&& is_same_beneath(after, app)
            &&& after.selected == app.selected
            &&& after.screen is Worktrees
            &&& !(app.selected < rows.len() && rows[app.selected as int] is Item) ==> {
                &&& outcome is Continue
                &&& app.mode is Worktrees ==> after.message == Some(
                    "select a worktree, not a repository"@,
                )
                &&& app.mode is Branches ==> after.message == Some(
                    "select a branch, not a repository"@,
                )
            }
            &&& app.selected < rows.len() ==> (rows[app.selected as int] matches Row::Item(i, j)
                ==> {
                let worktree = app.groups[i].worktrees[j];
                let branch = app.groups[i].branches[j];
                let repository_index = i as nat;
                &&& after.message is None
                &&& outcome is Ask
                &&& app.mode is Worktrees ==> outcome->Ask_0 == match key.code {
                    KeyCode::Char('l') => RequestModel::Log { repository_index, worktree },
                    KeyCode::Char('s') => RequestModel::Status { repository_index, worktree },
                    _ => RequestModel::Assessment { repository_index, worktree },
                }
                &&& app.mode is Branches ==> outcome->Ask_0 == match key.code {
                    KeyCode::Char('l') => RequestModel::BranchLog { repository_index, branch },
                    KeyCode::Char('s') => RequestModel::BranchStatus { repository_index, branch },
                    _ => RequestModel::BranchAssessment { repository_index, branch },
                }
            })
        }),
{
    let cleared = AppModel { message: None, ..app };
    assert(cleared.tree() == app.tree());
}

/// On the list `r` asks for a refresh, `q` leaves, `h` hides or shows groups where more than one
/// repository was looked for, and every other key does no more than clear the message.
pub proof fn other_list_keys(app: AppModel, key: KeyEvent)
    requires
        app.screen is Worktrees,
        !(key.control && key.code == KeyCode::Char('c')),
    ensures
        ({
            let (after, outcome) = app.after_key(key);
            let cleared = AppModel { message: None, ..app };
            &&& key.code == KeyCode::Char('r') ==> after == cleared && outcome == OutcomeModel::Ask(
                RequestModel::Refresh,
            )
            &&& key.code == KeyCode::Char('q') ==> after == cleared && outcome is Quit
            &&& key.code == KeyCode::Char('h') && app.recursive ==> after == cleared.after_toggle()
                && outcome is Continue
            &&& key.code == KeyCode::Char('h') && !app.recursive ==> after == cleared
                && outcome is Continue
            &&& key.code == KeyCode::Home || key.code == KeyCode::End || key.code == KeyCode::Esc
                || key.code == KeyCode::Other ==> after == cleared && outcome is Continue
            &&& key.code matches KeyCode::Char(c) ==> (c != 'q' && c != 'k' && c != 'j' && c != 'h'
                && c != 'r' && c != 'l' && c != 's' && c != 'd' ==> after == cleared
                && outcome is Continue)
        }),
{
}

/// Control and `c` leave the explorer from anywhere, with nothing changed.
pub proof fn control_c_leaves(app: AppModel, key: KeyEvent)
    requires
        key.control,
        key.code == KeyCode::Char('c'),
    ensures
        app.after_key(key) == (app, OutcomeModel::Quit),
{
}

/// On a log or a status `Esc` and `q` lead back to the list, and every other key scrolls.
pub proof fn detail_keys_scroll_or_lead_back(app: AppModel, key: KeyEvent)
    requires
        !(key.control && key.code == KeyCode::Char('c')),
        app.mode is Worktrees ==> app.screen is Log || app.screen is Status,
        app.mode is Branches ==> app.screen is BranchLog || app.screen is BranchStatus,
    ensures
        ({
            let (after, outcome) = app.after_key(key);
            &&& outcome is Continue
            &&& is_same_beneath(after, app)
            &&& after.selected == app.selected
            &&& after.message == app.message
            &&& key.code == KeyCode::Esc || key.code == KeyCode::Char('q')
                ==> after.screen is Worktrees
            &&& key.code != KeyCode::Esc && key.code != KeyCode::Char('q') ==> after.screen
                == app.screen.after_scroll(key.code, app.page_size)
        }),
{
}

/// The question about deleting a worktree is confirmed by `y`, and the one about force by
/// uppercase `D`; that starts deleting this very worktree in the way that was asked about. The
/// arrow keys, the page keys, `j` and `k` scroll, and every other key leads back to the list.
pub proof fn questions_are_confirmed_by_their_key(app: AppModel, key: KeyEvent)
    requires
        app.mode is Worktrees,
        !(key.control && key.code == KeyCode::Char('c')),
        app.screen is ConfirmDelete,
    ensures
        ({
            let (after, outcome) = app.after_key(key);
            let scrolls = key.code == KeyCode::Up || key.code == KeyCode::Down || key.code
                == KeyCode::PageUp || key.code == KeyCode::PageDown || key.code == KeyCode::Char(
                'j',
            ) || key.code == KeyCode::Char('k');
            &&& outcome is Continue
            &&& is_same_beneath(after, app)
            &&& after.selected == app.selected
            &&& after.message == app.message
            &&& scrolls ==> after.screen == app.screen.after_scroll(key.code, app.page_size)
            &&& app.screen matches ScreenModel::ConfirmDelete {
                repository_index,
                worktree,
                phase,
                ..
            } ==> {
                let confirmed = match phase {
                    ConfirmationPhase::Initial => key.code == KeyCode::Char('y'),
                    ConfirmationPhase::Force => key.code == KeyCode::Char('D'),
                };
                &&& confirmed && phase is Initial ==> after.screen == (ScreenModel::Deleting {
                    repository_index,
                    worktree,
                    mode: DeletionMode::Normal,
                })
                &&& confirmed && phase is Force ==> after.screen == (ScreenModel::Deleting {
                    repository_index,
                    worktree,
                    mode: DeletionMode::Force,
                })
                &&& !confirmed && !scrolls ==> after.screen is Worktrees
            }
        }),
{
}

/// The question about deleting a branch is confirmed by `y`, and the one about force by
/// uppercase `D`; that starts deleting this very branch in the way that was asked about. Every
/// other key leads back to the list.
pub proof fn branch_questions_are_confirmed_by_their_key(app: AppModel, key: KeyEvent)
    requires
        app.mode is Branches,
        !(key.control && key.code == KeyCode::Char('c')),
        app.screen is ConfirmBranchDelete,
    ensures
        ({
            let (after, outcome) = app.after_key(key);
            &&& outcome is Continue
            &&& is_same_beneath(after, app)
            &&& after.selected == app.selected
            &&& after.message == app.message
            &&& app.screen matches ScreenModel::ConfirmBranchDelete {
                repository_index,
                branch,
                phase,
                ..
            } ==> {
                &&& phase is Initial && key.code == KeyCode::Char('y') ==> after.screen == (
                ScreenModel::DeletingBranch { repository_index, branch, mode: DeletionMode::Normal })
                &&& phase is Force && key.code == KeyCode::Char('D') ==> after.screen == (
                ScreenModel::DeletingBranch { repository_index, branch, mode: DeletionMode::Force })
                &&& phase is Initial && key.code != KeyCode::Char('y')
                    ==> after.screen is Worktrees
                &&& phase is Force && key.code != KeyCode::Char('D') ==> after.screen is Worktrees
            }
        }),
{
}

/// What was found out for a request is shown as it is, from its first line on and with the item
/// that was asked about; a failure is shown by its text, over the screen as it was.
pub proof fn answers_are_shown_as_they_are(
    app: AppModel,
    repository_index: nat,
    worktree: WorktreeModel,
    error: GitError,
    entries: Vec<LogEntry>,
    status: WorktreeStatus,
    assessment: DeletionAssessment,
)
    ensures
        ({
            let log = RequestModel::Log { repository_index, worktree };
            let state = RequestModel::Status { repository_index, worktree };
            let deletion = RequestModel::Assessment { repository_index, worktree };
            let failure = AppModel { message: Some(error.text()), ..app };
            &&& app.after_answer(log, Answer::Log(Err(error))) == failure
            &&& app.after_answer(state, Answer::Status(Err(error))) == failure
            &&& app.after_answer(deletion, Answer::Assessment(Err(error))) == failure
            &&& app.after_answer(log, Answer::Log(Ok(entries))) == (AppModel {
                screen: ScreenModel::Log { worktree, entries: log_lines(entries@), offset: 0 },
                ..app
            })
            &&& app.after_answer(state, Answer::Status(Ok(status))) == (AppModel {
                screen: ScreenModel::Status { worktree, status: status@, offset: 0 },
                ..app
            })
            &&& app.after_answer(deletion, Answer::Assessment(Ok(assessment))) == (AppModel {
                screen: ScreenModel::ConfirmDelete {
                    repository_index,
                    worktree,
                    assessment: assessment@,
                    phase: ConfirmationPhase::Initial,
                    offset: 0,
                },
                ..app
            })
        }),
{
}

/// What was found out about a branch is shown as it is; a branch that is checked out is not
/// asked about, and the message names every place.
pub proof fn branch_answers_are_shown_as_they_are(
    app: AppModel,
    repository_index: nat,
    branch: BranchModel,
    error: GitError,
    entries: Vec<LogEntry>,
    status: BranchStatus,
    assessment: BranchDeletionAssessment,
)
    ensures
        ({
            let log = RequestModel::BranchLog { repository_index, branch };
            let state = RequestModel::BranchStatus { repository_index, branch };
            let deletion = RequestModel::BranchAssessment { repository_index, branch };
            let failure = AppModel { message: Some(error.text()), ..app };
            let asked = app.after_answer(deletion, Answer::BranchAssessment(Ok(assessment)));
            &&& app.after_answer(log, Answer::Log(Err(error))) == failure
            &&& app.after_answer(state, Answer::BranchStatus(Err(error))) == failure
            &&& app.after_answer(deletion, Answer::BranchAssessment(Err(error))) == failure
            &&& app.after_answer(log, Answer::Log(Ok(entries))) == (AppModel {
                screen: ScreenModel::BranchLog { branch, entries: log_lines(entries@), offset: 0 },
                ..app
            })
            &&& app.after_answer(state, Answer::BranchStatus(Ok(status))) == (AppModel {
                screen: ScreenModel::BranchStatus { status: status@, offset: 0 },
                ..app
            })
            &&& assessment.checked_out_paths.len() == 0 ==> asked == (AppModel {
                screen: ScreenModel::ConfirmBranchDelete {
                    repository_index,
                    branch,
                    assessment: assessment@,
                    phase: ConfirmationPhase::Initial,
                },
                ..app
            })
            &&& assessment.checked_out_paths.len() > 0 ==> {
                &&& is_same_beneath(asked, app)
                &&& asked.selected == app.selected
                &&& asked.screen == app.screen
                &&& asked.message matches Some(text) && text == "branch is checked out in "@
                    + joined(path_texts(assessment@.checked_out_paths), ", "@)
            }
        }),
{
    assert(assessment@.checked_out_paths.len() == assessment.checked_out_paths.len());
}

/// Listings are taken in for both sorts of refresh, the message being cleared for one of them,
/// and for nothing else; an answer of another sort than the request changes nothing.
pub proof fn listings_are_taken_in_by_refreshes(
    app: AppModel,
    request: RequestModel,
    answer: Answer,
)
    ensures
        answer matches Answer::Listings(listings) ==> {
            &&& request is Refresh ==> app.after_answer(request, answer) == (AppModel {
                message: None,
                ..app
            }).after_refresh(listings@)
            &&& request is RefreshKeepingMessage ==> app.after_answer(request, answer)
                == app.after_refresh(listings@)
            &&& request !is Refresh && request !is RefreshKeepingMessage ==> app.after_answer(
                request,
                answer,
            ) == app
        },
        answer !is Listings && (request is Refresh || request is RefreshKeepingMessage)
            ==> app.after_answer(request, answer) == app,
        answer is Log && request !is Log && request !is BranchLog ==> app.after_answer(
            request,
            answer,
        ) == app,
        answer is Status && request !is Status ==> app.after_answer(request, answer) == app,
        answer is Assessment && request !is Assessment ==> app.after_answer(request, answer) == app,
        answer is BranchStatus && request !is BranchStatus ==> app.after_answer(request, answer)
            == app,
        answer is BranchAssessment && request !is BranchAssessment ==> app.after_answer(
            request,
            answer,
        ) == app,
{
}

/// A worktree that was deleted leads to the list and a refresh. One that takes force leads to
/// the question about force with what was found, unless force was confirmed already; then
/// nothing more is tried. A failure is shown on the list, which is refreshed beneath it.
pub proof fn deletions_end_as_they_went(
    app: AppModel,
    repository_index: nat,
    worktree: WorktreeModel,
    mode: DeletionMode,
    assessment: DeletionAssessment,
    error: GitError,
)
    requires
        app.screen == (ScreenModel::Deleting { repository_index, worktree, mode }),
    ensures
        app.after_deletion(Ok(DeleteResult::Deleted)) == (
            AppModel { message: None, screen: ScreenModel::Worktrees, ..app },
            OutcomeModel::Ask(RequestModel::Refresh),
        ),
        app.after_deletion(Err(error)) == (
            AppModel { message: Some(error.text()), screen: ScreenModel::Worktrees, ..app },
            OutcomeModel::Ask(RequestModel::RefreshKeepingMessage),
        ),
        mode is Normal ==> app.after_deletion(Ok(DeleteResult::NeedsForce(assessment))) == (
            AppModel {
                screen: ScreenModel::ConfirmDelete {
                    repository_index,
                    worktree,
                    assessment: assessment@,
                    phase: ConfirmationPhase::Force,
                    offset: 0,
                },
                ..app
            },
            OutcomeModel::Continue,
        ),
        mode is Force ==> app.after_deletion(Ok(DeleteResult::NeedsForce(assessment))) == (
            AppModel {
                message: Some("worktree state changed; deletion was not performed"@),
                screen: ScreenModel::Worktrees,
                ..app
            },
            OutcomeModel::Continue,
        ),
{
}

/// A branch that was deleted leads to the list and a refresh. One that takes force leads to the
/// question about force with what was found, unless force was confirmed already; then nothing
/// more is tried. A failure is shown on the list, which is refreshed beneath it.
pub proof fn branch_deletions_end_as_they_went(
    app: AppModel,
    repository_index: nat,
    branch: BranchModel,
    mode: DeletionMode,
    assessment: BranchDeletionAssessment,
    error: GitError,
)
    requires
        app.screen == (ScreenModel::DeletingBranch { repository_index, branch, mode }),
    ensures
        app.after_branch_deletion(Ok(BranchDeleteResult::Deleted)) == (
            AppModel { message: None, screen: ScreenModel::Worktrees, ..app },
            OutcomeModel::Ask(RequestModel::Refresh),
        ),
        app.after_branch_deletion(Err(error)) == (
            AppModel { message: Some(error.text()), screen: ScreenModel::Worktrees, ..app },
            OutcomeModel::Ask(RequestModel::RefreshKeepingMessage),
        ),
        mode is Normal ==> app.after_branch_deletion(
            Ok(BranchDeleteResult::NeedsForce(assessment)),
        ) == (
            AppModel {
                screen: ScreenModel::ConfirmBranchDelete {
                    repository_index,
                    branch,
                    assessment: assessment@,
                    phase: ConfirmationPhase::Force,
                },
                ..app
            },
            OutcomeModel::Continue,
        ),
        mode is Force ==> app.after_branch_deletion(
            Ok(BranchDeleteResult::NeedsForce(assessment)),
        ) == (
            AppModel {
                message: Some("branch state changed; deletion was not performed"@),
                screen: ScreenModel::Worktrees,
                ..app
            },
            OutcomeModel::Continue,
        ),
{
}

/// What came of a deletion counts only while one is under way.
pub proof fn late_deletions_change_nothing(
    app: AppModel,
    result: Result<DeleteResult, GitError>,
    branch_result: Result<BranchDeleteResult, GitError>,
)
    ensures
        app.screen !is Deleting ==> app.after_deletion(result) == (app, OutcomeModel::Continue),
        app.screen !is DeletingBranch ==> app.after_branch_deletion(branch_result) == (
            app,
            OutcomeModel::Continue,
        ),
{
}

/// A screen that belongs to the other mode ignores keys.
pub proof fn screens_of_the_other_mode_ignore_keys(app: AppModel, key: KeyEvent)
    requires
        !(key.control && key.code == KeyCode::Char('c')),
        app.mode is Worktrees ==> app.screen is BranchLog || app.screen is BranchStatus
            || app.screen is ConfirmBranchDelete,
        app.mode is Branches ==> app.screen is Log || app.screen is Status
            || app.screen is ConfirmDelete,
    ensures
        app.after_key(key) == (app, OutcomeModel::Continue),
{
}

/// A request stands for what it asks for and of what, and an outcome for its request.
pub proof fn requests_stand_for_all_they_ask(request: Request, outcome: Outcome)
    ensures
        request is Refresh <==> request@ is Refresh,
        request is RefreshKeepingMessage <==> request@ is RefreshKeepingMessage,
        request matches Request::Log { repository_index, worktree } ==> request@ == (
        RequestModel::Log { repository_index: repository_index as nat, worktree: worktree@ }),
        request matches Request::Status { repository_index, worktree } ==> request@ == (
        RequestModel::Status { repository_index: repository_index as nat, worktree: worktree@ }),
        request matches Request::Assessment { repository_index, worktree } ==> request@ == (
        RequestModel::Assessment { repository_index: repository_index as nat, worktree: worktree@ }),
        request matches Request::BranchLog { repository_index, branch } ==> request@ == (
        RequestModel::BranchLog { repository_index: repository_index as nat, branch: branch@ }),
        request matches Request::BranchStatus { repository_index, branch } ==> request@ == (
        RequestModel::BranchStatus { repository_index: repository_index as nat, branch: branch@ }),
        request matches Request::BranchAssessment { repository_index, branch } ==> request@ == (
        RequestModel::BranchAssessment {
            repository_index: repository_index as nat,
            branch: branch@,
        }),
        outcome is Continue <==> outcome@ is Continue,
        outcome is Quit <==> outcome@ is Quit,
        outcome matches Outcome::Ask(asked) ==> outcome@ == OutcomeModel::Ask(asked@),
{
}

} // verus!
