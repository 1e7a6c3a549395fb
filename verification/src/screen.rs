//! What the explorer shows: the list, or something over or in place of it.

use vstd::prelude::*;

use crate::git::{
    AssessmentModel, BranchAssessmentModel, BranchDeletionAssessment, BranchInfo, BranchModel,
    BranchStatus, BranchStatusModel, DeletionAssessment, StatusModel, WorktreeInfo, WorktreeModel,
    WorktreeStatus,
};
use crate::history::{log_lines, LogEntry, LogModel};
use crate::keys::{handle_scroll_key, scrolled, KeyCode, KeyEvent};
use crate::status::ChangeCounts;
use crate::tree::word;

verus! {

/// How far the user has been asked about a deletion.
#[derive(Clone, Copy, Debug, PartialEq, Eq, Structural)]
pub enum ConfirmationPhase {
    Initial,
    /// It turned out to take force.
    Force,
}

/// How a deletion was confirmed.
#[derive(Clone, Copy, Debug, PartialEq, Eq, Structural)]
pub enum DeletionMode {
    Normal,
    Force,
}

impl DeletionMode {
    /// Tells whether force was confirmed.
    pub fn force(self) -> (r: bool)
        ensures
            r == (self is Force),
    {
        match self {
            DeletionMode::Normal => false,
            DeletionMode::Force => true,
        }
    }
}

/// What is shown. Details name the repository by its place in the list of groups.
#[derive(Debug)]
#[allow(inconsistent_fields)]
pub enum Screen {
    /// The list alone, be it of worktrees or of branches.
    Worktrees,
    Log { worktree: WorktreeInfo, entries: Vec<LogEntry>, offset: usize },
    Status { worktree: WorktreeInfo, status: WorktreeStatus, offset: usize },
    ConfirmDelete {
        repository_index: usize,
        worktree: WorktreeInfo,
        assessment: DeletionAssessment,
        phase: ConfirmationPhase,
        offset: usize,
    },
    Deleting { repository_index: usize, worktree: WorktreeInfo, mode: DeletionMode },
    BranchLog { branch: BranchInfo, entries: Vec<LogEntry>, offset: usize },
    BranchStatus { status: BranchStatus, offset: usize },
    ConfirmBranchDelete {
        repository_index: usize,
        branch: BranchInfo,
        assessment: BranchDeletionAssessment,
        phase: ConfirmationPhase,
    },
    DeletingBranch { repository_index: usize, branch: BranchInfo, mode: DeletionMode },
}

/// What a screen stands for.
#[allow(inconsistent_fields)]
pub enum ScreenModel {
    Worktrees,
    Log { worktree: WorktreeModel, entries: Seq<LogModel>, offset: nat },
    Status { worktree: WorktreeModel, status: StatusModel, offset: nat },
    ConfirmDelete {
        repository_index: nat,
        worktree: WorktreeModel,
        assessment: AssessmentModel,
        phase: ConfirmationPhase,
        offset: nat,
    },
    Deleting { repository_index: nat, worktree: WorktreeModel, mode: DeletionMode },
    BranchLog { branch: BranchModel, entries: Seq<LogModel>, offset: nat },
    BranchStatus { status: BranchStatusModel, offset: nat },
    ConfirmBranchDelete {
        repository_index: nat,
        branch: BranchModel,
        assessment: BranchAssessmentModel,
        phase: ConfirmationPhase,
    },
    DeletingBranch { repository_index: nat, branch: BranchModel, mode: DeletionMode },
}

impl View for Screen {
    type V = ScreenModel;

    open spec fn view(&self) -> ScreenModel {
        match *self {
            Screen::Worktrees => ScreenModel::Worktrees,
            Screen::Log { worktree, entries, offset } => ScreenModel::Log {
                worktree: worktree@,
                entries: log_lines(entries@),
                offset: offset as nat,
            },
            Screen::Status { worktree, status, offset } => ScreenModel::Status {
                worktree: worktree@,
                status: status@,
                offset: offset as nat,
            },
            Screen::ConfirmDelete { repository_index, worktree, assessment, phase, offset } => {
                ScreenModel::ConfirmDelete {
                    repository_index: repository_index as nat,
                    worktree: worktree@,
                    assessment: assessment@,
                    phase,
                    offset: offset as nat,
                }
            },
            Screen::Deleting { repository_index, worktree, mode } => ScreenModel::Deleting {
                repository_index: repository_index as nat,
                worktree: worktree@,
                mode,
            },
            Screen::BranchLog { branch, entries, offset } => ScreenModel::BranchLog {
                branch: branch@,
                entries: log_lines(entries@),
                offset: offset as nat,
            },
            Screen::BranchStatus { status, offset } => ScreenModel::BranchStatus {
                status: status@,
                offset: offset as nat,
            },
            Screen::ConfirmBranchDelete { repository_index, branch, assessment, phase } => {
                ScreenModel::ConfirmBranchDelete {
                    repository_index: repository_index as nat,
                    branch: branch@,
                    assessment: assessment@,
                    phase,
                }
            },
            Screen::DeletingBranch { repository_index, branch, mode } => {
                ScreenModel::DeletingBranch {
                    repository_index: repository_index as nat,
                    branch: branch@,
                    mode,
                }
            },
        }
    }
}

/// One for something that holds, nothing for something that does not.
pub open spec fn one_if(holds: bool) -> nat {
    if holds {
        1
    } else {
        0
    }
}

/// How many sorts of changes there are any of.
pub open spec fn sort_count(changes: ChangeCounts) -> nat {
    one_if(changes.staged > 0) + one_if(changes.unstaged > 0) + one_if(changes.untracked > 0)
        + one_if(changes.deleted > 0) + one_if(changes.conflicted > 0)
}

impl BranchStatusModel {
    /// How many lines the status of a branch is scrolled as: the branch and its upstream, each
    /// count of commits, the places of the checkouts or that there is none, and each count of
    /// changes.
    pub open spec fn line_count(self) -> nat {
        let places = self.checked_out_paths.len();
        2 + one_if(self.ahead > 0) + one_if(self.behind > 0) + sort_count(self.changes) + (
        if places == 0 {
            1
        } else {
            places
        })
    }
}

fn flag(holds: bool) -> (r: usize)
    ensures
        r == one_if(holds),
        r <= 1,
{
    if holds {
        1
    } else {
        0
    }
}

fn count_sorts(changes: ChangeCounts) -> (r: usize)
    ensures
        r == sort_count(changes),
        r <= 5,
{
    let staged = flag(changes.staged > 0);
    let unstaged = flag(changes.unstaged > 0);
    let untracked = flag(changes.untracked > 0);
    let deleted = flag(changes.deleted > 0);
    let conflicted = flag(changes.conflicted > 0);
    staged + unstaged + untracked + deleted + conflicted
}

/// Counts the lines that the status of a branch is scrolled as, up to the largest number
/// there is.
pub fn status_line_count(status: &BranchStatus) -> (r: usize)
    ensures
        r == word(status@.line_count()),
{
    assert(status@.checked_out_paths.len() == status.checked_out_paths.len());
    let ahead = flag(status.ahead > 0);
    let behind = flag(status.behind > 0);
    let count = 2 + ahead + behind + count_sorts(status.changes);
    if status.checked_out_paths.is_empty() {
        count + 1
    } else {
        count.saturating_add(status.checked_out_paths.len())
    }
}

impl ScreenModel {
    /// The screen can be scrolled.
    pub open spec fn can_scroll(self) -> bool {
        self is Log || self is Status || self is ConfirmDelete || self is BranchLog
            || self is BranchStatus
    }

    /// How many lines there are to scroll.
    pub open spec fn content_len(self) -> nat {
        match self {
            ScreenModel::Log { entries, .. } => entries.len(),
            ScreenModel::Status { status, .. } => word(status.entries.len() + 1),
            ScreenModel::ConfirmDelete { assessment, .. } => assessment.changes.len(),
            ScreenModel::BranchLog { entries, .. } => entries.len(),
            ScreenModel::BranchStatus { status, .. } => word(status.line_count()),
            _ => 0,
        }
    }

    /// How many lines the content is scrolled by.
    pub open spec fn offset(self) -> nat {
        match self {
            ScreenModel::Log { offset, .. } => offset,
            ScreenModel::Status { offset, .. } => offset,
            ScreenModel::ConfirmDelete { offset, .. } => offset,
            ScreenModel::BranchLog { offset, .. } => offset,
            ScreenModel::BranchStatus { offset, .. } => offset,
            _ => 0,
        }
    }

    /// The screen with its content scrolled to an offset.
    pub open spec fn at_offset(self, offset: nat) -> ScreenModel {
        match self {
            ScreenModel::Log { worktree, entries, .. } => {
                ScreenModel::Log { worktree, entries, offset }
            },
            ScreenModel::Status { worktree, status, .. } => {
                ScreenModel::Status { worktree, status, offset }
            },
            ScreenModel::ConfirmDelete { repository_index, worktree, assessment, phase, .. } => {
                ScreenModel::ConfirmDelete { repository_index, worktree, assessment, phase, offset }
            },
            ScreenModel::BranchLog { branch, entries, .. } => {
                ScreenModel::BranchLog { branch, entries, offset }
            },
            ScreenModel::BranchStatus { status, .. } => {
                ScreenModel::BranchStatus { status, offset }
            },
            _ => self,
        }
    }

    /// The screen after a key has scrolled it.
    pub open spec fn after_scroll(self, code: KeyCode, page_size: nat) -> ScreenModel {
        self.at_offset(scrolled(code, self.offset(), self.content_len(), page_size))
    }

    /// The place of the repository that a deletion on this screen is about.
    pub open spec fn repository_index(self) -> Option<nat> {
        match self {
            ScreenModel::ConfirmDelete { repository_index, .. } => Some(repository_index),
            ScreenModel::Deleting { repository_index, .. } => Some(repository_index),
            ScreenModel::ConfirmBranchDelete { repository_index, .. } => Some(repository_index),
            ScreenModel::DeletingBranch { repository_index, .. } => Some(repository_index),
            _ => None,
        }
    }
}

impl Screen {
    /// Scrolls by a key.
    pub fn scroll(&mut self, key: KeyEvent, page_size: usize)
        ensures
            final(self)@ == old(self)@.after_scroll(key.code, page_size as nat),
    {
        match self {
            Screen::Log { entries, offset, .. } => {
                handle_scroll_key(key, offset, entries.len(), page_size);
            },
            Screen::Status { status, offset, .. } => {
                let len = status.entries.len().saturating_add(1);
                handle_scroll_key(key, offset, len, page_size);
            },
            Screen::ConfirmDelete { assessment, offset, .. } => {
                handle_scroll_key(key, offset, assessment.changes.len(), page_size);
            },
            Screen::BranchLog { entries, offset, .. } => {
                handle_scroll_key(key, offset, entries.len(), page_size);
            },
            Screen::BranchStatus { status, offset } => {
                let len = status_line_count(status);
                handle_scroll_key(key, offset, len, page_size);
            },
            _ => {},
        }
    }
}

/// A screen that shows some line of its content still does after a key has scrolled it.
pub proof fn screens_stay_within_content(screen: ScreenModel, code: KeyCode, page_size: nat)
    requires
        screen.can_scroll(),
        screen.offset() < screen.content_len(),
    ensures
        screen.after_scroll(code, page_size).offset() < screen.after_scroll(
            code,
            page_size,
        ).content_len(),
{
}

/// Scrolling changes nothing but how far the content is scrolled, and goes by as many lines as
/// there is to show: the lines of a log, the changes of a status and one line more, or the
/// changes that a question shows.
pub proof fn scrolling_moves_the_content_alone(screen: ScreenModel, code: KeyCode, page_size: nat)
    ensures
        screen matches ScreenModel::Log { worktree, entries, offset } ==> screen.after_scroll(
            code,
            page_size,
        ) == (ScreenModel::Log {
            worktree,
            entries,
            offset: scrolled(code, offset, entries.len(), page_size),
        }),
        screen matches ScreenModel::Status { worktree, status, offset } ==> (status.entries.len()
            < usize::MAX ==> screen.after_scroll(code, page_size) == (ScreenModel::Status {
            worktree,
            status,
            offset: scrolled(code, offset, status.entries.len() + 1, page_size),
        })),
        screen matches ScreenModel::ConfirmDelete {
            repository_index,
            worktree,
            assessment,
            phase,
            offset,
        } ==> screen.after_scroll(code, page_size) == (ScreenModel::ConfirmDelete {
            repository_index,
            worktree,
            assessment,
            phase,
            offset: scrolled(code, offset, assessment.changes.len(), page_size),
        }),
        screen matches ScreenModel::BranchLog { branch, entries, offset } ==> screen.after_scroll(
            code,
            page_size,
        ) == (ScreenModel::BranchLog {
            branch,
            entries,
            offset: scrolled(code, offset, entries.len(), page_size),
        }),
        screen matches ScreenModel::BranchStatus { status, offset } ==> (status.line_count()
            <= usize::MAX ==> screen.after_scroll(code, page_size) == (ScreenModel::BranchStatus {
            status,
            offset: scrolled(code, offset, status.line_count(), page_size),
        })),
        screen is Worktrees || screen is Deleting || screen is ConfirmBranchDelete
            || screen is DeletingBranch ==> screen.after_scroll(code, page_size) == screen,
{
}

/// The status of a branch has two lines for the branch and its upstream, one for each count
/// that is not zero, and one for each checkout, or one that says that there is none.
pub proof fn branch_statuses_have_a_line_for_each_finding(status: BranchStatusModel)
    ensures
        ({
            let counts = seq![
                status.ahead as nat,
                status.behind as nat,
                status.changes.staged as nat,
                status.changes.unstaged as nat,
                status.changes.untracked as nat,
                status.changes.deleted as nat,
                status.changes.conflicted as nat,
            ];
            let shown = counts.filter(|count: nat| count != 0).len();
            &&& status.checked_out_paths.len() == 0 ==> status.line_count() == 3 + shown
            &&& status.checked_out_paths.len() > 0 ==> status.line_count() == 2 + shown
                + status.checked_out_paths.len()
        }),
{
    reveal_with_fuel(Seq::filter, 8);
    let counts = seq![
        status.ahead as nat,
        status.behind as nat,
        status.changes.staged as nat,
        status.changes.unstaged as nat,
        status.changes.untracked as nat,
        status.changes.deleted as nat,
        status.changes.conflicted as nat,
    ];
    let keep = |count: nat| count != 0;
    assert(counts.drop_last().len() == 6);
    let c6 = counts.drop_last();
    let c5 = c6.drop_last();
    let c4 = c5.drop_last();
    let c3 = c4.drop_last();
    let c2 = c3.drop_last();
    let c1 = c2.drop_last();
    let c0 = c1.drop_last();
    assert(c0.len() == 0);
    assert(c0.filter(keep).len() == 0);
    assert(c1.filter(keep).len() == one_if(status.ahead > 0));
    assert(c2.filter(keep).len() == c1.filter(keep).len() + one_if(status.behind > 0));
    assert(c3.filter(keep).len() == c2.filter(keep).len() + one_if(status.changes.staged > 0));
    assert(c4.filter(keep).len() == c3.filter(keep).len() + one_if(status.changes.unstaged > 0));
    assert(c5.filter(keep).len() == c4.filter(keep).len() + one_if(status.changes.untracked > 0));
    assert(c6.filter(keep).len() == c5.filter(keep).len() + one_if(status.changes.deleted > 0));
    assert(counts.filter(keep).len() == c6.filter(keep).len() + one_if(
        status.changes.conflicted > 0,
    ));
}

/// A screen stands for all that it shows.
pub proof fn screens_stand_for_all_they_show(screen: Screen)
    ensures
        screen is Worktrees <==> screen@ is Worktrees,
        screen matches Screen::Log { worktree, entries, offset } ==> screen@ == (ScreenModel::Log {
            worktree: worktree@,
            entries: log_lines(entries@),
            offset: offset as nat,
        }),
        screen matches Screen::Status { worktree, status, offset } ==> screen@ == (
        ScreenModel::Status { worktree: worktree@, status: status@, offset: offset as nat }),
        screen matches Screen::ConfirmDelete {
            repository_index,
            worktree,
            assessment,
            phase,
            offset,
        } ==> screen@ == (ScreenModel::ConfirmDelete {
            repository_index: repository_index as nat,
            worktree: worktree@,
            assessment: assessment@,
            phase,
            offset: offset as nat,
        }),
        screen matches Screen::Deleting { repository_index, worktree, mode } ==> screen@ == (
        ScreenModel::Deleting {
            repository_index: repository_index as nat,
            worktree: worktree@,
            mode,
        }),
        screen matches Screen::BranchLog { branch, entries, offset } ==> screen@ == (
        ScreenModel::BranchLog {
            branch: branch@,
            entries: log_lines(entries@),
            offset: offset as nat,
        }),
        screen matches Screen::BranchStatus { status, offset } ==> screen@ == (
        ScreenModel::BranchStatus { status: status@, offset: offset as nat }),
        screen matches Screen::ConfirmBranchDelete {
            repository_index,
            branch,
            assessment,
            phase,
        } ==> screen@ == (ScreenModel::ConfirmBranchDelete {
            repository_index: repository_index as nat,
            branch: branch@,
            assessment: assessment@,
            phase,
        }),
        screen matches Screen::DeletingBranch { repository_index, branch, mode } ==> screen@ == (
        ScreenModel::DeletingBranch {
            repository_index: repository_index as nat,
            branch: branch@,
            mode,
        }),
{
}

} // verus!
