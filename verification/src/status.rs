//! Changes in a worktree: reading them, ordering them and counting them.

use vstd::prelude::*;

use crate::objects::{lossy_text, to_text};
use crate::order::{
    is_sorted, lex_le_antisymmetric, lex_le_total, lex_le_transitive, natural_order, sort_stable,
    stable_sorted, stable_sorted_images, stable_sorted_is_sorted, Sortable,
};
use crate::text::{char_order, is_text_le, text_le};

verus! {

/// Where a change was found.
#[derive(Clone, Copy, Debug, PartialEq, Eq, PartialOrd, Ord, Structural)]
pub enum StatusArea {
    /// Between the last commit and the index.
    Index,
    /// Between the index and the files.
    Worktree,
}

/// What happened to a path.
#[derive(Clone, Copy, Debug, PartialEq, Eq, PartialOrd, Ord, Structural)]
pub enum ChangeKind {
    Added,
    Modified,
    Deleted,
    Renamed,
    Copied,
    TypeChanged,
    Conflict,
    IntentToAdd,
}

impl ChangeKind {
    /// The word for a kind of change.
    pub open spec fn word(self) -> Seq<char> {
        match self {
            ChangeKind::Added => "added"@,
            ChangeKind::Modified => "modified"@,
            ChangeKind::Deleted => "deleted"@,
            ChangeKind::Renamed => "renamed"@,
            ChangeKind::Copied => "copied"@,
            ChangeKind::TypeChanged => "type changed"@,
            ChangeKind::Conflict => "conflict"@,
            ChangeKind::IntentToAdd => "intent to add"@,
        }
    }

    /// The word that is shown for a change.
    pub fn label(self) -> (r: &'static str)
        ensures
            r@ == self.word(),
            self is Added ==> r@ == "added"@,
            self is Modified ==> r@ == "modified"@,
            self is Deleted ==> r@ == "deleted"@,
            self is Renamed ==> r@ == "renamed"@,
            self is Copied ==> r@ == "copied"@,
            self is TypeChanged ==> r@ == "type changed"@,
            self is Conflict ==> r@ == "conflict"@,
            self is IntentToAdd ==> r@ == "intent to add"@,
    {
        match self {
            ChangeKind::Added => "added",
            ChangeKind::Modified => "modified",
            ChangeKind::Deleted => "deleted",
            ChangeKind::Renamed => "renamed",
            ChangeKind::Copied => "copied",
            ChangeKind::TypeChanged => "type changed",
            ChangeKind::Conflict => "conflict",
            ChangeKind::IntentToAdd => "intent to add",
        }
    }

    /// Where a kind stands among the changes of one area.
    pub open spec fn rank(self) -> int {
        match self {
            ChangeKind::Added => 0,
            ChangeKind::Modified => 1,
            ChangeKind::Deleted => 2,
            ChangeKind::Renamed => 3,
            ChangeKind::Copied => 4,
            ChangeKind::TypeChanged => 5,
            ChangeKind::Conflict => 6,
            ChangeKind::IntentToAdd => 7,
        }
    }

    fn position(self) -> (r: u8)
        ensures
            r == self.rank(),
    {
        match self {
            ChangeKind::Added => 0,
            ChangeKind::Modified => 1,
            ChangeKind::Deleted => 2,
            ChangeKind::Renamed => 3,
            ChangeKind::Copied => 4,
            ChangeKind::TypeChanged => 5,
            ChangeKind::Conflict => 6,
            ChangeKind::IntentToAdd => 7,
        }
    }
}

/// One changed path.
#[derive(Debug, PartialEq, Eq, PartialOrd, Ord)]
pub struct StatusEntry {
    pub area: StatusArea,
    pub kind: ChangeKind,
    pub path: String,
}

/// What a changed path stands for.
pub struct EntryModel {
    pub area: StatusArea,
    pub kind: ChangeKind,
    pub path: Seq<char>,
}

impl View for StatusEntry {
    type V = EntryModel;

    open spec fn view(&self) -> EntryModel {
        EntryModel { area: self.area, kind: self.kind, path: self.path@ }
    }
}

impl Clone for StatusEntry {
    fn clone(&self) -> (r: Self)
        ensures
            r == *self,
    {
        StatusEntry { area: self.area, kind: self.kind, path: self.path.clone() }
    }
}

/// The models of a list of changes.
pub open spec fn entries_of(entries: Seq<StatusEntry>) -> Seq<EntryModel> {
    entries.map_values(|entry: StatusEntry| entry@)
}

impl EntryModel {
    /// Changes are ordered by area, then by kind, then by path.
    pub open spec fn le(self, other: EntryModel) -> bool {
        if self.area != other.area {
            self.area is Index
        } else if self.kind != other.kind {
            self.kind.rank() < other.kind.rank()
        } else {
            text_le(self.path, other.path)
        }
    }
}

impl Sortable for StatusEntry {
    open spec fn le(self, other: StatusEntry) -> bool {
        self@.le(other@)
    }

    proof fn le_total(left: StatusEntry, right: StatusEntry) {
        lex_le_total(left.path@, right.path@, char_order());
    }

    proof fn le_transitive(a: StatusEntry, b: StatusEntry, c: StatusEntry) {
        if a.area == b.area && b.area == c.area && a.kind == b.kind && b.kind == c.kind {
            lex_le_transitive(a.path@, b.path@, c.path@, char_order());
        }
    }

    fn is_le(&self, other: &StatusEntry) -> bool {
        if self.area != other.area {
            self.area == StatusArea::Index
        } else if self.kind != other.kind {
            self.kind.position() < other.kind.position()
        } else {
            is_text_le(&self.path, &other.path)
        }
    }
}

/// Two changes that may each stand before the other are the same change.
pub proof fn entry_le_antisymmetric(left: EntryModel, right: EntryModel)
    requires
        left.le(right),
        right.le(left),
    ensures
        left == right,
{
    if left.area == right.area && left.kind == right.kind {
        lex_le_antisymmetric(left.path, right.path, char_order());
    }
}

/// A change between the last commit and the index.
#[derive(Clone, Copy, Debug, PartialEq, Eq, Structural)]
pub enum IndexChange {
    Addition,
    Deletion,
    Modification,
    /// A rename, or a copy.
    Rewrite { copy: bool },
}

/// A change between the index and the files.
#[derive(Clone, Copy, Debug, PartialEq, Eq, Structural)]
pub enum WorktreeChange {
    Removed,
    Added,
    Modified,
    TypeChange,
    Renamed,
    Copied,
    IntentToAdd,
    Conflict,
}

/// What was found out about one path. The files of a path may turn out unchanged after all.
#[derive(Clone, Copy, Debug, PartialEq, Eq, Structural)]
pub enum ItemChange {
    TreeIndex(IndexChange),
    IndexWorktree(Option<WorktreeChange>),
}

/// One item of a status run: the path's bytes and what was found out about it.
#[derive(Debug)]
pub struct StatusItem {
    pub location: Vec<u8>,
    pub change: ItemChange,
}

/// The area and the kind of a change; none for files that are unchanged.
pub open spec fn classified(change: ItemChange) -> Option<(StatusArea, ChangeKind)> {
    match change {
        ItemChange::TreeIndex(change) => Some(
            (
                StatusArea::Index,
                match change {
                    IndexChange::Addition => ChangeKind::Added,
                    IndexChange::Deletion => ChangeKind::Deleted,
                    IndexChange::Modification => ChangeKind::Modified,
                    IndexChange::Rewrite { copy } => if copy {
                        ChangeKind::Copied
                    } else {
                        ChangeKind::Renamed
                    },
                },
            ),
        ),
        ItemChange::IndexWorktree(None) => None,
        ItemChange::IndexWorktree(Some(change)) => Some(
            (
                StatusArea::Worktree,
                match change {
                    WorktreeChange::Removed => ChangeKind::Deleted,
                    WorktreeChange::Added => ChangeKind::Added,
                    WorktreeChange::Modified => ChangeKind::Modified,
                    WorktreeChange::TypeChange => ChangeKind::TypeChanged,
                    WorktreeChange::Renamed => ChangeKind::Renamed,
                    WorktreeChange::Copied => ChangeKind::Copied,
                    WorktreeChange::IntentToAdd => ChangeKind::IntentToAdd,
                    WorktreeChange::Conflict => ChangeKind::Conflict,
                },
            ),
        ),
    }
}

/// The entry for an item of a status run, if the item is a change.
pub open spec fn entry_of(item: StatusItem) -> Option<EntryModel> {
    match classified(item.change) {
        Some((area, kind)) => Some(EntryModel { area, kind, path: lossy_text(item.location@) }),
        None => None,
    }
}

/// The entries for the items of a status run, in their order.
pub open spec fn entries_found(items: Seq<StatusItem>) -> Seq<EntryModel>
    decreases items.len(),
{
    if items.len() == 0 {
        Seq::empty()
    } else {
        let before = entries_found(items.drop_last());
        match entry_of(items.last()) {
            Some(entry) => before.push(entry),
            None => before,
        }
    }
}

/// The entry for a change of the path shown, if it is a change.
pub fn compose_status(change: ItemChange, path: String) -> (r: Option<StatusEntry>)
    ensures
        r == match classified(change) {
            Some((area, kind)) => Some(StatusEntry { area, kind, path }),
            None => None,
        },
{
    let (area, kind) = match change {
        ItemChange::TreeIndex(change) => {
            let kind = match change {
                IndexChange::Addition => ChangeKind::Added,
                IndexChange::Deletion => ChangeKind::Deleted,
                IndexChange::Modification => ChangeKind::Modified,
                IndexChange::Rewrite { copy } => if copy {
                    ChangeKind::Copied
                } else {
                    ChangeKind::Renamed
                },
            };
            (StatusArea::Index, kind)
        },
        ItemChange::IndexWorktree(change) => {
            let kind = match change {
                None => return None,
                Some(WorktreeChange::Removed) => ChangeKind::Deleted,
                Some(WorktreeChange::Added) => ChangeKind::Added,
                Some(WorktreeChange::Modified) => ChangeKind::Modified,
                Some(WorktreeChange::TypeChange) => ChangeKind::TypeChanged,
                Some(WorktreeChange::Renamed) => ChangeKind::Renamed,
                Some(WorktreeChange::Copied) => ChangeKind::Copied,
                Some(WorktreeChange::IntentToAdd) => ChangeKind::IntentToAdd,
                Some(WorktreeChange::Conflict) => ChangeKind::Conflict,
            };
            (StatusArea::Worktree, kind)
        },
    };
    Some(StatusEntry { area, kind, path })
}

/// Turns an item of a status run into the entry that is shown for it.
pub fn status_entry(item: &StatusItem) -> (r: Option<StatusEntry>)
    ensures
        match r {
            Some(entry) => entry_of(*item) == Some(entry@),
            None => entry_of(*item) is None,
        },
{
    compose_status(item.change, to_text(&item.location))
}

/// The order in which changes are shown.
pub open spec fn entry_order() -> spec_fn(EntryModel, EntryModel) -> bool {
    |left: EntryModel, right: EntryModel| left.le(right)
}

/// Collects the changes of a status run in the order in which they are shown.
pub fn sorted_entries(items: &Vec<StatusItem>) -> (r: Vec<StatusEntry>)
    ensures
        entries_of(r@) == stable_sorted(entries_found(items@), entry_order()),
{
    let mut found: Vec<StatusEntry> = Vec::new();
    let mut i: usize = 0;
    assert(entries_of(found@) =~= entries_found(items@.take(0)));
    while i < items.len()
        invariant
            i <= items.len(),
            entries_of(found@) == entries_found(items@.take(i as int)),
        decreases items.len() - i,
    {
        let ghost before = found@;
        assert(items@.take(i + 1).drop_last() == items@.take(i as int));
        assert(items@.take(i + 1).last() == items@[i as int]);
        if let Some(entry) = status_entry(&items[i]) {
            found.push(entry);
            assert(entries_of(found@) =~= entries_of(before).push(entry@));
        }
        i = i + 1;
    }
    assert(items@.take(items.len() as int) == items@);
    sort_entries(found)
}

/// Sorts changes by area, kind and path.
pub fn sort_entries(found: Vec<StatusEntry>) -> (r: Vec<StatusEntry>)
    ensures
        entries_of(r@) == stable_sorted(entries_of(found@), entry_order()),
{
    proof {
        stable_sorted_images(
            found@,
            |entry: StatusEntry| entry@,
            natural_order(),
            entry_order(),
        );
    }
    sort_stable(found)
}

/// The order of changes can sort them, so a sorted list is in order and holds each change as
/// often as it was found.
pub proof fn sorted_changes_are_in_order(found: Seq<EntryModel>)
    ensures
        is_sorted(stable_sorted(found, entry_order()), entry_order()),
        stable_sorted(found, entry_order()).to_multiset() == found.to_multiset(),
{
    let le = entry_order();
    assert forall|x: EntryModel, y: EntryModel| #[trigger] le(x, y) || le(y, x) by {
        lex_le_total(x.path, y.path, char_order());
    }
    assert forall|x: EntryModel, y: EntryModel, z: EntryModel| #[trigger]
        le(x, y) && #[trigger] le(y, z) implies le(x, z) by {
        if x.area == y.area && y.area == z.area && x.kind == y.kind && y.kind == z.kind {
            lex_le_transitive(x.path, y.path, z.path, char_order());
        }
    }
    stable_sorted_is_sorted(found, le);
}

/// How many changes there are of each sort.
#[derive(Clone, Copy, Debug, PartialEq, Eq, Structural)]
pub struct ChangeCounts {
    pub staged: usize,
    pub unstaged: usize,
    pub untracked: usize,
    pub deleted: usize,
    pub conflicted: usize,
}

impl Default for ChangeCounts {
    fn default() -> (r: Self)
        ensures
            r == ChangeCounts::none(),
    {
        ChangeCounts { staged: 0, unstaged: 0, untracked: 0, deleted: 0, conflicted: 0 }
    }
}

/// The sorts of changes that are counted apart.
pub enum CountedAs {
    Staged,
    Unstaged,
    Untracked,
    Deleted,
    Conflicted,
}

/// What a change counts as: deletions and conflicts wherever they were found, then whatever
/// else was staged, and of the rest new files apart from changed ones.
pub open spec fn counted_as(entry: EntryModel) -> CountedAs {
    if entry.kind is Deleted {
        CountedAs::Deleted
    } else if entry.kind is Conflict {
        CountedAs::Conflicted
    } else if entry.area is Index {
        CountedAs::Staged
    } else if entry.kind is Added {
        CountedAs::Untracked
    } else {
        CountedAs::Unstaged
    }
}

/// How many of the changes count as `sort`.
pub open spec fn count_of(entries: Seq<EntryModel>, sort: CountedAs) -> nat {
    entries.filter(|entry: EntryModel| counted_as(entry) == sort).len()
}

impl ChangeCounts {
    /// No changes.
    pub open spec fn none() -> ChangeCounts {
        ChangeCounts { staged: 0, unstaged: 0, untracked: 0, deleted: 0, conflicted: 0 }
    }

    /// The counts are those of the given changes.
    pub open spec fn counts(self, entries: Seq<EntryModel>) -> bool {
        &&& self.staged == count_of(entries, CountedAs::Staged)
        &&& self.unstaged == count_of(entries, CountedAs::Unstaged)
        &&& self.untracked == count_of(entries, CountedAs::Untracked)
        &&& self.deleted == count_of(entries, CountedAs::Deleted)
        &&& self.conflicted == count_of(entries, CountedAs::Conflicted)
    }

    /// All changes together.
    pub open spec fn total(self) -> int {
        self.staged + self.unstaged + self.untracked + self.deleted + self.conflicted
    }
}

proof fn count_of_push(entries: Seq<EntryModel>, entry: EntryModel, sort: CountedAs)
    ensures
        count_of(entries.push(entry), sort) == count_of(entries, sort) + (if counted_as(entry)
            == sort {
            1nat
        } else {
            0nat
        }),
{
    reveal(Seq::filter);
    assert(entries.push(entry).drop_last() == entries);
}

/// Every change is counted once.
pub proof fn every_change_is_counted_once(entries: Seq<EntryModel>, counts: ChangeCounts)
    requires
        counts.counts(entries),
    ensures
        counts.total() == entries.len(),
    decreases entries.len(),
{
    assert(count_of(entries, CountedAs::Staged) + count_of(entries, CountedAs::Unstaged) + count_of(
        entries,
        CountedAs::Untracked,
    ) + count_of(entries, CountedAs::Deleted) + count_of(entries, CountedAs::Conflicted)
        == entries.len()) by {
        sorts_partition(entries);
    }
}

proof fn sorts_partition(entries: Seq<EntryModel>)
    ensures
        count_of(entries, CountedAs::Staged) + count_of(entries, CountedAs::Unstaged) + count_of(
            entries,
            CountedAs::Untracked,
        ) + count_of(entries, CountedAs::Deleted) + count_of(entries, CountedAs::Conflicted)
            == entries.len(),
    decreases entries.len(),
{
    if entries.len() == 0 {
        reveal(Seq::filter);
    } else {
        let entry = entries.last();
        let rest = entries.drop_last();
        sorts_partition(rest);
        assert(entries == rest.push(entry));
        count_of_push(rest, entry, CountedAs::Staged);
        count_of_push(rest, entry, CountedAs::Unstaged);
        count_of_push(rest, entry, CountedAs::Untracked);
        count_of_push(rest, entry, CountedAs::Deleted);
        count_of_push(rest, entry, CountedAs::Conflicted);
    }
}

/// Counts changes by their sort.
pub fn count_changes(entries: &Vec<StatusEntry>) -> (r: ChangeCounts)
    ensures
        r.counts(entries_of(entries@)),
{
    let mut counts = ChangeCounts::default();
    let mut i: usize = 0;
    proof {
        reveal(Seq::filter);
        assert(entries_of(entries@).take(0).len() == 0);
    }
    while i < entries.len()
        invariant
            i <= entries.len(),
            counts.counts(entries_of(entries@).take(i as int)),
        decreases entries.len() - i,
    {
        proof {
            let all = entries_of(entries@);
            let before = all.take(i as int);
            let entry = entries@[i as int]@;
            assert(all.take(i + 1) == before.push(entry));
            every_change_is_counted_once(before, counts);
            count_of_push(before, entry, CountedAs::Staged);
            count_of_push(before, entry, CountedAs::Unstaged);
            count_of_push(before, entry, CountedAs::Untracked);
            count_of_push(before, entry, CountedAs::Deleted);
            count_of_push(before, entry, CountedAs::Conflicted);
        }
        match (entries[i].area, entries[i].kind) {
            (_, ChangeKind::Deleted) => {
                counts.deleted = counts.deleted + 1;
            },
            (_, ChangeKind::Conflict) => {
                counts.conflicted = counts.conflicted + 1;
            },
            (StatusArea::Index, _) => {
                counts.staged = counts.staged + 1;
            },
            (StatusArea::Worktree, ChangeKind::Added) => {
                counts.untracked = counts.untracked + 1;
            },
            (StatusArea::Worktree, _) => {
                counts.unstaged = counts.unstaged + 1;
            },
        }
        i = i + 1;
    }
    assert(entries_of(entries@).take(entries.len() as int) == entries_of(entries@));
    counts
}

/// What a change is shown as tells what it was: staged where the index was changed, unstaged
/// where files were, and of the kind that was found. Only unchanged files show nothing.
pub proof fn changes_are_shown_as_what_they_are(change: ItemChange)
    ensures
        classified(change) is None <==> change == ItemChange::IndexWorktree(None),
        classified(change) matches Some((area, kind)) ==> {
            &&& area is Index <==> change is TreeIndex
            &&& kind is Added <==> change == ItemChange::TreeIndex(IndexChange::Addition) || change
                == ItemChange::IndexWorktree(Some(WorktreeChange::Added))
            &&& kind is Modified <==> change == ItemChange::TreeIndex(IndexChange::Modification)
                || change == ItemChange::IndexWorktree(Some(WorktreeChange::Modified))
            &&& kind is Deleted <==> change == ItemChange::TreeIndex(IndexChange::Deletion)
                || change == ItemChange::IndexWorktree(Some(WorktreeChange::Removed))
            &&& kind is Renamed <==> change == ItemChange::TreeIndex(
                IndexChange::Rewrite { copy: false },
            ) || change == ItemChange::IndexWorktree(Some(WorktreeChange::Renamed))
            &&& kind is Copied <==> change == ItemChange::TreeIndex(
                IndexChange::Rewrite { copy: true },
            ) || change == ItemChange::IndexWorktree(Some(WorktreeChange::Copied))
            &&& kind is TypeChanged <==> change == ItemChange::IndexWorktree(
                Some(WorktreeChange::TypeChange),
            )
            &&& kind is Conflict <==> change == ItemChange::IndexWorktree(
                Some(WorktreeChange::Conflict),
            )
            &&& kind is IntentToAdd <==> change == ItemChange::IndexWorktree(
                Some(WorktreeChange::IntentToAdd),
            )
        },
{
}

/// The entry for an item shows the text of its location, and there is one for every item but
/// unchanged files.
pub proof fn entries_name_their_location(item: StatusItem)
    ensures
        entry_of(item) is Some <==> item.change != ItemChange::IndexWorktree(None),
        entry_of(item) matches Some(entry) ==> entry.path == lossy_text(item.location@) && (
        entry.area is Index <==> item.change is TreeIndex) && Some((entry.area, entry.kind))
            == classified(item.change),
{
    changes_are_shown_as_what_they_are(item.change);
}

/// No change is lost or made up on the way to the entries: each item but unchanged files has
/// its entry, each entry is that of an item, and there are as many of the one as of the other.
pub proof fn every_change_is_found(items: Seq<StatusItem>)
    ensures
        entries_found(items).len() == items.filter(
            |item: StatusItem| item.change != ItemChange::IndexWorktree(None),
        ).len(),
        forall|i: int|
            0 <= i < items.len() && (#[trigger] items[i]).change != ItemChange::IndexWorktree(None)
                ==> entries_found(items).contains(entry_of(items[i])->0),
        forall|k: int|
            0 <= k < entries_found(items).len() ==> exists|i: int|
                0 <= i < items.len() && entry_of(#[trigger] items[i]) == Some(
                    #[trigger] entries_found(items)[k],
                ),
    decreases items.len(),
{
    let is_change = |item: StatusItem| item.change != ItemChange::IndexWorktree(None);
    reveal(Seq::filter);
    if items.len() > 0 {
        let rest = items.drop_last();
        let before = entries_found(rest);
        let found = entries_found(items);
        every_change_is_found(rest);
        entries_name_their_location(items.last());
        assert forall|i: int|
            0 <= i < items.len() && (#[trigger] items[i]).change != ItemChange::IndexWorktree(
                None,
            ) implies found.contains(entry_of(items[i])->0) by {
            entries_name_their_location(items[i]);
            if i < rest.len() {
                assert(rest[i] == items[i]);
                assert(before.contains(entry_of(rest[i])->0));
                let k = choose|k: int| 0 <= k < before.len() && before[k] == entry_of(rest[i])->0;
                assert(found[k] == before[k]);
            } else {
                assert(found[before.len() as int] == entry_of(items[i])->0);
            }
        }
        assert forall|k: int| 0 <= k < found.len() implies exists|i: int|
            0 <= i < items.len() && entry_of(#[trigger] items[i]) == Some(#[trigger] found[k]) by {
            if k < before.len() {
                assert(found[k] == before[k]);
                let i = choose|i: int|
                    0 <= i < rest.len() && entry_of(#[trigger] rest[i]) == Some(before[k]);
                assert(items[i] == rest[i]);
            } else {
                assert(entry_of(items[items.len() - 1]) == Some(found[k]));
            }
        }
    }
}

/// The status of a worktree shows every change, and nothing else. Each item but unchanged
/// files has an entry of the area, kind and path that it was found with; there are as many
/// entries as such items; and they stand by area, then by kind, then by path.
pub proof fn statuses_show_every_change(items: Seq<StatusItem>, entries: Seq<EntryModel>)
    requires
        entries == stable_sorted(entries_found(items), entry_order()),
    ensures
        entries.len() == items.filter(
            |item: StatusItem| item.change != ItemChange::IndexWorktree(None),
        ).len(),
        forall|i: int|
            0 <= i < items.len() && (#[trigger] items[i]).change != ItemChange::IndexWorktree(None)
                ==> exists|k: int| #![trigger entries[k]]
                0 <= k < entries.len() && classified(items[i].change) == Some(
                    (entries[k].area, entries[k].kind),
                ) && entries[k].path == lossy_text(items[i].location@),
        forall|k: int|
            0 <= k < entries.len() ==> exists|i: int| #![trigger items[i]]
                0 <= i < items.len() && items[i].change != ItemChange::IndexWorktree(None)
                    && lossy_text(items[i].location@) == (#[trigger] entries[k]).path
                    && classified(items[i].change) == Some((entries[k].area, entries[k].kind)),
        forall|i: int, j: int|
            0 <= i < j < entries.len() ==> {
                let (left, right) = (#[trigger] entries[i], #[trigger] entries[j]);
                &&& !(left.area is Worktree && right.area is Index)
                &&& left.area == right.area ==> left.kind.rank() <= right.kind.rank()
                &&& left.area == right.area && left.kind == right.kind ==> text_le(
                    left.path,
                    right.path,
                )
            },
{
    broadcast use vstd::seq_lib::group_to_multiset_ensures;

    let found = entries_found(items);
    every_change_is_found(items);
    sorted_changes_are_in_order(found);
    assert(entries.len() == found.len()) by {
        assert(entries.to_multiset().len() == found.to_multiset().len());
    }
    assert forall|i: int|
        0 <= i < items.len() && (#[trigger] items[i]).change != ItemChange::IndexWorktree(
            None,
        ) implies exists|k: int| #![trigger entries[k]]
        0 <= k < entries.len() && classified(items[i].change) == Some(
            (entries[k].area, entries[k].kind),
        ) && entries[k].path == lossy_text(items[i].location@) by {
        let entry = entry_of(items[i])->0;
        entries_name_their_location(items[i]);
        assert(found.contains(entry));
        assert(entries.to_multiset().count(entry) > 0);
        assert(entries.contains(entry));
        let k = choose|k: int| 0 <= k < entries.len() && entries[k] == entry;
        assert(entries[k] == entry);
    }
    assert forall|k: int| 0 <= k < entries.len() implies exists|i: int| #![trigger items[i]]
        0 <= i < items.len() && items[i].change != ItemChange::IndexWorktree(None) && lossy_text(
            items[i].location@,
        ) == (#[trigger] entries[k]).path && classified(items[i].change) == Some(
            (entries[k].area, entries[k].kind),
        ) by {
        assert(entries.contains(entries[k]));
        assert(found.to_multiset().count(entries[k]) > 0);
        assert(found.contains(entries[k]));
        let n = choose|n: int| 0 <= n < found.len() && found[n] == entries[k];
        let i = choose|i: int|
            0 <= i < items.len() && entry_of(#[trigger] items[i]) == Some(found[n]);
        entries_name_their_location(items[i]);
        assert(items[i] == items[i]);
    }
    assert forall|i: int, j: int| 0 <= i < j < entries.len() implies ({
        let (left, right) = (#[trigger] entries[i], #[trigger] entries[j]);
        &&& !(left.area is Worktree && right.area is Index)
        &&& left.area == right.area ==> left.kind.rank() <= right.kind.rank()
        &&& left.area == right.area && left.kind == right.kind ==> text_le(left.path, right.path)
    }) by {
        assert(entry_order()(entries[i], entries[j]));
    }
}

/// The kinds of changes stand in this order: added, modified, deleted, renamed, copied, type
/// changed, conflict, intent to add.
pub proof fn kinds_stand_in_order()
    ensures
        ChangeKind::Added.rank() < ChangeKind::Modified.rank() < ChangeKind::Deleted.rank()
            < ChangeKind::Renamed.rank() < ChangeKind::Copied.rank()
            < ChangeKind::TypeChanged.rank() < ChangeKind::Conflict.rank()
            < ChangeKind::IntentToAdd.rank(),
{
}

proof fn counts_by(entries: Seq<EntryModel>, sort: CountedAs, counts: spec_fn(EntryModel) -> bool)
    requires
        forall|entry: EntryModel| #[trigger] counts(entry) == (counted_as(entry) == sort),
    ensures
        count_of(entries, sort) == entries.filter(counts).len(),
    decreases entries.len(),
{
    reveal(Seq::filter);
    if entries.len() > 0 {
        counts_by(entries.drop_last(), sort, counts);
    }
}

/// Deleted paths and conflicts are counted apart, wherever they were found; of the rest,
/// everything in the index is staged, new files are untracked, and other files unstaged.
pub proof fn changes_are_counted_by_sort(entries: Seq<EntryModel>, counts: ChangeCounts)
    requires
        counts.counts(entries),
    ensures
        counts.deleted == entries.filter(|entry: EntryModel| entry.kind is Deleted).len(),
        counts.conflicted == entries.filter(|entry: EntryModel| entry.kind is Conflict).len(),
        counts.staged == entries.filter(
            |entry: EntryModel|
                entry.area is Index && !(entry.kind is Deleted) && !(entry.kind is Conflict),
        ).len(),
        counts.untracked == entries.filter(
            |entry: EntryModel| entry.area is Worktree && entry.kind is Added,
        ).len(),
        counts.unstaged == entries.filter(
            |entry: EntryModel|
                entry.area is Worktree && !(entry.kind is Deleted) && !(entry.kind is Conflict) && !(
                entry.kind is Added),
        ).len(),
        counts.staged + counts.unstaged + counts.untracked + counts.deleted + counts.conflicted
            == entries.len(),
{
    counts_by(entries, CountedAs::Deleted, |entry: EntryModel| entry.kind is Deleted);
    counts_by(entries, CountedAs::Conflicted, |entry: EntryModel| entry.kind is Conflict);
    counts_by(
        entries,
        CountedAs::Staged,
        |entry: EntryModel|
            entry.area is Index && !(entry.kind is Deleted) && !(entry.kind is Conflict),
    );
    counts_by(
        entries,
        CountedAs::Untracked,
        |entry: EntryModel| entry.area is Worktree && entry.kind is Added,
    );
    counts_by(
        entries,
        CountedAs::Unstaged,
        |entry: EntryModel|
            entry.area is Worktree && !(entry.kind is Deleted) && !(entry.kind is Conflict) && !(
            entry.kind is Added),
    );
    every_change_is_counted_once(entries, counts);
}

/// Entries that stand for the same have the same area, kind and path, and a list of entries
/// stands for each of them in its order.
pub proof fn entries_stand_for_all_they_hold(
    left: StatusEntry,
    right: StatusEntry,
    entries: Seq<StatusEntry>,
)
    ensures
        left@ == right@ ==> left.area == right.area && left.kind == right.kind && left.path@
            == right.path@,
        entries_of(entries).len() == entries.len(),
        forall|i: int|
            0 <= i < entries.len() ==> {
                let entry = #[trigger] entries_of(entries)[i];
                entry.area == entries[i].area && entry.kind == entries[i].kind && entry.path
                    == entries[i].path@
            },
{
}

/// Each kind of change has its own word.
pub proof fn kinds_have_their_word(kind: ChangeKind)
    ensures
        kind is Added ==> kind.word() == "added"@,
        kind is Modified ==> kind.word() == "modified"@,
        kind is Deleted ==> kind.word() == "deleted"@,
        kind is Renamed ==> kind.word() == "renamed"@,
        kind is Copied ==> kind.word() == "copied"@,
        kind is TypeChanged ==> kind.word() == "type changed"@,
        kind is Conflict ==> kind.word() == "conflict"@,
        kind is IntentToAdd ==> kind.word() == "intent to add"@,
{
}

} // verus!
