//! Commit history, and what lists show of a commit.

use vstd::prelude::*;
use vstd::utf8::encode_utf8;

use crate::error::GitError;
use crate::objects::{
    branch_reference, committer_seconds, decode_commit, decoded_commit, lossy_text, name_fault,
    read_committer_seconds, short_name, shorten, to_text, CommitModel,
};
use crate::text::{abbreviate_id, first_chars, trim, trimmed};

verus! {

/// How many commits a log shows at most.
pub const LOG_LIMIT: usize = 200;

/// One line of a log.
#[derive(Debug, PartialEq, Eq)]
pub struct LogEntry {
    pub id: String,
    pub subject: String,
    pub author: String,
    pub committed_at: i64,
}

/// What a line of a log stands for.
pub struct LogModel {
    pub id: Seq<char>,
    pub subject: Seq<char>,
    pub author: Seq<char>,
    pub committed_at: i64,
}

impl View for LogEntry {
    type V = LogModel;

    open spec fn view(&self) -> LogModel {
        LogModel {
            id: self.id@,
            subject: self.subject@,
            author: self.author@,
            committed_at: self.committed_at,
        }
    }
}

/// The models of the lines of a log.
pub open spec fn log_lines(entries: Seq<LogEntry>) -> Seq<LogModel> {
    entries.map_values(|entry: LogEntry| entry@)
}

/// A commit that a walk through the history came to: its id in hexadecimal and its data.
#[derive(Debug)]
pub struct CommitRecord {
    pub id: String,
    pub data: Vec<u8>,
}

/// The commit decodes, and so do its author and its time.
pub open spec fn is_readable(record: CommitRecord) -> bool {
    decoded_commit(record.data@) matches Ok(fields) && fields.author is Ok && fields.seconds is Ok
}

/// The line for a commit that can be read.
pub open spec fn log_line(record: CommitRecord) -> LogModel {
    let fields = decoded_commit(record.data@)->Ok_0;
    log_line_from(record.id@, fields)
}

/// The line for a commit's id and its fields.
pub open spec fn log_line_from(id: Seq<char>, fields: CommitModel) -> LogModel {
    LogModel {
        id: first_chars(id, 8),
        subject: trimmed(lossy_text(fields.title)),
        author: lossy_text(fields.author->Ok_0),
        committed_at: fields.seconds->Ok_0,
    }
}

/// Why a commit cannot be read.
pub open spec fn is_record_error(record: CommitRecord, error: GitError) -> bool {
    match decoded_commit(record.data@) {
        Err(cause) => error matches GitError::CommitData(shown) && shown@ == cause,
        Ok(fields) => match (fields.author, fields.seconds) {
            (Err(cause), _) => error matches GitError::CommitAuthor(shown) && shown@ == cause,
            (Ok(_), Err(cause)) => error matches GitError::CommitTime(shown) && shown@ == cause,
            (Ok(_), Ok(_)) => false,
        },
    }
}

/// The line of the log for what was read out of a commit. The title is shown without the
/// white space around it, and the id in short.
pub fn compose_entry(id: &str, title: &str, author: String, committed_at: i64) -> (r: LogEntry)
    ensures
        r@ == (LogModel {
            id: first_chars(id@, 8),
            subject: trimmed(title@),
            author: author@,
            committed_at,
        }),
{
    LogEntry { id: abbreviate_id(id), subject: trim(title), author, committed_at }
}

/// Turns a commit into a line of the log.
pub fn log_entry(record: &CommitRecord) -> (r: Result<LogEntry, GitError>)
    ensures
        match r {
            Ok(entry) => is_readable(*record) && entry@ == log_line(*record),
            Err(error) => !is_readable(*record) && is_record_error(*record, error),
        },
{
    let fields = match decode_commit(&record.data) {
        Ok(fields) => fields,
        Err(cause) => return Err(GitError::CommitData(cause)),
    };
    let title = to_text(&fields.title);
    let author = match fields.author {
        Ok(name) => to_text(&name),
        Err(cause) => return Err(GitError::CommitAuthor(cause)),
    };
    match fields.seconds {
        Ok(seconds) => Ok(compose_entry(&record.id, &title, author, seconds)),
        Err(cause) => Err(GitError::CommitTime(cause)),
    }
}

/// A step of a walk that yields a line of the log.
pub open spec fn is_good_step(step: Result<CommitRecord, String>) -> bool {
    step matches Ok(record) && is_readable(record)
}

/// Why a step of a walk yields no line.
pub open spec fn is_step_error(step: Result<CommitRecord, String>, error: GitError) -> bool {
    match step {
        Ok(record) => is_record_error(record, error),
        Err(message) => error == GitError::Failed(message),
    }
}

/// The first items of a list, as many as a log shows at most.
pub open spec fn shown<T>(items: Seq<T>) -> Seq<T> {
    if items.len() <= LOG_LIMIT {
        items
    } else {
        items.take(LOG_LIMIT as int)
    }
}

/// Collects the lines of a log, up to the limit. The first line among these that failed is
/// the error; what comes after the limit is not looked at.
pub fn collect_log(lines: Vec<Result<LogEntry, GitError>>) -> (r: Result<Vec<LogEntry>, GitError>)
    ensures
        match r {
            Ok(entries) => {
                &&& entries.len() == shown(lines@).len()
                &&& forall|i: int|
                    0 <= i < entries.len() ==> lines@[i] == Ok::<LogEntry, GitError>(
                        #[trigger] entries@[i],
                    )
            },
            Err(error) => exists|i: int|
                0 <= i < shown(lines@).len() && #[trigger] lines@[i] == Err::<LogEntry, GitError>(
                    error,
                ) && (forall|j: int| 0 <= j < i ==> (#[trigger] lines@[j]) is Ok),
        },
{
    let ghost all = lines@;
    let mut entries: Vec<LogEntry> = Vec::new();
    for line in iter: lines
        invariant
            iter.seq() == all,
            entries.len() == shown(all.take(iter.index())).len(),
            forall|i: int| 0 <= i < iter.index() && i < LOG_LIMIT ==> (#[trigger] all[i]) is Ok,
            forall|i: int|
                0 <= i < entries.len() ==> all[i] == Ok::<LogEntry, GitError>(
                    #[trigger] entries@[i],
                ),
    {
        if entries.len() < LOG_LIMIT {
            match line {
                Ok(entry) => entries.push(entry),
                Err(error) => {
                    assert(all[iter.index()] == Err::<LogEntry, GitError>(error));
                    return Err(error);
                },
            }
        }
    }
    assert(all.take(all.len() as int) == all);
    Ok(entries)
}

/// Builds the log of a walk through the history, newest commit first: one line for each of
/// the first commits. The first of these that cannot be read is the error; what comes after
/// the limit is not looked at.
pub fn log_from_id(walk: &Vec<Result<CommitRecord, String>>) -> (r: Result<Vec<LogEntry>, GitError>)
    ensures
        match r {
            Ok(entries) => {
                let steps = shown(walk@);
                &&& entries.len() == steps.len()
                &&& forall|i: int|
                    0 <= i < steps.len() ==> is_good_step(#[trigger] steps[i]) && entries@[i]@
                        == log_line(steps[i]->Ok_0)
            },
            Err(error) => exists|i: int|
                0 <= i < shown(walk@).len() && is_step_error(
                    #[trigger] shown(walk@)[i],
                    error,
                ) && !is_good_step(shown(walk@)[i]) && (forall|j: int|
                    0 <= j < i ==> is_good_step(#[trigger] shown(walk@)[j])),
        },
{
    let mut lines: Vec<Result<LogEntry, GitError>> = Vec::new();
    let mut i: usize = 0;
    let ghost steps = shown(walk@);
    while i < walk.len() && i < LOG_LIMIT
        invariant
            steps == shown(walk@),
            i <= steps.len(),
            lines.len() == i,
            forall|j: int|
                0 <= j < i ==> match #[trigger] lines@[j] {
                    Ok(entry) => is_good_step(steps[j]) && entry@ == log_line(steps[j]->Ok_0),
                    Err(error) => !is_good_step(steps[j]) && is_step_error(steps[j], error),
                },
        decreases walk.len() - i,
    {
        assert(steps[i as int] == walk@[i as int]);
        let line = match &walk[i] {
            Ok(record) => log_entry(record),
            Err(message) => Err(GitError::Failed(message.clone())),
        };
        lines.push(line);
        i = i + 1;
    }
    let ghost all = lines@;
    let r = collect_log(lines);
    let ghost result = r;
    proof {
        match result {
            Ok(entries) => {
                assert forall|i: int| 0 <= i < steps.len() implies is_good_step(#[trigger] steps[i])
                    && entries@[i]@ == log_line(steps[i]->Ok_0) by {
                    assert(all[i] == Ok::<LogEntry, GitError>(entries@[i]));
                }
            },
            Err(error) => {
                let i = choose|i: int|
                    0 <= i < all.len() && #[trigger] all[i] == Err::<LogEntry, GitError>(error) && (
                    forall|j: int| 0 <= j < i ==> (#[trigger] all[j]) is Ok);
                assert(is_step_error(steps[i], error));
                assert forall|j: int| 0 <= j < i implies is_good_step(#[trigger] steps[j]) by {
                    assert(all[j] is Ok);
                }
            },
        }
    }
    r
}

/// What is known about where the `HEAD` of a worktree points.
#[derive(Debug)]
pub struct HeadFacts {
    /// The id of the object it leads to, in hexadecimal.
    pub id: Option<String>,
    /// The data of that object, if it is a commit that could be read.
    pub commit: Option<Vec<u8>>,
    /// The full name of the reference that it names.
    pub reference: Option<Vec<u8>>,
}

/// What a list shows of a worktree's `HEAD`.
#[derive(Debug, PartialEq, Eq)]
pub struct HeadDetails {
    pub head: Option<String>,
    pub committed_at: Option<i64>,
    pub branch: Option<String>,
}

/// The time of the commit that `HEAD` leads to.
pub open spec fn head_time(facts: HeadFacts) -> Option<i64> {
    if facts.id is None {
        None
    } else {
        match facts.commit {
            Some(data) => match committer_seconds(data@) {
                Ok(seconds) => Some(seconds),
                Err(_) => None,
            },
            None => None,
        }
    }
}

/// The short name of the branch that `HEAD` names.
pub open spec fn head_branch(facts: HeadFacts) -> Option<Seq<char>> {
    match facts.reference {
        Some(full) => short_name(full@),
        None => None,
    }
}

/// The short id of the object that `HEAD` leads to.
pub open spec fn head_id(facts: HeadFacts) -> Option<Seq<char>> {
    match facts.id {
        Some(id) => Some(first_chars(id@, 8)),
        None => None,
    }
}

/// The text of an optional string.
pub open spec fn opt_text(text: Option<String>) -> Option<Seq<char>> {
    match text {
        Some(text) => Some(text@),
        None => None,
    }
}

/// The details of a `HEAD` for what was read of it: the id in short, the time where there is
/// an id and its commit has one, and the branch.
pub fn compose_head(
    id: &Option<String>,
    seconds: Option<Result<i64, String>>,
    branch: Option<String>,
) -> (r: HeadDetails)
    ensures
        opt_text(r.head) == match id {
            Some(id) => Some(first_chars(id@, 8)),
            None => None,
        },
        r.committed_at == match (id, seconds) {
            (Some(_), Some(Ok(seconds))) => Some(seconds),
            _ => None,
        },
        r.branch == branch,
{
    let head = match id {
        Some(id) => Some(abbreviate_id(id)),
        None => None,
    };
    let committed_at = match (id, seconds) {
        (Some(_), Some(Ok(seconds))) => Some(seconds),
        _ => None,
    };
    HeadDetails { head, committed_at, branch }
}

/// The short id, the time and the branch of a worktree's `HEAD`, as far as they are known.
pub fn head_details(facts: &HeadFacts) -> (r: HeadDetails)
    ensures
        opt_text(r.head) == head_id(*facts),
        r.committed_at == head_time(*facts),
        opt_text(r.branch) == head_branch(*facts),
        forall|name: Seq<char>|
            facts.reference matches Some(full) && full@ == #[trigger] encode_utf8(
                branch_reference(name),
            ) && name_fault(branch_reference(name)) is None ==> opt_text(r.branch) == Some(name),
{
    let seconds = match &facts.commit {
        Some(data) => Some(read_committer_seconds(data)),
        None => None,
    };
    let branch = match &facts.reference {
        Some(full) => shorten(full),
        None => None,
    };
    compose_head(&facts.id, seconds, branch)
}

/// The object that a branch points to.
#[derive(Debug)]
pub enum TipFacts {
    /// It cannot be read, with this message.
    Unreadable(String),
    /// It is something other than a commit.
    NotACommit,
    /// A commit, with its data.
    Commit(Vec<u8>),
}

/// The details of a branch's commit for what was read of its time.
pub fn compose_tip(id: &str, seconds: Result<i64, String>) -> (r: Result<(String, i64), GitError>)
    ensures
        match (seconds, r) {
            (Ok(seconds), Ok((head, committed_at))) => head@ == first_chars(id@, 8) && committed_at
                == seconds,
            (Err(cause), Err(error)) => error == GitError::BranchTime(cause),
            _ => false,
        },
{
    match seconds {
        Ok(seconds) => Ok((abbreviate_id(id), seconds)),
        Err(cause) => Err(GitError::BranchTime(cause)),
    }
}

/// The short id and the time of a branch's commit.
pub fn commit_details(id: &str, tip: &TipFacts) -> (r: Result<(String, i64), GitError>)
    ensures
        match r {
            Ok((head, committed_at)) => {
                &&& is_good_tip(*tip)
                &&& head@ == first_chars(id@, 8)
                &&& committed_at == tip_time(*tip)
            },
            Err(error) => !is_good_tip(*tip) && is_tip_error(*tip, error),
        },
{
    match tip {
        TipFacts::Unreadable(message) => Err(GitError::Failed(message.clone())),
        TipFacts::NotACommit => Err(GitError::NotACommit),
        TipFacts::Commit(data) => compose_tip(id, read_committer_seconds(data)),
    }
}

/// A branch points to a commit whose time can be read.
pub open spec fn is_good_tip(tip: TipFacts) -> bool {
    tip matches TipFacts::Commit(data) && committer_seconds(data@) is Ok
}

/// The time of a branch's commit.
pub open spec fn tip_time(tip: TipFacts) -> i64 {
    committer_seconds(tip->Commit_0@)->Ok_0
}

/// Why the commit of a branch cannot be shown.
pub open spec fn is_tip_error(tip: TipFacts, error: GitError) -> bool {
    match tip {
        TipFacts::Unreadable(message) => error == GitError::Failed(message),
        TipFacts::NotACommit => error is NotACommit,
        TipFacts::Commit(data) => committer_seconds(data@) matches Err(cause)
            && error matches GitError::BranchTime(shown) && shown@ == cause,
    }
}

/// A log shows the newest commits, at most as many as the limit, and all of a shorter history.
pub proof fn logs_are_limited<T>(items: Seq<T>)
    ensures
        shown(items).is_prefix_of(items),
        shown(items).len() <= LOG_LIMIT,
        items.len() <= LOG_LIMIT ==> shown(items) == items,
{
    assert(items.len() <= LOG_LIMIT ==> shown(items) =~= items);
}

/// What is shown of a `HEAD`: the first eight characters of the id that it leads to, the time of
/// that commit where it can be read, and the short name of the reference that it names.
pub proof fn heads_tell_where_they_lead(facts: HeadFacts, seconds: i64)
    ensures
        facts.id is None <==> head_id(facts) is None,
        facts.id matches Some(id) ==> (head_id(facts) matches Some(shown)
            && shown.is_prefix_of(id@) && (id@.len() <= 8 ==> shown == id@) && (id@.len() > 8
            ==> shown.len() == 8)),
        head_time(facts) == Some(seconds) <==> facts.id is Some && (
        facts.commit matches Some(data) && committer_seconds(data@) == Ok::<i64, Seq<char>>(
            seconds,
        )),
        facts.reference is None ==> head_branch(facts) is None,
        facts.reference matches Some(full) ==> head_branch(facts) == short_name(full@),
{
    if let Some(id) = facts.id {
        assert(first_chars(id@, 8).is_prefix_of(id@)) by {
            assert(first_chars(id@, 8) =~= id@.take(first_chars(id@, 8).len() as int));
        }
    }
}

/// A commit is shown exactly where its data, its author and its time decode, by its own id,
/// title, author and time; else the error says which of these does not.
pub proof fn commits_are_shown_as_they_are(record: CommitRecord, error: GitError)
    ensures
        is_readable(record) <==> (decoded_commit(record.data@) matches Ok(fields)
            && fields.author is Ok && fields.seconds is Ok),
        is_readable(record) ==> {
            let fields = decoded_commit(record.data@)->Ok_0;
            let line = log_line(record);
            &&& line.id.is_prefix_of(record.id@)
            &&& record.id@.len() > 8 ==> line.id.len() == 8
            &&& record.id@.len() <= 8 ==> line.id == record.id@
            &&& line.subject == trimmed(lossy_text(fields.title))
            &&& fields.author matches Ok(author) ==> line.author == lossy_text(author)
            &&& fields.seconds == Ok::<i64, Seq<char>>(line.committed_at)
        },
        is_record_error(record, error) ==> {
            let decoded = decoded_commit(record.data@);
            match error {
                GitError::CommitData(told) => decoded == Err::<CommitModel, Seq<char>>(told@),
                GitError::CommitAuthor(told) => decoded matches Ok(fields) && fields.author == Err::<
                    Seq<u8>,
                    Seq<char>,
                >(told@),
                GitError::CommitTime(told) => decoded matches Ok(fields) && fields.author is Ok && (
                fields.seconds == Err::<i64, Seq<char>>(told@)),
                _ => false,
            }
        },
{
    assert(first_chars(record.id@, 8).is_prefix_of(record.id@)) by {
        assert(first_chars(record.id@, 8) =~= record.id@.take(
            first_chars(record.id@, 8).len() as int,
        ));
    }
}

/// A log is cut off behind its first 200 items, and not before.
pub proof fn logs_are_cut_off_late<T>(items: Seq<T>)
    ensures
        items.len() <= 200 ==> shown(items) == items,
        items.len() > 200 ==> shown(items) == items.take(200),
{
}

/// A line of a log stands for its id, subject, author and time, and a log for each of its
/// lines.
pub proof fn log_lines_stand_for_all_they_hold(entry: LogEntry, entries: Seq<LogEntry>)
    ensures
        entry@.id == entry.id@,
        entry@.subject == entry.subject@,
        entry@.author == entry.author@,
        entry@.committed_at == entry.committed_at,
        log_lines(entries).len() == entries.len(),
        forall|i: int| 0 <= i < entries.len() ==> #[trigger] log_lines(entries)[i] == entries[i]@,
{
}

} // verus!
