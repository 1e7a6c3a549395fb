//! What `gix` reads out of reference names and commit objects.

use vstd::prelude::*;
use vstd::utf8::encode_utf8;

use crate::error::GitError;
use crate::text::concat;

verus! {

/// The text of bytes that are meant to be UTF-8, with a replacement character for what is not.
pub uninterp spec fn lossy_text(bytes: Seq<u8>) -> Seq<char>;

/// Calls `gix::bstr::ByteSlice::to_str_lossy`. Claimed of it: the text depends on the bytes
/// alone, and the bytes of a text give back that text.
#[verifier::external_body]
pub(crate) fn to_text(bytes: &Vec<u8>) -> (r: String)
    ensures
        r@ == lossy_text(bytes@),
        forall|text: Seq<char>| bytes@ == #[trigger] encode_utf8(text) ==> r@ == text,
{
    gix::bstr::ByteSlice::to_str_lossy(bytes.as_slice()).into_owned()
}

/// Why a text is not a full reference name, or `None` where it is one.
pub uninterp spec fn name_fault(text: Seq<char>) -> Option<Seq<char>>;

/// Calls `gix::refs::FullName::try_from`. Claimed of it: whether the text is a full
/// reference name, and the error with its causes where it is not, depend on the text alone.
#[verifier::external_body]
pub(crate) fn find_name_fault(text: &str) -> (r: Option<String>)
    ensures
        match r {
            Some(fault) => name_fault(text@) == Some(fault@),
            None => name_fault(text@) is None,
        },
{
    let fault = gix::refs::FullName::try_from(text).err();
    fault.map(|error| format!("{:#}", anyhow::Error::from(error)))
}

/// The short form of a full reference name, or `None` for bytes that are no such name.
pub uninterp spec fn short_name(full: Seq<u8>) -> Option<Seq<char>>;

/// Calls `gix::refs::FullName::shorten`. Claimed of it: the short name depends on the full
/// name alone; the bytes of a text have one if the text is a full reference name; and of a
/// name under `refs/heads/` it is what follows that prefix.
#[verifier::external_body]
pub(crate) fn shorten(full: &Vec<u8>) -> (r: Option<String>)
    ensures
        match r {
            Some(short) => short_name(full@) == Some(short@),
            None => short_name(full@) is None,
        },
        forall|text: Seq<char>|
            full@ == #[trigger] encode_utf8(text) ==> (r is Some <==> name_fault(text) is None),
        forall|name: Seq<char>|
            full@ == #[trigger] encode_utf8("refs/heads/"@ + name) ==> (r matches Some(short)
                ==> short@ == name),
{
    let name: &gix::bstr::BStr = full.as_slice().into();
    gix::refs::FullName::try_from(name).ok().map(|name| name.shorten().to_string())
}

/// The fields of a commit that the history shows.
#[derive(Debug)]
pub struct CommitFields {
    /// The first paragraph of the message.
    pub title: Vec<u8>,
    /// The author's name, or why there is none.
    pub author: Result<Vec<u8>, String>,
    /// The time of the commit in seconds since the Unix epoch, or why there is none.
    pub seconds: Result<i64, String>,
}

/// What the fields of a commit stand for.
pub struct CommitModel {
    pub title: Seq<u8>,
    pub author: Result<Seq<u8>, Seq<char>>,
    pub seconds: Result<i64, Seq<char>>,
}

impl View for CommitFields {
    type V = CommitModel;

    open spec fn view(&self) -> CommitModel {
        CommitModel {
            title: self.title@,
            author: match self.author {
                Ok(name) => Ok(name@),
                Err(cause) => Err(cause@),
            },
            seconds: match self.seconds {
                Ok(seconds) => Ok(seconds),
                Err(cause) => Err(cause@),
            },
        }
    }
}

/// The fields of a commit object, or why its data is no commit.
pub uninterp spec fn decoded_commit(data: Seq<u8>) -> Result<CommitModel, Seq<char>>;

/// Calls `gix::objs::CommitRef::from_bytes` and reads the message's title, the author and
/// the time. Claimed of it: the fields depend on the object's data alone. Ids in the data
/// are SHA-1.
#[verifier::external_body]
pub(crate) fn decode_commit(data: &Vec<u8>) -> (r: Result<CommitFields, String>)
    ensures
        match r {
            Ok(fields) => decoded_commit(data@) == Ok::<CommitModel, Seq<char>>(fields@),
            Err(cause) => decoded_commit(data@) == Err::<CommitModel, Seq<char>>(cause@),
        },
{
    match gix::objs::CommitRef::from_bytes(data, gix::hash::Kind::Sha1) {
        Ok(commit) => Ok(CommitFields {
            title: commit.message().title.to_vec(),
            author: commit.author().map(|author| author.name.to_vec()).map_err(
                |error| format!("{:#}", anyhow::Error::from(error)),
            ),
            seconds: commit.time().map(|time| time.seconds).map_err(
                |error| format!("{:#}", anyhow::Error::from(error)),
            ),
        }),
        Err(error) => Err(format!("{:#}", anyhow::Error::from(error))),
    }
}

/// The time in a commit's committer line, in seconds since the Unix epoch, or why it cannot
/// be read.
pub uninterp spec fn committer_seconds(data: Seq<u8>) -> Result<i64, Seq<char>>;

/// Calls `gix::objs::CommitRefIter::committer` on a commit's data and reads the time of the
/// signature, with its failures as `gix::object::commit::Error` tells them. Claimed of it: the
/// result depends on the data alone. Ids in the data are SHA-1.
#[verifier::external_body]
pub(crate) fn read_committer_seconds(data: &Vec<u8>) -> (r: Result<i64, String>)
    ensures
        match r {
            Ok(seconds) => committer_seconds(data@) == Ok::<i64, Seq<char>>(seconds),
            Err(cause) => committer_seconds(data@) == Err::<i64, Seq<char>>(cause@),
        },
{
    let time = match gix::objs::CommitRefIter::from_bytes(data, gix::hash::Kind::Sha1).committer() {
        Ok(signature) => signature.trim().time().map_err(gix::object::commit::Error::from),
        Err(error) => Err(gix::object::commit::Error::from(error)),
    };
    time.map(|time| time.seconds).map_err(|error| format!("{:#}", anyhow::Error::from(error)))
}

/// The full name of the local branch `name`.
pub open spec fn branch_reference(name: Seq<char>) -> Seq<char> {
    "refs/heads/"@ + name
}

/// The full reference name of a local branch, given what is wrong with it.
pub fn compose_reference(name: &str, fault: Option<String>) -> (r: Result<String, GitError>)
    ensures
        match (fault, r) {
            (None, Ok(full)) => full@ == branch_reference(name@),
            (Some(fault), Err(GitError::InvalidBranchName(shown, cause))) => shown@ == name@ && cause
                == fault,
            _ => false,
        },
{
    match fault {
        None => Ok(concat("refs/heads/", name)),
        Some(cause) => Err(GitError::InvalidBranchName(name.to_owned(), cause)),
    }
}

/// The full reference name of a local branch, if there can be a branch of that name.
pub fn local_branch_reference(name: &str) -> (r: Result<String, GitError>)
    ensures
        match r {
            Ok(full) => full@ == branch_reference(name@) && name_fault(full@) is None,
            Err(error) => error matches GitError::InvalidBranchName(shown, cause) && shown@ == name@
                && name_fault(branch_reference(name@)) == Some(cause@),
        },
{
    let full = concat("refs/heads/", name);
    compose_reference(name, find_name_fault(&full))
}

} // verus!
