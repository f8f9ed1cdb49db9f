//! Resolution of the commit behind a line, and its rendering for a hover.

use vstd::prelude::*;
use crate::date_time::{date_in_range, humanize, humanized, DATE_RANGE_SECONDS};
use crate::text::{
    find_blank_line, first_blank_line, is_trimmed, lemma_trim_idempotent,
    lemma_trimmed_has_no_white_ends, trim_text, trimmed,
};

verus! {

/// The commit that a run of lines is attributed to.
#[derive(Debug, PartialEq, Eq)]
pub enum CommitRef {
    /// A recorded commit, by its hexadecimal id.
    Committed(String),
    /// Lines changed in the working tree and not yet committed.
    Uncommitted,
}

/// A run of consecutive lines attributed to one commit.
#[derive(Debug, PartialEq, Eq)]
pub struct Hunk {
    pub lines: usize,
    pub commit: CommitRef,
}

/// What the version-control backend tells of a commit.
#[derive(Debug, PartialEq, Eq)]
pub struct CommitInfo {
    /// Full hexadecimal id.
    pub id: String,
    pub author: Option<String>,
    pub message: Option<String>,
    /// Commit time as unix seconds.
    pub time: i64,
}

/// The parts of a commit that a hover shows.
#[derive(Debug, PartialEq, Eq)]
pub struct AttributionRecord {
    pub author: String,
    pub timestamp: i64,
    pub short_id: String,
    pub subject: String,
    pub body: String,
}

#[derive(Clone, Copy, Debug, PartialEq, Eq, Structural)]
pub enum BlameError {
    /// The file does not lie under the repository's working directory.
    NotInWorkdir,
    /// The line lies past the lines that the blame covers.
    LineNotFound,
    /// The commit has no readable author name.
    MissingAuthor,
    /// The commit has no readable message.
    MissingMessage,
    /// The commit time lies outside the calendar's range.
    TimeOutOfRange,
    /// The backend could not produce the commit that the blame named.
    CommitNotFound,
}

pub const UNCOMMITTED_TEXT: &'static str = "Uncommitted changes";

pub const SHORT_ID_LEN: usize = 8;

/// One past the last one-indexed line covered by the first `n` hunks.
pub open spec fn covered(hunks: Seq<Hunk>, n: int) -> int
    decreases n,
{
    if n <= 0 {
        1
    } else {
        covered(hunks, n - 1) + hunks[n - 1].lines
    }
}

/// The hunk that holds the one-indexed `line`: the first whose end, counted
/// from the start of the file, lies past it.
pub open spec fn hunk_index(hunks: Seq<Hunk>, line: int) -> Option<int> {
    if exists|i: int| 0 <= i < hunks.len() && line < #[trigger] covered(hunks, i + 1) {
        Some(
            choose|i: int|
                0 <= i < hunks.len() && line < #[trigger] covered(hunks, i + 1) && forall|j: int|
                    0 <= j < i ==> line >= #[trigger] covered(hunks, j + 1),
        )
    } else {
        None
    }
}

/// Index of the hunk that holds the one-indexed `line`.
pub fn get_hunk_for_line(hunks: &Vec<Hunk>, line: u64) -> (r: Result<usize, BlameError>)
    ensures
        r matches Ok(i) ==> hunk_index(hunks@, line as int) == Some(i as int) && i < hunks@.len(),
        r matches Err(e) ==> e == BlameError::LineNotFound && hunk_index(hunks@, line as int) is None,
{
    let mut current: u64 = 1;
    let mut i: usize = 0;
    while i < hunks.len()
        invariant
            i <= hunks.len(),
            current as int == covered(hunks@, i as int),
            i > 0 ==> current <= line,
            forall|j: int| 0 <= j < i ==> line >= #[trigger] covered(hunks@, j + 1),
        decreases hunks.len() - i,
    {
        let n = hunks[i].lines as u64;
        if line < current || line - current < n {
            proof {
                assert(line < covered(hunks@, i + 1));
                let k = choose|k: int|
                    0 <= k < hunks@.len() && line < #[trigger] covered(hunks@, k + 1) && forall|
                        j: int,
                    | 0 <= j < k ==> line >= #[trigger] covered(hunks@, j + 1);
                if k < i {
                } else if k > i {
                    assert(line >= covered(hunks@, i + 1));
                }
            }
            return Ok(i);
        }
        current = current + n;
        i = i + 1;
    }
    proof {
        assert forall|k: int| 0 <= k < hunks@.len() implies line >= #[trigger] covered(
            hunks@,
            k + 1,
        ) by {}
    }
    Err(BlameError::LineNotFound)
}


/// The commit behind the zero-indexed line, if the hunks cover it.
pub open spec fn commit_at(hunks: Seq<Hunk>, zero_indexed_line: int) -> Option<CommitRef> {
    match hunk_index(hunks, zero_indexed_line + 1) {
        Some(i) => Some(hunks[i].commit),
        None => None,
    }
}

fn copy_commit_ref(c: &CommitRef) -> (r: CommitRef)
    ensures
        r == *c,
{
    match c {
        CommitRef::Committed(id) => CommitRef::Committed(id.clone()),
        CommitRef::Uncommitted => CommitRef::Uncommitted,
    }
}

/// The commit behind a zero-indexed line; the hunks count lines from one.
pub fn resolve_line(hunks: &Vec<Hunk>, zero_indexed_line: u32) -> (r: Result<CommitRef, BlameError>)
    ensures
        r matches Ok(c) ==> commit_at(hunks@, zero_indexed_line as int) == Some(c),
        r is Err ==> r == Err::<CommitRef, BlameError>(BlameError::LineNotFound) && commit_at(
            hunks@,
            zero_indexed_line as int,
        ) is None,
{
    let line = zero_indexed_line as u64 + 1;
    match get_hunk_for_line(hunks, line) {
        Ok(i) => Ok(copy_commit_ref(&hunks[i].commit)),
        Err(e) => Err(e),
    }
}

/// The subject of a message: the text up to its first blank line.
pub open spec fn subject_of(msg: Seq<char>) -> Seq<char> {
    match first_blank_line(msg) {
        Some(i) => msg.take(i),
        None => msg,
    }
}

/// The body of a message: the text after its first blank line.
pub open spec fn body_of(msg: Seq<char>) -> Seq<char> {
    match first_blank_line(msg) {
        Some(i) => msg.skip(i + 2),
        None => Seq::empty(),
    }
}

/// The first eight characters of a commit id.
pub open spec fn short_id_of(id: Seq<char>) -> Seq<char> {
    if id.len() <= SHORT_ID_LEN {
        id
    } else {
        id.take(SHORT_ID_LEN as int)
    }
}

/// Why no record can be made of `commit`, if there is a reason.
pub open spec fn record_error(commit: CommitInfo) -> Option<BlameError> {
    if commit.message is None {
        Some(BlameError::MissingMessage)
    } else if commit.author is None {
        Some(BlameError::MissingAuthor)
    } else if !date_in_range(commit.time) {
        Some(BlameError::TimeOutOfRange)
    } else {
        None
    }
}

/// The record made of `commit`, when `record_error(commit)` is `None`.
pub open spec fn record_of(commit: CommitInfo, r: AttributionRecord) -> bool {
    let msg = trimmed(commit.message->Some_0@);
    &&& r.author@ == commit.author->Some_0@
    &&& r.timestamp == commit.time
    &&& r.short_id@ == short_id_of(commit.id@)
    &&& r.subject@ == subject_of(msg)
    &&& r.body@ == body_of(msg)
}

/// Text of a record before trimming: subject in bold, then author, time and
/// short id in italics, then a blank line and the body.
pub open spec fn raw_text(
    author: Seq<char>,
    when: Seq<char>,
    short_id: Seq<char>,
    subject: Seq<char>,
    body: Seq<char>,
) -> Seq<char> {
    "**"@ + subject + "**\n*"@ + author + " \u{2022} "@ + when + " \u{2022} "@ + short_id
        + "*\n\n"@ + body
}

/// How `r` is shown when the time is `now`.
pub open spec fn rendered(r: AttributionRecord, now: int) -> Seq<char> {
    trimmed(
        raw_text(r.author@, humanized(r.timestamp as int, now), r.short_id@, r.subject@, r.body@),
    )
}

/// Rendered text has no white space at either end, whatever the body (an
/// empty one too), so trimming it again leaves it as it is.
pub proof fn lemma_rendered_text_is_trimmed(r: AttributionRecord, now: int)
    ensures
        is_trimmed(rendered(r, now)),
        trimmed(rendered(r, now)) == rendered(r, now),
{
    let raw = raw_text(r.author@, humanized(r.timestamp as int, now), r.short_id@, r.subject@, r.body@);
    lemma_trimmed_has_no_white_ends(raw);
    lemma_trim_idempotent(raw);
}

/// Splits off subject, body and short id from what the backend gave.
pub fn attribution_record(commit: &CommitInfo) -> (r: Result<AttributionRecord, BlameError>)
    ensures
        record_error(*commit) matches Some(e) ==> r == Err::<AttributionRecord, BlameError>(e),
        record_error(*commit) is None ==> (r matches Ok(rec) && record_of(*commit, rec)),
{
    let message = match &commit.message {
        Some(m) => m,
        None => return Err(BlameError::MissingMessage),
    };
    let author = match &commit.author {
        Some(a) => a,
        None => return Err(BlameError::MissingAuthor),
    };
    if commit.time < -DATE_RANGE_SECONDS || commit.time > DATE_RANGE_SECONDS {
        return Err(BlameError::TimeOutOfRange);
    }
    let msg = trim_text(message.as_str());
    let n = msg.unicode_len();
    let (subject, body) = match find_blank_line(msg) {
        Some(i) => (msg.substring_char(0, i), msg.substring_char(i + 2, n)),
        None => (msg, msg.substring_char(n, n)),
    };
    let id_len = commit.id.as_str().unicode_len();
    let short_len = if id_len <= SHORT_ID_LEN {
        id_len
    } else {
        SHORT_ID_LEN
    };
    let short_id = commit.id.as_str().substring_char(0, short_len);
    proof {
        assert(msg@.subrange(n as int, n as int) == Seq::<char>::empty());
        assert(commit.id@.subrange(0, id_len as int) == commit.id@);
    }
    Ok(
        AttributionRecord {
            author: author.clone(),
            timestamp: commit.time,
            short_id: short_id.to_owned(),
            subject: subject.to_owned(),
            body: body.to_owned(),
        },
    )
}

/// Markdown text of `record` as seen at unix time `now`, without white space
/// at either end.
pub fn render(record: &AttributionRecord, now: i64) -> (r: String)
    requires
        date_in_range(record.timestamp),
    ensures
        r@ == rendered(*record, now as int),
        is_trimmed(r@),
{
    let when = humanize(record.timestamp, now);
    let text = String::from_str("**").concat(record.subject.as_str()).concat("**\n*").concat(
        record.author.as_str(),
    ).concat(" \u{2022} ").concat(when.as_str()).concat(" \u{2022} ").concat(
        record.short_id.as_str(),
    ).concat("*\n\n").concat(record.body.as_str());
    proof {
        lemma_trimmed_has_no_white_ends(text@);
    }
    trim_text(text.as_str()).to_owned()
}


/// The hover text of a commit, or why there is none.
pub fn format_blame_text(commit: &CommitInfo, now: i64) -> (r: Result<String, BlameError>)
    ensures
        record_error(*commit) matches Some(e) ==> r == Err::<String, BlameError>(e),
        record_error(*commit) is None ==> (r matches Ok(s) && exists|rec: AttributionRecord|
            record_of(*commit, rec) && s@ == rendered(rec, now as int)),
        r matches Ok(s) ==> is_trimmed(s@),
{
    match attribution_record(commit) {
        Ok(rec) => Ok(render(&rec, now)),
        Err(e) => Err(e),
    }
}

/// The hover text of the zero-indexed line that `hunks` attribute. An
/// uncommitted line needs no lookup; for a committed one `find_commit`
/// fetches the commit by its id.
pub fn get_blame_text<F>(hunks: &Vec<Hunk>, zero_indexed_line: u32, find_commit: F, now: i64) -> (r:
    Result<String, BlameError>) where F: FnOnce(&String) -> Option<CommitInfo>
    requires
        forall|id: &String| find_commit.requires((id,)),
    ensures
        commit_at(hunks@, zero_indexed_line as int) is None ==> r == Err::<String, BlameError>(
            BlameError::LineNotFound,
        ),
        commit_at(hunks@, zero_indexed_line as int) == Some(CommitRef::Uncommitted) ==> (r matches Ok(
            s,
        ) && s@ == UNCOMMITTED_TEXT@),
        commit_at(hunks@, zero_indexed_line as int) matches Some(CommitRef::Committed(id)) ==> exists|
            found: Option<CommitInfo>,
        |
            #![trigger find_commit.ensures((&id,), found)]
            find_commit.ensures((&id,), found) && match found {
                None => r == Err::<String, BlameError>(BlameError::CommitNotFound),
                Some(c) => match record_error(c) {
                    Some(e) => r == Err::<String, BlameError>(e),
                    None => r matches Ok(s) && exists|rec: AttributionRecord|
                        record_of(c, rec) && s@ == rendered(rec, now as int),
                },
            },
{
    match resolve_line(hunks, zero_indexed_line) {
        Err(e) => Err(e),
        Ok(CommitRef::Uncommitted) => Ok(String::from_str(UNCOMMITTED_TEXT)),
        Ok(CommitRef::Committed(id)) => match find_commit(&id) {
            None => Err(BlameError::CommitNotFound),
            Some(c) => format_blame_text(&c, now),
        },
    }
}

/// What a hover shows for the outcome of a blame: a line past the blamed
/// lines shows nothing, other failures are passed on.
pub fn hover_contents(outcome: Result<String, BlameError>) -> (r: Result<Option<String>, BlameError>)
    ensures
        outcome matches Ok(s) ==> r == Ok::<Option<String>, BlameError>(Some(s)),
        outcome == Err::<String, BlameError>(BlameError::LineNotFound) ==> r == Ok::<
            Option<String>,
            BlameError,
        >(None),
        outcome is Err && outcome->Err_0 != BlameError::LineNotFound ==> r == Err::<
            Option<String>,
            BlameError,
        >(outcome->Err_0),
{
    match outcome {
        Ok(s) => Ok(Some(s)),
        Err(BlameError::LineNotFound) => Ok(None),
        Err(e) => Err(e),
    }
}

} // verus!
