//! The one-line summary of a commit, as `git log -1 --oneline` prints it.

use vstd::prelude::*;
use vstd::string::*;
use vstd::std_specs::iter::IteratorSpec;
use crate::process::{decode_lossy, lossy_text, ProcessOutput};

verus! {

/// A commit's abbreviated id and the first line of its message.
#[derive(Debug, PartialEq, Eq)]
pub struct GitLog {
    pub commit: String,
    pub title_line: String,
}

/// The mathematical value of a [`GitLog`].
pub struct GitLogView {
    pub commit: Seq<char>,
    pub title_line: Seq<char>,
}

impl View for GitLog {
    type V = GitLogView;

    open spec fn view(&self) -> GitLogView {
        GitLogView { commit: self.commit@, title_line: self.title_line@ }
    }
}

impl Default for GitLog {
    fn default() -> (log: GitLog)
        ensures
            log@.commit == Seq::<char>::empty(),
            log@.title_line == Seq::<char>::empty(),
    {
        GitLog { commit: String::new(), title_line: String::new() }
    }
}

/// A summary line cut at its first space: the id before it, the title after it. A line
/// without a space is all id, and its title is empty.
pub open spec fn split_summary(raw: Seq<char>) -> GitLogView {
    match raw.index_of_first(' ') {
        Some(at) => GitLogView { commit: raw.take(at), title_line: raw.skip(at + 1) },
        None => GitLogView { commit: raw, title_line: Seq::empty() },
    }
}

/// The message for a `git log` that exited with a failure.
pub open spec fn log_failure_text(commit_id: Seq<char>, diagnostic: Seq<char>) -> Seq<char> {
    "failed to execute `git log "@ + commit_id + "`: "@ + diagnostic
}

/// The message for a `git log` that printed nothing.
pub open spec fn log_missing_text(commit_id: Seq<char>) -> Seq<char> {
    "missing log: `git log "@ + commit_id + "`"@
}

/// What a finished `git log` means, given the text of its two streams.
pub open spec fn summary_of(
    commit_id: Seq<char>,
    success: bool,
    printed: Seq<char>,
    diagnostic: Seq<char>,
) -> Result<GitLogView, Seq<char>> {
    if !success {
        Err(log_failure_text(commit_id, diagnostic))
    } else if printed.len() == 0 {
        Err(log_missing_text(commit_id))
    } else {
        Ok(split_summary(printed))
    }
}

/// The view of a summary or of the message in its place.
pub open spec fn summary_view(r: Result<GitLog, String>) -> Result<GitLogView, Seq<char>> {
    match r {
        Ok(log) => Ok(log@),
        Err(message) => Err(message@),
    }
}

/// The position of the first space of `text`, if it has one.
pub fn find_space(text: &str) -> (at: Option<usize>)
    ensures
        match at {
            Some(i) => text@.index_of_first(' ') == Some(i as int),
            None => text@.index_of_first(' ') is None,
        },
{
    let count: usize = text.unicode_len();
    let mut rest = text.chars();
    let mut i: usize = 0;
    loop
        invariant
            count == text@.len(),
            i <= count,
            forall|j: int| 0 <= j < i ==> text@[j] != ' ',
            rest.remaining() == text@.skip(i as int),
        decreases count - i,
    {
        proof {
            text@.index_of_first_ensures(' ');
        }
        match rest.next() {
            Some(c) => {
                if c == ' ' {
                    return Some(i);
                }
                i = i + 1;
            },
            None => {
                return None;
            },
        }
    }
}

/// Cuts a summary line into id and title.
pub fn parse_summary(raw: &str) -> (log: GitLog)
    ensures
        log@ == split_summary(raw@),
{
    match find_space(raw) {
        Some(at) => {
            let count: usize = raw.unicode_len();
            proof {
                raw@.index_of_first_ensures(' ');
            }
            let commit = raw.substring_char(0, at).to_owned();
            let title_line = raw.substring_char(at + 1, count).to_owned();
            GitLog { commit, title_line }
        },
        None => GitLog { commit: raw.to_owned(), title_line: String::new() },
    }
}

/// Builds the message for a `git log` that exited with a failure.
pub fn log_failure_message(commit_id: &str, diagnostic: &str) -> (message: String)
    ensures
        message@ == log_failure_text(commit_id@, diagnostic@),
{
    let mut message = String::from_str("failed to execute `git log ");
    message.append(commit_id);
    message.append("`: ");
    message.append(diagnostic);
    message
}

/// Builds the message for a `git log` that printed nothing.
pub fn log_missing_message(commit_id: &str) -> (message: String)
    ensures
        message@ == log_missing_text(commit_id@),
{
    let mut message = String::from_str("missing log: `git log ");
    message.append(commit_id);
    message.append("`");
    message
}

/// Reads the summary of `commit_id` off what `git log -1 --oneline` left behind.
///
/// A failed run gives the failure message with the decoded diagnostics, a run that
/// printed nothing gives the missing-log message, and any other run gives the printed
/// text cut at its first space.
pub fn git_log(commit_id: &str, output: &ProcessOutput) -> (r: Result<GitLog, String>)
    ensures
        summary_view(r) == summary_of(
            commit_id@,
            output.success,
            lossy_text(output.stdout@),
            lossy_text(output.stderr@),
        ),
{
    if !output.success {
        let diagnostic = decode_lossy(output.stderr.as_slice());
        return Err(log_failure_message(commit_id, diagnostic.as_str()));
    }
    let printed = decode_lossy(output.stdout.as_slice());
    if printed.as_str().is_empty() {
        return Err(log_missing_message(commit_id));
    }
    Ok(parse_summary(printed.as_str()))
}

} // verus!
