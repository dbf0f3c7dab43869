//! From a commit's summary to the pull request that it merged.

use vstd::prelude::*;
use vstd::string::*;
use crate::log::{git_log, summary_of, GitLogView};
use crate::process::{lossy_text, ProcessOutput};

verus! {

/// The error that the `regex` crate reports for a pattern it cannot compile.
#[verifier::external_type_specification]
#[verifier::external_body]
pub struct ExRegexError(regex::Error);

/// Whether `regex::Regex::new` accepts `pattern`.
pub uninterp spec fn regex_compiles(pattern: Seq<char>) -> bool;

/// What capture group `group` holds in the leftmost match of `pattern` in `haystack`:
/// `None` where the pattern matches nowhere, or the group took no part in the match.
pub uninterp spec fn regex_group(pattern: Seq<char>, haystack: Seq<char>, group: usize) -> Option<
    Seq<char>,
>;

/// The view of an optional string.
pub open spec fn text_view(text: Option<String>) -> Option<Seq<char>> {
    match text {
        Some(t) => Some(t@),
        None => None,
    }
}

/// Compiles `pattern` with `regex::Regex::new`, searches `haystack` with
/// `Regex::captures`, and copies out the text of capture group `group`
/// (`Captures::get`, `Match::as_str`).
///
/// Trusted: the call fails exactly on the patterns that the crate does not compile, and
/// otherwise the text handed back is a function of the three arguments, named
/// [`regex_group`]. What the pattern language means is not stated here.
#[verifier::external_body]
pub(crate) fn capture_group(pattern: &str, haystack: &str, group: usize) -> (r: Result<
    Option<String>,
    regex::Error,
>)
    ensures
        r.is_ok() == regex_compiles(pattern@),
        r matches Ok(found) ==> text_view(found) == regex_group(pattern@, haystack@, group),
{
    let re = regex::Regex::new(pattern)?;
    Ok(re.captures(haystack).and_then(|caps| caps.get(group)).map(|m| String::from(m.as_str())))
}

/// The pattern of a merge-commit title: the words "merge pull request" or "merge pr" in
/// any case, an optional `#`, the number, and one character of white space after it.
pub const MERGE_PATTERN: &'static str = r"(?i)Merge\s+(?:pull\s+request|pr)\s+#?(\d+)\s";

/// The capture group of [`MERGE_PATTERN`] that holds the number.
pub const NUMBER_GROUP: usize = 1;

/// The label of pull request `number`.
pub open spec fn pr_label_text(number: Seq<char>) -> Seq<char> {
    "PR#"@ + number
}

/// The label that a commit title gives: that of the pull request it names, if it is the
/// title of a merge.
pub open spec fn title_label(title: Seq<char>) -> Option<Seq<char>> {
    if regex_compiles(MERGE_PATTERN@) {
        match regex_group(MERGE_PATTERN@, title, NUMBER_GROUP) {
            Some(number) => Some(pr_label_text(number)),
            None => None,
        }
    } else {
        None
    }
}

/// Builds the label of pull request `number`, digits kept as they are.
pub fn pr_label(number: &str) -> (label: String)
    ensures
        label@ == pr_label_text(number@),
{
    let mut label = String::from_str("PR#");
    label.append(number);
    label
}

/// The label for a title in which the merge pattern captured `number`.
pub fn label_of_capture(number: Option<String>) -> (label: Option<String>)
    ensures
        text_view(label) == match text_view(number) {
            Some(n) => Some(pr_label_text(n)),
            None => None,
        },
{
    match number {
        Some(n) => Some(pr_label(n.as_str())),
        None => None,
    }
}

/// Looks for a pull request in a commit title.
pub fn resolve_title(title: &str) -> (label: Option<String>)
    ensures
        text_view(label) == title_label(title@),
{
    match capture_group(MERGE_PATTERN, title, NUMBER_GROUP) {
        Ok(number) => label_of_capture(number),
        Err(_) => None,
    }
}

/// The label that the outcome of a `git log` gives.
pub open spec fn label_of_summary(summary: Result<GitLogView, Seq<char>>) -> Option<Seq<char>> {
    match summary {
        Ok(log) => title_label(log.title_line),
        Err(_) => None,
    }
}

/// Resolves `commit` to the label of its pull request, from what `git log -1 --oneline`
/// left behind for it. A lookup that failed resolves to nothing, as does a title that is
/// not the title of a merge.
pub fn lookup_pr(commit: &str, output: &ProcessOutput) -> (label: Option<String>)
    ensures
        text_view(label) == label_of_summary(
            summary_of(
                commit@,
                output.success,
                lossy_text(output.stdout@),
                lossy_text(output.stderr@),
            ),
        ),
{
    match git_log(commit, output) {
        Ok(log) => resolve_title(log.title_line.as_str()),
        Err(_) => None,
    }
}

} // verus!
