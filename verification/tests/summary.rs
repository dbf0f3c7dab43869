use git_blame_pr::log::{
    find_space, git_log, log_failure_message, log_missing_message, parse_summary, GitLog,
};
use git_blame_pr::process::ProcessOutput;

fn finished(success: bool, stdout: &[u8], stderr: &[u8]) -> ProcessOutput {
    ProcessOutput { success, stdout: stdout.to_vec(), stderr: stderr.to_vec() }
}

#[test]
fn summary_splits_at_first_space() {
    let log = parse_summary("a1b2c3d Fix bug");
    assert_eq!(log.commit, "a1b2c3d");
    assert_eq!(log.title_line, "Fix bug");
}

#[test]
fn summary_without_space_is_all_commit() {
    let log = parse_summary("a1b2c3d");
    assert_eq!(log.commit, "a1b2c3d");
    assert_eq!(log.title_line, "");
}

#[test]
fn summary_keeps_later_spaces_in_title() {
    let log = parse_summary("a1b2c3d  two  spaces ");
    assert_eq!(log.commit, "a1b2c3d");
    assert_eq!(log.title_line, " two  spaces ");
}

#[test]
fn summary_with_leading_space_has_empty_commit() {
    let log = parse_summary(" title only");
    assert_eq!(log.commit, "");
    assert_eq!(log.title_line, "title only");
}

#[test]
fn summary_ending_in_space_has_empty_title() {
    let log = parse_summary("a1b2c3d ");
    assert_eq!(log.commit, "a1b2c3d");
    assert_eq!(log.title_line, "");
}

#[test]
fn summary_of_empty_text_is_empty() {
    assert_eq!(parse_summary(""), GitLog { commit: String::new(), title_line: String::new() });
}

#[test]
fn summary_counts_characters_not_bytes() {
    let log = parse_summary("h\u{e9}llo w\u{f6}rld and more");
    assert_eq!(log.commit, "h\u{e9}llo");
    assert_eq!(log.title_line, "w\u{f6}rld and more");
}

#[test]
fn summary_agrees_with_split_once() {
    let samples = ["", " ", "a", "a b", "a b c", "  x", "abc\tdef ghi", "no-space-here\n", "x \n"];
    for raw in samples {
        let log = parse_summary(raw);
        match raw.split_once(' ') {
            Some((commit, title)) => {
                assert_eq!(log.commit, commit);
                assert_eq!(log.title_line, title);
            }
            None => {
                assert_eq!(log.commit, raw);
                assert_eq!(log.title_line, "");
            }
        }
    }
}

#[test]
fn find_space_gives_first_position() {
    assert_eq!(find_space("a1b2c3d Fix bug"), Some(7));
    assert_eq!(find_space(" x y"), Some(0));
    assert_eq!(find_space("\u{e9}\u{e9} x"), Some(2));
    assert_eq!(find_space("nospace"), None);
    assert_eq!(find_space(""), None);
    assert_eq!(find_space("tab\tonly"), None);
}

#[test]
fn default_log_is_empty() {
    let log = GitLog::default();
    assert_eq!(log.commit, "");
    assert_eq!(log.title_line, "");
}

#[test]
fn log_messages_have_their_exact_text() {
    assert_eq!(
        log_failure_message("abc123", "fatal: bad object abc123\n"),
        "failed to execute `git log abc123`: fatal: bad object abc123\n"
    );
    assert_eq!(log_missing_message("abc123"), "missing log: `git log abc123`");
}

#[test]
fn git_log_reads_a_successful_run() {
    let output = finished(true, b"a1b2c3d Merge pull request #42 from foo/bar\n", b"");
    let log = git_log("a1b2c3d4e5f6", &output).unwrap();
    assert_eq!(log.commit, "a1b2c3d");
    assert_eq!(log.title_line, "Merge pull request #42 from foo/bar\n");
}

#[test]
fn git_log_allows_an_empty_message() {
    let output = finished(true, b"a1b2c3d", b"");
    let log = git_log("a1b2c3d4e5f6", &output).unwrap();
    assert_eq!(log.commit, "a1b2c3d");
    assert_eq!(log.title_line, "");
}

#[test]
fn git_log_reports_a_failed_run() {
    let output = finished(false, b"ignored", b"fatal: bad object deadbeef\n");
    assert_eq!(
        git_log("deadbeef", &output),
        Err(String::from("failed to execute `git log deadbeef`: fatal: bad object deadbeef\n"))
    );
}

#[test]
fn git_log_reports_missing_output() {
    let output = finished(true, b"", b"some warning");
    assert_eq!(git_log("deadbeef", &output), Err(String::from("missing log: `git log deadbeef`")));
}

#[test]
fn git_log_failure_wins_over_missing_output() {
    let output = finished(false, b"", b"");
    assert_eq!(git_log("c0ffee", &output), Err(String::from("failed to execute `git log c0ffee`: ")));
}

#[test]
fn git_log_decodes_ill_formed_bytes_lossily() {
    let output = finished(true, b"a1b2c3d caf\xff latte", b"");
    let log = git_log("a1b2c3d", &output).unwrap();
    assert_eq!(log.commit, "a1b2c3d");
    assert_eq!(log.title_line, "caf\u{fffd} latte");
    let failed = finished(false, b"", b"bad \xc3\x28 bytes");
    assert_eq!(
        git_log("a1b2c3d", &failed),
        Err(String::from("failed to execute `git log a1b2c3d`: bad \u{fffd}( bytes"))
    );
}

#[test]
fn git_log_decodes_well_formed_utf8() {
    let output = finished(true, "a1b2c3d \u{4fee}\u{6b63} fix".as_bytes(), b"");
    let log = git_log("a1b2c3d", &output).unwrap();
    assert_eq!(log.title_line, "\u{4fee}\u{6b63} fix");
}
