use git_blame_pr::blame::{
    abbreviate, blame_failure_message, char_width, check_headers, git_blame, is_white_space,
    BlameRecord, SHORT_ID_BYTES,
};
use git_blame_pr::process::ProcessOutput;

fn blame_output(stdout: &str) -> ProcessOutput {
    ProcessOutput { success: true, stdout: stdout.as_bytes().to_vec(), stderr: Vec::new() }
}

fn porcelain_entry(commit: &str, source_line: usize, line: usize, content: &str) -> String {
    let mut text = String::new();
    text.push_str(&format!("{} {} {} 1\n", commit, source_line, line));
    text.push_str("author A U Thor\n");
    text.push_str("author-mail <author@example.com>\n");
    text.push_str("author-time 1744981061\n");
    text.push_str("author-tz +0900\n");
    text.push_str("committer C O Mitter\n");
    text.push_str("committer-mail <committer@example.com>\n");
    text.push_str("committer-time 1744981061\n");
    text.push_str("committer-tz +0900\n");
    text.push_str("summary Update README.md\n");
    text.push_str("filename README.md\n");
    text.push_str(&format!("\t{}\n", content));
    text
}

fn outside_short_commit(commit: &str) -> String {
    let blame = git_blame_parser::Blame { commit: String::from(commit), ..Default::default() };
    blame.short_commit()
}

#[test]
fn short_id_is_first_seven_characters() {
    assert_eq!(abbreviate("abcdefghijklmnopqrstuvwxyz1234567890abcd"), "abcdefg");
    assert_eq!(abbreviate("c9a79e91e05355fc42ec519593806466c2f66de0"), "c9a79e9");
    assert_eq!(SHORT_ID_BYTES, 7);
}

#[test]
fn short_id_of_short_commit_is_whole() {
    assert_eq!(abbreviate("abc"), "abc");
    assert_eq!(abbreviate("abcdef1"), "abcdef1");
    assert_eq!(abbreviate(""), "");
}

#[test]
fn short_id_counts_bytes_of_wide_characters() {
    assert_eq!(abbreviate("\u{e9}12345xyz"), "\u{e9}12345");
    assert_eq!(abbreviate("\u{4fee}\u{6b63}1rest"), "\u{4fee}\u{6b63}1");
    assert_eq!(abbreviate("\u{1f600}abcdef"), "\u{1f600}abc");
}

#[test]
fn short_id_never_splits_a_character() {
    assert_eq!(abbreviate("abcdef\u{e9}x"), "abcdef");
    assert_eq!(abbreviate("abcde\u{4fee}x"), "abcde");
    assert_eq!(abbreviate("\u{1f600}\u{1f600}"), "\u{1f600}");
}

#[test]
fn short_id_agrees_with_the_parser() {
    let commits = [
        "",
        "a",
        "abcdef",
        "abcdef1",
        "abcdef12",
        "0000000000000000000000000000000000000000",
        "c9a79e91e05355fc42ec519593806466c2f66de0",
        "\u{e9}12345xyz",
        "\u{4fee}\u{6b63}1rest",
        "\u{1f600}abcdef",
        "\u{e9}\u{e9}",
    ];
    for commit in commits {
        assert_eq!(abbreviate(commit), outside_short_commit(commit));
    }
}

#[test]
fn record_short_commit_id_abbreviates_its_commit() {
    let record = BlameRecord {
        commit_id: String::from("abcdef1234567890"),
        final_line_number: 3,
        content: String::from("x"),
    };
    assert_eq!(record.short_commit_id(), "abcdef1");
}

#[test]
fn char_width_is_utf8_length() {
    for c in ['\0', 'a', '\u{7f}', '\u{80}', '\u{7ff}', '\u{800}', '\u{ffff}', '\u{10000}', '\u{10ffff}'] {
        assert_eq!(char_width(c), c.len_utf8());
    }
}

#[test]
fn white_space_agrees_with_std() {
    let mut code: u32 = 0;
    while code <= 0x10ffff {
        if let Some(c) = char::from_u32(code) {
            assert_eq!(is_white_space(c), c.is_whitespace(), "U+{:04X}", code);
        }
        code += 1;
    }
}

#[test]
fn headers_of_real_porcelain_pass() {
    let mut text = porcelain_entry("c9a79e91e05355fc42ec519593806466c2f66de0", 1, 1, "first");
    text.push_str(&porcelain_entry("6cebf082a694d9dec6c1928531fcb649791885ec", 2, 2, ""));
    assert!(check_headers(&text));
}

#[test]
fn headers_pass_where_no_record_closes() {
    assert!(check_headers(""));
    assert!(check_headers("\n"));
    assert!(check_headers("   "));
    assert!(check_headers("abc 1 1"));
    assert!(check_headers("\n\n  \nauthor x\n"));
}

#[test]
fn blank_header_fails() {
    assert!(!check_headers("\t"));
    assert!(!check_headers("\t\n"));
    assert!(!check_headers("\n\tcontent\n"));
    assert!(!check_headers("  \r\n\tcontent"));
    assert!(!check_headers("\u{a0}\u{3000}\nauthor x\n\tcontent\n"));
    assert!(!check_headers("abc 1 1\n\tfine\n\n\tbroken\n"));
    assert!(!check_headers("abc 1 1\n\tfine\n\t"));
}

#[test]
fn header_with_any_token_passes() {
    assert!(check_headers("\tfoo"));
    assert!(check_headers(" abc 1 1\n\tcontent"));
    assert!(check_headers("abc\n\t"));
    assert!(check_headers("abc 1 1\n\tfine\n\n"));
    assert!(check_headers("abc 1 1\n\tfine\n   \nauthor x"));
    assert!(check_headers("abc 1 1\r\n\tfine\r\ndef 2 2\r\n\tmore\r\n"));
    assert!(check_headers("x\n\n\n\t\n"));
}

#[test]
fn blame_reads_records_in_file_order() {
    let mut text = porcelain_entry("c9a79e91e05355fc42ec519593806466c2f66de0", 1, 1, "<div align=\"center\">");
    text.push_str(&porcelain_entry("6cebf082a694d9dec6c1928531fcb649791885ec", 7, 2, "  indented\ttext  "));
    text.push_str(&porcelain_entry("c9a79e91e05355fc42ec519593806466c2f66de0", 3, 3, ""));
    let records = git_blame("README.md", &blame_output(&text)).unwrap();
    assert_eq!(
        records,
        vec![
            BlameRecord {
                commit_id: String::from("c9a79e91e05355fc42ec519593806466c2f66de0"),
                final_line_number: 1,
                content: String::from("<div align=\"center\">"),
            },
            BlameRecord {
                commit_id: String::from("6cebf082a694d9dec6c1928531fcb649791885ec"),
                final_line_number: 2,
                content: String::from("  indented\ttext  "),
            },
            BlameRecord {
                commit_id: String::from("c9a79e91e05355fc42ec519593806466c2f66de0"),
                final_line_number: 3,
                content: String::new(),
            },
        ]
    );
}

#[test]
fn blame_agrees_with_the_parser() {
    let mut text = porcelain_entry("c9a79e91e05355fc42ec519593806466c2f66de0", 1, 1, "one");
    text.push_str(&porcelain_entry("0000000000000000000000000000000000000000", 2, 2, "two"));
    text.push_str("6cebf082 9 x\nboundary\n\tthree\r\n");
    let expected = git_blame_parser::parse(&text).unwrap();
    let records = git_blame("src/lib.rs", &blame_output(&text)).unwrap();
    assert_eq!(records.len(), expected.len());
    assert_eq!(records.len(), 3);
    for (record, blame) in records.iter().zip(expected.iter()) {
        assert_eq!(record.commit_id, blame.commit);
        assert_eq!(record.final_line_number, blame.final_line_no);
        assert_eq!(record.content, blame.content);
    }
    assert_eq!(records[2].final_line_number, 0);
}

#[test]
fn blame_of_empty_output_has_no_records() {
    assert_eq!(git_blame("empty.txt", &blame_output("")), Ok(Vec::new()));
}

#[test]
fn blame_reports_a_failed_run() {
    let output = ProcessOutput {
        success: false,
        stdout: b"ignored".to_vec(),
        stderr: b"fatal: no such path 'nope.rs' in HEAD\n".to_vec(),
    };
    assert_eq!(
        git_blame("nope.rs", &output),
        Err(String::from("failed to execute `git blame nope.rs`: fatal: no such path 'nope.rs' in HEAD\n"))
    );
}

#[test]
fn blame_failure_message_has_its_exact_text() {
    assert_eq!(
        blame_failure_message("dir/file name.rs", "boom"),
        "failed to execute `git blame dir/file name.rs`: boom"
    );
}

#[test]
fn blame_turns_down_a_record_without_header() {
    assert_eq!(
        git_blame("a.rs", &blame_output("\n\tcontent\n")),
        Err(String::from("Error parsing git-blame: no header"))
    );
    assert_eq!(
        git_blame("a.rs", &blame_output("\t")),
        Err(String::from("Error parsing git-blame: no header"))
    );
}

#[test]
fn blame_decodes_ill_formed_bytes_lossily() {
    let output = ProcessOutput {
        success: true,
        stdout: b"abcdef1234 1 1 1\nfilename a.rs\n\tcaf\xff\n".to_vec(),
        stderr: Vec::new(),
    };
    let records = git_blame("a.rs", &output).unwrap();
    assert_eq!(records.len(), 1);
    assert_eq!(records[0].content, "caf\u{fffd}");
}

/// Every text over `alphabet` of at most `longest` characters.
fn texts_over(alphabet: &[char], longest: usize) -> Vec<String> {
    let mut all = vec![String::new()];
    let mut last = vec![String::new()];
    for _ in 0..longest {
        let mut next = Vec::new();
        for text in &last {
            for c in alphabet {
                let mut longer = text.clone();
                longer.push(*c);
                next.push(longer);
            }
        }
        all.extend(next.iter().cloned());
        last = next;
    }
    all
}

/// Whether some record that `text` closes begins with a line without a word.
fn closes_a_nameless_record(text: &str) -> bool {
    let mut header: Option<&str> = None;
    for line in text.lines() {
        let first = *header.get_or_insert(line);
        if line.starts_with('\t') {
            if first.split_whitespace().next().is_none() {
                return true;
            }
            header = None;
        }
    }
    false
}

#[test]
fn header_check_agrees_with_std_lines_and_words() {
    let alphabet = ['\t', '\n', '\r', ' ', 'a', '\u{a0}'];
    for text in texts_over(&alphabet, 6) {
        assert_eq!(check_headers(&text), !closes_a_nameless_record(&text), "{:?}", text);
    }
}

#[test]
fn parser_reads_every_text_that_passes_the_header_check() {
    let alphabet = ['\t', '\n', '\r', ' ', 'a', '1'];
    for text in texts_over(&alphabet, 5) {
        let records = git_blame("a.rs", &blame_output(&text));
        if check_headers(&text) {
            let closing = text.lines().filter(|line| line.starts_with('\t')).count();
            assert_eq!(records.map(|r| r.len()), Ok(closing), "{:?}", text);
        } else {
            assert_eq!(records, Err(String::from("Error parsing git-blame: no header")));
        }
    }
}

#[test]
fn short_id_is_the_longest_prefix_within_seven_bytes() {
    let alphabet = ['a', '\u{e9}', '\u{4fee}', '\u{1f600}'];
    for commit in texts_over(&alphabet, 6) {
        let short = abbreviate(&commit);
        assert!(commit.starts_with(&short));
        assert!(short.len() <= SHORT_ID_BYTES);
        if let Some(next) = commit[short.len()..].chars().next() {
            assert!(short.len() + next.len_utf8() > SHORT_ID_BYTES);
        }
        if commit.is_char_boundary(SHORT_ID_BYTES.min(commit.len())) {
            assert_eq!(short, outside_short_commit(&commit));
        }
    }
}
