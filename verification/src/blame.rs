//! The per-line authorship records of a file, as `git blame --line-porcelain` reports them.

use vstd::prelude::*;
use vstd::string::*;
use vstd::std_specs::iter::IteratorSpec;
use vstd::utf8::{char_is_scalar, encode_scalar, encode_utf8, is_ascii_chars};
use crate::process::{decode_lossy, lossy_text, ProcessOutput};

verus! {

/// Who last touched one line of the file: the commit, the line's number in the file as it
/// is now, and the line itself.
#[derive(Debug, PartialEq, Eq)]
pub struct BlameRecord {
    pub commit_id: String,
    pub final_line_number: usize,
    pub content: String,
}

/// The mathematical value of a [`BlameRecord`].
pub struct BlameRecordView {
    pub commit_id: Seq<char>,
    pub final_line_number: nat,
    pub content: Seq<char>,
}

impl View for BlameRecord {
    type V = BlameRecordView;

    open spec fn view(&self) -> BlameRecordView {
        BlameRecordView {
            commit_id: self.commit_id@,
            final_line_number: self.final_line_number as nat,
            content: self.content@,
        }
    }
}

impl Clone for BlameRecord {
    fn clone(&self) -> (copy: BlameRecord)
        ensures
            copy@ == self@,
    {
        BlameRecord {
            commit_id: self.commit_id.clone(),
            final_line_number: self.final_line_number,
            content: self.content.clone(),
        }
    }
}

/// The values of a run of records, in order.
pub open spec fn records_view(records: Seq<BlameRecord>) -> Seq<BlameRecordView> {
    records.map_values(|r: BlameRecord| r@)
}

/// How many bytes the UTF-8 encoding of `c` takes.
pub open spec fn utf8_width(c: char) -> nat {
    encode_scalar(c as u32).len()
}

/// How many leading characters of `text` fit, whole, into `budget` bytes of UTF-8.
pub open spec fn fitting_chars(text: Seq<char>, budget: nat) -> nat
    decreases text.len(),
{
    if text.len() == 0 || utf8_width(text[0]) > budget {
        0
    } else {
        1 + fitting_chars(text.drop_first(), (budget - utf8_width(text[0])) as nat)
    }
}

/// The bytes that an abbreviated commit id may take.
pub const SHORT_ID_BYTES: usize = 7;

/// The abbreviated form of a commit id: its longest prefix whose UTF-8 encoding takes at
/// most seven bytes. For the hexadecimal ids that git prints these are the first seven
/// characters.
pub open spec fn short_id(commit_id: Seq<char>) -> Seq<char> {
    commit_id.take(fitting_chars(commit_id, SHORT_ID_BYTES as nat) as int)
}

/// The bytes that the UTF-8 encoding of `c` takes.
pub fn char_width(c: char) -> (width: usize)
    ensures
        width == utf8_width(c),
        1 <= width <= 4,
{
    broadcast use char_is_scalar;

    let v: u32 = c as u32;
    if v < 0x80 {
        1
    } else if v < 0x800 {
        2
    } else if v < 0x10000 {
        3
    } else {
        4
    }
}

/// The characters that fit into a budget are a prefix that takes no more bytes than the
/// budget, and the next character, if there is one, would take it over the budget.
pub proof fn lemma_fitting_chars(text: Seq<char>, budget: nat)
    ensures
        fitting_chars(text, budget) <= text.len(),
        encode_utf8(text.take(fitting_chars(text, budget) as int)).len() <= budget,
        fitting_chars(text, budget) < text.len() ==> encode_utf8(
            text.take(fitting_chars(text, budget) as int + 1),
        ).len() > budget,
    decreases text.len(),
{
    let count = fitting_chars(text, budget);
    if text.len() == 0 {
    } else if utf8_width(text[0]) > budget {
        // Nothing fits, and the first character alone is over the budget.
        assert(text.take(1).drop_first() == Seq::<char>::empty());
        assert(encode_utf8(text.take(1)) == encode_scalar(text[0] as u32) + encode_utf8(
            Seq::<char>::empty(),
        ));
    } else {
        let rest = text.drop_first();
        let left = (budget - utf8_width(text[0])) as nat;
        lemma_fitting_chars(rest, left);
        let inner = fitting_chars(rest, left);
        assert(text.take(count as int).drop_first() == rest.take(inner as int));
        if count < text.len() {
            assert(text.take(count as int + 1).drop_first() == rest.take(inner as int + 1));
        }
    }
}

/// Of characters that take one byte each, as many fit as the budget has bytes.
pub proof fn lemma_fitting_ascii(text: Seq<char>, budget: nat)
    requires
        is_ascii_chars(text),
    ensures
        fitting_chars(text, budget) == if text.len() <= budget {
            text.len()
        } else {
            budget
        },
    decreases text.len(),
{
    if text.len() > 0 && budget > 0 {
        lemma_fitting_ascii(text.drop_first(), (budget - 1) as nat);
    }
}

/// An abbreviated id is the longest prefix of the id that takes no more than seven
/// bytes. Of an id in ASCII it is the first seven characters, or the whole id if that is
/// shorter.
pub proof fn lemma_short_id(commit_id: Seq<char>)
    ensures
        short_id(commit_id).is_prefix_of(commit_id),
        encode_utf8(short_id(commit_id)).len() <= SHORT_ID_BYTES,
        short_id(commit_id).len() < commit_id.len() ==> encode_utf8(
            commit_id.take(short_id(commit_id).len() as int + 1),
        ).len() > SHORT_ID_BYTES,
        is_ascii_chars(commit_id) && commit_id.len() >= SHORT_ID_BYTES ==> short_id(commit_id)
            == commit_id.take(SHORT_ID_BYTES as int),
        is_ascii_chars(commit_id) && commit_id.len() <= SHORT_ID_BYTES ==> short_id(commit_id)
            == commit_id,
{
    lemma_fitting_chars(commit_id, SHORT_ID_BYTES as nat);
    if is_ascii_chars(commit_id) {
        lemma_fitting_ascii(commit_id, SHORT_ID_BYTES as nat);
    }
}

/// Abbreviates a commit id.
pub fn abbreviate(commit_id: &str) -> (short: String)
    ensures
        short@ == short_id(commit_id@),
{
    let mut rest = commit_id.chars();
    let mut taken: usize = 0;
    let mut budget: usize = SHORT_ID_BYTES;
    assert(commit_id@.skip(0) == commit_id@);
    loop
        invariant_except_break
            taken + budget <= SHORT_ID_BYTES,
            taken <= commit_id@.len(),
            rest.remaining() == commit_id@.skip(taken as int),
            fitting_chars(commit_id@, SHORT_ID_BYTES as nat) == taken + fitting_chars(
                commit_id@.skip(taken as int),
                budget as nat,
            ),
        ensures
            taken <= commit_id@.len(),
            fitting_chars(commit_id@, SHORT_ID_BYTES as nat) == taken,
        decreases commit_id@.len() - taken,
    {
        match rest.next() {
            Some(c) => {
                let width = char_width(c);
                if width > budget {
                    break ;
                }
                taken = taken + 1;
                budget = budget - width;
            },
            None => {
                break ;
            },
        }
    }
    commit_id.substring_char(0, taken).to_owned()
}

impl BlameRecord {
    /// The abbreviated id of the record's commit.
    pub fn short_commit_id(&self) -> (short: String)
        ensures
            short@ == short_id(self.commit_id@),
    {
        abbreviate(self.commit_id.as_str())
    }
}

/// Whether `c` is white space, as Unicode's `White_Space` property has it.
pub open spec fn white_space(c: char) -> bool {
    let v = c as u32;
    ||| 0x09 <= v <= 0x0D
    ||| v == 0x20
    ||| v == 0x85
    ||| v == 0xA0
    ||| v == 0x1680
    ||| 0x2000 <= v <= 0x200A
    ||| v == 0x2028
    ||| v == 0x2029
    ||| v == 0x202F
    ||| v == 0x205F
    ||| v == 0x3000
}

/// Tells whether `c` is white space.
pub fn is_white_space(c: char) -> (r: bool)
    ensures
        r == white_space(c),
{
    let v: u32 = c as u32;
    (0x09 <= v && v <= 0x0D) || v == 0x20 || v == 0x85 || v == 0xA0 || v == 0x1680 || (0x2000 <= v
        && v <= 0x200A) || v == 0x2028 || v == 0x2029 || v == 0x202F || v == 0x205F || v == 0x3000
}

/// The lines of `text`: the pieces that its line feeds separate. What follows the last
/// line feed is a line only if it is not empty. A carriage return before a line feed
/// stays with its line here.
pub open spec fn lines_of(text: Seq<char>) -> Seq<Seq<char>>
    decreases text.len(),
{
    if text.len() == 0 {
        Seq::empty()
    } else {
        match text.index_of_first('\n') {
            // The first line feed lies within the text; the test is there for the recursion.
            Some(at) if 0 <= at < text.len() => seq![text.take(at)] + lines_of(text.skip(at + 1)),
            _ => seq![text],
        }
    }
}

/// Whether `line` closes a record: the line that holds the content begins with a tab.
pub open spec fn closes_record(line: Seq<char>) -> bool {
    line.len() > 0 && line[0] == '\t'
}

/// Whether `line` holds anything but white space.
pub open spec fn has_token(line: Seq<char>) -> bool {
    exists|i: int| 0 <= i < line.len() && !white_space(#[trigger] line[i])
}

/// Whether every record that `lines` close begins with a line that holds a token.
/// `pending` describes the record in progress: `None` where the next line begins it,
/// otherwise whether its first line held a token.
pub open spec fn headers_named(lines: Seq<Seq<char>>, pending: Option<bool>) -> bool
    decreases lines.len(),
{
    if lines.len() == 0 {
        true
    } else {
        let named = match pending {
            Some(n) => n,
            None => has_token(lines[0]),
        };
        if closes_record(lines[0]) {
            named && headers_named(lines.drop_first(), None)
        } else {
            headers_named(lines.drop_first(), Some(named))
        }
    }
}

/// Whether `text` can be read as porcelain: each of its records begins with a header
/// line that names a commit.
pub open spec fn well_headed(text: Seq<char>) -> bool {
    headers_named(lines_of(text), None)
}

proof fn lemma_lines_of_step(text: Seq<char>, at: int)
    requires
        0 <= at < text.len(),
        text[at] == '\n',
        forall|j: int| 0 <= j < at ==> text[j] != '\n',
    ensures
        lines_of(text) == seq![text.take(at)] + lines_of(text.skip(at + 1)),
{
    text.index_of_first_ensures('\n');
}

proof fn lemma_lines_of_last(text: Seq<char>)
    requires
        text.len() > 0,
        forall|j: int| 0 <= j < text.len() ==> text[j] != '\n',
    ensures
        lines_of(text) == seq![text],
{
    text.index_of_first_ensures('\n');
}

/// Tells whether `text` can be read as porcelain.
pub fn check_headers(text: &str) -> (ok: bool)
    ensures
        ok == well_headed(text@),
{
    let count: usize = text.unicode_len();
    let mut rest = text.chars();
    let mut i: usize = 0;
    // The record in progress, as in `headers_named`.
    let mut pending: Option<bool> = None;
    // The line in progress begins at `start`: whether it is empty so far, whether it
    // begins with a tab, and whether it holds a token so far.
    let ghost mut start: int = 0;
    let mut fresh = true;
    let mut closing = false;
    let mut token = false;
    loop
        invariant
            count == text@.len(),
            0 <= start <= i <= count,
            rest.remaining() == text@.skip(i as int),
            well_headed(text@) == headers_named(lines_of(text@.skip(start)), pending),
            forall|j: int| start <= j < i ==> text@[j] != '\n',
            fresh == (start == i),
            closing == (start < i && text@[start] == '\t'),
            token == (exists|j: int| start <= j < i && !white_space(#[trigger] text@[j])),
        decreases count - i,
    {
        let ghost tail = text@.skip(start);
        let ghost line = tail.take(i - start);
        assert(has_token(line) == token) by {
            if token {
                let j = choose|j: int| start <= j < i && !white_space(#[trigger] text@[j]);
                assert(!white_space(line[j - start]));
            }
            if has_token(line) {
                let k = choose|k: int| 0 <= k < line.len() && !white_space(#[trigger] line[k]);
                assert(!white_space(text@[start + k]));
            }
        }
        let named = match pending {
            Some(n) => n,
            None => token,
        };
        match rest.next() {
            Some(c) => {
                if c == '\n' {
                    proof {
                        lemma_lines_of_step(tail, i - start);
                        assert(tail.skip(i - start + 1) == text@.skip(i + 1));
                        assert(lines_of(tail).drop_first() == lines_of(text@.skip(i + 1)));
                    }
                    if closing {
                        if !named {
                            return false;
                        }
                        pending = None;
                    } else {
                        pending = Some(named);
                    }
                    i = i + 1;
                    fresh = true;
                    closing = false;
                    token = false;
                    proof {
                        start = i as int;
                    }
                } else {
                    if fresh {
                        closing = c == '\t';
                    }
                    if !is_white_space(c) {
                        token = true;
                    }
                    i = i + 1;
                    fresh = false;
                }
            },
            None => {
                proof {
                    if !fresh {
                        lemma_lines_of_last(tail);
                        assert(headers_named(lines_of(tail).drop_first(), None));
                        assert(headers_named(lines_of(tail).drop_first(), Some(named)));
                    }
                }
                return !closing || named;
            },
        }
    }
}

/// What `git_blame_parser::parse` makes of porcelain text: the records in the order of
/// their lines, or the message of the error it reports.
pub uninterp spec fn porcelain_records(text: Seq<char>) -> Result<Seq<BlameRecordView>, Seq<char>>;

/// The view of a run of records or of the message in its place.
pub open spec fn blame_view(r: Result<Vec<BlameRecord>, String>) -> Result<
    Seq<BlameRecordView>,
    Seq<char>,
> {
    match r {
        Ok(records) => Ok(records_view(records@)),
        Err(message) => Err(message@),
    }
}

/// Reads porcelain text with `git_blame_parser::parse`, keeps of each `Blame` the commit,
/// the final line number and the content, and turns a `ParseError` into its message.
///
/// Trusted: the outcome is a function of the text alone, named [`porcelain_records`].
/// The parser indexes the first word of each record's header line, so the text must
/// be [`well_headed`]; nothing else is claimed of the outcome.
#[verifier::external_body]
pub(crate) fn parse_porcelain(text: &str) -> (r: Result<Vec<BlameRecord>, String>)
    requires
        well_headed(text@),
    ensures
        blame_view(r) == porcelain_records(text@),
{
    match git_blame_parser::parse(text) {
        Ok(blames) => Ok(
            blames.into_iter().map(
                |b| BlameRecord {
                    commit_id: b.commit,
                    final_line_number: b.final_line_no,
                    content: b.content,
                },
            ).collect(),
        ),
        Err(e) => Err(e.to_string()),
    }
}

/// The message for a `git blame` that exited with a failure.
pub open spec fn blame_failure_text(path: Seq<char>, diagnostic: Seq<char>) -> Seq<char> {
    "failed to execute `git blame "@ + path + "`: "@ + diagnostic
}

/// The message for porcelain text in which a record has no header.
pub open spec fn no_header_text() -> Seq<char> {
    "Error parsing git-blame: no header"@
}

/// What a finished `git blame` means, given the text of its two streams.
pub open spec fn blame_of(
    path: Seq<char>,
    success: bool,
    printed: Seq<char>,
    diagnostic: Seq<char>,
) -> Result<Seq<BlameRecordView>, Seq<char>> {
    if !success {
        Err(blame_failure_text(path, diagnostic))
    } else if !well_headed(printed) {
        Err(no_header_text())
    } else {
        porcelain_records(printed)
    }
}

/// A failed `git blame` gives no records, whatever it printed, and its message ends with
/// the diagnostics as they are.
pub proof fn lemma_blame_failure(path: Seq<char>, printed: Seq<char>, diagnostic: Seq<char>)
    ensures
        blame_of(path, false, printed, diagnostic) == Err::<Seq<BlameRecordView>, Seq<char>>(
            blame_failure_text(path, diagnostic),
        ),
        blame_failure_text(path, diagnostic).len() >= diagnostic.len(),
        blame_failure_text(path, diagnostic).skip(
            blame_failure_text(path, diagnostic).len() - diagnostic.len(),
        ) == diagnostic,
{
    let message = blame_failure_text(path, diagnostic);
}

/// Builds the message for a `git blame` that exited with a failure.
pub fn blame_failure_message(path: &str, diagnostic: &str) -> (message: String)
    ensures
        message@ == blame_failure_text(path@, diagnostic@),
{
    let mut message = String::from_str("failed to execute `git blame ");
    message.append(path);
    message.append("`: ");
    message.append(diagnostic);
    message
}

/// Reads the records of the file at `path` off what
/// `git blame --first-parent --line-porcelain` left behind.
///
/// A failed run gives the failure message with the decoded diagnostics. Printed text in
/// which a record lacks its header is turned down; any other text goes to the porcelain
/// parser, whose records or error message come back as they are.
pub fn git_blame(path: &str, output: &ProcessOutput) -> (r: Result<Vec<BlameRecord>, String>)
    ensures
        blame_view(r) == blame_of(
            path@,
            output.success,
            lossy_text(output.stdout@),
            lossy_text(output.stderr@),
        ),
{
    if !output.success {
        let diagnostic = decode_lossy(output.stderr.as_slice());
        return Err(blame_failure_message(path, diagnostic.as_str()));
    }
    let printed = decode_lossy(output.stdout.as_slice());
    if !check_headers(printed.as_str()) {
        return Err(String::from_str("Error parsing git-blame: no header"));
    }
    parse_porcelain(printed.as_str())
}

} // verus!
