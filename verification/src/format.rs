//! The layout of a report line.

use vstd::prelude::*;
use vstd::string::*;
use crate::blame::{BlameRecord, BlameRecordView, records_view};

verus! {

/// The least width of the label column.
pub const LABEL_WIDTH: usize = 8;

/// The character for the digit `d`.
pub open spec fn digit_char(d: nat) -> char {
    seq!['0', '1', '2', '3', '4', '5', '6', '7', '8', '9'][d as int]
}

/// The decimal numeral of `n`, without leading zeros.
pub open spec fn decimal(n: nat) -> Seq<char>
    decreases n,
{
    if n < 10 {
        seq![digit_char(n)]
    } else {
        decimal(n / 10).push(digit_char(n % 10))
    }
}

/// `count` copies of `c`.
pub open spec fn repeated(c: char, count: int) -> Seq<char> {
    Seq::new(if count > 0 { count as nat } else { 0 }, |i: int| c)
}

/// `text` with spaces after it, as many as it is short of `width`.
pub open spec fn left_justified(text: Seq<char>, width: nat) -> Seq<char> {
    text + repeated(' ', width - text.len())
}

/// `numeral` with zeros before it, as many as it is short of `width`.
pub open spec fn zero_padded(numeral: Seq<char>, width: nat) -> Seq<char> {
    repeated('0', width - numeral.len()) + numeral
}

/// What stands between the line number and the line: a vertical bar and a space.
pub open spec fn separator() -> Seq<char> {
    seq!['\u{2502}', ' ']
}

/// One line of the report: the label in a column of at least eight characters, a space,
/// the line number padded with zeros to `line_digits` digits, the separator, and the
/// content as it is.
pub open spec fn report_line(
    label: Seq<char>,
    line_number: nat,
    line_digits: nat,
    content: Seq<char>,
) -> Seq<char> {
    left_justified(label, LABEL_WIDTH as nat) + seq![' '] + zero_padded(
        decimal(line_number),
        line_digits,
    ) + separator() + content
}

/// The largest line number among `records`, zero where there is none.
pub open spec fn largest_line_number(records: Seq<BlameRecordView>) -> nat
    decreases records.len(),
{
    if records.len() == 0 {
        0
    } else {
        let before = largest_line_number(records.drop_last());
        if records.last().final_line_number > before {
            records.last().final_line_number
        } else {
            before
        }
    }
}

/// The width of the line-number column for `records`: the digits of their largest line
/// number.
pub open spec fn line_digits_of(records: Seq<BlameRecordView>) -> nat {
    decimal(largest_line_number(records)).len()
}

/// The numeral of a single digit.
fn digit_str(d: usize) -> (s: &'static str)
    requires
        d < 10,
    ensures
        s@ == seq![digit_char(d as nat)],
{
    proof {
        reveal_strlit("0");
        reveal_strlit("1");
        reveal_strlit("2");
        reveal_strlit("3");
        reveal_strlit("4");
        reveal_strlit("5");
        reveal_strlit("6");
        reveal_strlit("7");
        reveal_strlit("8");
        reveal_strlit("9");
    }
    match d {
        0 => "0",
        1 => "1",
        2 => "2",
        3 => "3",
        4 => "4",
        5 => "5",
        6 => "6",
        7 => "7",
        8 => "8",
        _ => "9",
    }
}

/// Writes `n` in decimal.
pub fn decimal_string(n: usize) -> (numeral: String)
    ensures
        numeral@ == decimal(n as nat),
    decreases n,
{
    if n < 10 {
        String::from_str(digit_str(n))
    } else {
        let mut numeral = decimal_string(n / 10);
        numeral.append(digit_str(n % 10));
        numeral
    }
}

/// Counts the decimal digits of `n`.
pub fn digit_count(n: usize) -> (count: usize)
    ensures
        count == decimal(n as nat).len(),
        count >= 1,
{
    let mut rest: usize = n;
    let mut count: usize = 1;
    while rest >= 10
        invariant
            count >= 1,
            count + decimal(rest as nat).len() == decimal(n as nat).len() + 1,
            count <= n - rest + 1,
        decreases rest,
    {
        rest = rest / 10;
        count = count + 1;
    }
    count
}

/// Appends `count` copies of the one character of `unit` to `text`.
fn append_repeated(text: &mut String, unit: &str, count: usize)
    requires
        unit@.len() == 1,
    ensures
        final(text)@ == old(text)@ + repeated(unit@[0], count as int),
{
    let mut done: usize = 0;
    while done < count
        invariant
            unit@.len() == 1,
            done <= count,
            text@ == old(text)@ + repeated(unit@[0], done as int),
        decreases count - done,
    {
        text.append(unit);
        done = done + 1;
    }
}

/// Lays out one line of the report.
pub fn render(label: &str, line_number: usize, line_digits: usize, content: &str) -> (line: String)
    ensures
        line@ == report_line(label@, line_number as nat, line_digits as nat, content@),
{
    proof {
        reveal_strlit(" ");
        reveal_strlit("0");
        reveal_strlit("\u{2502} ");
    }
    let mut line = String::from_str(label);
    let label_len = label.unicode_len();
    if label_len < LABEL_WIDTH {
        append_repeated(&mut line, " ", LABEL_WIDTH - label_len);
    }
    line.append(" ");
    let numeral = decimal_string(line_number);
    let numeral_len = numeral.as_str().unicode_len();
    if numeral_len < line_digits {
        append_repeated(&mut line, "0", line_digits - numeral_len);
    }
    line.append(numeral.as_str());
    line.append("\u{2502} ");
    line.append(content);
    line
}

/// Finds the width of the line-number column for `records`.
pub fn line_digits(records: &Vec<BlameRecord>) -> (digits: usize)
    ensures
        digits == line_digits_of(records_view(records@)),
        digits >= 1,
{
    let mut largest: usize = 0;
    let mut i: usize = 0;
    while i < records.len()
        invariant
            i <= records.len(),
            largest == largest_line_number(records_view(records@).take(i as int)),
        decreases records.len() - i,
    {
        let number = records[i].final_line_number;
        proof {
            let views = records_view(records@);
            assert(views.take(i + 1).drop_last() == views.take(i as int));
        }
        if number > largest {
            largest = number;
        }
        i = i + 1;
    }
    assert(records_view(records@).take(i as int) == records_view(records@));
    digit_count(largest)
}

/// A larger number has no shorter numeral.
pub proof fn lemma_decimal_len_monotonic(n: nat, m: nat)
    requires
        n <= m,
    ensures
        1 <= decimal(n).len() <= decimal(m).len(),
    decreases m,
{
    if m >= 10 {
        if n >= 10 {
            lemma_decimal_len_monotonic(n / 10, m / 10);
        } else {
            lemma_decimal_len_monotonic(0, m / 10);
        }
    }
}

/// No record has a line number above the largest.
pub proof fn lemma_largest_line_number(records: Seq<BlameRecordView>, i: int)
    requires
        0 <= i < records.len(),
    ensures
        records[i].final_line_number <= largest_line_number(records),
    decreases records.len(),
{
    if i < records.len() - 1 {
        lemma_largest_line_number(records.drop_last(), i);
    }
}

/// In a file whose records are numbered from one upwards, as `git blame` numbers them,
/// the largest line number is the number of lines.
pub proof fn lemma_largest_of_numbered_file(records: Seq<BlameRecordView>)
    requires
        forall|i: int| 0 <= i < records.len() ==> (#[trigger] records[i]).final_line_number == i + 1,
    ensures
        largest_line_number(records) == records.len(),
        line_digits_of(records) == decimal(records.len()).len(),
    decreases records.len(),
{
    if records.len() > 0 {
        lemma_largest_of_numbered_file(records.drop_last());
    }
}

/// The line-number column has one width for the whole report: the number of every
/// record, padded, takes exactly as many digits as the largest of them, and at least one.
pub proof fn lemma_number_column_uniform(records: Seq<BlameRecordView>, i: int)
    requires
        0 <= i < records.len(),
    ensures
        line_digits_of(records) >= 1,
        zero_padded(decimal(records[i].final_line_number), line_digits_of(records)).len()
            == line_digits_of(records),
{
    lemma_largest_line_number(records, i);
    lemma_decimal_len_monotonic(records[i].final_line_number, largest_line_number(records));
}

/// The label column is at least eight characters wide and begins with the label; a label
/// of eight characters or more stands as it is.
pub proof fn lemma_label_column(label: Seq<char>)
    ensures
        left_justified(label, LABEL_WIDTH as nat).len() >= LABEL_WIDTH,
        left_justified(label, LABEL_WIDTH as nat).len() >= label.len(),
        left_justified(label, LABEL_WIDTH as nat).take(label.len() as int) == label,
        label.len() >= LABEL_WIDTH ==> left_justified(label, LABEL_WIDTH as nat) == label,
        forall|i: int|
            label.len() <= i < LABEL_WIDTH ==> left_justified(label, LABEL_WIDTH as nat)[i] == ' ',
{
}

/// A report line is its four parts in order, and ends with the content, unchanged.
pub proof fn lemma_report_line_parts(
    label: Seq<char>,
    line_number: nat,
    line_digits: nat,
    content: Seq<char>,
)
    ensures
        ({
            let line = report_line(label, line_number, line_digits, content);
            let field = left_justified(label, LABEL_WIDTH as nat);
            let number = zero_padded(decimal(line_number), line_digits);
            let a = field.len() as int;
            let b = a + 1 + number.len();
            &&& line.len() == b + 2 + content.len()
            &&& line.take(a) == field
            &&& line[a] == ' '
            &&& line.subrange(a + 1, b) == number
            &&& line[b] == '\u{2502}'
            &&& line[b + 1] == ' '
            &&& line.skip(b + 2) == content
        }),
{
}

} // verus!
