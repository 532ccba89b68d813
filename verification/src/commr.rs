//! Comparing two sorted files line by line: which lines stand in the
//! first alone, in the second alone, and in both.
use vstd::prelude::*;
use vstd::string::*;
use crate::input::{Reading, ReadingModel};
use crate::order::{str_lt, text_lt};
use crate::output::{to_stdout, Emission, EmissionModel, Outcome, Stream};
use crate::text::{lines_of, lowercase, split_lines, in_lowercase, views};

verus! {

/// A line with the column that it belongs to: the first for a line of the
/// first file alone, the second for one of the second file alone, the third
/// for a line of both.
#[derive(Debug)]
pub enum Column<'a> {
    Col1(&'a str),
    Col2(&'a str),
    Col3(&'a str),
}

pub enum ColumnModel {
    Col1(Seq<char>),
    Col2(Seq<char>),
    Col3(Seq<char>),
}

impl<'a> View for Column<'a> {
    type V = ColumnModel;

    open spec fn view(&self) -> ColumnModel {
        match *self {
            Column::Col1(line) => ColumnModel::Col1(line@),
            Column::Col2(line) => ColumnModel::Col2(line@),
            Column::Col3(line) => ColumnModel::Col3(line@),
        }
    }
}

/// What the tool is asked to do.
#[derive(Debug)]
pub struct Config {
    pub file1: String,
    pub file2: String,
    pub show_col1: bool,
    pub show_col2: bool,
    pub show_col3: bool,
    /// Whether the lines are compared, and shown, in lowercase.
    pub insensitive: bool,
    /// What stands between the columns.
    pub delimiter: String,
}

/// The lines of the two files, merged. At each step the first lines that
/// are left are compared: equal lines go to the third column together, and
/// otherwise the one that comes first in the order of texts goes to its
/// file's column. What is left of one file when the other has ended goes to
/// that file's column.
pub open spec fn merged(a: Seq<Seq<char>>, b: Seq<Seq<char>>) -> Seq<ColumnModel>
    decreases a.len() + b.len(),
{
    if a.len() == 0 && b.len() == 0 {
        Seq::<ColumnModel>::empty()
    } else if b.len() == 0 {
        seq![ColumnModel::Col1(a[0])] + merged(a.skip(1), b)
    } else if a.len() == 0 {
        seq![ColumnModel::Col2(b[0])] + merged(a, b.skip(1))
    } else if a[0] == b[0] {
        seq![ColumnModel::Col3(a[0])] + merged(a.skip(1), b.skip(1))
    } else if text_lt(a[0], b[0]) {
        seq![ColumnModel::Col1(a[0])] + merged(a.skip(1), b)
    } else {
        seq![ColumnModel::Col2(b[0])] + merged(a, b.skip(1))
    }
}

/// Merges the lines of two files into columns.
pub fn compare<'a>(first: &'a Vec<String>, second: &'a Vec<String>) -> (columns: Vec<Column<'a>>)
    ensures
        views(columns@) == merged(views(first@), views(second@)),
{
    let ghost a = views(first@);
    let ghost b = views(second@);
    let mut columns: Vec<Column<'a>> = Vec::new();
    let mut i: usize = 0;
    let mut j: usize = 0;
    assert(a.skip(0) == a && b.skip(0) == b);
    assert(views(columns@) + merged(a, b) == merged(a, b));
    while i < first.len() || j < second.len()
        invariant
            i <= first.len(),
            j <= second.len(),
            a == views(first@),
            b == views(second@),
            views(columns@) + merged(a.skip(i as int), b.skip(j as int)) == merged(a, b),
        decreases first.len() - i + second.len() - j,
    {
        let ghost rest_a = a.skip(i as int);
        let ghost rest_b = b.skip(j as int);
        let ghost before = views(columns@);
        proof {
            if i < first.len() {
                assert(rest_a[0] == first[i as int]@);
                assert(rest_a.skip(1) == a.skip(i + 1));
            }
            if j < second.len() {
                assert(rest_b[0] == second[j as int]@);
                assert(rest_b.skip(1) == b.skip(j + 1));
            }
        }
        if j >= second.len() {
            columns.push(Column::Col1(first[i].as_str()));
            assert(views(columns@) == before.push(ColumnModel::Col1(rest_a[0])));
            i += 1;
        } else if i >= first.len() {
            columns.push(Column::Col2(second[j].as_str()));
            assert(views(columns@) == before.push(ColumnModel::Col2(rest_b[0])));
            j += 1;
        } else if first[i] == second[j] {
            columns.push(Column::Col3(first[i].as_str()));
            assert(views(columns@) == before.push(ColumnModel::Col3(rest_a[0])));
            i += 1;
            j += 1;
        } else if str_lt(first[i].as_str(), second[j].as_str()) {
            columns.push(Column::Col1(first[i].as_str()));
            assert(views(columns@) == before.push(ColumnModel::Col1(rest_a[0])));
            i += 1;
        } else {
            columns.push(Column::Col2(second[j].as_str()));
            assert(views(columns@) == before.push(ColumnModel::Col2(rest_b[0])));
            j += 1;
        }
        assert(views(columns@) + merged(a.skip(i as int), b.skip(j as int)) == before + merged(
            rest_a,
            rest_b,
        ));
    }
    assert(views(columns@) + Seq::<ColumnModel>::empty() == views(columns@));
    columns
}

/// The delimiter, where the column is shown.
pub open spec fn gap(shown: bool, delimiter: Seq<char>) -> Seq<char> {
    if shown {
        delimiter
    } else {
        Seq::<char>::empty()
    }
}

/// The line that is written for a line in its column, if its column is
/// shown: the line after one delimiter for each shown column to its left.
pub open spec fn column_line(
    show_col1: bool,
    show_col2: bool,
    show_col3: bool,
    delimiter: Seq<char>,
    column: ColumnModel,
) -> Option<Seq<char>> {
    match column {
        ColumnModel::Col1(line) => if show_col1 {
            Some(line)
        } else {
            None
        },
        ColumnModel::Col2(line) => if show_col2 {
            Some(gap(show_col1, delimiter) + line)
        } else {
            None
        },
        ColumnModel::Col3(line) => if show_col3 {
            Some(gap(show_col1, delimiter) + gap(show_col2, delimiter) + line)
        } else {
            None
        },
    }
}

/// Writes a line in its column, if its column is shown.
pub fn print(config: &Config, column: &Column) -> (line: Option<String>)
    ensures
        match line {
            Some(text) => column_line(
                config.show_col1,
                config.show_col2,
                config.show_col3,
                config.delimiter@,
                column@,
            ) == Some(text@),
            None => column_line(
                config.show_col1,
                config.show_col2,
                config.show_col3,
                config.delimiter@,
                column@,
            ) is None,
        },
{
    let mut text = String::new();
    match column {
        Column::Col1(line) => {
            if !config.show_col1 {
                return None;
            }
            text.append(line);
            assert(text@ == line@);
        },
        Column::Col2(line) => {
            if !config.show_col2 {
                return None;
            }
            if config.show_col1 {
                text.append(config.delimiter.as_str());
            }
            text.append(line);
            assert(text@ == gap(config.show_col1, config.delimiter@) + line@);
        },
        Column::Col3(line) => {
            if !config.show_col3 {
                return None;
            }
            if config.show_col1 {
                text.append(config.delimiter.as_str());
            }
            if config.show_col2 {
                text.append(config.delimiter.as_str());
            }
            text.append(line);
            assert(text@ == gap(config.show_col1, config.delimiter@) + gap(
                config.show_col2,
                config.delimiter@,
            ) + line@);
        },
    }
    Some(text)
}

/// What is written for the first `n` of the columns: the line of each
/// whose column is shown, with a line feed.
pub open spec fn written(
    show_col1: bool,
    show_col2: bool,
    show_col3: bool,
    delimiter: Seq<char>,
    columns: Seq<ColumnModel>,
    n: int,
) -> Seq<EmissionModel>
    decreases n,
{
    if n <= 0 || n > columns.len() {
        Seq::<EmissionModel>::empty()
    } else {
        let before = written(show_col1, show_col2, show_col3, delimiter, columns, n - 1);
        match column_line(show_col1, show_col2, show_col3, delimiter, columns[n - 1]) {
            Some(line) => before.push(to_stdout(line + "\n"@)),
            None => before,
        }
    }
}

/// The lines of a file as they are compared: in lowercase where case is
/// not to count.
pub open spec fn compared_lines(content: Seq<char>, insensitive: bool) -> Seq<Seq<char>> {
    if insensitive {
        lines_of(content).map_values(|l: Seq<char>| lowercase(l))
    } else {
        lines_of(content)
    }
}

/// Why the comparison cannot be made, if it cannot: both files are the
/// standard input, or the first file could not be read, or else the second.
pub open spec fn refusal(
    file1: Seq<char>,
    file2: Seq<char>,
    first: ReadingModel,
    second: ReadingModel,
) -> Option<Seq<char>> {
    if file1 == "-"@ && file2 == "-"@ {
        Some("Both input files cannot be STDIN (\"-\")"@)
    } else {
        match first {
            ReadingModel::OpenFailed { cause } => Some(file1 + ": "@ + cause),
            ReadingModel::ReadFailed { cause } => Some(file1 + ": "@ + cause),
            ReadingModel::Text { .. } => match second {
                ReadingModel::OpenFailed { cause } => Some(file2 + ": "@ + cause),
                ReadingModel::ReadFailed { cause } => Some(file2 + ": "@ + cause),
                ReadingModel::Text { .. } => None,
            },
        }
    }
}

/// The complaint about two files that are both the standard input, where
/// they are.
pub fn refuse_stdin_twice(config: &Config) -> (m: Option<String>)
    ensures
        m is Some <==> (config.file1@ == "-"@ && config.file2@ == "-"@),
        m matches Some(text) ==> text@ == "Both input files cannot be STDIN (\"-\")"@,
{
    let dash = String::from_str("-");
    if config.file1 == dash && config.file2 == dash {
        Some(String::from_str("Both input files cannot be STDIN (\"-\")"))
    } else {
        None
    }
}

/// The lines of a file as they are compared.
fn lines_to_compare(content: &str, insensitive: bool) -> (lines: Vec<String>)
    ensures
        views(lines@) == compared_lines(content@, insensitive),
{
    let lines = split_lines(content);
    if !insensitive {
        return lines;
    }
    let ghost all = views(lines@);
    let mut lowered: Vec<String> = Vec::new();
    let mut i: usize = 0;
    while i < lines.len()
        invariant
            i <= lines.len(),
            all == views(lines@),
            views(lowered@) == all.take(i as int).map_values(|l: Seq<char>| lowercase(l)),
        decreases lines.len() - i,
    {
        assert(all[i as int] == lines[i as int]@);
        let ghost before = views(lowered@);
        lowered.push(in_lowercase(lines[i].as_str()));
        assert(views(lowered@) == before.push(lowercase(all[i as int])));
        assert(all.take(i + 1).map_values(|l: Seq<char>| lowercase(l)) == all.take(
            i as int,
        ).map_values(|l: Seq<char>| lowercase(l)).push(lowercase(all[i as int])));
        i += 1;
    }
    assert(all.take(lines@.len() as int) == all);
    lowered
}

/// The complaint about a file that could not be read.
fn complain(file: &str, cause: &str) -> (m: String)
    ensures
        m@ == file@ + ": "@ + cause@,
{
    let mut m = String::from_str(file);
    m.append(": ");
    m.append(cause);
    m
}

/// Compares the two files and writes their lines in columns.
///
/// Nothing is written where the comparison cannot be made. Otherwise the
/// lines of both files are merged and each line whose column is shown is
/// written on a line of its own.
pub fn run(config: &Config, first: &Reading, second: &Reading) -> (outcome: Outcome)
    ensures
        outcome.failure is Some <==> refusal(config.file1@, config.file2@, first@, second@)
            is Some,
        match outcome.failure {
            Some(cause) => refusal(config.file1@, config.file2@, first@, second@) == Some(cause@)
                && outcome.written@.len() == 0,
            None => first matches Reading::Text { content: one } && second matches Reading::Text {
                content: two,
            } && {
                let columns = merged(
                    compared_lines(one@, config.insensitive),
                    compared_lines(two@, config.insensitive),
                );
                views(outcome.written@) == written(
                    config.show_col1,
                    config.show_col2,
                    config.show_col3,
                    config.delimiter@,
                    columns,
                    columns.len() as int,
                )
            },
        },
{
    if let Some(m) = refuse_stdin_twice(config) {
        return Outcome { written: Vec::new(), failure: Some(m) };
    }
    let one = match first {
        Reading::OpenFailed { cause } => {
            return Outcome {
                written: Vec::new(),
                failure: Some(complain(config.file1.as_str(), cause.as_str())),
            };
        },
        Reading::ReadFailed { cause } => {
            return Outcome {
                written: Vec::new(),
                failure: Some(complain(config.file1.as_str(), cause.as_str())),
            };
        },
        Reading::Text { content } => content,
    };
    let two = match second {
        Reading::OpenFailed { cause } => {
            return Outcome {
                written: Vec::new(),
                failure: Some(complain(config.file2.as_str(), cause.as_str())),
            };
        },
        Reading::ReadFailed { cause } => {
            return Outcome {
                written: Vec::new(),
                failure: Some(complain(config.file2.as_str(), cause.as_str())),
            };
        },
        Reading::Text { content } => content,
    };
    let lines1 = lines_to_compare(one.as_str(), config.insensitive);
    let lines2 = lines_to_compare(two.as_str(), config.insensitive);
    let columns = compare(&lines1, &lines2);
    let ghost all = views(columns@);
    let mut out: Vec<Emission> = Vec::new();
    let mut k: usize = 0;
    while k < columns.len()
        invariant
            k <= columns.len(),
            all == views(columns@),
            views(out@) == written(
                config.show_col1,
                config.show_col2,
                config.show_col3,
                config.delimiter@,
                all,
                k as int,
            ),
        decreases columns.len() - k,
    {
        assert(all[k as int] == columns[k as int]@);
        match print(config, &columns[k]) {
            Some(line) => {
                let mut text = line;
                text.append("\n");
                let ghost before = views(out@);
                let ghost shown = text@;
                out.push(Emission { stream: Stream::Stdout, text: text });
                assert(views(out@) == before.push(to_stdout(shown)));
            },
            None => {},
        }
        k += 1;
    }
    Outcome { written: out, failure: None }
}

} // verus!
