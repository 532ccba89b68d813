//! Concatenating files, with their lines numbered where asked for.
use vstd::prelude::*;
use vstd::string::*;
use crate::decimal::{decimal_text, push_decimal};
use crate::input::{first_read_failure, Reading, ReadingModel, SourceFile, SourceFileModel};
use crate::output::{to_stderr, to_stdout, Emission, EmissionModel, Outcome, Stream};
use crate::text::{lines_of, pad_left, padded_left, split_lines, views};

verus! {

/// What the tool is asked to do.
#[derive(Debug)]
pub struct Config {
    /// The files to read; `-` is the standard input.
    pub files: Vec<String>,
    /// Whether every line is numbered.
    pub number_lines: bool,
    /// Whether the lines that are not empty are numbered.
    pub number_nonblank_lines: bool,
}

/// A line with its number before it: the number to the right in six
/// places, a tab, and the line.
pub open spec fn numbered(number: nat, line: Seq<char>) -> Seq<char> {
    pad_left(decimal_text(number), 6) + "\t"@ + line + "\n"@
}

/// How many of the first `n` lines are not empty.
pub open spec fn nonblank(lines: Seq<Seq<char>>, n: int) -> nat
    decreases n,
{
    if n <= 0 || n > lines.len() {
        0
    } else {
        nonblank(lines, n - 1) + if lines[n - 1].len() > 0 {
            1nat
        } else {
            0nat
        }
    }
}

/// What is written for the line at `k`. With all lines numbered, the
/// line's place counted from one goes before it. With the lines numbered
/// that are not empty, such a line gets one more than the number of such
/// lines up to and with itself, and an empty line stays empty. Otherwise
/// the line is written as it is.
pub open spec fn line_text(
    number_lines: bool,
    number_nonblank_lines: bool,
    lines: Seq<Seq<char>>,
    k: int,
) -> Seq<char> {
    if number_lines {
        numbered((k + 1) as nat, lines[k])
    } else if number_nonblank_lines {
        if lines[k].len() > 0 {
            numbered(nonblank(lines, k + 1) + 1, lines[k])
        } else {
            "\n"@
        }
    } else {
        lines[k] + "\n"@
    }
}

/// What is written for the first `n` lines of a file.
pub open spec fn lines_text(
    number_lines: bool,
    number_nonblank_lines: bool,
    lines: Seq<Seq<char>>,
    n: int,
) -> Seq<EmissionModel>
    decreases n,
{
    if n <= 0 || n > lines.len() {
        Seq::<EmissionModel>::empty()
    } else {
        lines_text(number_lines, number_nonblank_lines, lines, n - 1).push(
            to_stdout(line_text(number_lines, number_nonblank_lines, lines, n - 1)),
        )
    }
}

/// Writes a line with its number before it.
fn number_line(number: u128, line: &str) -> (text: String)
    ensures
        text@ == numbered(number as nat, line@),
{
    let mut digits = String::new();
    push_decimal(&mut digits, number);
    let mut text = padded_left(digits.as_str(), 6);
    text.append("\t");
    text.append(line);
    text.append("\n");
    text
}

/// Writes the lines of one file.
pub fn number(config: &Config, lines: &Vec<String>) -> (out: Vec<Emission>)
    ensures
        views(out@) == lines_text(
            config.number_lines,
            config.number_nonblank_lines,
            views(lines@),
            lines.len() as int,
        ),
{
    let ghost all = views(lines@);
    let mut out: Vec<Emission> = Vec::new();
    let mut seen: usize = 0;
    let mut k: usize = 0;
    while k < lines.len()
        invariant
            k <= lines.len(),
            all == views(lines@),
            seen <= k,
            seen == nonblank(all, k as int),
            views(out@) == lines_text(
                config.number_lines,
                config.number_nonblank_lines,
                all,
                k as int,
            ),
        decreases lines.len() - k,
    {
        let line = &lines[k];
        assert(all[k as int] == line@);
        let blank = line.as_str().is_empty();
        if !blank {
            seen += 1;
        }
        let text = if config.number_lines {
            number_line(k as u128 + 1, line.as_str())
        } else if config.number_nonblank_lines {
            if blank {
                String::from_str("\n")
            } else {
                number_line(seen as u128 + 1, line.as_str())
            }
        } else {
            let mut text = line.clone();
            text.append("\n");
            text
        };
        let ghost before = views(out@);
        let ghost shown = text@;
        out.push(Emission { stream: Stream::Stdout, text: text });
        assert(views(out@) == before.push(to_stdout(shown)));
        k += 1;
    }
    out
}

/// What is written for one file: a complaint where it could not be opened,
/// its lines where it was read.
pub open spec fn file_text(
    number_lines: bool,
    number_nonblank_lines: bool,
    file: SourceFileModel,
) -> Seq<EmissionModel> {
    match file.reading {
        ReadingModel::OpenFailed { cause } => seq![
            to_stderr("Fail to open "@ + file.path + " : "@ + cause + "\n"@),
        ],
        ReadingModel::ReadFailed { .. } => Seq::<EmissionModel>::empty(),
        ReadingModel::Text { content } => {
            let lines = lines_of(content);
            lines_text(number_lines, number_nonblank_lines, lines, lines.len() as int)
        },
    }
}

/// What is written for the first `n` files.
pub open spec fn files_text(
    number_lines: bool,
    number_nonblank_lines: bool,
    files: Seq<SourceFileModel>,
    n: int,
) -> Seq<EmissionModel>
    decreases n,
{
    if n <= 0 || n > files.len() {
        Seq::<EmissionModel>::empty()
    } else {
        files_text(number_lines, number_nonblank_lines, files, n - 1) + file_text(
            number_lines,
            number_nonblank_lines,
            files[n - 1],
        )
    }
}

/// Writes the files one after the other.
///
/// A file that could not be opened is complained about and passed over. A
/// file that could not be read ends the run with its cause. The numbering
/// of lines begins anew with each file.
pub fn run(config: &Config, files: &Vec<SourceFile>) -> (outcome: Outcome)
    ensures
        match outcome.failure {
            None => {
                &&& forall|i: int|
                    0 <= i < files.len() ==> !(#[trigger] files[i]@.reading is ReadFailed)
                &&& views(outcome.written@) == files_text(
                    config.number_lines,
                    config.number_nonblank_lines,
                    views(files@),
                    files.len() as int,
                )
            },
            Some(cause) => exists|i: int|
                {
                    &&& first_read_failure(views(files@), i)
                    &&& cause@ == (#[trigger] files[i])@.reading->ReadFailed_cause
                    &&& views(outcome.written@) == files_text(
                        config.number_lines,
                        config.number_nonblank_lines,
                        views(files@),
                        i,
                    )
                },
        },
{
    let ghost all = views(files@);
    let mut written: Vec<Emission> = Vec::new();
    let mut i: usize = 0;
    while i < files.len()
        invariant
            i <= files.len(),
            all == views(files@),
            forall|k: int| 0 <= k < i ==> !(#[trigger] all[k].reading is ReadFailed),
            views(written@) == files_text(
                config.number_lines,
                config.number_nonblank_lines,
                all,
                i as int,
            ),
        decreases files.len() - i,
    {
        let file = &files[i];
        assert(all[i as int] == file@);
        let ghost before = views(written@);
        match &file.reading {
            Reading::OpenFailed { cause } => {
                let mut line = String::from_str("Fail to open ");
                line.append(file.path.as_str());
                line.append(" : ");
                line.append(cause.as_str());
                line.append("\n");
                let ghost shown = line@;
                written.push(Emission { stream: Stream::Stderr, text: line });
                assert(views(written@) == before + seq![to_stderr(shown)]);
            },
            Reading::ReadFailed { cause } => {
                assert(first_read_failure(all, i as int));
                return Outcome { written: written, failure: Some(cause.clone()) };
            },
            Reading::Text { content } => {
                let lines = split_lines(content.as_str());
                let mut more = number(config, &lines);
                let ghost added = views(more@);
                written.append(&mut more);
                assert(views(written@) == before + added);
            },
        }
        i += 1;
    }
    assert forall|k: int| 0 <= k < files.len() implies !(#[trigger] files[k]@.reading
        is ReadFailed) by {
        assert(all[k] == files[k]@);
    }
    Outcome { written: written, failure: None }
}

} // verus!
