//! Collapsing runs of equal lines into one line each.
use vstd::prelude::*;
use vstd::string::*;
use crate::decimal::{decimal_text, push_decimal};
use crate::input::{Reading, ReadingModel};
use crate::output::{to_stdout, Emission, EmissionModel, Outcome, Stream};
use crate::text::{
    pad_left, padded_left, raw_lines, same_chars, split_raw_lines, trim_end, trimmed, views,
};

verus! {

/// What the tool is asked to do.
#[derive(Debug)]
pub struct Config {
    /// The file to read; `-` is the standard input.
    pub in_files: String,
    /// The file to write to, in place of the standard output.
    pub out_files: Option<String>,
    /// Whether each line is shown with the length of its run.
    pub count: bool,
}

/// A run of lines with equal keys: the line that the run begins with, and
/// how many lines it holds.
pub struct Run {
    pub line: Seq<char>,
    pub count: nat,
}

/// The state of a pass over lines: the runs that have ended, the run that
/// is open, and the key of its lines.
pub struct Pass {
    pub ended: Seq<Run>,
    pub open: Run,
    pub key: Seq<char>,
}

/// The runs that have ended once the open run ends too. An open run
/// without lines is none.
pub open spec fn close(pass: Pass) -> Seq<Run> {
    if pass.open.count > 0 {
        pass.ended.push(pass.open)
    } else {
        pass.ended
    }
}

/// The key of the line at `i`; a line without a key has the empty key.
pub open spec fn key_at(keys: Seq<Seq<char>>, i: int) -> Seq<char> {
    if 0 <= i < keys.len() {
        keys[i]
    } else {
        Seq::<char>::empty()
    }
}

/// The pass after the first `n` lines, of which `keys` holds the keys. It
/// begins with an open run of no lines whose line and key are empty. A line
/// whose key is that of the open run joins that run; any other line ends it
/// and opens its own.
pub open spec fn pass_over(lines: Seq<Seq<char>>, keys: Seq<Seq<char>>, n: int) -> Pass
    decreases n,
{
    if n <= 0 || n > lines.len() {
        Pass {
            ended: Seq::<Run>::empty(),
            open: Run { line: Seq::<char>::empty(), count: 0 },
            key: Seq::<char>::empty(),
        }
    } else {
        let before = pass_over(lines, keys, n - 1);
        if key_at(keys, n - 1) != before.key {
            Pass {
                ended: close(before),
                open: Run { line: lines[n - 1], count: 1 },
                key: key_at(keys, n - 1),
            }
        } else {
            Pass {
                ended: before.ended,
                open: Run { line: before.open.line, count: before.open.count + 1 },
                key: before.key,
            }
        }
    }
}

/// The runs of the lines under the keys given, in order.
pub open spec fn runs_by(lines: Seq<Seq<char>>, keys: Seq<Seq<char>>) -> Seq<Run> {
    close(pass_over(lines, keys, lines.len() as int))
}

/// The keys by which lines are compared: each line without the white space
/// at its end.
pub open spec fn keys_of(lines: Seq<Seq<char>>) -> Seq<Seq<char>> {
    lines.map_values(|line: Seq<char>| trim_end(line))
}

/// The runs of the lines, in order: lines belong together when they are
/// equal but for the white space at their ends.
pub open spec fn runs_of(lines: Seq<Seq<char>>) -> Seq<Run> {
    runs_by(lines, keys_of(lines))
}

/// What is written for a run: its line, after the length of the run to the
/// right in four places and a space where the lengths are shown.
pub open spec fn run_text(count: bool, run: Run) -> Seq<char> {
    if count {
        pad_left(decimal_text(run.count), 4) + " "@ + run.line
    } else {
        run.line
    }
}

/// What is written for runs.
pub open spec fn runs_text(count: bool, runs: Seq<Run>) -> Seq<EmissionModel> {
    runs.map_values(|run: Run| to_stdout(run_text(count, run)))
}

/// Writes one run.
fn print(count: bool, length: usize, line: &str) -> (text: String)
    ensures
        text@ == run_text(count, Run { line: line@, count: length as nat }),
{
    if count {
        let mut digits = String::new();
        push_decimal(&mut digits, length as u128);
        let mut text = padded_left(digits.as_str(), 4);
        text.append(" ");
        text.append(line);
        text
    } else {
        String::from_str(line)
    }
}

/// Collapses the lines into their runs under the keys given, one key for
/// each line, and writes each run as its first line.
pub fn collapse_by(lines: &Vec<String>, keys: &Vec<Vec<char>>, count: bool) -> (out: Vec<
    Emission,
>)
    ensures
        views(out@) == runs_text(count, runs_by(views(lines@), views(keys@))),
{
    let ghost all = views(lines@);
    let ghost marks = views(keys@);
    let mut out: Vec<Emission> = Vec::new();
    let mut previous = String::new();
    let mut held: Vec<char> = Vec::new();
    let mut length: usize = 0;
    let mut i: usize = 0;
    assert(views(out@) == runs_text(count, pass_over(all, marks, 0).ended));
    while i < lines.len()
        invariant
            i <= lines.len(),
            all == views(lines@),
            marks == views(keys@),
            length <= i,
            pass_over(all, marks, i as int).open == (Run {
                line: previous@,
                count: length as nat,
            }),
            pass_over(all, marks, i as int).key == held@,
            views(out@) == runs_text(count, pass_over(all, marks, i as int).ended),
        decreases lines.len() - i,
    {
        let line = &lines[i];
        assert(all[i as int] == line@);
        let key: Vec<char> = if i < keys.len() {
            assert(marks[i as int] == keys[i as int]@);
            keys[i].clone()
        } else {
            Vec::new()
        };
        assert(key@ == key_at(marks, i as int));
        let ghost before = pass_over(all, marks, i as int);
        if !same_chars(&key, &held) {
            if length > 0 {
                let text = print(count, length, previous.as_str());
                let ghost shown = views(out@);
                out.push(Emission { stream: Stream::Stdout, text: text });
                assert(views(out@) == shown.push(to_stdout(run_text(count, before.open))));
                assert(runs_text(count, before.ended.push(before.open)) == runs_text(
                    count,
                    before.ended,
                ).push(to_stdout(run_text(count, before.open))));
            }
            previous = line.clone();
            held = key;
            length = 1;
        } else {
            length += 1;
        }
        i += 1;
    }
    let ghost last = pass_over(all, marks, lines.len() as int);
    if length > 0 {
        let text = print(count, length, previous.as_str());
        let ghost shown = views(out@);
        out.push(Emission { stream: Stream::Stdout, text: text });
        assert(views(out@) == shown.push(to_stdout(run_text(count, last.open))));
        assert(runs_text(count, last.ended.push(last.open)) == runs_text(count, last.ended).push(
            to_stdout(run_text(count, last.open)),
        ));
    }
    out
}

/// Collapses the lines, each given with its line ending, into their runs
/// and writes each run as its first line.
pub fn collapse(lines: &Vec<String>, count: bool) -> (out: Vec<Emission>)
    ensures
        views(out@) == runs_text(count, runs_of(views(lines@))),
{
    let ghost all = views(lines@);
    let mut keys: Vec<Vec<char>> = Vec::new();
    let mut i: usize = 0;
    while i < lines.len()
        invariant
            i <= lines.len(),
            all == views(lines@),
            views(keys@) == keys_of(all.take(i as int)),
        decreases lines.len() - i,
    {
        assert(all[i as int] == lines[i as int]@);
        let ghost before = views(keys@);
        keys.push(trimmed(lines[i].as_str()));
        assert(views(keys@) == before.push(trim_end(all[i as int])));
        assert(keys_of(all.take(i + 1)) == keys_of(all.take(i as int)).push(
            trim_end(all[i as int]),
        ));
        i += 1;
    }
    assert(all.take(lines@.len() as int) == all);
    collapse_by(lines, &keys, count)
}

/// Why nothing can be collapsed, if nothing can: the file could not be
/// opened, or reading it failed.
pub open spec fn refusal(name: Seq<char>, input: ReadingModel) -> Option<Seq<char>> {
    match input {
        ReadingModel::OpenFailed { cause } => Some(name + ": "@ + cause),
        ReadingModel::ReadFailed { cause } => Some(cause),
        ReadingModel::Text { .. } => None,
    }
}

/// Collapses the runs of equal lines of the input.
pub fn run(config: &Config, input: &Reading) -> (outcome: Outcome)
    ensures
        match outcome.failure {
            Some(cause) => refusal(config.in_files@, input@) == Some(cause@)
                && outcome.written@.len() == 0,
            None => input matches Reading::Text { content } && views(outcome.written@)
                == runs_text(config.count, runs_of(raw_lines(content@))),
        },
{
    match input {
        Reading::OpenFailed { cause } => {
            let mut m = config.in_files.clone();
            m.append(": ");
            m.append(cause.as_str());
            Outcome { written: Vec::new(), failure: Some(m) }
        },
        Reading::ReadFailed { cause } => Outcome {
            written: Vec::new(),
            failure: Some(cause.clone()),
        },
        Reading::Text { content } => {
            let lines = split_raw_lines(content.as_str());
            Outcome { written: collapse(&lines, config.count), failure: None }
        },
    }
}

} // verus!
