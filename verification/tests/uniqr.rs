use clitools::input::Reading;
use clitools::uniqr::{collapse, collapse_by, run, Config};

fn config(count: bool) -> Config {
    Config { in_files: "in.txt".to_string(), out_files: None, count }
}

fn texts(out: &[clitools::output::Emission]) -> Vec<String> {
    out.iter().map(|e| e.text.clone()).collect()
}

fn text(content: &str) -> Reading {
    Reading::Text { content: content.to_string() }
}

#[test]
fn uniqr_collapses_runs() {
    let outcome = run(&config(false), &text("a\na\nb\na\n"));
    assert!(outcome.failure.is_none());
    assert_eq!(texts(&outcome.written), ["a\n", "b\n", "a\n"]);
    let outcome = run(&config(true), &text("a\na\nb\na\n"));
    assert_eq!(texts(&outcome.written), ["   2 a\n", "   1 b\n", "   1 a\n"]);
}

#[test]
fn uniqr_compares_without_trailing_white_space() {
    let outcome = run(&config(true), &text("a \na\na\t\n a\n a  "));
    assert_eq!(texts(&outcome.written), ["   3 a \n", "   2  a\n"]);
    // white space at the start of a line counts
    let outcome = run(&config(true), &text("a\n a\na"));
    assert_eq!(texts(&outcome.written), ["   1 a\n", "   1  a\n", "   1 a"]);
}

#[test]
fn uniqr_empty_and_blank_input() {
    assert_eq!(run(&config(true), &text("")).written.len(), 0);
    // blank lines at the start join the run that is open before the first line
    assert_eq!(texts(&run(&config(true), &text("\n\nx\n")).written), ["   2 ", "   1 x\n"]);
    assert_eq!(texts(&run(&config(false), &text("x\n\n\n")).written), ["x\n", "\n"]);
}

#[test]
fn uniqr_long_runs() {
    let lines: Vec<String> = (0..12345).map(|_| "z\n".to_string()).collect();
    assert_eq!(texts(&collapse(&lines, true)), ["12345 z\n"]);
    assert_eq!(texts(&collapse(&lines, false)), ["z\n"]);
}

#[test]
fn uniqr_run_refuses() {
    let outcome = run(&config(false), &Reading::OpenFailed { cause: "gone".to_string() });
    assert_eq!(outcome.failure, Some("in.txt: gone".to_string()));
    assert_eq!(outcome.written.len(), 0);
    let outcome = run(&config(false), &Reading::ReadFailed { cause: "bad".to_string() });
    assert_eq!(outcome.failure, Some("bad".to_string()));
}

#[test]
fn uniqr_collapse_by_goes_by_the_keys() {
    let lines: Vec<String> = ["a\n", "b\n", "c\n", "d\n"].iter().map(|l| l.to_string()).collect();
    let key = |k: &str| k.chars().collect::<Vec<char>>();
    let keys = vec![key("x"), key("x"), key("y"), key("x")];
    assert_eq!(texts(&collapse_by(&lines, &keys, true)), ["   2 a\n", "   1 c\n", "   1 d\n"]);
    // lines without a key have the empty key
    let keys = vec![key("x")];
    assert_eq!(texts(&collapse_by(&lines, &keys, true)), ["   1 a\n", "   3 b\n"]);
    assert_eq!(texts(&collapse_by(&lines, &vec![], false)), [""]);
}
