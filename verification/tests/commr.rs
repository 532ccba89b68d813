use clitools::commr::{compare, print, run, Column, Config};
use clitools::input::Reading;

fn config(show: (bool, bool, bool), insensitive: bool, delimiter: &str) -> Config {
    Config {
        file1: "one".to_string(),
        file2: "two".to_string(),
        show_col1: show.0,
        show_col2: show.1,
        show_col3: show.2,
        insensitive,
        delimiter: delimiter.to_string(),
    }
}

fn text(content: &str) -> Reading {
    Reading::Text { content: content.to_string() }
}

fn lines(outcome: &clitools::output::Outcome) -> Vec<String> {
    outcome.written.iter().map(|e| e.text.clone()).collect()
}

#[test]
fn compare_merges_sorted_lines() {
    let a: Vec<String> = ["a", "b", "d"].iter().map(|s| s.to_string()).collect();
    let b: Vec<String> = ["b", "c", "e", "f"].iter().map(|s| s.to_string()).collect();
    let columns = compare(&a, &b);
    let shown: Vec<String> = columns
        .iter()
        .map(|c| match c {
            Column::Col1(l) => format!("1{}", l),
            Column::Col2(l) => format!("2{}", l),
            Column::Col3(l) => format!("3{}", l),
        })
        .collect();
    assert_eq!(shown, ["1a", "3b", "2c", "1d", "2e", "2f"]);
    assert_eq!(compare(&vec![], &vec![]).len(), 0);
    assert_eq!(compare(&a, &vec![]).len(), 3);
}

#[test]
fn print_places_a_line_in_its_column() {
    let all = config((true, true, true), false, "\t");
    assert_eq!(print(&all, &Column::Col1("x")), Some("x".to_string()));
    assert_eq!(print(&all, &Column::Col2("x")), Some("\tx".to_string()));
    assert_eq!(print(&all, &Column::Col3("x")), Some("\t\tx".to_string()));
    let no_first = config((false, true, true), false, "--");
    assert_eq!(print(&no_first, &Column::Col1("x")), None);
    assert_eq!(print(&no_first, &Column::Col2("x")), Some("x".to_string()));
    assert_eq!(print(&no_first, &Column::Col3("x")), Some("--x".to_string()));
    let only_third = config((false, false, true), false, ",");
    assert_eq!(print(&only_third, &Column::Col2("x")), None);
    assert_eq!(print(&only_third, &Column::Col3("")), Some("".to_string()));
    let no_third = config((true, true, false), false, ",");
    assert_eq!(print(&no_third, &Column::Col3("x")), None);
}

#[test]
fn commr_run_writes_columns() {
    let outcome = run(&config((true, true, true), false, "\t"), &text("a\nb\nd\n"), &text("b\nc\n"));
    assert!(outcome.failure.is_none());
    assert_eq!(lines(&outcome), ["a\n", "\t\tb\n", "\tc\n", "d\n"]);
    let outcome = run(&config((false, true, true), false, ":"), &text("a\nb\nd\n"), &text("b\nc\n"));
    assert_eq!(lines(&outcome), [":b\n", "c\n"]);
}

#[test]
fn commr_run_compares_in_lowercase_where_asked() {
    let outcome = run(&config((true, true, true), true, "\t"), &text("A\nb\n"), &text("a\nB\n"));
    assert_eq!(lines(&outcome), ["\t\ta\n", "\t\tb\n"]);
    let outcome = run(&config((true, true, true), false, "\t"), &text("A\nb\n"), &text("a\nB\n"));
    assert_eq!(lines(&outcome), ["A\n", "\ta\n", "\tB\n", "b\n"]);
}

#[test]
fn commr_run_refuses() {
    let mut both = config((true, true, true), false, "\t");
    both.file1 = "-".to_string();
    both.file2 = "-".to_string();
    let outcome = run(&both, &text("a"), &text("a"));
    assert_eq!(outcome.failure, Some("Both input files cannot be STDIN (\"-\")".to_string()));
    assert_eq!(outcome.written.len(), 0);
    let gone = Reading::OpenFailed { cause: "No such file or directory (os error 2)".to_string() };
    let other = Reading::OpenFailed { cause: "other".to_string() };
    let outcome = run(&config((true, true, true), false, "\t"), &gone, &other);
    assert_eq!(outcome.failure, Some("one: No such file or directory (os error 2)".to_string()));
    let outcome = run(&config((true, true, true), false, "\t"), &text(""), &other);
    assert_eq!(outcome.failure, Some("two: other".to_string()));
}
