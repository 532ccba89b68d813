use clitools::headr::{
    get_args, head_bytes, head_lines, head_of_bytes, parse_positive_int, run, Config, HeadFile,
    Taken,
};
use clitools::output::Stream;

#[test]
fn test_parse_positive_int() {
    let res = parse_positive_int("3");
    assert!(res.is_ok());
    assert_eq!(res.unwrap(), 3);

    let res = parse_positive_int("foo");
    assert!(res.is_err());
    assert_eq!(res.unwrap_err().to_string(), "foo".to_string());

    let res = parse_positive_int("0");
    assert!(res.is_err());
    assert_eq!(res.unwrap_err().to_string(), "0".to_string());
}

#[test]
fn parse_positive_int_edges() {
    assert_eq!(parse_positive_int("+3").unwrap(), 3);
    assert_eq!(parse_positive_int("-3").unwrap_err(), "-3");
    assert_eq!(parse_positive_int("").unwrap_err(), "");
    assert_eq!(parse_positive_int("000").unwrap_err(), "000");
    assert_eq!(parse_positive_int("18446744073709551615").unwrap(), usize::MAX);
    assert_eq!(parse_positive_int("18446744073709551616").unwrap_err(), "18446744073709551616");
}

#[test]
fn headr_get_args_rules() {
    let files = vec!["-".to_string()];
    let config = get_args(files.clone(), "10", None).unwrap();
    assert_eq!((config.files.clone(), config.lines, config.bytes), (files.clone(), 10, None));
    let config = get_args(files.clone(), "2", Some("5".to_string())).unwrap();
    assert_eq!((config.lines, config.bytes), (2, Some(5)));
    assert_eq!(get_args(files.clone(), "x", Some("y".to_string())).unwrap_err(), "illegal line count -- x");
    assert_eq!(get_args(files.clone(), "1", Some("0".to_string())).unwrap_err(), "illegal byte count -- 0");
}

#[test]
fn head_lines_takes_whole_lines() {
    assert_eq!(head_lines("a\nb\nc\n", 2), "a\nb\n");
    assert_eq!(head_lines("a\nb\nc\n", 3), "a\nb\nc\n");
    assert_eq!(head_lines("a\nb\nc", 5), "a\nb\nc");
    assert_eq!(head_lines("a\r\nb\r\n", 1), "a\r\n");
    assert_eq!(head_lines("\n\nx", 1), "\n");
    assert_eq!(head_lines("abc", 1), "abc");
    assert_eq!(head_lines("abc\n", 0), "");
    assert_eq!(head_lines("", 3), "");
}

#[test]
fn head_bytes_cuts_through_characters() {
    assert_eq!(head_bytes("ábc", 1), "\u{fffd}");
    assert_eq!(head_bytes("ábc", 2), "á");
    assert_eq!(head_bytes("ábc", 3), "áb");
    assert_eq!(head_bytes("ábc", 10), "ábc");
    assert_eq!(head_bytes("", 4), "");
}

fn text(path: &str, content: &str) -> HeadFile {
    HeadFile { path: path.to_string(), taken: Taken::Text { content: content.to_string() } }
}

fn bytes(path: &str, content: &[u8]) -> HeadFile {
    HeadFile { path: path.to_string(), taken: Taken::Bytes { content: content.to_vec() } }
}

#[test]
fn headr_run_one_file_has_no_banner() {
    let config = Config { files: vec!["a".to_string()], lines: 1, bytes: None };
    let outcome = run(&config, &vec![text("a", "x\ny\n")]);
    assert!(outcome.failure.is_none());
    assert_eq!(outcome.written.len(), 1);
    assert_eq!(outcome.written[0].text, "x\n");
    assert_eq!(outcome.written[0].stream, Stream::Stdout);
}

#[test]
fn headr_run_many_files() {
    let config = Config { files: vec![], lines: 2, bytes: Some(3) };
    let files = vec![
        text("a", "hello\n"),
        HeadFile { path: "b".to_string(), taken: Taken::OpenFailed { cause: "gone".to_string() } },
        text("c", "wörld"),
    ];
    let outcome = run(&config, &files);
    assert!(outcome.failure.is_none());
    let shown: Vec<(Stream, &str)> = outcome.written.iter().map(|e| (e.stream, e.text.as_str())).collect();
    assert_eq!(
        shown,
        vec![
            (Stream::Stdout, "==> a <==\n"),
            (Stream::Stdout, "hel"),
            (Stream::Stderr, "b: gone\n"),
            (Stream::Stdout, "\n==> c <==\n"),
            (Stream::Stdout, "wö"),
        ]
    );
}

#[test]
fn headr_run_ends_at_read_failure() {
    let config = Config { files: vec![], lines: 2, bytes: None };
    let files = vec![
        text("a", "1\n2\n3\n"),
        HeadFile { path: "b".to_string(), taken: Taken::ReadFailed { cause: "bad bytes".to_string() } },
        text("c", "never"),
    ];
    let outcome = run(&config, &files);
    assert_eq!(outcome.failure, Some("bad bytes".to_string()));
    let shown: Vec<&str> = outcome.written.iter().map(|e| e.text.as_str()).collect();
    assert_eq!(shown, vec!["==> a <==\n", "1\n2\n", "\n==> b <==\n"]);
}

#[test]
fn head_of_bytes_that_are_no_text() {
    assert_eq!(head_of_bytes(&[0x68, 0x69, 0xff, 0x21], 4), "hi\u{fffd}!");
    assert_eq!(head_of_bytes(&[0x68, 0x69, 0xff, 0x21], 2), "hi");
    assert_eq!(head_of_bytes(&[0xff, 0xfe], 1), "\u{fffd}");
    assert_eq!(head_of_bytes(&[0xc3, 0xa1, 0x62], 1), "\u{fffd}");
    assert_eq!(head_of_bytes(&[0xc3, 0xa1, 0x62], 2), "á");
    assert_eq!(head_of_bytes(&[0xc3, 0xa1, 0x62], 9), "áb");
    assert_eq!(head_of_bytes(&[], 3), "");
}

#[test]
fn headr_run_on_bytes_that_are_no_text() {
    let config = Config { files: vec![], lines: 10, bytes: Some(3) };
    let files = vec![bytes("a", &[0x80, 0x41, 0x42, 0x43]), bytes("b", &[0x41])];
    let outcome = run(&config, &files);
    assert!(outcome.failure.is_none());
    let shown: Vec<(Stream, &str)> =
        outcome.written.iter().map(|e| (e.stream, e.text.as_str())).collect();
    assert_eq!(
        shown,
        vec![
            (Stream::Stdout, "==> a <==\n"),
            (Stream::Stdout, "\u{fffd}AB"),
            (Stream::Stdout, "\n==> b <==\n"),
            (Stream::Stdout, "A"),
        ]
    );
    // bytes given where lines are asked for are read as text, then cut into lines
    let config = Config { files: vec![], lines: 1, bytes: None };
    let outcome = run(&config, &vec![bytes("a", &[0x80, 0x0a, 0x41, 0x0a])]);
    assert_eq!(outcome.written.len(), 1);
    assert_eq!(outcome.written[0].text, "\u{fffd}\n");
    // text given where bytes are asked for is cut by its bytes
    let config = Config { files: vec![], lines: 1, bytes: Some(1) };
    let outcome = run(&config, &vec![text("a", "áb")]);
    assert_eq!(outcome.written[0].text, "\u{fffd}");
}
