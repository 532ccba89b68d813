use clitools::fortuner::{
    find_files, get_args, has_extension, match_each, parse_records, pick_fortune,
    picked_or_fallback, read_fortunes, report, run, ArgsError, Config, Fortune, FortuneError,
    Probe, Source, WalkEntry,
};
use clitools::input::{Reading, SourceFile};
use clitools::output::{Emission, Stream};
use clitools::pattern::Pattern;
use clitools::text::base_name;

fn file(path: &str) -> Source {
    Source { path: path.to_string(), probe: Probe::File }
}

fn missing(path: &str) -> Source {
    Source {
        path: path.to_string(),
        probe: Probe::Missing { cause: "No such file or directory (os error 2)".to_string() },
    }
}

fn entry(path: &str, is_file: bool) -> WalkEntry {
    WalkEntry { path: path.to_string(), is_file }
}

fn inputs_dir() -> Source {
    Source {
        path: "./tests/inputs".to_string(),
        probe: Probe::Directory {
            entries: vec![
                entry("./tests/inputs", false),
                entry("./tests/inputs/jokes", true),
                entry("./tests/inputs/jokes.dat", true),
                entry("./tests/inputs/quotes", true),
                entry("./tests/inputs/quotes.dat", true),
                entry("./tests/inputs/ascii-art", true),
                entry("./tests/inputs/ascii-art.dat", true),
                entry("./tests/inputs/empty", false),
                entry("./tests/inputs/empty/.gitkeep", true),
                entry("./tests/inputs/literature", true),
                entry("./tests/inputs/literature.dat", true),
            ],
        },
    }
}

const JOKES: &str = "Q. What do you call a head of lettuce in a shirt and tie?\n\
A. Collared greens.\n\
%\n\
Q: Why did the gardener quit his job?\n\
A: His celery wasn't high enough.\n\
%\n\
Q. Why did the honeydew couple get married in a church?\n\
A. Their parents told them they cantaloupe.\n\
%\n\
Q: Why was the math book sad?\n\
A: It had too many problems.\n\
%\n\
Q: What do you call a fish with no eyes?\n\
A: A fsh.\n\
%\n\
Q: What do you call a deer wearing an eye patch?\n\
A: A bad idea (bad-eye deer).\n\
%\n";

const QUOTES: &str = "You cannot achieve the impossible without attempting the absurd.\n\
%\n\
Assumption is the mother of all screw-ups.\n\
%\n\
Neckties strangle clear thinking.\n\
%\n\
Simplicity is the ultimate sophistication.\n\
%\n\
Well begun is half done.\n\
%\n";

fn text_file(path: &str, content: &str) -> SourceFile {
    SourceFile { path: path.to_string(), reading: Reading::Text { content: content.to_string() } }
}

fn fortune(source: &str, text: &str) -> Fortune {
    Fortune { source: source.to_string(), text: text.to_string() }
}

fn shown(out: &[Emission]) -> Vec<(Stream, String)> {
    out.iter().map(|e| (e.stream, e.text.clone())).collect()
}

#[test]
fn test_find_files() {
    // Verify that the function finds a file known to exist
    let res = find_files(&vec![file("./tests/inputs/jokes")], "dat");
    assert!(res.is_ok());

    let files = res.unwrap();
    assert_eq!(files.len(), 1);
    assert_eq!(files.get(0).unwrap(), "./tests/inputs/jokes");

    // Fails to find a bad file
    let res = find_files(&vec![missing("/path/does/not/exist")], "dat");
    assert!(res.is_err());

    // Finds all the input files, excludes ".dat"
    let res = find_files(&vec![inputs_dir()], "dat");
    assert!(res.is_ok());

    // Check number and order of files
    let files = res.unwrap();
    assert_eq!(files.len(), 5);
    let first = files.get(0).unwrap().to_string();
    assert!(first.contains("ascii-art"));
    let last = files.last().unwrap().to_string();
    assert!(last.contains("quotes"));

    // Test for multiple sources, path must be unique and sorted
    let res = find_files(
        &vec![
            file("./tests/inputs/jokes"),
            file("./tests/inputs/ascii-art"),
            file("./tests/inputs/jokes"),
        ],
        "dat",
    );
    assert!(res.is_ok());
    let files = res.unwrap();
    assert_eq!(files.len(), 2);
    assert_eq!(base_name(files.first().unwrap()), "ascii-art".to_string());
    assert_eq!(base_name(files.last().unwrap()), "jokes".to_string());
}

#[test]
fn test_read_fortunes() {
    // Parses all the fortunes without a filter
    let res = read_fortunes(&vec![text_file("./tests/inputs/jokes", JOKES)]);
    assert!(res.is_ok());

    if let Ok(fortunes) = res {
        // Correct number and sorting
        assert_eq!(fortunes.len(), 6);
        assert_eq!(
            fortunes.first().unwrap().text,
            "Q. What do you call a head of lettuce in a shirt and tie?\n\
            A. Collared greens."
        );
        assert_eq!(
            fortunes.last().unwrap().text,
            "Q: What do you call a deer wearing an eye patch?\n\
            A: A bad idea (bad-eye deer)."
        );
    }

    // Filters for matching text
    let res = read_fortunes(&vec![
        text_file("./tests/inputs/jokes", JOKES),
        text_file("./tests/inputs/quotes", QUOTES),
    ]);
    assert!(res.is_ok());
    assert_eq!(res.unwrap().len(), 11);
}

#[test]
fn test_pick_fortune() {
    // Create a slice of fortunes
    let fortunes = &[
        Fortune {
            source: "fortunes".to_string(),
            text: "You cannot achieve the impossible without \
                  attempting the absurd."
                .to_string(),
        },
        Fortune {
            source: "fortunes".to_string(),
            text: "Assumption is the mother of all screw-ups.".to_string(),
        },
        Fortune {
            source: "fortunes".to_string(),
            text: "Neckties strangle clear thinking.".to_string(),
        },
    ];

    // Pick a fortune with a seed
    assert_eq!(
        pick_fortune(fortunes, Some(1)).unwrap(),
        "Neckties strangle clear thinking.".to_string()
    );
}

#[test]
fn find_files_is_repeatable() {
    let sources = vec![inputs_dir(), file("./tests/inputs/jokes"), file("./zebra")];
    let once = find_files(&sources, "dat").unwrap();
    let twice = find_files(&sources, "dat").unwrap();
    assert_eq!(once, twice);
    let again: Vec<Source> = once.iter().map(|p| file(p)).collect();
    assert_eq!(find_files(&again, "dat").unwrap(), once);
    let mut sorted = once.clone();
    sorted.sort();
    sorted.dedup();
    assert_eq!(sorted, once);
}

#[test]
fn find_files_same_directory_twice() {
    let p = inputs_dir();
    let q = Source {
        path: "./more".to_string(),
        probe: Probe::Directory {
            entries: vec![entry("./more", false), entry("./more/riddles", true)],
        },
    };
    let q2 = Source {
        path: "./more".to_string(),
        probe: Probe::Directory {
            entries: vec![entry("./more", false), entry("./more/riddles", true)],
        },
    };
    let both = find_files(&vec![inputs_dir(), q], "dat").unwrap();
    let repeated = find_files(&vec![p, q2, inputs_dir()], "dat").unwrap();
    assert_eq!(both, repeated);
    assert_eq!(both.len(), 6);
    assert_eq!(both[0], "./more/riddles");
}

#[test]
fn find_files_extension_rule() {
    let dir = Source {
        path: "d".to_string(),
        probe: Probe::Directory {
            entries: vec![entry("d", false), entry("d/b.dat", true), entry("d/a.txt", true)],
        },
    };
    assert_eq!(find_files(&vec![dir], "dat").unwrap(), vec!["d/a.txt".to_string()]);
    // a file given directly is taken whatever its extension
    assert_eq!(find_files(&vec![file("d/b.dat")], "dat").unwrap(), vec!["d/b.dat".to_string()]);
    // the excluded extension is the caller's choice
    let dir = Source {
        path: "d".to_string(),
        probe: Probe::Directory {
            entries: vec![entry("d/b.dat", true), entry("d/a.txt", true)],
        },
    };
    assert_eq!(find_files(&vec![dir], "txt").unwrap(), vec!["d/b.dat".to_string()]);
}

#[test]
fn has_extension_follows_file_names() {
    assert!(has_extension("a/b.dat", "dat"));
    assert!(has_extension("b.tar.dat", "dat"));
    assert!(!has_extension("a.dat/b", "dat"));
    assert!(!has_extension(".dat", "dat"));
    assert!(has_extension("..dat", "dat"));
    assert!(!has_extension("dat", "dat"));
    assert!(!has_extension("a.data", "dat"));
    assert!(has_extension("a.", ""));
    assert!(!has_extension("..", ""));
    assert!(!has_extension("a", ""));
}

#[test]
fn find_files_orders_by_bytes() {
    let files = find_files(&vec![file("b"), file("a/c"), file("a.c"), file("B"), file("a")], "dat")
        .unwrap();
    assert_eq!(files, vec!["B", "a", "a.c", "a/c", "b"]);
}

#[test]
fn find_files_first_missing_source_fails_everything() {
    let second = Source {
        path: "also-gone".to_string(),
        probe: Probe::Missing { cause: "other".to_string() },
    };
    let res = find_files(&vec![file("here"), missing("gone"), second], "dat");
    match res {
        Err(FortuneError::PathNotFound { path, cause }) => {
            assert_eq!(path, "gone");
            assert_eq!(cause, "No such file or directory (os error 2)");
        }
        _ => panic!("expected a missing path"),
    }
    let err = find_files(&vec![missing("gone")], "dat").unwrap_err();
    assert_eq!(err.message(), "gone: No such file or directory (os error 2)");
}

#[test]
fn find_files_passes_over_other_things() {
    let pipe = Source { path: "pipe".to_string(), probe: Probe::Other };
    assert_eq!(find_files(&vec![pipe, file("x")], "dat").unwrap(), vec!["x".to_string()]);
    assert_eq!(find_files(&vec![], "dat").unwrap().len(), 0);
}

#[test]
fn record_framing() {
    let res = read_fortunes(&vec![text_file("dir/f", "L1\nL2\n%\nL3\n%\n")]).unwrap();
    assert_eq!(res.len(), 2);
    assert_eq!(res[0].text, "L1\nL2");
    assert_eq!(res[1].text, "L3");
    assert_eq!(res[0].source, "f");
    assert_eq!(res[1].source, "f");
    // what follows the last delimiter is dropped
    let res = read_fortunes(&vec![text_file("f", "L1\n%\nL2\nL3\n")]).unwrap();
    assert_eq!(res.len(), 1);
    assert_eq!(res[0].text, "L1");
    let res = read_fortunes(&vec![text_file("f", "L1\nL2")]).unwrap();
    assert_eq!(res.len(), 0);
}

#[test]
fn record_framing_edges() {
    // delimiters with nothing between them give no record
    let res = read_fortunes(&vec![text_file("f", "%\n%\na\n%\n%\n")]).unwrap();
    assert_eq!(res.len(), 1);
    assert_eq!(res[0].text, "a");
    // only a line that is the delimiter alone ends a record
    let res = read_fortunes(&vec![text_file("f", "50%\n %\n%%\n%\n")]).unwrap();
    assert_eq!(res.len(), 1);
    assert_eq!(res[0].text, "50%\n %\n%%");
    // line endings with a carriage return
    let res = read_fortunes(&vec![text_file("f", "a\r\nb\r\n%\r\n")]).unwrap();
    assert_eq!(res.len(), 1);
    assert_eq!(res[0].text, "a\nb");
    // a delimiter without a line feed after it still ends the record
    let res = read_fortunes(&vec![text_file("f", "a\n%")]).unwrap();
    assert_eq!(res.len(), 1);
    // nothing to read
    assert_eq!(read_fortunes(&vec![text_file("f", "")]).unwrap().len(), 0);
    assert_eq!(read_fortunes(&vec![]).unwrap().len(), 0);
}

#[test]
fn blank_line_is_no_record() {
    let res = read_fortunes(&vec![text_file("F", "\n%\nA\n%\n")]).unwrap();
    assert_eq!(res.len(), 1);
    assert_eq!(res[0].text, "A");
    assert_eq!(res[0].source, "F");
    // neither at the end, nor with a carriage return before the line feed
    let res = read_fortunes(&vec![text_file("F", "A\n%\n\n%\n\r\n%\nB\n%\n")]).unwrap();
    assert_eq!(res.len(), 2);
    assert_eq!(res[0].text, "A");
    assert_eq!(res[1].text, "B");
    // two empty lines are a text of one line feed, and a blank is a text
    let res = read_fortunes(&vec![text_file("F", "\n\n%\n \n%\n")]).unwrap();
    assert_eq!(res.len(), 2);
    assert_eq!(res[0].text, "\n");
    assert_eq!(res[1].text, " ");
    // the empty line does not stay in the buffer
    let lines: Vec<String> = ["", "%", "x", "%"].iter().map(|s| s.to_string()).collect();
    let records = parse_records("src", &lines);
    assert_eq!(records.len(), 1);
    assert_eq!(records[0].text, "x");
    for content in ["\n%\n", "%\n\n%\n%", "a\n\n%\n\n%\nb\n%\n"] {
        let res = read_fortunes(&vec![text_file("F", content)]).unwrap();
        assert!(res.iter().all(|f| !f.text.is_empty()));
    }
}

#[test]
fn dangling_lines_do_not_reach_the_next_file() {
    let res = read_fortunes(&vec![text_file("one", "a\n%\nloose\n"), text_file("two", "b\n%\n")])
        .unwrap();
    assert_eq!(res.len(), 2);
    assert_eq!(res[1].source, "two");
    assert_eq!(res[1].text, "b");
}

#[test]
fn parse_records_from_lines() {
    let lines: Vec<String> = ["x", "y", "%", "%", "z", "%", "w"].iter().map(|s| s.to_string()).collect();
    let records = parse_records("src", &lines);
    assert_eq!(records.len(), 2);
    assert_eq!(records[0].text, "x\ny");
    assert_eq!(records[1].text, "z");
    assert_eq!(records[1].source, "src");
}

#[test]
fn read_fortunes_fails_at_first_unread_file() {
    let files = vec![
        text_file("a", "x\n%\n"),
        SourceFile {
            path: "b".to_string(),
            reading: Reading::OpenFailed { cause: "Permission denied (os error 13)".to_string() },
        },
        SourceFile { path: "c".to_string(), reading: Reading::ReadFailed { cause: "later".to_string() } },
    ];
    match read_fortunes(&files) {
        Err(FortuneError::OpenFailed { path, cause }) => {
            assert_eq!(path, "b");
            assert_eq!(cause, "Permission denied (os error 13)");
        }
        _ => panic!("expected an open failure"),
    }
    let files = vec![SourceFile {
        path: "c".to_string(),
        reading: Reading::ReadFailed { cause: "stream did not contain valid UTF-8".to_string() },
    }];
    let err = read_fortunes(&files).unwrap_err();
    assert!(matches!(err, FortuneError::ReadFailed { .. }));
    assert_eq!(err.message(), "c: stream did not contain valid UTF-8");
}

#[test]
fn grouped_filter_output() {
    let fortunes = vec![fortune("A", "cat"), fortune("A", "dog"), fortune("B", "cathedral")];
    let pattern = Pattern::compile("cat", false).unwrap();
    let hits = match_each(&fortunes, &pattern);
    assert_eq!(hits, vec![true, false, true]);
    let out = report(&fortunes, &hits);
    assert_eq!(
        shown(&out),
        vec![
            (Stream::Stdout, "(A)\n%\n".to_string()),
            (Stream::Stdout, "cat\n%\n".to_string()),
            (Stream::Stdout, "(B)\n%\n".to_string()),
            (Stream::Stdout, "cathedral\n%\n".to_string()),
        ]
    );
    // both matches of A stand under one header
    let out = report(&fortunes, &vec![true, true, true]);
    assert_eq!(
        shown(&out),
        vec![
            (Stream::Stdout, "(A)\n%\n".to_string()),
            (Stream::Stdout, "cat\n%\n".to_string()),
            (Stream::Stdout, "dog\n%\n".to_string()),
            (Stream::Stdout, "(B)\n%\n".to_string()),
            (Stream::Stdout, "cathedral\n%\n".to_string()),
        ]
    );
}

#[test]
fn report_groups_by_the_match_printed_before() {
    let fortunes = vec![fortune("A", "1"), fortune("B", "2"), fortune("A", "3"), fortune("A", "4")];
    // the record of B between them does not match, so A is not named again
    let out = report(&fortunes, &vec![true, false, true, true]);
    assert_eq!(out.len(), 4);
    assert_eq!(out[0].text, "(A)\n%\n");
    assert_eq!(out[3].text, "4\n%\n");
    // a source that comes back is named again
    let out = report(&fortunes, &vec![true, true, true, false]);
    let headers: Vec<&str> =
        out.iter().filter(|e| e.text.starts_with('(')).map(|e| e.text.as_str()).collect();
    assert!(out.iter().all(|e| e.stream == Stream::Stdout));
    assert_eq!(headers, vec!["(A)\n%\n", "(B)\n%\n", "(A)\n%\n"]);
    // no match, no output; marks that are missing count as no match
    assert_eq!(report(&fortunes, &vec![false, false, false, false]).len(), 0);
    assert_eq!(report(&fortunes, &vec![]).len(), 0);
    assert_eq!(report(&fortunes, &vec![false, true]).len(), 2);
}

#[test]
fn case_insensitive_filter() {
    let fortunes = vec![fortune("pets", "dog")];
    let loose = Pattern::compile("DOG", true).unwrap();
    assert!(loose.finds("dog"));
    assert_eq!(match_each(&fortunes, &loose), vec![true]);
    let strict = Pattern::compile("DOG", false).unwrap();
    assert!(!strict.finds("dog"));
    assert_eq!(match_each(&fortunes, &strict), vec![false]);
    let config = Config { source: vec![], pattern: Some(loose), seed: None };
    let out = run(&config, &fortunes);
    assert_eq!(shown(&out), vec![
        (Stream::Stdout, "(pets)\n%\n".to_string()),
        (Stream::Stdout, "dog\n%\n".to_string()),
    ]);
    let config = Config { source: vec![], pattern: Some(strict), seed: None };
    assert_eq!(run(&config, &fortunes).len(), 0);
}

#[test]
fn empty_collection_fallback() {
    assert_eq!(pick_fortune(&[], Some(1)), None);
    assert_eq!(pick_fortune(&[], Some(77)), None);
    assert_eq!(pick_fortune(&[], None), None);
    assert_eq!(picked_or_fallback(None), "No fortunes found");
    assert_eq!(picked_or_fallback(Some("x".to_string())), "x");
    let config = Config { source: vec![], pattern: None, seed: Some(3) };
    let out = run(&config, &[]);
    assert_eq!(shown(&out), vec![(Stream::Stdout, "No fortunes found\n".to_string())]);
    let config = Config { source: vec![], pattern: None, seed: None };
    let out = run(&config, &[]);
    assert_eq!(shown(&out), vec![(Stream::Stdout, "No fortunes found\n".to_string())]);
}

#[test]
fn seeded_pick_is_repeatable() {
    let fortunes: Vec<Fortune> =
        (0..50).map(|i| fortune("f", &format!("fortune {}", i))).collect();
    for seed in [0u64, 1, 2, 42, u64::MAX] {
        let first = pick_fortune(&fortunes, Some(seed)).unwrap();
        let second = pick_fortune(&fortunes, Some(seed)).unwrap();
        assert_eq!(first, second);
        assert!(fortunes.iter().any(|f| f.text == first));
    }
    // the pick goes by the place, not by the record's text or source
    let other: Vec<Fortune> = (0..50).map(|i| fortune("g", &format!("other {}", i))).collect();
    let a = pick_fortune(&fortunes, Some(9)).unwrap();
    let b = pick_fortune(&other, Some(9)).unwrap();
    assert_eq!(a.replace("fortune", "other"), b);
    let config = Config { source: vec![], pattern: None, seed: Some(9) };
    assert_eq!(run(&config, &fortunes)[0].text, format!("{}\n", a));
}

#[test]
fn unseeded_pick_is_one_of_the_records() {
    let fortunes = vec![fortune("f", "a"), fortune("f", "b"), fortune("g", "c")];
    for _ in 0..20 {
        let picked = pick_fortune(&fortunes, None).unwrap();
        assert!(picked == "a" || picked == "b" || picked == "c");
    }
    assert_eq!(pick_fortune(&fortunes[..1], None).unwrap(), "a");
}

#[test]
fn fortuner_get_args_rules() {
    let files = vec!["a".to_string(), "b".to_string()];
    let config = get_args(files.clone(), Some("c.t".to_string()), true, Some("10".to_string())).unwrap();
    assert_eq!(config.source, files);
    assert_eq!(config.seed, Some(10));
    let pattern = config.pattern.unwrap();
    assert_eq!(pattern.source(), "c.t");
    assert!(pattern.ignores_case());
    assert!(pattern.finds("xCaTx"));

    let config = get_args(files.clone(), None, true, None).unwrap();
    assert!(config.pattern.is_none());
    assert_eq!(config.seed, None);

    let err = get_args(files.clone(), Some("*".to_string()), false, Some("x".to_string())).unwrap_err();
    assert!(matches!(err, ArgsError::InvalidPattern { .. }));
    assert_eq!(err.message(), "Invalid --pattern \"*\"");

    let err = get_args(files.clone(), Some("a".to_string()), false, Some("x".to_string())).unwrap_err();
    assert!(matches!(err, ArgsError::InvalidSeed { .. }));
    assert_eq!(err.message(), "\"x\" not a valid integer");
    assert!(get_args(files.clone(), None, false, Some("-1".to_string())).is_err());
    assert!(get_args(files.clone(), None, false, Some("18446744073709551616".to_string())).is_err());
    assert_eq!(
        get_args(files.clone(), None, false, Some("18446744073709551615".to_string())).unwrap().seed,
        Some(u64::MAX)
    );
    assert_eq!(get_args(files, None, false, Some("+7".to_string())).unwrap().seed, Some(7));
}
