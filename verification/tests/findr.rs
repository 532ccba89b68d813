use clitools::findr::{
    get_args, keep, mark_names, name_filter, run, search, type_filter, EntryType, Kind, Step,
};
use clitools::output::Stream;
use clitools::pattern::Pattern;

fn strings(items: &[&str]) -> Vec<String> {
    items.iter().map(|l| l.to_string()).collect()
}

fn entry(path: &str, name: &str, kind: Kind) -> Step {
    Step::Entry { path: path.to_string(), name: name.to_string(), kind }
}

fn walk() -> Vec<Step> {
    vec![
        entry("d", "d", Kind::Dir),
        entry("d/a.txt", "a.txt", Kind::File),
        Step::Failed { message: "IO error for operation on d/x: denied".to_string() },
        entry("d/b.csv", "b.csv", Kind::File),
        entry("d/l.txt", "l.txt", Kind::Link),
        entry("d/sock", "sock", Kind::Other),
    ]
}

#[test]
fn findr_get_args_rules() {
    let config = get_args(strings(&["."]), &strings(&[".*\\.txt", "^a"]), &strings(&["f", "l", "d"])).unwrap();
    assert_eq!(config.paths, ["."]);
    assert_eq!(config.entry_types, [EntryType::File, EntryType::Link, EntryType::Dir]);
    assert_eq!(config.names.len(), 2);
    assert_eq!(config.names[1].source(), "^a");
    assert!(!config.names[1].ignores_case());
    let err = get_args(strings(&["."]), &strings(&["a", "*.txt", "("]), &strings(&[])).unwrap_err();
    assert_eq!(err, "Invalid --name \"*.txt\"");
    let config = get_args(vec![], &vec![], &vec![]).unwrap();
    assert_eq!((config.names.len(), config.entry_types.len()), (0, 0));
}

#[test]
fn findr_filters() {
    assert!(type_filter(&vec![], Kind::Other));
    assert!(type_filter(&vec![EntryType::File, EntryType::Dir], Kind::Dir));
    assert!(!type_filter(&vec![EntryType::File, EntryType::Dir], Kind::Link));
    assert!(!type_filter(&vec![EntryType::Link], Kind::Other));
    assert!(name_filter(&vec![], "anything"));
    let names = vec![Pattern::compile("^a", false).unwrap(), Pattern::compile("csv$", false).unwrap()];
    assert!(name_filter(&names, "a.txt"));
    assert!(name_filter(&names, "b.csv"));
    assert!(!name_filter(&names, "l.txt"));
    assert!(!name_filter(&names, "A.txt"));
}

#[test]
fn findr_search_one_walk() {
    let config = get_args(vec![], &strings(&["txt$"]), &strings(&["f", "l"])).unwrap();
    let out = search(&config, &walk());
    let shown: Vec<(Stream, &str)> = out.iter().map(|e| (e.stream, e.text.as_str())).collect();
    assert_eq!(
        shown,
        vec![
            (Stream::Stderr, "IO error for operation on d/x: denied\n"),
            (Stream::Stdout, "d/a.txt\nd/l.txt\n"),
        ]
    );
    let config = get_args(vec![], &vec![], &vec![]).unwrap();
    let out = search(&config, &walk());
    assert_eq!(out[1].text, "d\nd/a.txt\nd/b.csv\nd/l.txt\nd/sock\n");
}

#[test]
fn findr_run_over_walks() {
    let config = get_args(vec![], &vec![], &strings(&["d"])).unwrap();
    let out = run(&config, &vec![walk(), vec![], vec![entry("e", "e", Kind::Dir)]]);
    let shown: Vec<&str> = out.iter().map(|e| e.text.as_str()).collect();
    assert_eq!(shown, vec!["IO error for operation on d/x: denied\n", "d\n", "\n", "e\n"]);
}

#[test]
fn findr_keep_goes_by_the_marks() {
    let wanted = vec![EntryType::File, EntryType::Dir];
    let out = keep(&wanted, &walk(), &vec![true, false, true, true, true, true]);
    assert_eq!(out.len(), 2);
    assert_eq!(out[1].text, "d\nd/b.csv\n");
    // steps without a mark are not kept
    assert_eq!(keep(&vec![], &walk(), &vec![true, true])[1].text, "d\nd/a.txt\n");
    assert_eq!(keep(&vec![], &walk(), &vec![])[1].text, "\n");
    let names = vec![Pattern::compile("^[bl]", false).unwrap()];
    assert_eq!(mark_names(&names, &walk()), [false, false, false, true, true, false]);
    assert_eq!(mark_names(&vec![], &walk()), [true, true, false, true, true, true]);
}
