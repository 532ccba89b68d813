//! Finding entries below directories by their kind and by their name.
use vstd::prelude::*;
use vstd::string::*;
use crate::output::{to_stderr, to_stdout, Emission, EmissionModel, Stream};
use crate::pattern::{pattern_compiles, pattern_matches, Pattern, PatternModel};
use crate::text::{join, join_strings, views};

verus! {

/// A kind of entry to look for.
#[derive(Debug, PartialEq, Eq, Structural)]
pub enum EntryType {
    Dir,
    File,
    Link,
}

/// The kind of an entry that a walk came by.
#[derive(Clone, Copy, Debug, PartialEq, Eq, Structural)]
pub enum Kind {
    Dir,
    File,
    Link,
    Other,
}

/// What the tool is asked to do.
#[derive(Debug)]
pub struct Config {
    /// The paths to search below.
    pub paths: Vec<String>,
    /// The patterns of which a name has to match one.
    pub names: Vec<Pattern>,
    /// The kinds of which an entry has to be one.
    pub entry_types: Vec<EntryType>,
}

/// One step of a walk: an entry, or the message of the error that stood in
/// its place.
#[derive(Debug)]
pub enum Step {
    Entry { path: String, name: String, kind: Kind },
    Failed { message: String },
}

pub enum StepModel {
    Entry { path: Seq<char>, name: Seq<char>, kind: Kind },
    Failed { message: Seq<char> },
}

impl View for Step {
    type V = StepModel;

    open spec fn view(&self) -> StepModel {
        match *self {
            Step::Entry { path, name, kind } => StepModel::Entry {
                path: path@,
                name: name@,
                kind: kind,
            },
            Step::Failed { message } => StepModel::Failed { message: message@ },
        }
    }
}

/// The kind that a letter stands for.
pub open spec fn type_of(letter: Seq<char>) -> Option<EntryType> {
    if letter == "d"@ {
        Some(EntryType::Dir)
    } else if letter == "f"@ {
        Some(EntryType::File)
    } else if letter == "l"@ {
        Some(EntryType::Link)
    } else {
        None
    }
}

/// The complaint about a name pattern that does not compile.
pub open spec fn invalid_name(name: Seq<char>) -> Seq<char> {
    "Invalid --name \""@ + name + "\""@
}

/// Whether `i` is the first name that does not compile.
pub open spec fn first_invalid(names: Seq<Seq<char>>, i: int) -> bool {
    &&& 0 <= i < names.len()
    &&& !pattern_compiles(names[i], false)
    &&& forall|j: int| 0 <= j < i ==> pattern_compiles(#[trigger] names[j], false)
}

/// Builds the configuration from the arguments as they were given. Every
/// name is compiled as a pattern, and the first that does not compile is the
/// error. Every type is one of the letters `d`, `f` and `l`.
pub fn get_args(paths: Vec<String>, names: &Vec<String>, types: &Vec<String>) -> (r: Result<
    Config,
    String,
>)
    requires
        forall|i: int| 0 <= i < types.len() ==> type_of(#[trigger] types[i]@) is Some,
    ensures
        match r {
            Ok(config) => {
                &&& config.paths == paths
                &&& config.names.len() == names.len()
                &&& forall|i: int|
                    0 <= i < names.len() ==> (#[trigger] config.names[i])@ == (PatternModel {
                        source: names[i]@,
                        case_insensitive: false,
                    }) && pattern_compiles(names[i]@, false)
                &&& config.entry_types.len() == types.len()
                &&& forall|i: int|
                    0 <= i < types.len() ==> Some(#[trigger] config.entry_types[i]) == type_of(
                        types[i]@,
                    )
            },
            Err(e) => exists|i: int|
                first_invalid(views(names@), i) && e@ == invalid_name(#[trigger] names[i]@),
        },
{
    let ghost texts = views(names@);
    let mut compiled: Vec<Pattern> = Vec::new();
    let mut i: usize = 0;
    while i < names.len()
        invariant
            i <= names.len(),
            texts == views(names@),
            compiled.len() == i,
            forall|k: int|
                0 <= k < i ==> (#[trigger] compiled[k])@ == (PatternModel {
                    source: names[k]@,
                    case_insensitive: false,
                }) && pattern_compiles(names[k]@, false),
        decreases names.len() - i,
    {
        assert(texts[i as int] == names[i as int]@);
        match Pattern::compile(names[i].as_str(), false) {
            Some(p) => {
                compiled.push(p);
            },
            None => {
                assert forall|j: int| 0 <= j < i implies pattern_compiles(
                    #[trigger] texts[j],
                    false,
                ) by {
                    assert(texts[j] == names[j]@);
                    assert(compiled[j]@.source == names[j]@);
                }
                assert(first_invalid(texts, i as int));
                let mut m = String::from_str("Invalid --name \"");
                m.append(names[i].as_str());
                m.append("\"");
                return Err(m);
            },
        }
        i += 1;
    }
    let d = String::from_str("d");
    let f = String::from_str("f");
    let mut kinds: Vec<EntryType> = Vec::new();
    let mut k: usize = 0;
    while k < types.len()
        invariant
            k <= types.len(),
            kinds.len() == k,
            d@ == "d"@,
            f@ == "f"@,
            forall|i: int| 0 <= i < types.len() ==> type_of(#[trigger] types[i]@) is Some,
            forall|i: int| 0 <= i < k ==> Some(#[trigger] kinds[i]) == type_of(types[i]@),
        decreases types.len() - k,
    {
        assert(type_of(types[k as int]@) is Some);
        let kind = if types[k] == d {
            EntryType::Dir
        } else if types[k] == f {
            EntryType::File
        } else {
            EntryType::Link
        };
        kinds.push(kind);
        k += 1;
    }
    Ok(Config { paths: paths, names: compiled, entry_types: kinds })
}

/// Whether an entry of kind `kind` is of the kind asked for.
pub open spec fn is_type(wanted: EntryType, kind: Kind) -> bool {
    match wanted {
        EntryType::Dir => kind == Kind::Dir,
        EntryType::File => kind == Kind::File,
        EntryType::Link => kind == Kind::Link,
    }
}

/// Whether an entry passes the filter of kinds: there is none, or the entry
/// is of one of the kinds.
pub open spec fn type_passes(wanted: Seq<EntryType>, kind: Kind) -> bool {
    wanted.len() == 0 || exists|i: int| 0 <= i < wanted.len() && is_type(#[trigger] wanted[i], kind)
}

/// Whether a name passes the filter of names: there is none, or one of the
/// patterns matches the name.
pub open spec fn name_passes(names: Seq<PatternModel>, name: Seq<char>) -> bool {
    names.len() == 0 || exists|i: int|
        0 <= i < names.len() && pattern_matches(
            (#[trigger] names[i]).source,
            names[i].case_insensitive,
            name,
        )
}

/// Whether an entry passes the filter of kinds.
pub fn type_filter(wanted: &Vec<EntryType>, kind: Kind) -> (r: bool)
    ensures
        r == type_passes(wanted@, kind),
{
    if wanted.len() == 0 {
        return true;
    }
    let mut i: usize = 0;
    while i < wanted.len()
        invariant
            i <= wanted.len(),
            forall|k: int| 0 <= k < i ==> !is_type(#[trigger] wanted@[k], kind),
        decreases wanted.len() - i,
    {
        let hit = match wanted[i] {
            EntryType::Dir => kind == Kind::Dir,
            EntryType::File => kind == Kind::File,
            EntryType::Link => kind == Kind::Link,
        };
        if hit {
            return true;
        }
        i += 1;
    }
    false
}

/// Whether a name passes the filter of names.
pub fn name_filter(names: &Vec<Pattern>, name: &str) -> (r: bool)
    ensures
        r == name_passes(views(names@), name@),
{
    if names.len() == 0 {
        return true;
    }
    let ghost all = views(names@);
    let mut i: usize = 0;
    while i < names.len()
        invariant
            i <= names.len(),
            all == views(names@),
            forall|k: int|
                0 <= k < i ==> !pattern_matches(
                    (#[trigger] all[k]).source,
                    all[k].case_insensitive,
                    name@,
                ),
        decreases names.len() - i,
    {
        assert(all[i as int] == names[i as int]@);
        if names[i].finds(name) {
            return true;
        }
        i += 1;
    }
    false
}

/// Whether the step at `i` is marked; a step without a mark is not.
pub open spec fn marked_at(marks: Seq<bool>, i: int) -> bool {
    0 <= i < marks.len() && marks[i]
}

/// The paths of the entries among the first `n` steps that are marked and
/// pass the filter of kinds.
pub open spec fn found(wanted: Seq<EntryType>, steps: Seq<StepModel>, marks: Seq<bool>, n: int) -> Seq<
    Seq<char>,
>
    decreases n,
{
    if n <= 0 || n > steps.len() {
        Seq::<Seq<char>>::empty()
    } else {
        let before = found(wanted, steps, marks, n - 1);
        match steps[n - 1] {
            StepModel::Entry { path, name, kind } => if type_passes(wanted, kind) && marked_at(
                marks,
                n - 1,
            ) {
                before.push(path)
            } else {
                before
            },
            StepModel::Failed { .. } => before,
        }
    }
}

/// The messages of the errors among the first `n` steps, each on a line for
/// the standard error.
pub open spec fn failures(steps: Seq<StepModel>, n: int) -> Seq<EmissionModel>
    decreases n,
{
    if n <= 0 || n > steps.len() {
        Seq::<EmissionModel>::empty()
    } else {
        let before = failures(steps, n - 1);
        match steps[n - 1] {
            StepModel::Entry { .. } => before,
            StepModel::Failed { message } => before.push(to_stderr(message + "\n"@)),
        }
    }
}

/// What is written for a walk whose steps are marked: the errors that the
/// walk met, then one line with the paths found, joined by line feeds.
pub open spec fn marked_output(
    wanted: Seq<EntryType>,
    steps: Seq<StepModel>,
    marks: Seq<bool>,
) -> Seq<EmissionModel> {
    failures(steps, steps.len() as int).push(
        to_stdout(join(found(wanted, steps, marks, steps.len() as int), "\n"@) + "\n"@),
    )
}

/// For each step, whether it is an entry whose name passes the filter of
/// names.
pub open spec fn name_marks(names: Seq<PatternModel>, steps: Seq<StepModel>) -> Seq<bool> {
    Seq::new(
        steps.len(),
        |i: int|
            match steps[i] {
                StepModel::Entry { name, .. } => name_passes(names, name),
                StepModel::Failed { .. } => false,
            },
    )
}

/// What is written for the walk below one path: the errors that the walk
/// met, then one line with the paths of the entries that pass both filters.
pub open spec fn walk_output(
    wanted: Seq<EntryType>,
    names: Seq<PatternModel>,
    steps: Seq<StepModel>,
) -> Seq<EmissionModel> {
    marked_output(wanted, steps, name_marks(names, steps))
}

/// Marks each step that is an entry whose name passes the filter of names.
pub fn mark_names(names: &Vec<Pattern>, steps: &Vec<Step>) -> (marks: Vec<bool>)
    ensures
        marks@ == name_marks(views(names@), views(steps@)),
{
    let ghost all = views(steps@);
    let mut marks: Vec<bool> = Vec::new();
    let mut i: usize = 0;
    while i < steps.len()
        invariant
            i <= steps.len(),
            all == views(steps@),
            marks@ == name_marks(views(names@), all).take(i as int),
        decreases steps.len() - i,
    {
        assert(all[i as int] == steps[i as int]@);
        let mark = match &steps[i] {
            Step::Entry { name, .. } => name_filter(names, name.as_str()),
            Step::Failed { .. } => false,
        };
        marks.push(mark);
        assert(marks@ == name_marks(views(names@), all).take(i + 1));
        i += 1;
    }
    assert(name_marks(views(names@), all).take(steps@.len() as int) == name_marks(
        views(names@),
        all,
    ));
    marks
}

/// Writes what a walk found: `marks[i]` says whether the name of the step
/// at `i` passed the filter of names.
pub fn keep(wanted: &Vec<EntryType>, steps: &Vec<Step>, marks: &Vec<bool>) -> (out: Vec<Emission>)
    ensures
        views(out@) == marked_output(wanted@, views(steps@), marks@),
{
    let ghost all = views(steps@);
    let mut out: Vec<Emission> = Vec::new();
    let mut paths: Vec<String> = Vec::new();
    let mut i: usize = 0;
    while i < steps.len()
        invariant
            i <= steps.len(),
            all == views(steps@),
            views(out@) == failures(all, i as int),
            views(paths@) == found(wanted@, all, marks@, i as int),
        decreases steps.len() - i,
    {
        assert(all[i as int] == steps[i as int]@);
        match &steps[i] {
            Step::Entry { path, name, kind } => {
                if type_filter(wanted, *kind) && i < marks.len() && marks[i] {
                    let ghost before = views(paths@);
                    paths.push(path.clone());
                    assert(views(paths@) == before.push(path@));
                }
            },
            Step::Failed { message } => {
                let mut line = message.clone();
                line.append("\n");
                let ghost before = views(out@);
                let ghost shown = line@;
                out.push(Emission { stream: Stream::Stderr, text: line });
                assert(views(out@) == before.push(to_stderr(shown)));
            },
        }
        i += 1;
    }
    let mut text = join_strings(&paths, "\n");
    text.append("\n");
    let ghost before = views(out@);
    let ghost shown = text@;
    out.push(Emission { stream: Stream::Stdout, text: text });
    assert(views(out@) == before.push(to_stdout(shown)));
    out
}

/// Filters the steps of the walk below one path.
pub fn search(config: &Config, steps: &Vec<Step>) -> (out: Vec<Emission>)
    ensures
        views(out@) == walk_output(config.entry_types@, views(config.names@), views(steps@)),
{
    let marks = mark_names(&config.names, steps);
    keep(&config.entry_types, steps, &marks)
}

/// What is written for the walks below the first `n` paths.
pub open spec fn walks_output(
    wanted: Seq<EntryType>,
    names: Seq<PatternModel>,
    walks: Seq<Seq<StepModel>>,
    n: int,
) -> Seq<EmissionModel>
    decreases n,
{
    if n <= 0 || n > walks.len() {
        Seq::<EmissionModel>::empty()
    } else {
        walks_output(wanted, names, walks, n - 1) + walk_output(wanted, names, walks[n - 1])
    }
}

/// The steps of each walk, as models.
pub open spec fn walk_views(walks: Seq<Vec<Step>>) -> Seq<Seq<StepModel>> {
    walks.map_values(|w: Vec<Step>| views(w@))
}

/// Searches below each path in turn; `walks` holds the steps of the walk
/// below each of them, in the order of the paths.
pub fn run(config: &Config, walks: &Vec<Vec<Step>>) -> (out: Vec<Emission>)
    ensures
        views(out@) == walks_output(
            config.entry_types@,
            views(config.names@),
            walk_views(walks@),
            walks.len() as int,
        ),
{
    let ghost all = walk_views(walks@);
    let mut out: Vec<Emission> = Vec::new();
    let mut i: usize = 0;
    while i < walks.len()
        invariant
            i <= walks.len(),
            all == walk_views(walks@),
            views(out@) == walks_output(
                config.entry_types@,
                views(config.names@),
                all,
                i as int,
            ),
        decreases walks.len() - i,
    {
        assert(all[i as int] == views(walks[i as int]@));
        let mut more = search(config, &walks[i]);
        let ghost before = views(out@);
        let ghost added = views(more@);
        out.append(&mut more);
        assert(views(out@) == before + added);
        i += 1;
    }
    out
}

} // verus!
