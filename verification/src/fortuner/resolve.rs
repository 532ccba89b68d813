//! Resolving sources: from the paths that were given, with what was found
//! at each, to the ordered list of files to read.
//!
//! A path is a text whose components are parted by `/`. Paths are ordered
//! as texts, by the bytes of their UTF-8 encoding.
use vstd::prelude::*;
use vstd::string::*;
use crate::fortuner::{FortuneError, FortuneErrorModel};
use crate::order::{ascending, insert_ascending, lemma_ascending_unique, lemma_text_lt_irreflexive};
use crate::text::{chars_of, file_name, lemma_split_len, same_chars, split, split_chars, views};

verus! {

/// One entry that a walk of a directory's subtree reported.
#[derive(Debug)]
pub struct WalkEntry {
    /// The entry's path, from the source it was found under.
    pub path: String,
    /// Whether the entry is a regular file.
    pub is_file: bool,
}

/// What stands at a source path.
#[derive(Debug)]
pub enum Probe {
    /// Nothing could be found there; `cause` says why.
    Missing { cause: String },
    /// A regular file.
    File,
    /// A directory, with every entry of its subtree that could be read.
    Directory { entries: Vec<WalkEntry> },
    /// Something that is neither a regular file nor a directory.
    Other,
}

/// A path given by the caller, with what was found there.
#[derive(Debug)]
pub struct Source {
    pub path: String,
    pub probe: Probe,
}

pub struct WalkEntryModel {
    pub path: Seq<char>,
    pub is_file: bool,
}

pub enum ProbeModel {
    Missing { cause: Seq<char> },
    File,
    Directory { entries: Seq<WalkEntryModel> },
    Other,
}

pub struct SourceModel {
    pub path: Seq<char>,
    pub probe: ProbeModel,
}

impl View for WalkEntry {
    type V = WalkEntryModel;

    open spec fn view(&self) -> WalkEntryModel {
        WalkEntryModel { path: self.path@, is_file: self.is_file }
    }
}

impl View for Probe {
    type V = ProbeModel;

    open spec fn view(&self) -> ProbeModel {
        match *self {
            Probe::Missing { cause } => ProbeModel::Missing { cause: cause@ },
            Probe::File => ProbeModel::File,
            Probe::Directory { entries } => ProbeModel::Directory { entries: views(entries@) },
            Probe::Other => ProbeModel::Other,
        }
    }
}

impl View for Source {
    type V = SourceModel;

    open spec fn view(&self) -> SourceModel {
        SourceModel { path: self.path@, probe: self.probe@ }
    }
}

/// The extension of a path's file name: what follows the last `.` of the
/// name, where a `.` stands anywhere but only in first place. The name `..`
/// has none.
pub open spec fn extension(path: Seq<char>) -> Option<Seq<char>> {
    let name = file_name(path);
    let parts = split(name, '.');
    if name == seq!['.', '.'] || parts.len() < 2 || (parts.len() == 2 && parts[0].len() == 0) {
        None
    } else {
        Some(parts.last())
    }
}

/// Whether the file name of `path` has the extension `ext`.
pub fn has_extension(path: &str, ext: &str) -> (r: bool)
    ensures
        r == (extension(path@) == Some(ext@)),
{
    let chars = chars_of(path);
    let components = split_chars(&chars, '/');
    proof {
        lemma_split_len(path@, '/');
    }
    let name = &components[components.len() - 1];
    assert(name@ == file_name(path@));
    let parts = split_chars(name, '.');
    proof {
        lemma_split_len(name@, '.');
    }
    if name.len() == 2 && name[0] == '.' && name[1] == '.' {
        assert(name@ =~= seq!['.', '.']);
        return false;
    }
    assert(name@ != seq!['.', '.']) by {
        if name@ == seq!['.', '.'] {
            assert(name@.len() == 2 && name@[0] == '.' && name@[1] == '.');
        }
    }
    assert(parts[0]@ == split(name@, '.')[0]);
    if parts.len() < 2 || (parts.len() == 2 && parts[0].len() == 0) {
        return false;
    }
    let last = &parts[parts.len() - 1];
    assert(last@ == split(name@, '.').last());
    let wanted = chars_of(ext);
    same_chars(last, &wanted)
}

/// Whether a walk entry is taken: a regular file whose extension is not the
/// excluded one.
pub open spec fn entry_kept(entry: WalkEntryModel, excluded: Seq<char>) -> bool {
    entry.is_file && extension(entry.path) != Some(excluded)
}

/// Whether one of the first `n` entries is taken and has the path `p`.
pub open spec fn entries_yield(
    entries: Seq<WalkEntryModel>,
    n: int,
    excluded: Seq<char>,
    p: Seq<char>,
) -> bool {
    exists|j: int| 0 <= j < n && j < entries.len() && entry_kept(#[trigger] entries[j], excluded)
        && entries[j].path == p
}

/// Whether a source contributes the path `p`: a file given directly
/// contributes itself, whatever its extension; a directory contributes the
/// entries of its subtree that are taken.
pub open spec fn source_yields(source: SourceModel, excluded: Seq<char>, p: Seq<char>) -> bool {
    match source.probe {
        ProbeModel::Missing { .. } => false,
        ProbeModel::File => p == source.path,
        ProbeModel::Directory { entries } => entries_yield(
            entries,
            entries.len() as int,
            excluded,
            p,
        ),
        ProbeModel::Other => false,
    }
}

/// Whether one of the first `n` sources contributes the path `p`.
pub open spec fn sources_yield(
    sources: Seq<SourceModel>,
    n: int,
    excluded: Seq<char>,
    p: Seq<char>,
) -> bool {
    exists|i: int| 0 <= i < n && i < sources.len() && source_yields(
        #[trigger] sources[i],
        excluded,
        p,
    )
}

/// Whether `files` is what the sources resolve to: every path that a source
/// contributes, once, in ascending order, and no other.
pub open spec fn resolves(
    sources: Seq<SourceModel>,
    excluded: Seq<char>,
    files: Seq<Seq<char>>,
) -> bool {
    &&& ascending(files)
    &&& forall|p: Seq<char>| #[trigger]
        files.contains(p) <==> sources_yield(sources, sources.len() as int, excluded, p)
}

/// Whether `i` is the first source at which nothing was found.
pub open spec fn first_missing(sources: Seq<SourceModel>, i: int) -> bool {
    &&& 0 <= i < sources.len()
    &&& sources[i].probe is Missing
    &&& forall|j: int| 0 <= j < i ==> !(#[trigger] sources[j].probe is Missing)
}

/// The sources up to and with the one at `i` contribute what the sources
/// before it contribute and what it contributes itself.
proof fn lemma_sources_step(
    sources: Seq<SourceModel>,
    i: int,
    excluded: Seq<char>,
    p: Seq<char>,
)
    requires
        0 <= i < sources.len(),
    ensures
        sources_yield(sources, i + 1, excluded, p) <==> (sources_yield(sources, i, excluded, p)
            || source_yields(sources[i], excluded, p)),
{
    if sources_yield(sources, i + 1, excluded, p) {
        let k = choose|k: int|
            0 <= k < i + 1 && k < sources.len() && source_yields(
                #[trigger] sources[k],
                excluded,
                p,
            );
        if k < i {
            assert(sources_yield(sources, i, excluded, p));
        }
    }
    if sources_yield(sources, i, excluded, p) {
        let k = choose|k: int|
            0 <= k < i && k < sources.len() && source_yields(#[trigger] sources[k], excluded, p);
        assert(source_yields(sources[k], excluded, p));
    }
}

/// The entries up to and with the one at `j` contribute what the entries
/// before it contribute and, where it is taken, its own path.
proof fn lemma_entries_step(
    entries: Seq<WalkEntryModel>,
    j: int,
    excluded: Seq<char>,
    p: Seq<char>,
)
    requires
        0 <= j < entries.len(),
    ensures
        entries_yield(entries, j + 1, excluded, p) <==> (entries_yield(entries, j, excluded, p)
            || (entry_kept(entries[j], excluded) && entries[j].path == p)),
{
    if entries_yield(entries, j + 1, excluded, p) {
        let k = choose|k: int|
            0 <= k < j + 1 && k < entries.len() && entry_kept(#[trigger] entries[k], excluded)
                && entries[k].path == p;
        if k < j {
            assert(entries_yield(entries, j, excluded, p));
        }
    }
    if entries_yield(entries, j, excluded, p) {
        let k = choose|k: int|
            0 <= k < j && k < entries.len() && entry_kept(#[trigger] entries[k], excluded)
                && entries[k].path == p;
        assert(entry_kept(entries[k], excluded));
    }
}

/// Resolves the sources to the list of files to read.
///
/// Fails at the first source where nothing was found, whatever the others
/// hold. Otherwise the list holds each file given directly and each regular
/// file below a given directory whose extension is not `excluded`, in
/// ascending order of their paths, each once.
pub fn find_files(sources: &Vec<Source>, excluded: &str) -> (r: Result<Vec<String>, FortuneError>)
    ensures
        match r {
            Ok(files) => {
                &&& forall|i: int|
                    0 <= i < sources.len() ==> !(#[trigger] sources[i]@.probe is Missing)
                &&& resolves(views(sources@), excluded@, views(files@))
            },
            Err(e) => exists|i: int|
                first_missing(views(sources@), i) && e@ == (FortuneErrorModel::PathNotFound {
                    path: #[trigger] sources[i].path@,
                    cause: sources[i]@.probe->Missing_cause,
                }),
        },
{
    let ghost all = views(sources@);
    let mut files: Vec<String> = Vec::new();
    let mut i: usize = 0;
    while i < sources.len()
        invariant
            i <= sources.len(),
            all == views(sources@),
            ascending(views(files@)),
            forall|k: int| 0 <= k < i ==> !(#[trigger] all[k].probe is Missing),
            forall|p: Seq<char>| #[trigger]
                views(files@).contains(p) <==> sources_yield(all, i as int, excluded@, p),
        decreases sources.len() - i,
    {
        let source = &sources[i];
        assert(all[i as int] == source@);
        match &source.probe {
            Probe::Missing { cause } => {
                assert(first_missing(all, i as int));
                return Err(
                    FortuneError::PathNotFound { path: source.path.clone(), cause: cause.clone() },
                );
            },
            Probe::File => {
                insert_ascending(&mut files, source.path.clone());
            },
            Probe::Directory { entries } => {
                let ghost listed = views(entries@);
                let mut j: usize = 0;
                while j < entries.len()
                    invariant
                        j <= entries.len(),
                        listed == views(entries@),
                        ascending(views(files@)),
                        forall|p: Seq<char>| #[trigger]
                            views(files@).contains(p) <==> (sources_yield(
                                all,
                                i as int,
                                excluded@,
                                p,
                            ) || entries_yield(listed, j as int, excluded@, p)),
                    decreases entries.len() - j,
                {
                    let entry = &entries[j];
                    assert(listed[j as int] == entry@);
                    if entry.is_file && !has_extension(entry.path.as_str(), excluded) {
                        insert_ascending(&mut files, entry.path.clone());
                    }
                    assert forall|p: Seq<char>| #[trigger]
                        views(files@).contains(p) <==> (sources_yield(
                            all,
                            i as int,
                            excluded@,
                            p,
                        ) || entries_yield(listed, j + 1, excluded@, p)) by {
                        lemma_entries_step(listed, j as int, excluded@, p);
                    }
                    j += 1;
                }
            },
            Probe::Other => {},
        }
        assert forall|p: Seq<char>| #[trigger]
            views(files@).contains(p) <==> sources_yield(all, i + 1, excluded@, p) by {
            lemma_sources_step(all, i as int, excluded@, p);
        }
        i += 1;
    }
    assert forall|k: int| 0 <= k < sources.len() implies !(#[trigger] sources[k]@.probe
        is Missing) by {
        assert(all[k] == sources[k]@);
    }
    Ok(files)
}

/// Resolution is determined by the sources: two lists that the same
/// sources resolve to are the same list.
pub proof fn lemma_resolution_deterministic(
    sources: Seq<SourceModel>,
    excluded: Seq<char>,
    a: Seq<Seq<char>>,
    b: Seq<Seq<char>>,
)
    requires
        resolves(sources, excluded, a),
        resolves(sources, excluded, b),
    ensures
        a == b,
{
    assert forall|p: Seq<char>| a.contains(p) <==> b.contains(p) by {
        assert(a.contains(p) <==> sources_yield(sources, sources.len() as int, excluded, p));
        assert(b.contains(p) <==> sources_yield(sources, sources.len() as int, excluded, p));
    }
    lemma_ascending_unique(a, b);
}

/// No path stands twice in a resolved list.
pub proof fn lemma_resolved_once(
    sources: Seq<SourceModel>,
    excluded: Seq<char>,
    files: Seq<Seq<char>>,
    i: int,
    j: int,
)
    requires
        resolves(sources, excluded, files),
        0 <= i < j < files.len(),
    ensures
        files[i] != files[j],
{
    lemma_text_lt_irreflexive(files[i]);
}

/// The paths of `files`, each given directly as a file.
pub open spec fn as_files(files: Seq<Seq<char>>) -> Seq<SourceModel> {
    files.map_values(|p: Seq<char>| SourceModel { path: p, probe: ProbeModel::File })
}

/// Resolving what was resolved changes nothing: a resolved list, given back
/// as files, resolves to itself.
pub proof fn lemma_resolution_idempotent(
    sources: Seq<SourceModel>,
    excluded: Seq<char>,
    files: Seq<Seq<char>>,
)
    requires
        resolves(sources, excluded, files),
    ensures
        resolves(as_files(files), excluded, files),
{
    let again = as_files(files);
    assert forall|p: Seq<char>| #[trigger]
        files.contains(p) <==> sources_yield(again, again.len() as int, excluded, p) by {
        if files.contains(p) {
            let k = choose|k: int| 0 <= k < files.len() && files[k] == p;
            assert(source_yields(again[k], excluded, p));
        }
        if sources_yield(again, again.len() as int, excluded, p) {
            let k = choose|k: int|
                0 <= k < again.len() && source_yields(#[trigger] again[k], excluded, p);
            assert(files[k] == p);
        }
    }
}

/// Two lists of sources in which the same sources occur, in whatever order
/// and however often, resolve to the same list.
pub proof fn lemma_same_sources(
    s: Seq<SourceModel>,
    t: Seq<SourceModel>,
    excluded: Seq<char>,
    files: Seq<Seq<char>>,
)
    requires
        forall|i: int| 0 <= i < s.len() ==> t.contains(#[trigger] s[i]),
        forall|i: int| 0 <= i < t.len() ==> s.contains(#[trigger] t[i]),
        resolves(s, excluded, files),
    ensures
        resolves(t, excluded, files),
{
    assert forall|p: Seq<char>| #[trigger]
        files.contains(p) <==> sources_yield(t, t.len() as int, excluded, p) by {
        assert(files.contains(p) <==> sources_yield(s, s.len() as int, excluded, p));
        if sources_yield(s, s.len() as int, excluded, p) {
            let i = choose|i: int| 0 <= i < s.len() && source_yields(#[trigger] s[i], excluded, p);
            assert(t.contains(s[i]));
            let j = choose|j: int| 0 <= j < t.len() && t[j] == s[i];
            assert(source_yields(t[j], excluded, p));
        }
        if sources_yield(t, t.len() as int, excluded, p) {
            let i = choose|i: int| 0 <= i < t.len() && source_yields(#[trigger] t[i], excluded, p);
            assert(s.contains(t[i]));
            let j = choose|j: int| 0 <= j < s.len() && s[j] == t[i];
            assert(source_yields(s[j], excluded, p));
        }
    }
}

/// Naming a source a second time changes nothing: the sources `p`, `q`, `p`
/// resolve to what `p`, `q` resolve to.
pub proof fn lemma_repeated_source(
    p: SourceModel,
    q: SourceModel,
    excluded: Seq<char>,
    files: Seq<Seq<char>>,
)
    ensures
        resolves(seq![p, q, p], excluded, files) <==> resolves(seq![p, q], excluded, files),
{
    let s = seq![p, q, p];
    let t = seq![p, q];
    assert(t[0] == p && t[1] == q);
    assert(s[0] == p && s[1] == q && s[2] == p);
    if resolves(s, excluded, files) {
        lemma_same_sources(s, t, excluded, files);
    }
    if resolves(t, excluded, files) {
        lemma_same_sources(t, s, excluded, files);
    }
}

/// Below a directory no file with the excluded extension is taken: what a
/// directory alone resolves to holds no path with that extension.
pub proof fn lemma_directory_excludes_extension(
    directory: SourceModel,
    excluded: Seq<char>,
    files: Seq<Seq<char>>,
    k: int,
)
    requires
        directory.probe is Directory,
        resolves(seq![directory], excluded, files),
        0 <= k < files.len(),
    ensures
        extension(files[k]) != Some(excluded),
{
    let sources = seq![directory];
    let p = files[k];
    assert(files.contains(p));
    assert(sources_yield(sources, 1, excluded, p));
    let i = choose|i: int|
        0 <= i < 1 && i < sources.len() && source_yields(#[trigger] sources[i], excluded, p);
    assert(sources[i] == directory);
    let entries = directory.probe->entries;
    let j = choose|j: int|
        0 <= j < entries.len() && j < entries.len() && entry_kept(#[trigger] entries[j], excluded)
            && entries[j].path == p;
}

/// A file given directly is taken whatever its extension: a file alone
/// resolves to itself.
pub proof fn lemma_direct_file_taken(file: SourceModel, excluded: Seq<char>, files: Seq<Seq<char>>)
    requires
        file.probe is File,
        resolves(seq![file], excluded, files),
    ensures
        files == seq![file.path],
{
    let sources = seq![file];
    let alone = seq![file.path];
    assert(sources[0] == file);
    assert forall|p: Seq<char>| files.contains(p) <==> alone.contains(p) by {
        assert(files.contains(p) <==> sources_yield(sources, 1, excluded, p));
        if sources_yield(sources, 1, excluded, p) {
            let i = choose|i: int|
                0 <= i < 1 && i < sources.len() && source_yields(
                    #[trigger] sources[i],
                    excluded,
                    p,
                );
            assert(alone[0] == p);
        }
        if alone.contains(p) {
            assert(source_yields(sources[0], excluded, p));
        }
    }
    lemma_ascending_unique(files, alone);
}

} // verus!
