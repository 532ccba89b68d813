//! Listing files: which paths a listing shows, and how a file's mode and
//! its long entry are written.
use vstd::prelude::*;
use vstd::string::*;
use tabular::{Row, Table};
use crate::decimal::{decimal_text, push_decimal};
use crate::owner::Owner;
use crate::text::{chars_of, file_name, lemma_split_len, split_chars, views};

verus! {

/// What the tool is asked to do.
#[derive(Debug)]
pub struct Config {
    /// The files and directories to list.
    pub paths: Vec<String>,
    /// Whether each file is shown with its mode, owner, size and time.
    pub long: bool,
    /// Whether hidden entries of directories are shown.
    pub show_hidden: bool,
}

/// The letter for a right: the letter itself where `mode` has the bit
/// `mask`, a dash where it has not.
pub open spec fn right(mode: u32, mask: u32, letter: char) -> char {
    if mode & mask == 0 {
        '-'
    } else {
        letter
    }
}

/// The rights of one class of users in `mode`, as three characters: `r`,
/// `w` and `x`, each replaced by a dash where the right is not granted.
pub open spec fn triple(mode: u32, owner: Owner) -> Seq<char> {
    let masks = owner.mask_bits();
    seq![right(mode, masks[0], 'r'), right(mode, masks[1], 'w'), right(mode, masks[2], 'x')]
}

/// The rights of all three classes in `mode`: user, group, other.
pub open spec fn mode_text(mode: u32) -> Seq<char> {
    triple(mode, Owner::User) + triple(mode, Owner::Group) + triple(mode, Owner::Other)
}

/// Writes the rights of one class of users in `mode`.
pub fn mk_triple(mode: u32, owner: Owner) -> (text: String)
    ensures
        text@ == triple(mode, owner),
{
    let masks = owner.masks();
    let read = masks[0];
    let write = masks[1];
    let execute = masks[2];
    let mut text = String::new();
    text.push(if mode & read == 0 { '-' } else { 'r' });
    text.push(if mode & write == 0 { '-' } else { 'w' });
    text.push(if mode & execute == 0 { '-' } else { 'x' });
    assert(text@ =~= triple(mode, owner));
    text
}

/// Writes the rights that `mode` grants, as nine characters such as
/// `rwxr-x--x`.
pub fn format_mode(mode: u32) -> (text: String)
    ensures
        text@ == mode_text(mode),
{
    let mut text = mk_triple(mode, Owner::User);
    text.append(mk_triple(mode, Owner::Group).as_str());
    text.append(mk_triple(mode, Owner::Other).as_str());
    text
}

/// What stands at a path that is to be listed.
#[derive(Debug)]
pub enum Place {
    /// Nothing could be found there; `cause` says why.
    Missing { cause: String },
    /// A directory, with the paths of its entries in the order in which
    /// they were read.
    Directory { entries: Vec<String> },
    /// A directory whose entries could not all be read; `cause` says why.
    Unreadable { cause: String },
    /// Anything else: a file.
    File,
}

/// A path given by the caller, with what was found there.
#[derive(Debug)]
pub struct Target {
    pub path: String,
    pub place: Place,
}

pub enum PlaceModel {
    Missing { cause: Seq<char> },
    Directory { entries: Seq<Seq<char>> },
    Unreadable { cause: Seq<char> },
    File,
}

pub struct TargetModel {
    pub path: Seq<char>,
    pub place: PlaceModel,
}

impl View for Place {
    type V = PlaceModel;

    open spec fn view(&self) -> PlaceModel {
        match *self {
            Place::Missing { cause } => PlaceModel::Missing { cause: cause@ },
            Place::Directory { entries } => PlaceModel::Directory { entries: views(entries@) },
            Place::Unreadable { cause } => PlaceModel::Unreadable { cause: cause@ },
            Place::File => PlaceModel::File,
        }
    }
}

impl View for Target {
    type V = TargetModel;

    open spec fn view(&self) -> TargetModel {
        TargetModel { path: self.path@, place: self.place@ }
    }
}

/// Whether a path is hidden: its file name begins with a dot.
pub open spec fn is_hidden(path: Seq<char>) -> bool {
    file_name(path).len() > 0 && file_name(path)[0] == '.'
}

/// The first `n` entries that are shown: all of them, or those that are
/// not hidden.
pub open spec fn shown_entries(entries: Seq<Seq<char>>, show_hidden: bool, n: int) -> Seq<
    Seq<char>,
>
    decreases n,
{
    if n <= 0 || n > entries.len() {
        Seq::<Seq<char>>::empty()
    } else {
        let before = shown_entries(entries, show_hidden, n - 1);
        if show_hidden || !is_hidden(entries[n - 1]) {
            before.push(entries[n - 1])
        } else {
            before
        }
    }
}

/// What one target adds to the listing: a directory its shown entries, a
/// file itself, hidden or not.
pub open spec fn target_paths(target: TargetModel, show_hidden: bool) -> Seq<Seq<char>> {
    match target.place {
        PlaceModel::Directory { entries } => shown_entries(
            entries,
            show_hidden,
            entries.len() as int,
        ),
        PlaceModel::File => seq![target.path],
        _ => Seq::<Seq<char>>::empty(),
    }
}

/// The paths that the first `n` targets list, in the order of the targets.
pub open spec fn listed(targets: Seq<TargetModel>, show_hidden: bool, n: int) -> Seq<Seq<char>>
    decreases n,
{
    if n <= 0 || n > targets.len() {
        Seq::<Seq<char>>::empty()
    } else {
        listed(targets, show_hidden, n - 1) + target_paths(targets[n - 1], show_hidden)
    }
}

/// The complaint about a target at which nothing was found.
pub open spec fn complaint(target: TargetModel) -> Seq<char> {
    target.path + ": "@ + target.place->Missing_cause
}

/// The complaints about the missing ones among the first `n` targets.
pub open spec fn complaints(targets: Seq<TargetModel>, n: int) -> Seq<Seq<char>>
    decreases n,
{
    if n <= 0 || n > targets.len() {
        Seq::<Seq<char>>::empty()
    } else {
        let before = complaints(targets, n - 1);
        if targets[n - 1].place is Missing {
            before.push(complaint(targets[n - 1]))
        } else {
            before
        }
    }
}

/// Whether `i` is the first target with a directory that could not be read.
pub open spec fn first_unreadable(targets: Seq<TargetModel>, i: int) -> bool {
    &&& 0 <= i < targets.len()
    &&& targets[i].place is Unreadable
    &&& forall|j: int| 0 <= j < i ==> !(#[trigger] targets[j].place is Unreadable)
}

/// What came of looking for the files to list.
#[derive(Debug)]
pub struct Found {
    /// One line for each target at which nothing was found, up to the
    /// point where the search ended.
    pub complaints: Vec<String>,
    /// The paths to list, or why the search was given up.
    pub paths: Result<Vec<String>, String>,
}

/// Whether the file name of `path` begins with a dot.
pub fn hidden(path: &str) -> (r: bool)
    ensures
        r == is_hidden(path@),
{
    let chars = chars_of(path);
    let components = split_chars(&chars, '/');
    proof {
        lemma_split_len(path@, '/');
    }
    let name = &components[components.len() - 1];
    assert(name@ == file_name(path@));
    name.len() > 0 && name[0] == '.'
}

/// Finds the paths to list.
///
/// A directory lists its entries, without the hidden ones unless they are
/// asked for; any other target that exists lists itself. A target at which
/// nothing was found is complained about and otherwise passed over. The
/// first directory that cannot be read ends the search with its cause.
pub fn find_files(targets: &Vec<Target>, show_hidden: bool) -> (found: Found)
    ensures
        match found.paths {
            Ok(paths) => {
                &&& forall|i: int|
                    0 <= i < targets.len() ==> !(#[trigger] targets[i]@.place is Unreadable)
                &&& views(paths@) == listed(views(targets@), show_hidden, targets.len() as int)
                &&& views(found.complaints@) == complaints(
                    views(targets@),
                    targets.len() as int,
                )
            },
            Err(cause) => exists|i: int|
                {
                    &&& first_unreadable(views(targets@), i)
                    &&& cause@ == (#[trigger] targets[i])@.place->Unreadable_cause
                    &&& views(found.complaints@) == complaints(views(targets@), i)
                },
        },
{
    let ghost all = views(targets@);
    let mut paths: Vec<String> = Vec::new();
    let mut lines: Vec<String> = Vec::new();
    let mut i: usize = 0;
    while i < targets.len()
        invariant
            i <= targets.len(),
            all == views(targets@),
            forall|k: int| 0 <= k < i ==> !(#[trigger] all[k].place is Unreadable),
            views(paths@) == listed(all, show_hidden, i as int),
            views(lines@) == complaints(all, i as int),
        decreases targets.len() - i,
    {
        let target = &targets[i];
        assert(all[i as int] == target@);
        match &target.place {
            Place::Missing { cause } => {
                let mut line = target.path.clone();
                line.append(": ");
                line.append(cause.as_str());
                let ghost before = views(lines@);
                lines.push(line);
                assert(views(lines@) == before.push(complaint(target@)));
                assert(views(paths@) + Seq::<Seq<char>>::empty() == views(paths@));
            },
            Place::Directory { entries } => {
                let ghost names = views(entries@);
                let ghost before = views(paths@);
                let mut j: usize = 0;
                assert(before + Seq::<Seq<char>>::empty() == before);
                while j < entries.len()
                    invariant
                        j <= entries.len(),
                        names == views(entries@),
                        views(paths@) == before + shown_entries(names, show_hidden, j as int),
                    decreases entries.len() - j,
                {
                    assert(names[j as int] == entries[j as int]@);
                    if show_hidden || !hidden(entries[j].as_str()) {
                        let ghost held = views(paths@);
                        paths.push(entries[j].clone());
                        assert(views(paths@) == held.push(names[j as int]));
                        assert(before + shown_entries(names, show_hidden, j as int).push(
                            names[j as int],
                        ) == held.push(names[j as int]));
                    }
                    j += 1;
                }
            },
            Place::Unreadable { cause } => {
                assert(first_unreadable(all, i as int));
                return Found { complaints: lines, paths: Err(cause.clone()) };
            },
            Place::File => {
                let ghost before = views(paths@);
                paths.push(target.path.clone());
                assert(views(paths@) == before.push(target@.path));
                assert(before + seq![target@.path] == before.push(target@.path));
            },
        }
        i += 1;
    }
    assert forall|k: int| 0 <= k < targets.len() implies !(#[trigger] targets[k]@.place
        is Unreadable) by {
        assert(all[k] == targets[k]@);
    }
    Found { complaints: lines, paths: Ok(paths) }
}

/// A table of the `tabular` crate: rows of cells under one row format.
#[verifier::external_type_specification]
#[verifier::external_body]
pub struct ExTable(Table);

/// The rows of a table, each as its cells, in the order in which they were
/// added.
pub uninterp spec fn table_rows(table: Table) -> Seq<Seq<Seq<char>>>;

/// The row format that a table was made with.
pub uninterp spec fn table_format(table: Table) -> Seq<char>;

/// The number of columns that a row format asks for; none where the text
/// is no row format.
pub uninterp spec fn format_columns(format: Seq<char>) -> Option<nat>;

/// The text of a table with the given row format and rows: each row on a
/// line, every cell padded to the width of its column.
pub uninterp spec fn table_text(format: Seq<char>, rows: Seq<Seq<Seq<char>>>) -> Seq<char>;

/// `Table::new_safe` of the `tabular` crate: a table without rows for the
/// row format, or nothing where the format cannot be parsed.
#[verifier::external_body]
fn new_table(format: &str) -> (table: Option<Table>)
    ensures
        table is Some <==> format_columns(format@) is Some,
        table matches Some(t) ==> table_format(t) == format@ && table_rows(t).len() == 0,
{
    Table::new_safe(format).ok()
}

/// `Table::column_count` of the `tabular` crate: the number of columns that
/// the table's row format asks for.
#[verifier::external_body]
fn columns_of(table: &Table) -> (n: usize)
    ensures
        format_columns(table_format(*table)) == Some(n as nat),
{
    table.column_count()
}

/// `Table::add_row` of the `tabular` crate, with a row that
/// `Row::from_cells` made of `cells`: the row is added after the rows that
/// the table holds. The call panics unless the row has one cell for each
/// column.
#[verifier::external_body]
fn append_row(table: &mut Table, cells: &Vec<String>)
    requires
        format_columns(table_format(*old(table))) == Some(cells@.len()),
    ensures
        table_format(*final(table)) == table_format(*old(table)),
        table_rows(*final(table)) == table_rows(*old(table)).push(views(cells@)),
{
    table.add_row(Row::from_cells(cells.iter().cloned()));
}

/// The `Display` of a table of the `tabular` crate: the text of the table.
#[verifier::external_body]
fn render(table: &Table) -> (text: String)
    ensures
        text@ == table_text(table_format(*table), table_rows(*table)),
{
    format!("{}", table)
}

/// What a long listing shows of one file.
#[derive(Debug)]
pub struct LongEntry {
    pub path: String,
    pub is_dir: bool,
    pub mode: u32,
    /// The number of hard links to the file.
    pub links: u64,
    pub user: String,
    pub group: String,
    /// The size of the file in bytes.
    pub size: u64,
    /// When the file was last changed, as it is to be shown.
    pub modified: String,
}

pub struct LongEntryModel {
    pub path: Seq<char>,
    pub is_dir: bool,
    pub mode: u32,
    pub links: u64,
    pub user: Seq<char>,
    pub group: Seq<char>,
    pub size: u64,
    pub modified: Seq<char>,
}

impl View for LongEntry {
    type V = LongEntryModel;

    open spec fn view(&self) -> LongEntryModel {
        LongEntryModel {
            path: self.path@,
            is_dir: self.is_dir,
            mode: self.mode,
            links: self.links,
            user: self.user@,
            group: self.group@,
            size: self.size,
            modified: self.modified@,
        }
    }
}

/// The name to show for an owner: the name found for the id, or the id itself
/// where none was found.
pub fn owner_label(name: Option<String>, id: u32) -> (label: String)
    ensures
        label@ == match name {
            Some(n) => n@,
            None => decimal_text(id as nat),
        },
{
    match name {
        Some(n) => n,
        None => {
            let mut label = String::new();
            push_decimal(&mut label, id as u128);
            label
        },
    }
}

/// The row format of a long listing: the kind and the mode side by side,
/// then links, user, group, size, time and path, two spaces apart; links and
/// size to the right.
pub open spec fn long_format() -> Seq<char> {
    "{:<}{:<}  {:>}  {:<}  {:<}  {:>}  {:<}  {:<}"@
}

/// The cells of the row for one file.
pub open spec fn long_row(entry: LongEntryModel) -> Seq<Seq<char>> {
    seq![
        if entry.is_dir {
            "d"@
        } else {
            "-"@
        },
        mode_text(entry.mode),
        decimal_text(entry.links as nat),
        entry.user,
        entry.group,
        decimal_text(entry.size as nat),
        entry.modified,
        entry.path,
    ]
}

/// The rows for files.
pub open spec fn long_rows(entries: Seq<LongEntryModel>) -> Seq<Seq<Seq<char>>> {
    entries.map_values(|entry: LongEntryModel| long_row(entry))
}

/// The cells of the row for one file, as strings.
pub fn long_cells(entry: &LongEntry) -> (cells: Vec<String>)
    ensures
        cells@.len() == 8,
        views(cells@) == long_row(entry@),
{
    let mut links = String::new();
    push_decimal(&mut links, entry.links as u128);
    let mut size = String::new();
    push_decimal(&mut size, entry.size as u128);
    let mut cells: Vec<String> = Vec::new();
    cells.push(String::from_str(if entry.is_dir { "d" } else { "-" }));
    cells.push(format_mode(entry.mode));
    cells.push(links);
    cells.push(entry.user.clone());
    cells.push(entry.group.clone());
    cells.push(size);
    cells.push(entry.modified.clone());
    cells.push(entry.path.clone());
    assert(views(cells@) =~= long_row(entry@));
    cells
}

/// Fills `table` with the rows for the files and hands back its text.
fn format_rows(table: Table, entries: &Vec<LongEntry>) -> (text: String)
    requires
        format_columns(table_format(table)) == Some(8nat),
    ensures
        text@ == table_text(
            table_format(table),
            table_rows(table) + long_rows(views(entries@)),
        ),
{
    let ghost format = table_format(table);
    let ghost held = table_rows(table);
    let ghost all = views(entries@);
    let mut table = table;
    let mut i: usize = 0;
    assert(held + long_rows(all.take(0)) == held);
    while i < entries.len()
        invariant
            i <= entries.len(),
            all == views(entries@),
            table_format(table) == format,
            format_columns(format) == Some(8nat),
            table_rows(table) == held + long_rows(all.take(i as int)),
        decreases entries.len() - i,
    {
        assert(all[i as int] == entries[i as int]@);
        let cells = long_cells(&entries[i]);
        append_row(&mut table, &cells);
        assert(long_rows(all.take(i + 1)) == long_rows(all.take(i as int)).push(
            long_row(all[i as int]),
        ));
        i += 1;
    }
    assert(all.take(entries@.len() as int) == all);
    render(&table)
}

/// Writes the long listing of files as a table: one row for each file, in
/// order, laid out by the row format of long listings. Nothing is handed
/// back where that format does not give a table of eight columns.
pub fn format_output(entries: &Vec<LongEntry>) -> (text: Option<String>)
    ensures
        text is Some <==> format_columns(long_format()) == Some(8nat),
        text matches Some(t) ==> t@ == table_text(long_format(), long_rows(views(entries@))),
{
    match new_table("{:<}{:<}  {:>}  {:<}  {:<}  {:>}  {:<}  {:<}") {
        Some(table) => {
            if columns_of(&table) == 8 {
                assert(table_rows(table) + long_rows(views(entries@)) == long_rows(
                    views(entries@),
                ));
                Some(format_rows(table, entries))
            } else {
                None
            }
        },
        None => None,
    }
}

} // verus!
