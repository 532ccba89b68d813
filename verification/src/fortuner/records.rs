//! Parsing records: from the content of fortune files to the collection
//! of their records.
use vstd::prelude::*;
use vstd::string::*;
use crate::fortuner::{FortuneError, FortuneErrorModel};
use crate::input::{Reading, ReadingModel, SourceFile, SourceFileModel};
use crate::text::{
    base_name, file_name, join, join_strings, lemma_split_append, lemma_split_len, lines_of,
    split, split_lines, views,
};

verus! {

/// One quotable record of a fortune file.
#[derive(Debug)]
pub struct Fortune {
    /// The file name of the file that the record came from.
    pub source: String,
    /// The record's lines, joined by line feeds. The text of a record that
    /// was parsed from a file is never empty.
    pub text: String,
}

pub struct FortuneModel {
    pub source: Seq<char>,
    pub text: Seq<char>,
}

impl View for Fortune {
    type V = FortuneModel;

    open spec fn view(&self) -> FortuneModel {
        FortuneModel { source: self.source@, text: self.text@ }
    }
}

/// The line that ends a record.
pub open spec fn delimiter() -> Seq<char> {
    "%"@
}

/// The text of a group of lines: the lines joined by line feeds.
pub open spec fn group_text(group: Seq<Seq<char>>) -> Seq<char> {
    join(group, "\n"@)
}

/// The records of groups of lines: each group whose text is not empty is
/// one record. A group without lines is none, and neither is a group of one
/// empty line.
pub open spec fn group_records(source: Seq<char>, groups: Seq<Seq<Seq<char>>>) -> Seq<
    FortuneModel,
>
    decreases groups.len(),
{
    if groups.len() == 0 {
        Seq::<FortuneModel>::empty()
    } else {
        let before = group_records(source, groups.drop_last());
        if group_text(groups.last()).len() > 0 {
            before.push(FortuneModel { source: source, text: group_text(groups.last()) })
        } else {
            before
        }
    }
}

/// The records that the lines of one file hold. The delimiter lines cut the
/// lines into groups; every group that a delimiter ends is a record if its
/// text is not empty, and what follows the last delimiter is dropped.
pub open spec fn records_of(source: Seq<char>, lines: Seq<Seq<char>>) -> Seq<FortuneModel> {
    group_records(source, split(lines, delimiter()).drop_last())
}

/// No record of groups of lines has an empty text.
pub proof fn lemma_group_records_filled(source: Seq<char>, groups: Seq<Seq<Seq<char>>>)
    ensures
        forall|k: int|
            0 <= k < group_records(source, groups).len() ==> (#[trigger] group_records(
                source,
                groups,
            )[k]).text.len() > 0,
    decreases groups.len(),
{
    if groups.len() > 0 {
        lemma_group_records_filled(source, groups.drop_last());
        let before = group_records(source, groups.drop_last());
        let all = group_records(source, groups);
        assert forall|k: int| 0 <= k < all.len() implies (#[trigger] all[k]).text.len() > 0 by {
            if k < before.len() {
                assert(all[k] == before[k]);
            }
        }
    }
}

/// A record's text is never empty: no record that the lines of a file hold
/// has an empty text.
pub proof fn lemma_records_filled(source: Seq<char>, lines: Seq<Seq<char>>)
    ensures
        forall|k: int|
            0 <= k < records_of(source, lines).len() ==> (#[trigger] records_of(
                source,
                lines,
            )[k]).text.len() > 0,
{
    lemma_group_records_filled(source, split(lines, delimiter()).drop_last());
}

/// Lines that follow the last delimiter give no record: lines without a
/// delimiter, put after any lines, leave the records as they are, and by
/// themselves they hold none.
pub proof fn lemma_dangling_lines_dropped(
    source: Seq<char>,
    lines: Seq<Seq<char>>,
    tail: Seq<Seq<char>>,
)
    requires
        forall|i: int| 0 <= i < tail.len() ==> tail[i] != delimiter(),
    ensures
        records_of(source, lines + tail) == records_of(source, lines),
        records_of(source, tail).len() == 0,
{
    lemma_split_append(lines, tail, delimiter());
    let pieces = split(lines, delimiter());
    assert(pieces.drop_last().push(pieces.last() + tail).drop_last() == pieces.drop_last());
    let none = Seq::<Seq<char>>::empty();
    lemma_split_append(none, tail, delimiter());
    assert(none + tail == tail);
    assert(split(none, delimiter()).drop_last().push(split(none, delimiter()).last() + tail)
        .drop_last().len() == 0);
}

/// A delimiter turns the lines before it into a record. Where `head` is
/// empty or ends in a delimiter and `group` holds no delimiter, the lines
/// of `group` followed by a delimiter add one record to those of `head`: the
/// lines of `group` joined by line feeds. A `group` whose text is empty,
/// for want of lines or because it is one empty line, adds none.
pub proof fn lemma_record_framed(source: Seq<char>, head: Seq<Seq<char>>, group: Seq<Seq<char>>)
    requires
        head.len() == 0 || head.last() == delimiter(),
        forall|i: int| 0 <= i < group.len() ==> group[i] != delimiter(),
    ensures
        records_of(source, head + group.push(delimiter())) == if group_text(group).len() > 0 {
            records_of(source, head).push(
                FortuneModel { source: source, text: group_text(group) },
            )
        } else {
            records_of(source, head)
        },
{
    let mark = delimiter();
    let pieces = split(head, mark);
    lemma_split_len(head, mark);
    lemma_split_len(head.drop_last(), mark);
    assert(pieces.last() == Seq::<Seq<char>>::empty());
    lemma_split_append(head, group, mark);
    let whole = head + group.push(mark);
    assert(whole.drop_last() == head + group);
    assert(whole.last() == mark);
    let groups = split(whole, mark).drop_last();
    assert(groups == split(head + group, mark));
    assert(pieces.last() + group == group);
    assert(groups == pieces.drop_last().push(group));
    assert(groups.drop_last() == pieces.drop_last());
}

/// The records of the first `n` files, in the order of the files.
pub open spec fn all_records(files: Seq<SourceFileModel>, n: int) -> Seq<FortuneModel>
    decreases n,
{
    if n <= 0 || n > files.len() {
        Seq::<FortuneModel>::empty()
    } else {
        all_records(files, n - 1) + match files[n - 1].reading {
            ReadingModel::Text { content } => records_of(
                file_name(files[n - 1].path),
                lines_of(content),
            ),
            _ => Seq::<FortuneModel>::empty(),
        }
    }
}

/// Whether `i` is the first file that could not be opened or read.
pub open spec fn first_unread(files: Seq<SourceFileModel>, i: int) -> bool {
    &&& 0 <= i < files.len()
    &&& !(files[i].reading is Text)
    &&& forall|j: int| 0 <= j < i ==> #[trigger] files[j].reading is Text
}

/// The error for a file that could not be opened or read.
pub open spec fn unread_error(file: SourceFileModel) -> FortuneErrorModel {
    match file.reading {
        ReadingModel::OpenFailed { cause } => FortuneErrorModel::OpenFailed {
            path: file.path,
            cause: cause,
        },
        ReadingModel::ReadFailed { cause } => FortuneErrorModel::ReadFailed {
            path: file.path,
            cause: cause,
        },
        ReadingModel::Text { .. } => arbitrary(),
    }
}

/// Cuts the lines of one file into its records, each tagged with `source`.
/// No record has an empty text.
pub fn parse_records(source: &str, lines: &Vec<String>) -> (records: Vec<Fortune>)
    ensures
        views(records@) == records_of(source@, views(lines@)),
        forall|k: int| 0 <= k < records@.len() ==> (#[trigger] records@[k]).text@.len() > 0,
{
    let ghost all = views(lines@);
    let ghost mut groups: Seq<Seq<Seq<char>>> = Seq::empty();
    let mut records: Vec<Fortune> = Vec::new();
    let mut buffer: Vec<String> = Vec::new();
    let mark = String::from_str("%");
    let mut i: usize = 0;
    assert(split(all.take(0), delimiter()) == groups.push(views(buffer@))) by {
        assert(all.take(0).len() == 0);
        assert(views(buffer@) == Seq::<Seq<char>>::empty());
        assert(groups.push(views(buffer@)) == seq![Seq::<Seq<char>>::empty()]);
    }
    while i < lines.len()
        invariant
            i <= lines.len(),
            all == views(lines@),
            mark@ == delimiter(),
            split(all.take(i as int), delimiter()) == groups.push(views(buffer@)),
            views(records@) == group_records(source@, groups),
        decreases lines.len() - i,
    {
        let line = &lines[i];
        assert(all[i as int] == line@);
        assert(all.take(i + 1).drop_last() == all.take(i as int));
        let ghost held = views(buffer@);
        if *line == mark {
            let text = join_strings(&buffer, "\n");
            if !text.as_str().is_empty() {
                let ghost before = views(records@);
                records.push(Fortune { source: String::from_str(source), text: text });
                assert(views(records@) == before.push(
                    FortuneModel { source: source@, text: group_text(held) },
                ));
            }
            buffer = Vec::new();
            proof {
                assert(views(buffer@) == Seq::<Seq<char>>::empty());
                assert(groups.push(held).drop_last() == groups);
                groups = groups.push(held);
            }
        } else {
            buffer.push(line.clone());
            assert(views(buffer@) == held.push(line@));
            assert(groups.push(held).drop_last() == groups);
        }
        i += 1;
    }
    assert(all.take(lines@.len() as int) == all);
    assert(groups.push(views(buffer@)).drop_last() == groups);
    assert forall|k: int| 0 <= k < records@.len() implies (#[trigger] records@[k]).text@.len()
        > 0 by {
        lemma_records_filled(source@, all);
        let found = records_of(source@, all);
        assert(found[k].text.len() > 0);
        assert(views(records@)[k].text == records@[k].text@);
    }
    records
}

/// Parses the resolved files into the collection of their records.
///
/// Fails at the first file that could not be opened or read, and then hands
/// out no record at all. Otherwise the collection holds the records of
/// each file, in the order of the files and, within a file, in the order
/// in which they stand there. No record has an empty text.
pub fn read_fortunes(files: &Vec<SourceFile>) -> (r: Result<Vec<Fortune>, FortuneError>)
    ensures
        match r {
            Ok(fortunes) => {
                &&& forall|i: int| 0 <= i < files.len() ==> #[trigger] files[i]@.reading is Text
                &&& views(fortunes@) == all_records(views(files@), files.len() as int)
                &&& forall|k: int|
                    0 <= k < fortunes@.len() ==> (#[trigger] fortunes@[k]).text@.len() > 0
            },
            Err(e) => exists|i: int|
                first_unread(views(files@), i) && e@ == unread_error(#[trigger] files[i]@),
        },
{
    let ghost all = views(files@);
    let mut fortunes: Vec<Fortune> = Vec::new();
    let mut i: usize = 0;
    while i < files.len()
        invariant
            i <= files.len(),
            all == views(files@),
            forall|k: int| 0 <= k < i ==> #[trigger] all[k].reading is Text,
            views(fortunes@) == all_records(all, i as int),
            forall|k: int| 0 <= k < fortunes@.len() ==> (#[trigger] fortunes@[k]).text@.len() > 0,
        decreases files.len() - i,
    {
        let file = &files[i];
        assert(all[i as int] == file@);
        match &file.reading {
            Reading::OpenFailed { cause } => {
                assert(first_unread(all, i as int));
                return Err(
                    FortuneError::OpenFailed { path: file.path.clone(), cause: cause.clone() },
                );
            },
            Reading::ReadFailed { cause } => {
                assert(first_unread(all, i as int));
                return Err(
                    FortuneError::ReadFailed { path: file.path.clone(), cause: cause.clone() },
                );
            },
            Reading::Text { content } => {
                let name = base_name(file.path.as_str());
                let lines = split_lines(content.as_str());
                let mut records = parse_records(name.as_str(), &lines);
                let ghost before = views(fortunes@);
                let ghost added = views(records@);
                let ghost held = fortunes@;
                let ghost more = records@;
                fortunes.append(&mut records);
                assert(fortunes@ == held + more);
                assert(views(fortunes@) == before + added);
            },
        }
        i += 1;
    }
    assert forall|k: int| 0 <= k < files.len() implies #[trigger] files[k]@.reading is Text by {
        assert(all[k] == files[k]@);
    }
    Ok(fortunes)
}

} // verus!
