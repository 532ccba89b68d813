//! Cutting columns out of lines: lists of positions, and the characters,
//! bytes or fields that stand at them.
use vstd::prelude::*;
use vstd::string::*;
use std::ops::Range;
use csv::StringRecord;
use crate::decimal::{decimal_text, numeral, parse_magnitude, push_decimal};
use crate::text::{chars_of, lemma_split_len, push_chars, split, split_chars, views};

verus! {

/// A list of positions: half-open ranges of places counted from zero.
pub type PositionList = Vec<Range<usize>>;

/// What to cut out of each line.
#[derive(Debug)]
pub enum Extract {
    Fields(PositionList),
    Bytes(PositionList),
    Chars(PositionList),
}

pub enum ExtractModel {
    Fields(Seq<Range<usize>>),
    Bytes(Seq<Range<usize>>),
    Chars(Seq<Range<usize>>),
}

impl View for Extract {
    type V = ExtractModel;

    open spec fn view(&self) -> ExtractModel {
        match *self {
            Extract::Fields(list) => ExtractModel::Fields(list@),
            Extract::Bytes(list) => ExtractModel::Bytes(list@),
            Extract::Chars(list) => ExtractModel::Chars(list@),
        }
    }
}

/// The number of a position as it is written: digits alone, not zero, and
/// no more than `usize` holds.
pub open spec fn position(input: Seq<char>) -> Option<usize> {
    match numeral(input) {
        Some(n) => if 0 < n <= usize::MAX {
            Some(n as usize)
        } else {
            None
        },
        None => None,
    }
}

/// The complaint about a list value that cannot be read.
pub open spec fn illegal_value(text: Seq<char>) -> Seq<char> {
    "illegal list value: \""@ + text + "\""@
}

/// The complaint about a range that does not run upwards.
pub open spec fn wrong_order(first: usize, second: usize) -> Seq<char> {
    "First number in range ("@ + decimal_text(first as nat)
        + ") must be lower than second number ("@ + decimal_text(second as nat) + ")"@
}

/// What one item of a list stands for. `n` is the place `n - 1`; `n-m`
/// with `n` below `m` is the places from `n - 1` up to `m - 1`. A number
/// that cannot be read is reported with the whole list, `list`; an item with
/// more than one `-` is reported by itself.
pub open spec fn item_range(list: Seq<char>, item: Seq<char>) -> Result<Range<usize>, Seq<char>> {
    let parts = split(item, '-');
    if parts.len() == 1 {
        match position(parts[0]) {
            Some(n) => Ok(((n - 1) as usize)..n),
            None => Err(illegal_value(list)),
        }
    } else if parts.len() == 2 {
        match position(parts[0]) {
            Some(first) => match position(parts[1]) {
                Some(second) => if first >= second {
                    Err(wrong_order(first, second))
                } else {
                    Ok(((first - 1) as usize)..second)
                },
                None => Err(illegal_value(list)),
            },
            None => Err(illegal_value(list)),
        }
    } else {
        Err(illegal_value(item))
    }
}

/// The ranges of the first `n` items, or the complaint about the first item
/// that has one.
pub open spec fn items_ranges(list: Seq<char>, items: Seq<Seq<char>>, n: int) -> Result<
    Seq<Range<usize>>,
    Seq<char>,
>
    decreases n,
{
    if n <= 0 || n > items.len() {
        Ok(Seq::<Range<usize>>::empty())
    } else {
        match items_ranges(list, items, n - 1) {
            Ok(ranges) => match item_range(list, items[n - 1]) {
                Ok(range) => Ok(ranges.push(range)),
                Err(complaint) => Err(complaint),
            },
            Err(complaint) => Err(complaint),
        }
    }
}

/// What a list of positions stands for: its items are parted by commas.
pub open spec fn positions_of(list: Seq<char>) -> Result<Seq<Range<usize>>, Seq<char>> {
    let items = split(list, ',');
    items_ranges(list, items, items.len() as int)
}

/// The complaint about `text`, as a string.
fn complain_illegal(text: &Vec<char>) -> (m: String)
    ensures
        m@ == illegal_value(text@),
{
    let mut m = String::from_str("illegal list value: \"");
    push_chars(&mut m, text, 0, text.len());
    assert(text@.subrange(0, text@.len() as int) == text@);
    m.append("\"");
    m
}

/// Reads the number of a position.
fn parse_position(input: &Vec<char>) -> (r: Option<usize>)
    ensures
        r == position(input@),
{
    assert(input@.skip(0) == input@);
    match parse_magnitude(input, 0, usize::MAX as u64) {
        Some(n) => if n > 0 {
            Some(n as usize)
        } else {
            None
        },
        None => None,
    }
}

/// Reads one item of a list of positions.
fn parse_item(list: &Vec<char>, item: &Vec<char>) -> (r: Result<Range<usize>, String>)
    ensures
        match r {
            Ok(range) => item_range(list@, item@) == Ok::<Range<usize>, Seq<char>>(range),
            Err(m) => item_range(list@, item@) == Err::<Range<usize>, Seq<char>>(m@),
        },
{
    let parts = split_chars(item, '-');
    proof {
        lemma_split_len(item@, '-');
    }
    if parts.len() == 1 {
        assert(parts[0]@ == split(item@, '-')[0]);
        match parse_position(&parts[0]) {
            Some(n) => Ok((n - 1)..n),
            None => Err(complain_illegal(list)),
        }
    } else if parts.len() == 2 {
        assert(parts[0]@ == split(item@, '-')[0]);
        assert(parts[1]@ == split(item@, '-')[1]);
        let first = match parse_position(&parts[0]) {
            Some(n) => n,
            None => {
                return Err(complain_illegal(list));
            },
        };
        let second = match parse_position(&parts[1]) {
            Some(n) => n,
            None => {
                return Err(complain_illegal(list));
            },
        };
        if first >= second {
            let mut m = String::from_str("First number in range (");
            push_decimal(&mut m, first as u128);
            m.append(") must be lower than second number (");
            push_decimal(&mut m, second as u128);
            m.append(")");
            Err(m)
        } else {
            Ok((first - 1)..second)
        }
    } else {
        Err(complain_illegal(item))
    }
}

/// Reads a list of positions such as `1,7,3-5`.
///
/// Each item gives one range, in the order of the items. The first item
/// that cannot be read decides the error.
pub fn parse_pos(range: &str) -> (r: Result<PositionList, String>)
    ensures
        match r {
            Ok(list) => positions_of(range@) == Ok::<Seq<Range<usize>>, Seq<char>>(list@),
            Err(m) => positions_of(range@) == Err::<Seq<Range<usize>>, Seq<char>>(m@),
        },
{
    let list = chars_of(range);
    let items = split_chars(&list, ',');
    let ghost all = split(range@, ',');
    let mut ranges: Vec<Range<usize>> = Vec::new();
    let mut i: usize = 0;
    while i < items.len()
        invariant
            i <= items.len(),
            list@ == range@,
            all == split(range@, ','),
            views(items@) == all,
            items_ranges(range@, all, i as int) == Ok::<Seq<Range<usize>>, Seq<char>>(ranges@),
        decreases items.len() - i,
    {
        assert(items[i as int]@ == all[i as int]);
        match parse_item(&list, &items[i]) {
            Ok(r) => {
                ranges.push(r);
            },
            Err(m) => {
                assert(items_ranges(range@, all, i + 1) == Err::<Seq<Range<usize>>, Seq<char>>(
                    m@,
                ));
                proof {
                    lemma_first_complaint(range@, all, i + 1, all.len() as int);
                }
                return Err(m);
            },
        }
        i += 1;
    }
    Ok(ranges)
}

/// Once an item has a complaint, the items after it do not change it.
proof fn lemma_first_complaint(list: Seq<char>, items: Seq<Seq<char>>, n: int, m: int)
    requires
        0 <= n <= m <= items.len(),
        items_ranges(list, items, n) is Err,
    ensures
        items_ranges(list, items, m) == items_ranges(list, items, n),
    decreases m - n,
{
    if n < m {
        lemma_first_complaint(list, items, n, m - 1);
    }
}

/// The items of `items` at the places of `range`, as far as there are any:
/// a place past the end gives nothing.
pub open spec fn picked<T>(items: Seq<T>, range: Range<usize>) -> Seq<T> {
    if range.start < range.end && range.start < items.len() {
        items.subrange(
            range.start as int,
            if range.end <= items.len() {
                range.end as int
            } else {
                items.len() as int
            },
        )
    } else {
        Seq::<T>::empty()
    }
}

/// What the first `n` ranges pick from `items`, range after range in the
/// order of the list, whether or not the ranges overlap or run backwards
/// through the items.
pub open spec fn extracted<T>(items: Seq<T>, positions: Seq<Range<usize>>, n: int) -> Seq<T>
    decreases n,
{
    if n <= 0 || n > positions.len() {
        Seq::<T>::empty()
    } else {
        extracted(items, positions, n - 1) + picked(items, positions[n - 1])
    }
}

/// The characters of `line` at the given positions.
pub fn extract_chars(line: &str, char_pos: &[Range<usize>]) -> (out: String)
    ensures
        out@ == extracted(line@, char_pos@, char_pos@.len() as int),
{
    let chars = chars_of(line);
    let mut out = String::new();
    let mut k: usize = 0;
    while k < char_pos.len()
        invariant
            k <= char_pos.len(),
            chars@ == line@,
            out@ == extracted(line@, char_pos@, k as int),
        decreases char_pos.len() - k,
    {
        let start = char_pos[k].start;
        let end = if char_pos[k].end <= chars.len() {
            char_pos[k].end
        } else {
            chars.len()
        };
        if start < end {
            push_chars(&mut out, &chars, start, end);
        }
        assert(out@ == extracted(line@, char_pos@, k as int) + picked(line@, char_pos@[k as int]));
        k += 1;
    }
    out
}

/// The text that a run of bytes is read as when every part of it that is
/// no valid UTF-8 gives way to the replacement character.
pub uninterp spec fn utf8_lossy(bytes: Seq<u8>) -> Seq<char>;

/// `String::from_utf8_lossy` of the standard library, with its result
/// taken as a `String`: the bytes as text, invalid parts replaced by
/// U+FFFD.
#[verifier::external_body]
pub(crate) fn lossy_text(bytes: &Vec<u8>) -> (text: String)
    ensures
        text@ == utf8_lossy(bytes@),
{
    String::from_utf8_lossy(bytes).into_owned()
}

/// The bytes of `line` at the given positions.
pub fn select_bytes(line: &str, byte_pos: &[Range<usize>]) -> (selected: Vec<u8>)
    ensures
        selected@ == extracted(line.spec_bytes(), byte_pos@, byte_pos@.len() as int),
{
    let bytes = line.as_bytes();
    let mut selected: Vec<u8> = Vec::new();
    let mut k: usize = 0;
    while k < byte_pos.len()
        invariant
            k <= byte_pos.len(),
            bytes@ == line.spec_bytes(),
            selected@ == extracted(bytes@, byte_pos@, k as int),
        decreases byte_pos.len() - k,
    {
        let start = byte_pos[k].start;
        let end = if byte_pos[k].end <= bytes.len() {
            byte_pos[k].end
        } else {
            bytes.len()
        };
        let ghost before = selected@;
        if start < end {
            let mut i: usize = start;
            assert(before + bytes@.subrange(start as int, start as int) == before);
            while i < end
                invariant
                    start <= i <= end <= bytes.len(),
                    selected@ == before + bytes@.subrange(start as int, i as int),
                decreases end - i,
            {
                selected.push(bytes[i]);
                assert(bytes@.subrange(start as int, i + 1) == bytes@.subrange(
                    start as int,
                    i as int,
                ).push(bytes@[i as int]));
                i += 1;
            }
        }
        assert(selected@ == before + picked(bytes@, byte_pos@[k as int]));
        k += 1;
    }
    selected
}

/// The bytes of `line` at the given positions, read as text: where the cut
/// leaves bytes that are no valid UTF-8, the replacement character stands
/// in their place.
pub fn extract_bytes(line: &str, byte_pos: &[Range<usize>]) -> (out: String)
    ensures
        out@ == utf8_lossy(extracted(line.spec_bytes(), byte_pos@, byte_pos@.len() as int)),
{
    let selected = select_bytes(line, byte_pos);
    lossy_text(&selected)
}

/// A record of the `csv` crate: a row of text fields.
#[verifier::external_type_specification]
#[verifier::external_body]
pub struct ExStringRecord(StringRecord);

/// The fields of a record, in order.
pub uninterp spec fn record_fields(record: StringRecord) -> Seq<Seq<char>>;

/// `StringRecord::get` of the `csv` crate: the field at place `i`, or
/// nothing where the record has no such place.
#[verifier::external_body]
fn record_get<'a>(record: &'a StringRecord, i: usize) -> (field: Option<&'a str>)
    ensures
        field is Some <==> i < record_fields(*record).len(),
        field matches Some(text) ==> text@ == record_fields(*record)[i as int],
{
    record.get(i)
}

/// The fields of `record` at the given positions.
pub fn extract_fields<'a>(record: &'a StringRecord, field_pos: &[Range<usize>]) -> (out: Vec<
    &'a str,
>)
    ensures
        views(out@) == extracted(record_fields(*record), field_pos@, field_pos@.len() as int),
{
    let ghost fields = record_fields(*record);
    let mut out: Vec<&'a str> = Vec::new();
    let mut k: usize = 0;
    while k < field_pos.len()
        invariant
            k <= field_pos.len(),
            fields == record_fields(*record),
            views(out@) == extracted(fields, field_pos@, k as int),
        decreases field_pos.len() - k,
    {
        let start = field_pos[k].start;
        let end = field_pos[k].end;
        let ghost before = views(out@);
        if start < end {
            let mut i: usize = start;
            let mut open = true;
            assert(before + Seq::<Seq<char>>::empty() == before);
            while open && i < end
                invariant
                    start <= i <= end,
                    fields == record_fields(*record),
                    i == start || i <= fields.len(),
                    !open ==> i >= fields.len(),
                    views(out@) == before + (if i == start {
                        Seq::<Seq<char>>::empty()
                    } else {
                        fields.subrange(start as int, i as int)
                    }),
                decreases end - i + (if open { 1int } else { 0int }),
            {
                match record_get(record, i) {
                    Some(text) => {
                        let ghost held = views(out@);
                        out.push(text);
                        assert(views(out@) == held.push(text@));
                        assert(fields.subrange(start as int, i + 1) == (if i == start {
                            Seq::<Seq<char>>::empty()
                        } else {
                            fields.subrange(start as int, i as int)
                        }).push(fields[i as int]));
                        i += 1;
                    },
                    None => {
                        open = false;
                    },
                }
            }
        }
        assert(views(out@) == before + picked(fields, field_pos@[k as int]));
        k += 1;
    }
    out
}

/// What the tool is asked to do.
#[derive(Debug)]
pub struct Config {
    /// The files to read; `-` is the standard input.
    pub files: Vec<String>,
    /// The byte that parts the fields of a line.
    pub delimiter: u8,
    /// What to cut out.
    pub extract: Extract,
}

/// The complaint about a delimiter that is not one byte long.
pub open spec fn bad_delimiter(delimiter: Seq<char>) -> Seq<char> {
    "--delim \""@ + delimiter + "\" nust be a single byte"@
}

/// The complaint about arguments that name nothing to cut out.
pub open spec fn nothing_to_extract() -> Seq<char> {
    "Must have --fields, --bytes, or --chars"@
}

/// What a list of positions stands for, where one was given.
pub open spec fn optional_positions(list: Option<Seq<char>>) -> Result<
    Option<Seq<Range<usize>>>,
    Seq<char>,
> {
    match list {
        Some(text) => match positions_of(text) {
            Ok(ranges) => Ok(Some(ranges)),
            Err(complaint) => Err(complaint),
        },
        None => Ok(None),
    }
}

/// What the arguments ask for. The delimiter is looked at first, then the
/// lists for fields, bytes and characters in that order, and the first
/// fault found is the complaint. Of the lists given, fields go before bytes
/// and bytes before characters.
pub open spec fn args_outcome(
    delimiter: Seq<u8>,
    shown: Seq<char>,
    fields: Option<Seq<char>>,
    bytes: Option<Seq<char>>,
    chars: Option<Seq<char>>,
) -> Result<(u8, ExtractModel), Seq<char>> {
    if delimiter.len() != 1 {
        Err(bad_delimiter(shown))
    } else {
        match optional_positions(fields) {
            Err(complaint) => Err(complaint),
            Ok(f) => match optional_positions(bytes) {
                Err(complaint) => Err(complaint),
                Ok(b) => match optional_positions(chars) {
                    Err(complaint) => Err(complaint),
                    Ok(c) => match f {
                        Some(list) => Ok((delimiter[0], ExtractModel::Fields(list))),
                        None => match b {
                            Some(list) => Ok((delimiter[0], ExtractModel::Bytes(list))),
                            None => match c {
                                Some(list) => Ok((delimiter[0], ExtractModel::Chars(list))),
                                None => Err(nothing_to_extract()),
                            },
                        },
                    },
                },
            },
        }
    }
}

/// Reads a list of positions where one was given.
fn parse_optional(list: &Option<String>) -> (r: Result<Option<PositionList>, String>)
    ensures
        match r {
            Ok(Some(ranges)) => optional_positions(views_of(*list)) == Ok::<
                Option<Seq<Range<usize>>>,
                Seq<char>,
            >(Some(ranges@)),
            Ok(None) => optional_positions(views_of(*list)) == Ok::<
                Option<Seq<Range<usize>>>,
                Seq<char>,
            >(None),
            Err(m) => optional_positions(views_of(*list)) == Err::<
                Option<Seq<Range<usize>>>,
                Seq<char>,
            >(m@),
        },
{
    match list {
        Some(text) => match parse_pos(text.as_str()) {
            Ok(ranges) => Ok(Some(ranges)),
            Err(m) => Err(m),
        },
        None => Ok(None),
    }
}

/// The text of an optional string.
pub open spec fn views_of(text: Option<String>) -> Option<Seq<char>> {
    match text {
        Some(t) => Some(t@),
        None => None,
    }
}

/// Builds the configuration from the arguments as they were given.
pub fn get_args(
    files: Vec<String>,
    delimiter: &str,
    fields: Option<String>,
    bytes: Option<String>,
    chars: Option<String>,
) -> (r: Result<Config, String>)
    ensures
        match r {
            Ok(config) => config.files == files && args_outcome(
                delimiter.spec_bytes(),
                delimiter@,
                views_of(fields),
                views_of(bytes),
                views_of(chars),
            ) == Ok::<(u8, ExtractModel), Seq<char>>((config.delimiter, config.extract@)),
            Err(m) => args_outcome(
                delimiter.spec_bytes(),
                delimiter@,
                views_of(fields),
                views_of(bytes),
                views_of(chars),
            ) == Err::<(u8, ExtractModel), Seq<char>>(m@),
        },
{
    let delim_bytes = delimiter.as_bytes();
    if delim_bytes.len() != 1 {
        let mut m = String::from_str("--delim \"");
        m.append(delimiter);
        m.append("\" nust be a single byte");
        return Err(m);
    }
    let f = match parse_optional(&fields) {
        Ok(f) => f,
        Err(m) => {
            return Err(m);
        },
    };
    let b = match parse_optional(&bytes) {
        Ok(b) => b,
        Err(m) => {
            return Err(m);
        },
    };
    let c = match parse_optional(&chars) {
        Ok(c) => c,
        Err(m) => {
            return Err(m);
        },
    };
    let extract = match f {
        Some(list) => Extract::Fields(list),
        None => match b {
            Some(list) => Extract::Bytes(list),
            None => match c {
                Some(list) => Extract::Chars(list),
                None => {
                    return Err(String::from_str("Must have --fields, --bytes, or --chars"));
                },
            },
        },
    };
    Ok(Config { files: files, delimiter: delim_bytes[0], extract: extract })
}

} // verus!
