//! The head of files: their first lines or their first bytes.
use vstd::prelude::*;
use vstd::string::*;
use vstd::utf8::encode_utf8;
use crate::cutr::{lossy_text, utf8_lossy};
use crate::decimal::Decimal;
use crate::output::{to_stderr, to_stdout, Emission, EmissionModel, Outcome, Stream};
use crate::text::{chars_of, push_chars, views};

verus! {

/// What a text gives as a count: an unsigned integer that is not zero.
pub open spec fn positive(val: Seq<char>) -> Option<usize> {
    match usize::parsed(val) {
        Some(n) => if n > 0 {
            Some(n)
        } else {
            None
        },
        None => None,
    }
}

/// Reads a count. A text that is none comes back as the error.
pub fn parse_positive_int(val: &str) -> (r: Result<usize, String>)
    ensures
        match r {
            Ok(n) => positive(val@) == Some(n),
            Err(e) => positive(val@) is None && e@ == val@,
        },
{
    match usize::parse(val) {
        Some(n) => if n > 0 {
            Ok(n)
        } else {
            Err(String::from_str(val))
        },
        None => Err(String::from_str(val)),
    }
}

/// What the tool is asked to do.
#[derive(Debug)]
pub struct Config {
    /// The files to read; `-` is the standard input.
    pub files: Vec<String>,
    /// How many lines to show.
    pub lines: usize,
    /// How many bytes to show instead of lines.
    pub bytes: Option<usize>,
}

/// Builds the configuration from the arguments as they were given. The
/// count of lines is read first, then that of bytes.
pub fn get_args(files: Vec<String>, lines: &str, bytes: Option<String>) -> (r: Result<
    Config,
    String,
>)
    ensures
        match r {
            Ok(config) => {
                &&& config.files == files
                &&& positive(lines@) == Some(config.lines)
                &&& match bytes {
                    Some(b) => positive(b@) == config.bytes && config.bytes is Some,
                    None => config.bytes is None,
                }
            },
            Err(e) => if positive(lines@) is None {
                e@ == "illegal line count -- "@ + lines@
            } else {
                bytes matches Some(b) && positive(b@) is None && e@ == "illegal byte count -- "@
                    + b@
            },
        },
{
    let line_count = match parse_positive_int(lines) {
        Ok(n) => n,
        Err(e) => {
            let mut m = String::from_str("illegal line count -- ");
            m.append(e.as_str());
            return Err(m);
        },
    };
    let byte_count = match bytes {
        Some(b) => match parse_positive_int(b.as_str()) {
            Ok(n) => Some(n),
            Err(e) => {
                let mut m = String::from_str("illegal byte count -- ");
                m.append(e.as_str());
                return Err(m);
            },
        },
        None => None,
    };
    Ok(Config { files: files, lines: line_count, bytes: byte_count })
}

/// How often `x` stands in `s`.
pub open spec fn count_of<T>(s: Seq<T>, x: T) -> nat
    decreases s.len(),
{
    if s.len() == 0 {
        0
    } else {
        count_of(s.drop_last(), x) + if s.last() == x {
            1nat
        } else {
            0nat
        }
    }
}

/// The first `n` lines of a text with their line endings: the longest
/// beginning of the text of which every shorter beginning holds fewer than
/// `n` line feeds.
pub open spec fn first_lines(text: Seq<char>, n: nat) -> Seq<char>
    decreases text.len(),
{
    if text.len() == 0 {
        text
    } else if count_of(text.drop_last(), '\n') >= n {
        first_lines(text.drop_last(), n)
    } else {
        text
    }
}

/// A longer beginning of a sequence holds an item at least as often as a
/// shorter one.
pub proof fn lemma_count_grows<T>(s: Seq<T>, x: T, i: int, j: int)
    requires
        0 <= i <= j <= s.len(),
    ensures
        count_of(s.take(i), x) <= count_of(s.take(j), x),
    decreases j - i,
{
    if i < j {
        lemma_count_grows(s, x, i, j - 1);
        assert(s.take(j).drop_last() == s.take(j - 1));
    }
}

/// The first `n` lines end at `i` where the text up to `i` holds `n` line
/// feeds or is the whole text, and no shorter beginning holds as many.
pub proof fn lemma_first_lines_at(text: Seq<char>, n: nat, i: int)
    requires
        0 <= i <= text.len(),
        i == 0 || count_of(text.take(i - 1), '\n') < n,
        i == text.len() || count_of(text.take(i), '\n') >= n,
    ensures
        first_lines(text, n) == text.take(i),
    decreases text.len() - i,
{
    if i == text.len() {
        assert(text.take(i) == text);
        if text.len() > 0 {
            assert(text.take(i - 1) == text.drop_last());
        }
    } else {
        let shorter = text.drop_last();
        lemma_count_grows(text, '\n', i, text.len() - 1);
        assert(text.take(text.len() - 1) == shorter);
        assert(shorter.take(i) == text.take(i));
        if i > 0 {
            assert(shorter.take(i - 1) == text.take(i - 1));
        }
        lemma_first_lines_at(shorter, n, i);
    }
}

/// The first `n` lines of `text`, with their line endings.
pub fn head_lines(text: &str, n: usize) -> (out: String)
    ensures
        out@ == first_lines(text@, n as nat),
{
    let chars = chars_of(text);
    let mut seen: usize = 0;
    let mut i: usize = 0;
    assert(chars@.take(0).len() == 0);
    while i < chars.len() && seen < n
        invariant
            i <= chars.len(),
            seen <= i,
            seen == count_of(chars@.take(i as int), '\n'),
            i == 0 || count_of(chars@.take(i - 1), '\n') < n,
        decreases chars.len() - i,
    {
        assert(chars@.take(i + 1).drop_last() == chars@.take(i as int));
        if chars[i] == '\n' {
            seen += 1;
        }
        i += 1;
    }
    proof {
        lemma_first_lines_at(chars@, n as nat, i as int);
    }
    let mut out = String::new();
    push_chars(&mut out, &chars, 0, i);
    assert(chars@.subrange(0, i as int) == chars@.take(i as int));
    out
}

/// The first `n` of the bytes, read as text: what is no valid UTF-8 among
/// them, as where the cut goes through a character, gives way to the
/// replacement character.
pub open spec fn first_of_bytes(bytes: Seq<u8>, n: nat) -> Seq<char> {
    utf8_lossy(
        if n < bytes.len() {
            bytes.take(n as int)
        } else {
            bytes
        },
    )
}

/// The first `n` bytes of a text, read as text again.
pub open spec fn first_bytes(text: Seq<char>, n: nat) -> Seq<char> {
    first_of_bytes(encode_utf8(text), n)
}

/// The first `n` of the bytes, as text.
pub fn head_of_bytes(bytes: &[u8], n: usize) -> (out: String)
    ensures
        out@ == first_of_bytes(bytes@, n as nat),
{
    let end = if n < bytes.len() {
        n
    } else {
        bytes.len()
    };
    let mut taken: Vec<u8> = Vec::new();
    let mut i: usize = 0;
    while i < end
        invariant
            i <= end <= bytes.len(),
            taken@ == bytes@.take(i as int),
        decreases end - i,
    {
        taken.push(bytes[i]);
        assert(bytes@.take(i + 1) == bytes@.take(i as int).push(bytes@[i as int]));
        i += 1;
    }
    assert(bytes@.take(bytes@.len() as int) == bytes@);
    lossy_text(&taken)
}

/// The first `n` bytes of `text`, as text.
pub fn head_bytes(text: &str, n: usize) -> (out: String)
    ensures
        out@ == first_bytes(text@, n as nat),
{
    head_of_bytes(text.as_bytes(), n)
}

/// What came of reading a file for its head.
#[derive(Debug)]
pub enum Taken {
    /// The file could not be opened.
    OpenFailed { cause: String },
    /// The file was opened and reading it failed.
    ReadFailed { cause: String },
    /// The file's content as text, as it is read where lines are asked for.
    Text { content: String },
    /// The file's bytes, or as many from its start as were asked for, as
    /// they are read where bytes are asked for.
    Bytes { content: Vec<u8> },
}

/// A file to show the head of, by the name it was asked for, with what came
/// of reading it.
#[derive(Debug)]
pub struct HeadFile {
    pub path: String,
    pub taken: Taken,
}

pub enum TakenModel {
    OpenFailed { cause: Seq<char> },
    ReadFailed { cause: Seq<char> },
    Text { content: Seq<char> },
    Bytes { content: Seq<u8> },
}

pub struct HeadFileModel {
    pub path: Seq<char>,
    pub taken: TakenModel,
}

impl View for Taken {
    type V = TakenModel;

    open spec fn view(&self) -> TakenModel {
        match *self {
            Taken::OpenFailed { cause } => TakenModel::OpenFailed { cause: cause@ },
            Taken::ReadFailed { cause } => TakenModel::ReadFailed { cause: cause@ },
            Taken::Text { content } => TakenModel::Text { content: content@ },
            Taken::Bytes { content } => TakenModel::Bytes { content: content@ },
        }
    }
}

impl View for HeadFile {
    type V = HeadFileModel;

    open spec fn view(&self) -> HeadFileModel {
        HeadFileModel { path: self.path@, taken: self.taken@ }
    }
}

/// The head of a text: its first bytes where a number of bytes is asked
/// for, else its first lines.
pub open spec fn head_of_text(bytes: Option<usize>, lines: usize, content: Seq<char>) -> Seq<
    char,
> {
    match bytes {
        Some(n) => first_bytes(content, n as nat),
        None => first_lines(content, lines as nat),
    }
}

/// The head of bytes: the first of them as text where a number of bytes is
/// asked for, else the first lines of all of them as text.
pub open spec fn head_of_content(bytes: Option<usize>, lines: usize, content: Seq<u8>) -> Seq<
    char,
> {
    match bytes {
        Some(n) => first_of_bytes(content, n as nat),
        None => first_lines(utf8_lossy(content), lines as nat),
    }
}

/// The line that names a file above its head; from the second file on, an
/// empty line goes before it.
pub open spec fn banner(index: int, name: Seq<char>) -> Seq<char> {
    (if index > 0 {
        "\n"@
    } else {
        Seq::<char>::empty()
    }) + "==> "@ + name + " <==\n"@
}

/// What is written for the file at `index`: a complaint where it could not
/// be opened; else its banner, where more than one file was asked for, and
/// its head.
pub open spec fn file_output(
    bytes: Option<usize>,
    lines: usize,
    count: int,
    index: int,
    file: HeadFileModel,
) -> Seq<EmissionModel> {
    let named = if count > 1 {
        seq![to_stdout(banner(index, file.path))]
    } else {
        Seq::<EmissionModel>::empty()
    };
    match file.taken {
        TakenModel::OpenFailed { cause } => seq![to_stderr(file.path + ": "@ + cause + "\n"@)],
        TakenModel::ReadFailed { .. } => named,
        TakenModel::Text { content } => named.push(
            to_stdout(head_of_text(bytes, lines, content)),
        ),
        TakenModel::Bytes { content } => named.push(
            to_stdout(head_of_content(bytes, lines, content)),
        ),
    }
}

/// What is written for the first `n` files.
pub open spec fn files_output(
    bytes: Option<usize>,
    lines: usize,
    files: Seq<HeadFileModel>,
    n: int,
) -> Seq<EmissionModel>
    decreases n,
{
    if n <= 0 || n > files.len() {
        Seq::<EmissionModel>::empty()
    } else {
        files_output(bytes, lines, files, n - 1) + file_output(
            bytes,
            lines,
            files.len() as int,
            n - 1,
            files[n - 1],
        )
    }
}

/// Whether `i` is the first file whose reading failed after it was opened.
pub open spec fn first_failure(files: Seq<HeadFileModel>, i: int) -> bool {
    &&& 0 <= i < files.len()
    &&& files[i].taken is ReadFailed
    &&& forall|j: int| 0 <= j < i ==> !(#[trigger] files[j].taken is ReadFailed)
}

/// Shows the head of each file, in order.
///
/// A file that could not be opened is complained about and passed over. A
/// file that could not be read ends the run with its cause, after its
/// banner. The bytes of a file need not be text.
pub fn run(config: &Config, files: &Vec<HeadFile>) -> (outcome: Outcome)
    ensures
        match outcome.failure {
            None => {
                &&& forall|i: int|
                    0 <= i < files.len() ==> !(#[trigger] files[i]@.taken is ReadFailed)
                &&& views(outcome.written@) == files_output(
                    config.bytes,
                    config.lines,
                    views(files@),
                    files.len() as int,
                )
            },
            Some(cause) => exists|i: int|
                {
                    &&& first_failure(views(files@), i)
                    &&& cause@ == (#[trigger] files[i])@.taken->ReadFailed_cause
                    &&& views(outcome.written@) == files_output(
                        config.bytes,
                        config.lines,
                        views(files@),
                        i + 1,
                    )
                },
        },
{
    let ghost all = views(files@);
    let count = files.len();
    let mut written: Vec<Emission> = Vec::new();
    let mut i: usize = 0;
    while i < count
        invariant
            i <= count,
            count == files.len(),
            all == views(files@),
            forall|k: int| 0 <= k < i ==> !(#[trigger] all[k].taken is ReadFailed),
            views(written@) == files_output(config.bytes, config.lines, all, i as int),
        decreases count - i,
    {
        let file = &files[i];
        assert(all[i as int] == file@);
        let ghost before = views(written@);
        let ghost piece = file_output(config.bytes, config.lines, count as int, i as int, file@);
        if let Taken::OpenFailed { cause } = &file.taken {
            let mut line = file.path.clone();
            line.append(": ");
            line.append(cause.as_str());
            line.append("\n");
            written.push(Emission { stream: Stream::Stderr, text: line });
            assert(views(written@) == before + piece);
        } else {
            if count > 1 {
                let mut line = String::from_str(if i > 0 { "\n" } else { "" });
                line.append("==> ");
                line.append(file.path.as_str());
                line.append(" <==\n");
                proof {
                    reveal_strlit("");
                    assert(line@ == banner(i as int, file@.path));
                }
                written.push(Emission { stream: Stream::Stdout, text: line });
            }
            match &file.taken {
                Taken::Text { content } => {
                    let head = match config.bytes {
                        Some(n) => head_bytes(content.as_str(), n),
                        None => head_lines(content.as_str(), config.lines),
                    };
                    written.push(Emission { stream: Stream::Stdout, text: head });
                    assert(views(written@) == before + piece);
                },
                Taken::Bytes { content } => {
                    let head = match config.bytes {
                        Some(n) => head_of_bytes(content.as_slice(), n),
                        None => {
                            let text = lossy_text(content);
                            head_lines(text.as_str(), config.lines)
                        },
                    };
                    written.push(Emission { stream: Stream::Stdout, text: head });
                    assert(views(written@) == before + piece);
                },
                Taken::ReadFailed { cause } => {
                    assert(views(written@) == before + piece);
                    assert(first_failure(all, i as int));
                    return Outcome { written: written, failure: Some(cause.clone()) };
                },
                Taken::OpenFailed { .. } => {},
            }
        }
        i += 1;
    }
    assert forall|k: int| 0 <= k < files.len() implies !(#[trigger] files[k]@.taken
        is ReadFailed) by {
        assert(all[k] == files[k]@);
    }
    Outcome { written: written, failure: None }
}

} // verus!
