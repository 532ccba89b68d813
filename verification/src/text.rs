//! Text primitives shared by the tools: characters of strings, splitting,
//! joining and lines, each specified over `Seq<char>`.
use vstd::prelude::*;
use vstd::string::*;

verus! {

/// `String::push` of the standard library: appends one character to the end
/// of the string and leaves what was there in place.
pub assume_specification[ String::push ](s: &mut String, c: char)
    ensures
        final(s)@ == old(s)@.push(c),
;

/// The views of the items of a sequence, in order.
pub open spec fn views<T: View>(s: Seq<T>) -> Seq<T::V> {
    s.map_values(|x: T| x@)
}

/// The characters of a string slice, in order.
pub fn chars_of(s: &str) -> (v: Vec<char>)
    ensures
        v@ == s@,
{
    let mut v: Vec<char> = Vec::new();
    for c in it: s.chars()
        invariant
            it.seq() == s@,
            v@ == it.seq().take(it.index() as int),
    {
        v.push(c);
    }
    v
}

/// Appends the characters `v[from..to]` to `out`.
pub fn push_chars(out: &mut String, v: &Vec<char>, from: usize, to: usize)
    requires
        from <= to <= v.len(),
    ensures
        final(out)@ == old(out)@ + v@.subrange(from as int, to as int),
{
    let mut i: usize = from;
    while i < to
        invariant
            from <= i <= to <= v.len(),
            out@ == old(out)@ + v@.subrange(from as int, i as int),
        decreases to - i,
    {
        out.push(v[i]);
        i += 1;
    }
}

/// The string made of the characters of `v`.
pub fn string_of(v: &Vec<char>) -> (s: String)
    ensures
        s@ == v@,
{
    let mut s = String::new();
    push_chars(&mut s, v, 0, v.len());
    assert(v@.subrange(0, v@.len() as int) == v@);
    s
}

/// The pieces of `s` between occurrences of `sep`, in order. There is always
/// at least one piece; a separator at either end leaves an empty piece there.
pub open spec fn split<T>(s: Seq<T>, sep: T) -> Seq<Seq<T>>
    decreases s.len(),
{
    if s.len() == 0 {
        seq![Seq::<T>::empty()]
    } else {
        let before = split(s.drop_last(), sep);
        if s.last() == sep {
            before.push(Seq::<T>::empty())
        } else {
            before.drop_last().push(before.last().push(s.last()))
        }
    }
}

/// Splitting always yields a piece.
pub proof fn lemma_split_len<T>(s: Seq<T>, sep: T)
    ensures
        split(s, sep).len() >= 1,
    decreases s.len(),
{
    if s.len() > 0 {
        lemma_split_len(s.drop_last(), sep);
    }
}

/// Items that are not the separator, put after a sequence, lengthen its
/// last piece and leave the pieces before it as they are.
pub proof fn lemma_split_append<T>(s: Seq<T>, more: Seq<T>, sep: T)
    requires
        forall|i: int| 0 <= i < more.len() ==> more[i] != sep,
    ensures
        split(s + more, sep) == split(s, sep).drop_last().push(split(s, sep).last() + more),
    decreases more.len(),
{
    lemma_split_len(s, sep);
    if more.len() == 0 {
        assert(s + more == s);
        assert(split(s, sep).last() + more == split(s, sep).last());
        assert(split(s, sep).drop_last().push(split(s, sep).last()) == split(s, sep));
    } else {
        let shorter = more.drop_last();
        lemma_split_append(s, shorter, sep);
        assert((s + more).drop_last() == s + shorter);
        assert((s + more).last() == more.last());
        let before = split(s + shorter, sep);
        assert(before.last().push(more.last()) == split(s, sep).last() + more);
        assert(before.drop_last() == split(s, sep).drop_last());
    }
}

/// The pieces of `parts` laid end to end with `sep` between neighbours.
pub open spec fn join<T>(parts: Seq<Seq<T>>, sep: Seq<T>) -> Seq<T>
    decreases parts.len(),
{
    if parts.len() == 0 {
        Seq::<T>::empty()
    } else if parts.len() == 1 {
        parts[0]
    } else {
        join(parts.drop_last(), sep) + sep + parts.last()
    }
}

/// Splits the characters of `v` at each `sep`.
pub fn split_chars(v: &Vec<char>, sep: char) -> (pieces: Vec<Vec<char>>)
    ensures
        views(pieces@) == split(v@, sep),
{
    let mut done: Vec<Vec<char>> = Vec::new();
    let mut cur: Vec<char> = Vec::new();
    let mut i: usize = 0;
    while i < v.len()
        invariant
            i <= v.len(),
            views(done@).push(cur@) == split(v@.take(i as int), sep),
        decreases v.len() - i,
    {
        proof {
            lemma_split_len(v@.take(i as int), sep);
            assert(v@.take(i + 1).drop_last() == v@.take(i as int));
        }
        if v[i] == sep {
            done.push(cur);
            cur = Vec::new();
        } else {
            cur.push(v[i]);
        }
        i += 1;
    }
    assert(v@.take(v@.len() as int) == v@);
    let ghost before = views(done@);
    done.push(cur);
    assert(views(done@) == before.push(cur@));
    done
}

/// Joins the strings of `parts` with `sep` between neighbours.
pub fn join_strings(parts: &Vec<String>, sep: &str) -> (s: String)
    ensures
        s@ == join(views(parts@), sep@),
{
    let mut s = String::new();
    let mut i: usize = 0;
    while i < parts.len()
        invariant
            i <= parts.len(),
            s@ == join(views(parts@.take(i as int)), sep@),
        decreases parts.len() - i,
    {
        proof {
            assert(views(parts@.take(i + 1)).drop_last() == views(parts@.take(i as int)));
        }
        if i > 0 {
            s.append(sep);
        }
        s.append(parts[i].as_str());
        i += 1;
    }
    assert(parts@.take(parts@.len() as int) == parts@);
    s
}

/// `line` without one trailing carriage return, if it ends in one.
pub open spec fn strip_cr(line: Seq<char>) -> Seq<char> {
    if line.len() > 0 && line.last() == '\r' {
        line.drop_last()
    } else {
        line
    }
}

/// The lines of `text`. A line ends at a line feed, and a carriage return
/// just before that line feed belongs to the line ending. What follows the
/// last line feed is a line of its own unless it is empty.
pub open spec fn lines_of(text: Seq<char>) -> Seq<Seq<char>> {
    let pieces = split(text, '\n');
    let ended = pieces.drop_last().map_values(|l: Seq<char>| strip_cr(l));
    if pieces.last().len() > 0 {
        ended.push(pieces.last())
    } else {
        ended
    }
}

/// Splits `text` into its lines, without their line endings.
pub fn split_lines(text: &str) -> (lines: Vec<String>)
    ensures
        views(lines@) == lines_of(text@),
{
    let chars = chars_of(text);
    let pieces = split_chars(&chars, '\n');
    proof {
        lemma_split_len(text@, '\n');
    }
    let ghost all = split(text@, '\n');
    let mut lines: Vec<String> = Vec::new();
    let last: usize = pieces.len() - 1;
    let mut k: usize = 0;
    while k < last
        invariant
            k <= last,
            last + 1 == pieces.len(),
            views(pieces@) == all,
            views(lines@) == all.take(k as int).map_values(|l: Seq<char>| strip_cr(l)),
        decreases last - k,
    {
        let piece = &pieces[k];
        assert(piece@ == all[k as int]);
        let n = piece.len();
        let mut line = String::new();
        if n > 0 && piece[n - 1] == '\r' {
            push_chars(&mut line, piece, 0, n - 1);
            assert(piece@.subrange(0, n - 1) == piece@.drop_last());
        } else {
            push_chars(&mut line, piece, 0, n);
            assert(piece@.subrange(0, n as int) == piece@);
        }
        let ghost before = views(lines@);
        lines.push(line);
        assert(views(lines@) == before.push(strip_cr(all[k as int])));
        assert(all.take(k + 1).map_values(|l: Seq<char>| strip_cr(l)) == all.take(
            k as int,
        ).map_values(|l: Seq<char>| strip_cr(l)).push(strip_cr(all[k as int])));
        k += 1;
    }
    assert(all.take(last as int) == all.drop_last());
    let tail = &pieces[last];
    assert(tail@ == all.last());
    if tail.len() > 0 {
        let ghost before = views(lines@);
        lines.push(string_of(tail));
        assert(views(lines@) == before.push(all.last()));
    }
    lines
}

/// The lowercase form of a text, as Unicode defines it.
pub uninterp spec fn lowercase(text: Seq<char>) -> Seq<char>;

/// `str::to_lowercase` of the standard library: the lowercase equivalent of
/// the text, as a new string.
#[verifier::external_body]
pub(crate) fn in_lowercase(text: &str) -> (lower: String)
    ensures
        lower@ == lowercase(text@),
{
    text.to_lowercase()
}

/// Whether `text` begins with `prefix`.
pub fn starts_with(text: &Vec<char>, prefix: &Vec<char>) -> (r: bool)
    ensures
        r == prefix@.is_prefix_of(text@),
{
    if prefix.len() > text.len() {
        return false;
    }
    let mut i: usize = 0;
    while i < prefix.len()
        invariant
            i <= prefix.len() <= text.len(),
            forall|k: int| 0 <= k < i ==> prefix@[k] == text@[k],
        decreases prefix.len() - i,
    {
        if prefix[i] != text[i] {
            assert(text@.subrange(0, prefix@.len() as int)[i as int] != prefix@[i as int]);
            return false;
        }
        i += 1;
    }
    assert(prefix@ =~= text@.subrange(0, prefix@.len() as int));
    true
}

/// The last component of a path: what follows its last `/`.
pub open spec fn file_name(path: Seq<char>) -> Seq<char> {
    split(path, '/').last()
}

/// The file name of `path`, as a string.
pub fn base_name(path: &str) -> (name: String)
    ensures
        name@ == file_name(path@),
{
    let chars = chars_of(path);
    let components = split_chars(&chars, '/');
    proof {
        lemma_split_len(path@, '/');
    }
    string_of(&components[components.len() - 1])
}

/// Whether a character is white space: one of the characters that have the
/// Unicode property `White_Space`. They are the controls from tab to
/// carriage return, the space, the next-line control, the no-break space,
/// the Ogham space mark, the spaces from en quad to hair space, the line
/// and the paragraph separator, the narrow no-break space, the medium
/// mathematical space and the ideographic space.
pub open spec fn is_white_space(c: char) -> bool {
    ||| '\u{9}' <= c <= '\u{d}'
    ||| c == '\u{20}'
    ||| c == '\u{85}'
    ||| c == '\u{a0}'
    ||| c == '\u{1680}'
    ||| '\u{2000}' <= c <= '\u{200a}'
    ||| c == '\u{2028}'
    ||| c == '\u{2029}'
    ||| c == '\u{202f}'
    ||| c == '\u{205f}'
    ||| c == '\u{3000}'
}

/// `char::is_whitespace` of the standard library: whether the character
/// has the Unicode property `White_Space`.
pub assume_specification[ char::is_whitespace ](c: char) -> (b: bool)
    ensures
        b == is_white_space(c),
;

/// How much of `text` is left when the white space at its end is taken
/// off: the length up to and with its last character that is no white space.
pub open spec fn trimmed_len(text: Seq<char>) -> nat
    decreases text.len(),
{
    if text.len() == 0 {
        0
    } else if is_white_space(text.last()) {
        trimmed_len(text.drop_last())
    } else {
        text.len()
    }
}

/// `text` without the white space at its end.
pub open spec fn trim_end(text: Seq<char>) -> Seq<char> {
    text.take(trimmed_len(text) as int)
}

/// What is left of a text is no longer than the text.
pub proof fn lemma_trimmed_len(text: Seq<char>)
    ensures
        trimmed_len(text) <= text.len(),
    decreases text.len(),
{
    if text.len() > 0 {
        lemma_trimmed_len(text.drop_last());
    }
}

/// The characters of `text` without the white space at its end.
pub fn trimmed(text: &str) -> (v: Vec<char>)
    ensures
        v@ == trim_end(text@),
{
    let mut v = chars_of(text);
    let ghost all = v@;
    proof {
        lemma_trimmed_len(all);
        assert(all.take(all.len() as int) == all);
    }
    while v.len() > 0 && v[v.len() - 1].is_whitespace()
        invariant
            v@ == all.take(v@.len() as int),
            v@.len() <= all.len(),
            trimmed_len(all) == trimmed_len(v@),
        decreases v.len(),
    {
        let ghost before = v@;
        v.pop();
        assert(v@ == before.drop_last());
        assert(v@ == all.take(v@.len() as int));
    }
    proof {
        lemma_trimmed_len(v@);
        if v@.len() > 0 {
            assert(trimmed_len(v@) == v@.len());
        }
    }
    v
}

/// `text` after as many spaces as bring it to `width` characters; a text
/// that is as long or longer stays as it is.
pub open spec fn pad_left(text: Seq<char>, width: nat) -> Seq<char> {
    if text.len() >= width {
        text
    } else {
        Seq::new((width - text.len()) as nat, |i: int| ' ') + text
    }
}

/// Pads `text` with spaces on the left to `width` characters.
pub fn padded_left(text: &str, width: usize) -> (out: String)
    ensures
        out@ == pad_left(text@, width as nat),
{
    let chars = chars_of(text);
    let mut out = String::new();
    if chars.len() < width {
        let gap = width - chars.len();
        let mut i: usize = 0;
        while i < gap
            invariant
                i <= gap,
                out@ == Seq::new(i as nat, |k: int| ' '),
            decreases gap - i,
        {
            out.push(' ');
            assert(out@ == Seq::new((i + 1) as nat, |k: int| ' '));
            i += 1;
        }
    } else {
        assert(Seq::<char>::empty() + text@ == text@);
    }
    out.append(text);
    out
}

/// The pieces of a text as a reader takes them line by line: each piece
/// runs up to and with a line feed, and the last is what follows the last
/// line feed, if anything does.
pub open spec fn raw_lines(text: Seq<char>) -> Seq<Seq<char>> {
    let pieces = split(text, '\n');
    let ended = pieces.drop_last().map_values(|l: Seq<char>| l.push('\n'));
    if pieces.last().len() > 0 {
        ended.push(pieces.last())
    } else {
        ended
    }
}

/// Splits `text` into its lines, each with its line feed.
pub fn split_raw_lines(text: &str) -> (lines: Vec<String>)
    ensures
        views(lines@) == raw_lines(text@),
{
    let chars = chars_of(text);
    let pieces = split_chars(&chars, '\n');
    proof {
        lemma_split_len(text@, '\n');
    }
    let ghost all = split(text@, '\n');
    let mut lines: Vec<String> = Vec::new();
    let last: usize = pieces.len() - 1;
    let mut k: usize = 0;
    while k < last
        invariant
            k <= last,
            last + 1 == pieces.len(),
            views(pieces@) == all,
            views(lines@) == all.take(k as int).map_values(|l: Seq<char>| l.push('\n')),
        decreases last - k,
    {
        let piece = &pieces[k];
        assert(piece@ == all[k as int]);
        let mut line = string_of(piece);
        line.push('\n');
        let ghost before = views(lines@);
        lines.push(line);
        assert(views(lines@) == before.push(all[k as int].push('\n')));
        assert(all.take(k + 1).map_values(|l: Seq<char>| l.push('\n')) == all.take(
            k as int,
        ).map_values(|l: Seq<char>| l.push('\n')).push(all[k as int].push('\n')));
        k += 1;
    }
    assert(all.take(last as int) == all.drop_last());
    let tail = &pieces[last];
    assert(tail@ == all.last());
    if tail.len() > 0 {
        let ghost before = views(lines@);
        lines.push(string_of(tail));
        assert(views(lines@) == before.push(all.last()));
    }
    lines
}

/// Whether two runs of characters are the same.
pub fn same_chars(a: &Vec<char>, b: &Vec<char>) -> (r: bool)
    ensures
        r == (a@ == b@),
{
    if a.len() != b.len() {
        return false;
    }
    let mut i: usize = 0;
    while i < a.len()
        invariant
            i <= a.len(),
            a.len() == b.len(),
            forall|k: int| 0 <= k < i ==> a@[k] == b@[k],
        decreases a.len() - i,
    {
        if a[i] != b[i] {
            return false;
        }
        i += 1;
    }
    assert(a@ =~= b@);
    true
}

} // verus!
