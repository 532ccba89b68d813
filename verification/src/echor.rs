//! Echoing words.
use vstd::prelude::*;
use vstd::string::*;
use crate::text::{join, join_strings, views};

verus! {

/// What is written for the words given: the words with one space between
/// neighbours, and a line feed after them unless it is to be left out.
pub open spec fn echoed(words: Seq<Seq<char>>, omit_newline: bool) -> Seq<char> {
    join(words, " "@) + if omit_newline {
        ""@
    } else {
        "\n"@
    }
}

/// The text to write for the words given.
pub fn echo(words: &Vec<String>, omit_newline: bool) -> (out: String)
    ensures
        out@ == echoed(views(words@), omit_newline),
{
    let mut out = join_strings(words, " ");
    out.append(if omit_newline { "" } else { "\n" });
    out
}

} // verus!
