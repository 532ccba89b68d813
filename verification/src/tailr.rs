//! The tail of files: how much of the end of a file is asked for.
use vstd::prelude::*;

verus! {

/// How much to take: everything, or a number of lines or bytes, counted
/// from the start where it is positive and from the end where it is
/// negative.
#[derive(Debug, PartialEq, Eq, Structural)]
pub enum TakeValue {
    PlusZero,
    TakeNum(i64),
}

/// What the tool is asked to do.
#[derive(Debug)]
pub struct Config {
    /// The files to read.
    pub files: Vec<String>,
    /// How many lines to show.
    pub lines: TakeValue,
    /// How many bytes to show instead of lines.
    pub bytes: Option<TakeValue>,
    /// Whether the names of the files are left out.
    pub quiet: bool,
}

} // verus!
