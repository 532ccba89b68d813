//! What a tool hands back to be written: texts, each for one of the two
//! output streams.
use vstd::prelude::*;
use vstd::string::*;

verus! {

/// Where a piece of output goes.
#[derive(Clone, Copy, Debug, PartialEq, Eq, Structural)]
pub enum Stream {
    /// The standard output.
    Stdout,
    /// The standard error.
    Stderr,
}

/// One piece of output: a text to be written to `stream` as it stands.
#[derive(Debug)]
pub struct Emission {
    pub stream: Stream,
    pub text: String,
}

pub struct EmissionModel {
    pub stream: Stream,
    pub text: Seq<char>,
}

impl View for Emission {
    type V = EmissionModel;

    open spec fn view(&self) -> EmissionModel {
        EmissionModel { stream: self.stream, text: self.text@ }
    }
}

/// What a run of a tool gave: what it wrote, in order, and the error that
/// ended it, if one did.
#[derive(Debug)]
pub struct Outcome {
    pub written: Vec<Emission>,
    pub failure: Option<String>,
}

/// A text for the standard output.
pub open spec fn to_stdout(text: Seq<char>) -> EmissionModel {
    EmissionModel { stream: Stream::Stdout, text: text }
}

/// A text for the standard error.
pub open spec fn to_stderr(text: Seq<char>) -> EmissionModel {
    EmissionModel { stream: Stream::Stderr, text: text }
}

} // verus!
