//! Searching files for a pattern: the arguments of a search.
use vstd::prelude::*;
use vstd::string::*;
use crate::pattern::{pattern_compiles, Pattern, PatternModel};

verus! {

/// What the tool is asked to do.
#[derive(Debug)]
pub struct Config {
    /// The pattern to search for.
    pub pattern: Pattern,
    /// The files to search; `-` is the standard input.
    pub files: Vec<String>,
    /// Whether directories are searched with all that is below them.
    pub recursive: bool,
    /// Whether the matches are counted and not shown.
    pub count: bool,
    /// Whether the lines without a match are the ones asked for.
    pub invert_match: bool,
}

/// The complaint about a pattern that does not compile.
pub open spec fn invalid_pattern(pattern: Seq<char>) -> Seq<char> {
    "Invalid pattern \""@ + pattern + "\""@
}

/// Builds the configuration from the arguments as they were given. The
/// pattern is compiled with the case flag; one that does not compile is the
/// error.
pub fn get_args(
    pattern: &str,
    insensitive: bool,
    files: Vec<String>,
    recursive: bool,
    count: bool,
    invert_match: bool,
) -> (r: Result<Config, String>)
    ensures
        match r {
            Ok(config) => {
                &&& pattern_compiles(pattern@, insensitive)
                &&& config.pattern@ == (PatternModel {
                    source: pattern@,
                    case_insensitive: insensitive,
                })
                &&& config.files == files
                &&& config.recursive == recursive
                &&& config.count == count
                &&& config.invert_match == invert_match
            },
            Err(e) => !pattern_compiles(pattern@, insensitive) && e@ == invalid_pattern(pattern@),
        },
{
    match Pattern::compile(pattern, insensitive) {
        Some(compiled) => Ok(
            Config {
                pattern: compiled,
                files: files,
                recursive: recursive,
                count: count,
                invert_match: invert_match,
            },
        ),
        None => {
            let mut m = String::from_str("Invalid pattern \"");
            m.append(pattern);
            m.append("\"");
            Err(m)
        },
    }
}

} // verus!
