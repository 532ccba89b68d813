//! A fortune database: which files a list of sources resolves to, the
//! records that those files hold, and the two ways to query the records.
use vstd::prelude::*;
use vstd::string::*;
use crate::decimal::Decimal;
use crate::output::{Emission, Stream};
use crate::pattern::{pattern_compiles, Pattern, PatternModel};
use crate::text::views;

pub mod query;
pub mod records;
pub mod resolve;

pub use self::query::{match_each, pick_fortune, picked_or_fallback, report};
pub use self::records::{parse_records, read_fortunes, Fortune};
pub use self::resolve::{find_files, has_extension, Probe, Source, WalkEntry};
use self::query::{hits_of, no_fortunes, report_of, seeded_choice};

verus! {

/// Why a query of the database failed: the path at fault and the cause.
#[derive(Debug)]
pub enum FortuneError {
    /// A source path does not exist.
    PathNotFound { path: String, cause: String },
    /// A resolved file could not be opened.
    OpenFailed { path: String, cause: String },
    /// A resolved file could not be read to its end.
    ReadFailed { path: String, cause: String },
}

pub enum FortuneErrorModel {
    PathNotFound { path: Seq<char>, cause: Seq<char> },
    OpenFailed { path: Seq<char>, cause: Seq<char> },
    ReadFailed { path: Seq<char>, cause: Seq<char> },
}

impl View for FortuneError {
    type V = FortuneErrorModel;

    open spec fn view(&self) -> FortuneErrorModel {
        match *self {
            FortuneError::PathNotFound { path, cause } => FortuneErrorModel::PathNotFound {
                path: path@,
                cause: cause@,
            },
            FortuneError::OpenFailed { path, cause } => FortuneErrorModel::OpenFailed {
                path: path@,
                cause: cause@,
            },
            FortuneError::ReadFailed { path, cause } => FortuneErrorModel::ReadFailed {
                path: path@,
                cause: cause@,
            },
        }
    }
}

impl FortuneErrorModel {
    /// The path at fault.
    pub open spec fn path(self) -> Seq<char> {
        match self {
            FortuneErrorModel::PathNotFound { path, .. } => path,
            FortuneErrorModel::OpenFailed { path, .. } => path,
            FortuneErrorModel::ReadFailed { path, .. } => path,
        }
    }

    /// The underlying cause.
    pub open spec fn cause(self) -> Seq<char> {
        match self {
            FortuneErrorModel::PathNotFound { cause, .. } => cause,
            FortuneErrorModel::OpenFailed { cause, .. } => cause,
            FortuneErrorModel::ReadFailed { cause, .. } => cause,
        }
    }
}

impl FortuneError {
    /// The error as one line for the user: the path, a colon and the cause.
    pub fn message(&self) -> (m: String)
        ensures
            m@ == self@.path() + ": "@ + self@.cause(),
    {
        let (path, cause) = match self {
            FortuneError::PathNotFound { path, cause } => (path, cause),
            FortuneError::OpenFailed { path, cause } => (path, cause),
            FortuneError::ReadFailed { path, cause } => (path, cause),
        };
        let mut m = path.clone();
        m.append(": ");
        m.append(cause.as_str());
        m
    }
}

/// What a query is asked to do.
#[derive(Debug)]
pub struct Config {
    /// The files and directories to search for fortune files.
    pub source: Vec<String>,
    /// The pattern to search for; without one, a fortune is picked.
    pub pattern: Option<Pattern>,
    /// The seed that makes the pick repeatable.
    pub seed: Option<u64>,
}

/// Why the arguments give no configuration.
#[derive(Debug)]
pub enum ArgsError {
    /// The pattern does not compile.
    InvalidPattern { pattern: String },
    /// The seed is no unsigned 64-bit integer.
    InvalidSeed { seed: String },
}

impl ArgsError {
    /// The error as one line for the user.
    pub fn message(&self) -> (m: String)
        ensures
            m@ == match *self {
                ArgsError::InvalidPattern { pattern } => "Invalid --pattern \""@ + pattern@
                    + "\""@,
                ArgsError::InvalidSeed { seed } => "\""@ + seed@ + "\" not a valid integer"@,
            },
    {
        match self {
            ArgsError::InvalidPattern { pattern } => {
                let mut m = String::from_str("Invalid --pattern \"");
                m.append(pattern.as_str());
                m.append("\"");
                m
            },
            ArgsError::InvalidSeed { seed } => {
                let mut m = String::from_str("\"");
                m.append(seed.as_str());
                m.append("\" not a valid integer");
                m
            },
        }
    }
}

/// Builds the configuration from the arguments as they were given.
///
/// The pattern is compiled first, with the case flag; one that does not
/// compile is an error. Then the seed is read as an unsigned 64-bit
/// integer; one that is none is an error. Without a pattern the case flag
/// has no effect.
pub fn get_args(
    files: Vec<String>,
    pattern: Option<String>,
    insensitive: bool,
    seed: Option<String>,
) -> (r: Result<Config, ArgsError>)
    ensures
        match r {
            Ok(config) => {
                &&& config.source == files
                &&& match pattern {
                    Some(p) => {
                        &&& pattern_compiles(p@, insensitive)
                        &&& config.pattern matches Some(c)
                        &&& c@ == (PatternModel { source: p@, case_insensitive: insensitive })
                    },
                    None => config.pattern is None,
                }
                &&& match seed {
                    Some(s) => u64::parsed(s@) is Some && config.seed == u64::parsed(s@),
                    None => config.seed is None,
                }
            },
            Err(ArgsError::InvalidPattern { pattern: p }) => pattern == Some(p)
                && !pattern_compiles(p@, insensitive),
            Err(ArgsError::InvalidSeed { seed: s }) => {
                &&& seed == Some(s)
                &&& u64::parsed(s@) is None
                &&& pattern matches Some(p) ==> pattern_compiles(p@, insensitive)
            },
        },
{
    let compiled = match pattern {
        Some(p) => match Pattern::compile(p.as_str(), insensitive) {
            Some(c) => Some(c),
            None => {
                return Err(ArgsError::InvalidPattern { pattern: p });
            },
        },
        None => None,
    };
    let number = match seed {
        Some(s) => match u64::parse(s.as_str()) {
            Some(n) => Some(n),
            None => {
                return Err(ArgsError::InvalidSeed { seed: s });
            },
        },
        None => None,
    };
    Ok(Config { source: files, pattern: compiled, seed: number })
}

/// Answers the query on the records that were read.
///
/// With a pattern, the records whose text the pattern matches are
/// reported, grouped by source; where none matches nothing is printed.
/// Without a pattern one record is picked and its text printed on a line,
/// or the fixed message where the collection is empty.
pub fn run(config: &Config, fortunes: &[Fortune]) -> (out: Vec<Emission>)
    ensures
        match config.pattern {
            Some(pattern) => views(out@) == report_of(
                views(fortunes@),
                hits_of(views(fortunes@), pattern@),
            ),
            None => {
                &&& out@.len() == 1
                &&& out@[0].stream == Stream::Stdout
                &&& fortunes@.len() == 0 ==> out@[0].text@ == no_fortunes() + "\n"@
                &&& fortunes@.len() > 0 ==> match config.seed {
                    Some(s) => seeded_choice(s, fortunes@.len()) < fortunes@.len()
                        && out@[0].text@ == fortunes@[seeded_choice(
                        s,
                        fortunes@.len(),
                    ) as int].text@ + "\n"@,
                    None => exists|i: int|
                        0 <= i < fortunes@.len() && out@[0].text@ == fortunes@[i].text@
                            + "\n"@,
                }
            },
        },
{
    match &config.pattern {
        Some(pattern) => {
            let hits = match_each(fortunes, pattern);
            report(fortunes, &hits)
        },
        None => {
            let mut text = picked_or_fallback(pick_fortune(fortunes, config.seed));
            text.append("\n");
            let mut out: Vec<Emission> = Vec::new();
            out.push(Emission { stream: Stream::Stdout, text: text });
            out
        },
    }
}

} // verus!
