//! Search patterns. A pattern is kept as its text and its case flag; the
//! `regex` crate says which texts compile and what they match.
use vstd::prelude::*;
use vstd::string::*;
use regex::RegexBuilder;

verus! {

/// Whether `regex` compiles `pattern`, with case-insensitive matching
/// switched on or off and every other option left at its default.
pub uninterp spec fn pattern_compiles(pattern: Seq<char>, case_insensitive: bool) -> bool;

/// Whether the regular expression compiled from `pattern`, with the case
/// flag as given, finds a match anywhere in `text`.
pub uninterp spec fn pattern_matches(
    pattern: Seq<char>,
    case_insensitive: bool,
    text: Seq<char>,
) -> bool;

/// `RegexBuilder::build` of the `regex` crate, on a builder made by
/// `RegexBuilder::new` for `pattern` with `case_insensitive` set as given.
/// The call hands back an error where the text is no valid regular
/// expression or the compiled program would pass the default size limit;
/// the result says whether it handed back a regular expression.
#[verifier::external_body]
fn regex_compiles(pattern: &str, case_insensitive: bool) -> (ok: bool)
    ensures
        ok == pattern_compiles(pattern@, case_insensitive),
{
    RegexBuilder::new(pattern).case_insensitive(case_insensitive).build().is_ok()
}

/// `Regex::is_match` of the `regex` crate, on the regular expression built
/// from `pattern` as above: true if and only if there is a match anywhere
/// in `text`. The pattern has to be one that compiles.
#[verifier::external_body]
fn regex_is_match(pattern: &str, case_insensitive: bool, text: &str) -> (hit: bool)
    requires
        pattern_compiles(pattern@, case_insensitive),
    ensures
        hit == pattern_matches(pattern@, case_insensitive, text@),
{
    RegexBuilder::new(pattern).case_insensitive(case_insensitive).build().unwrap().is_match(text)
}

/// A pattern that compiles.
#[derive(Debug)]
pub struct Pattern {
    source: String,
    case_insensitive: bool,
}

pub struct PatternModel {
    pub source: Seq<char>,
    pub case_insensitive: bool,
}

impl View for Pattern {
    type V = PatternModel;

    closed spec fn view(&self) -> PatternModel {
        PatternModel { source: self.source@, case_insensitive: self.case_insensitive }
    }
}

impl Pattern {
    #[verifier::type_invariant]
    spec fn compiles(&self) -> bool {
        pattern_compiles(self.source@, self.case_insensitive)
    }

    /// The pattern for `source`, where `source` compiles.
    pub fn compile(source: &str, case_insensitive: bool) -> (r: Option<Pattern>)
        ensures
            r is Some <==> pattern_compiles(source@, case_insensitive),
            r matches Some(p) ==> p@ == (PatternModel {
                source: source@,
                case_insensitive: case_insensitive,
            }),
    {
        if regex_compiles(source, case_insensitive) {
            Some(Pattern { source: String::from_str(source), case_insensitive: case_insensitive })
        } else {
            None
        }
    }

    /// The text that the pattern was made from.
    pub fn source(&self) -> (s: &str)
        ensures
            s@ == self@.source,
    {
        self.source.as_str()
    }

    /// Whether the pattern matches without regard to case.
    pub fn ignores_case(&self) -> (b: bool)
        ensures
            b == self@.case_insensitive,
    {
        self.case_insensitive
    }

    /// Whether the pattern finds a match anywhere in `text`. The regular
    /// expression is built from the pattern's text at each call.
    pub fn finds(&self, text: &str) -> (hit: bool)
        ensures
            hit == pattern_matches(self@.source, self@.case_insensitive, text@),
    {
        proof {
            use_type_invariant(self);
        }
        regex_is_match(self.source.as_str(), self.case_insensitive, text)
    }
}

} // verus!
