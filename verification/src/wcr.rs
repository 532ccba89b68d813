//! Counting words: which of the counts are shown.
use vstd::prelude::*;

verus! {

/// What the tool is asked to do.
#[derive(Debug)]
pub struct Config {
    /// The files to read; `-` is the standard input.
    pub files: Vec<String>,
    pub lines: bool,
    pub words: bool,
    pub bytes: bool,
    pub chars: bool,
}

/// Builds the configuration from the flags as they were given. Where none
/// of the four counts is asked for, lines, words and bytes are shown.
pub fn get_args(files: Vec<String>, lines: bool, words: bool, bytes: bool, chars: bool) -> (r:
    Result<Config, String>)
    ensures
        r matches Ok(config) && config.files == files && config.chars == chars && if lines
            || words || bytes || chars {
            config.lines == lines && config.words == words && config.bytes == bytes
        } else {
            config.lines && config.words && config.bytes
        },
{
    if !lines && !words && !bytes && !chars {
        Ok(Config { files: files, lines: true, words: true, bytes: true, chars: chars })
    } else {
        Ok(Config { files: files, lines: lines, words: words, bytes: bytes, chars: chars })
    }
}

} // verus!
