//! Configuration for the counting tool: which tallies to display and which
//! sources to read.

use vstd::prelude::*;

verus! {

/// The counting tool's configuration: the sources to read, in order, and
/// which of the four tallies to display.
pub struct Config {
    pub files: Vec<String>,
    pub lines: bool,
    pub words: bool,
    pub bytes: bool,
    pub chars: bool,
}

/// Apply the tool's defaults to freshly parsed flags: when no tally is
/// requested, lines, words and bytes are displayed; when no file is named,
/// the anonymous standard-input source (the empty name) is read.
pub fn get_args(files: Vec<String>, lines: bool, words: bool, bytes: bool, chars: bool) -> (cfg:
    Config)
    ensures
        cfg.lines == (lines || !(lines || words || bytes || chars)),
        cfg.words == (words || !(lines || words || bytes || chars)),
        cfg.bytes == (bytes || !(lines || words || bytes || chars)),
        cfg.chars == chars,
        files@.len() > 0 ==> cfg.files == files,
        files@.len() == 0 ==> cfg.files@.len() == 1 && cfg.files@[0]@ == Seq::<char>::empty(),
{
    let mut cfg = Config { files, lines, words, bytes, chars };
    if !(cfg.lines || cfg.words || cfg.bytes || cfg.chars) {
        cfg.lines = true;
        cfg.words = true;
        cfg.bytes = true;
    }
    if cfg.files.len() == 0 {
        cfg.files.push(String::new());
    }
    cfg
}

} // verus!
