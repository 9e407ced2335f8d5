//! Configuration for the prefix-printing utility.
//!
//! The utility itself is an I/O copy loop truncated by a line or byte budget;
//! only its flag defaulting is a decision, and it lives here.

use vstd::prelude::*;
use vstd::string::StringExecFns;

verus! {

/// The prefix-printing utility's configuration: a line budget, or a byte
/// budget when `bytes` is non-zero.
pub struct Config {
    pub files: Vec<String>,
    pub lines: usize,
    pub bytes: usize,
}

/// Apply the utility's defaults to freshly parsed flags: the line budget
/// defaults to ten, the byte budget to zero (unset), and when no file is
/// named, standard input (`-`) is read.
pub fn get_args(files: Vec<String>, lines: Option<usize>, bytes: Option<usize>) -> (cfg: Config)
    ensures
        cfg.lines == (match lines {
            Some(n) => n,
            None => 10usize,
        }),
        cfg.bytes == (match bytes {
            Some(n) => n,
            None => 0usize,
        }),
        files@.len() > 0 ==> cfg.files == files,
        files@.len() == 0 ==> cfg.files@.len() == 1 && cfg.files@[0]@ == seq!['-'],
{
    let lines = match lines {
        Some(n) => n,
        None => 10,
    };
    let bytes = match bytes {
        Some(n) => n,
        None => 0,
    };
    let mut cfg = Config { files, lines, bytes };
    if cfg.files.len() == 0 {
        proof {
            reveal_strlit("-");
            assert("-"@ =~= seq!['-']);
        }
        cfg.files.push(String::from_str("-"));
    }
    cfg
}

} // verus!
