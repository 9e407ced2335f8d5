//! Configuration and line-labelling rules for the line-printing utility.
//!
//! The utility itself is an I/O copy loop; what is decided per line — whether
//! a line gets a number, and how that number is rendered — lives here.

use vstd::prelude::*;
use vstd::string::StrSliceExecFns;
use vstd::string::StringExecFns;

use crate::report::format_count;
use crate::report::padded;

verus! {

/// The line-printing utility's configuration.
pub struct Config {
    pub files: Vec<String>,
    pub number: bool,
    pub number_nonblank: bool,
}

/// Apply the utility's defaults to freshly parsed flags: when no file is
/// named, standard input (`-`) is read.
pub fn get_args(files: Vec<String>, number: bool, number_nonblank: bool) -> (cfg: Config)
    ensures
        cfg.number == number,
        cfg.number_nonblank == number_nonblank,
        files@.len() > 0 ==> cfg.files == files,
        files@.len() == 0 ==> cfg.files@.len() == 1 && cfg.files@[0]@ == seq!['-'],
{
    let mut cfg = Config { files, number, number_nonblank };
    if cfg.files.len() == 0 {
        proof {
            reveal_strlit("-");
            assert("-"@ =~= seq!['-']);
        }
        cfg.files.push(String::from_str("-"));
    }
    cfg
}

/// A line that counts as blank for non-blank numbering: a bare line feed,
/// with or without a carriage return.
pub open spec fn is_blank_line(line: Seq<char>) -> bool {
    line == seq!['\n'] || line == seq!['\r', '\n']
}

/// The label put before a numbered line: the line number right-justified to
/// six columns, then a tab.
pub open spec fn label_model(n: nat) -> Seq<char> {
    padded(n, 6) + seq!['\t']
}

/// What one line gets as its prefix, and the counter afterwards: under
/// non-blank numbering, blank lines get nothing and do not advance the
/// counter; under plain numbering every line is numbered; otherwise nothing
/// is added.  The counter advances exactly on numbered lines.
pub open spec fn prefix_model(number: bool, number_nonblank: bool, line: Seq<char>, counter: nat) -> (
    Seq<char>,
    nat,
) {
    if number_nonblank {
        if is_blank_line(line) {
            (Seq::<char>::empty(), counter)
        } else {
            (label_model(counter + 1), counter + 1)
        }
    } else if number {
        (label_model(counter + 1), counter + 1)
    } else {
        (Seq::<char>::empty(), counter)
    }
}

/// Decide whether a line counts as blank, per [`is_blank_line`].
fn line_is_blank(line: &str) -> (r: bool)
    ensures
        r == is_blank_line(line@),
{
    let n = line.unicode_len();
    if n == 1 && line.get_char(0) == '\n' {
        proof {
            assert(line@ =~= seq!['\n']);
        }
        true
    } else if n == 2 && line.get_char(0) == '\r' && line.get_char(1) == '\n' {
        proof {
            assert(line@ =~= seq!['\r', '\n']);
        }
        true
    } else {
        proof {
            assert(line@ == seq!['\n'] ==> line@.len() == 1 && line@[0] == '\n');
            assert(line@ == seq!['\r', '\n'] ==> line@.len() == 2 && line@[0] == '\r' && line@[1]
                == '\n');
        }
        false
    }
}

/// The label for line number `n`.
fn label(n: usize) -> (r: String)
    ensures
        r@ == label_model(n as nat),
{
    let mut r = format_count(n, 6);
    proof {
        reveal_strlit("\t");
        assert("\t"@ =~= seq!['\t']);
    }
    r.append("\t");
    r
}

/// The prefix to print before one line, and the counter to carry to the next
/// line, per [`prefix_model`].
pub fn line_prefix(cfg: &Config, line: &str, counter: usize) -> (r: (String, usize))
    requires
        counter < usize::MAX,
    ensures
        r.0@ == prefix_model(cfg.number, cfg.number_nonblank, line@, counter as nat).0,
        r.1 == prefix_model(cfg.number, cfg.number_nonblank, line@, counter as nat).1,
{
    if cfg.number_nonblank {
        if line_is_blank(line) {
            (String::new(), counter)
        } else {
            (label(counter + 1), counter + 1)
        }
    } else if cfg.number {
        (label(counter + 1), counter + 1)
    } else {
        (String::new(), counter)
    }
}

} // verus!
