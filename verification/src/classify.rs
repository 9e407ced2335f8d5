//! Classifier/accumulator: turns a stream of decoded codepoints into tallies.
//!
//! For every decoded codepoint the character count rises by one; a line feed
//! also raises the line count.  Words are counted on the rising edge of a
//! single `in_word` flag, which reproduces the POSIX `wc` rule: a word is a
//! maximal run of non-whitespace codepoints, counted at its first codepoint.

use vstd::prelude::*;

use crate::counts::counts_zero;
use crate::counts::Counts;
use crate::counts::CountsModel;

verus! {

/// The Unicode `White_Space` characters: the ASCII whitespace controls and
/// space, next line, no-break space, ogham space mark, the en-quad .. hair
/// space range, the line and paragraph separators, narrow no-break space,
/// medium mathematical space and ideographic space.
pub open spec fn is_unicode_whitespace(c: char) -> bool {
    let v = c as u32;
    ||| (0x09 <= v && v <= 0x0d)
    ||| v == 0x20
    ||| v == 0x85
    ||| v == 0xa0
    ||| v == 0x1680
    ||| (0x2000 <= v && v <= 0x200a)
    ||| v == 0x2028
    ||| v == 0x2029
    ||| v == 0x202f
    ||| v == 0x205f
    ||| v == 0x3000
}

/// Decide whether a codepoint is whitespace, by the same table as
/// [`is_unicode_whitespace`].
pub fn is_whitespace_codepoint(c: char) -> (r: bool)
    ensures
        r == is_unicode_whitespace(c),
{
    let v = c as u32;
    (0x09 <= v && v <= 0x0d) || v == 0x20 || v == 0x85 || v == 0xa0 || v == 0x1680 || (0x2000 <= v
        && v <= 0x200a) || v == 0x2028 || v == 0x2029 || v == 0x202f || v == 0x205f || v == 0x3000
}

/// The classifier for one source: the word-boundary flag and the tallies
/// being built.
pub struct State {
    pub in_word: bool,
    pub count: Counts,
}

/// Mathematical image of [`State`].
pub struct ClsModel {
    pub in_word: bool,
    pub cnt: CountsModel,
}

impl View for State {
    type V = ClsModel;

    open spec fn view(&self) -> ClsModel {
        ClsModel { in_word: self.in_word, cnt: self.count@ }
    }
}

/// The classifier every source starts from: outside any word, all zero.
pub open spec fn cls_init() -> ClsModel {
    ClsModel { in_word: false, cnt: counts_zero() }
}

/// Effect of one decoded codepoint on the classifier.
pub open spec fn cls_codepoint(m: ClsModel, c: char) -> ClsModel {
    let lines = if c == '\n' {
        m.cnt.lines + 1
    } else {
        m.cnt.lines
    };
    let chars = m.cnt.chars + 1;
    if is_unicode_whitespace(c) {
        ClsModel {
            in_word: false,
            cnt: CountsModel { lines, words: m.cnt.words, bytes: m.cnt.bytes, chars },
        }
    } else {
        ClsModel {
            in_word: true,
            cnt: CountsModel {
                lines,
                words: if m.in_word {
                    m.cnt.words
                } else {
                    m.cnt.words + 1
                },
                bytes: m.cnt.bytes,
                chars,
            },
        }
    }
}

impl State {
    /// A fresh classifier: outside any word, all tallies zero.
    pub fn new() -> (s: State)
        ensures
            s@ == cls_init(),
    {
        State { in_word: false, count: Counts::new() }
    }

    /// Record one decoded codepoint, per [`cls_codepoint`].
    pub fn codepoint(&mut self, c: char)
        requires
            old(self)@.cnt.chars < usize::MAX,
            old(self)@.cnt.lines < usize::MAX,
            old(self)@.cnt.words < usize::MAX,
        ensures
            final(self)@ == cls_codepoint(old(self)@, c),
    {
        self.count.chars = self.count.chars + 1;
        if c == '\n' {
            self.count.lines = self.count.lines + 1;
        }
        if is_whitespace_codepoint(c) {
            if self.in_word {
                self.in_word = false;
            }
        } else {
            if !self.in_word {
                self.in_word = true;
                self.count.words = self.count.words + 1;
            }
        }
    }

    /// An invalid-sequence signal changes no tally and no flag; the raw bytes
    /// behind it are counted separately, as bytes arrive.
    pub fn invalid_sequence(&mut self)
        ensures
            final(self)@ == old(self)@,
    {
    }
}

/// Number of line-feed characters in a text.
pub open spec fn line_feeds(s: Seq<char>) -> nat
    decreases s.len(),
{
    if s.len() == 0 {
        0
    } else {
        (if s[0] == '\n' {
            1nat
        } else {
            0nat
        }) + line_feeds(s.drop_first())
    }
}

/// Number of maximal runs of non-whitespace characters in a text: each run is
/// counted exactly once, at its first character — a non-whitespace character
/// that begins the text or follows a whitespace character.
pub open spec fn word_runs(s: Seq<char>) -> nat {
    word_runs_from(s, false)
}

/// Run starts remaining in `s` when `in_word` says whether `s` is preceded by
/// a non-whitespace character (a run that is already counted).
pub open spec fn word_runs_from(s: Seq<char>, in_word: bool) -> nat
    decreases s.len(),
{
    if s.len() == 0 {
        0
    } else if is_unicode_whitespace(s[0]) {
        word_runs_from(s.drop_first(), false)
    } else {
        (if in_word {
            0nat
        } else {
            1nat
        }) + word_runs_from(s.drop_first(), true)
    }
}

/// The word-boundary flag after a codepoint sequence has been classified,
/// starting from the flag `in_word`: the last codepoint decides, and an empty
/// sequence leaves the flag alone.
pub open spec fn in_word_after(s: Seq<char>, in_word: bool) -> bool
    decreases s.len(),
{
    if s.len() == 0 {
        in_word
    } else {
        in_word_after(s.drop_first(), !is_unicode_whitespace(s[0]))
    }
}

proof fn lemma_word_runs_from_push(s: Seq<char>, c: char, in_word: bool)
    ensures
        word_runs_from(s.push(c), in_word) == word_runs_from(s, in_word) + (
        if !is_unicode_whitespace(c) && !in_word_after(s, in_word) {
            1nat
        } else {
            0nat
        }),
    decreases s.len(),
{
    if s.len() == 0 {
        reveal_with_fuel(word_runs_from, 2);
        assert(s.push(c)[0] == c);
        assert(s.push(c).drop_first() =~= Seq::<char>::empty());
    } else {
        assert(s.push(c)[0] == s[0]);
        assert(s.push(c).drop_first() =~= s.drop_first().push(c));
        if is_unicode_whitespace(s[0]) {
            lemma_word_runs_from_push(s.drop_first(), c, false);
        } else {
            lemma_word_runs_from_push(s.drop_first(), c, true);
        }
    }
}

/// Appending a single trailing whitespace character to a text does not change
/// its word count.
pub proof fn lemma_trailing_whitespace(s: Seq<char>, c: char)
    requires
        is_unicode_whitespace(c),
    ensures
        word_runs(s.push(c)) == word_runs(s),
{
    lemma_word_runs_from_push(s, c, false);
}

/// A position where a maximal non-whitespace run begins: a non-whitespace
/// character that begins the text or follows a whitespace character.
pub open spec fn is_run_start(s: Seq<char>, i: int) -> bool {
    &&& 0 <= i < s.len()
    &&& !is_unicode_whitespace(s[i])
    &&& (i == 0 || is_unicode_whitespace(s[i - 1]))
}

/// Number of run-start positions among the first `n` positions.
pub open spec fn run_starts_below(s: Seq<char>, n: int) -> nat
    decreases n,
{
    if n <= 0 {
        0
    } else {
        run_starts_below(s, n - 1) + (if is_run_start(s, n - 1) {
            1nat
        } else {
            0nat
        })
    }
}

proof fn lemma_in_word_after_last(s: Seq<char>, in_word: bool)
    ensures
        in_word_after(s, in_word) == (if s.len() == 0 {
            in_word
        } else {
            !is_unicode_whitespace(s.last())
        }),
    decreases s.len(),
{
    if s.len() > 0 {
        lemma_in_word_after_last(s.drop_first(), !is_unicode_whitespace(s[0]));
        if s.len() > 1 {
            assert(s.drop_first().last() == s.last());
        }
    }
}

proof fn lemma_run_starts_agree(s: Seq<char>, t: Seq<char>, n: int)
    requires
        n <= s.len(),
        n <= t.len(),
        forall|i: int| 0 <= i < n ==> s[i] == t[i],
    ensures
        run_starts_below(s, n) == run_starts_below(t, n),
    decreases n,
{
    if n > 0 {
        lemma_run_starts_agree(s, t, n - 1);
    }
}

/// The word count is positional: it equals the number of positions where a
/// maximal non-whitespace run begins, so each maximal run is counted exactly
/// once.
pub proof fn lemma_word_runs_positional(s: Seq<char>)
    ensures
        word_runs(s) == run_starts_below(s, s.len() as int),
    decreases s.len(),
{
    if s.len() > 0 {
        let t = s.drop_last();
        let c = s.last();
        assert(s =~= t.push(c));
        lemma_word_runs_positional(t);
        lemma_word_runs_from_push(t, c, false);
        lemma_in_word_after_last(t, false);
        lemma_run_starts_agree(s, t, t.len() as int);
        if t.len() > 0 {
            assert(s[s.len() - 2] == t.last());
        }
        assert(is_run_start(s, s.len() - 1) == (!is_unicode_whitespace(c) && !in_word_after(
            t,
            false,
        )));
    }
}

} // verus!
