//! The `Counts` record: per-source tallies and their element-wise sum.

use vstd::prelude::*;

verus! {

/// Tallies for one input source: line feeds, words, raw bytes and decoded
/// characters.  Also used as the accumulator for the grand total.
#[derive(Clone, Copy, Debug, PartialEq, Eq, Structural)]
pub struct Counts {
    pub lines: usize,
    pub words: usize,
    pub bytes: usize,
    pub chars: usize,
}

/// Mathematical image of [`Counts`], free of machine-width limits.
pub struct CountsModel {
    pub lines: nat,
    pub words: nat,
    pub bytes: nat,
    pub chars: nat,
}

impl View for Counts {
    type V = CountsModel;

    open spec fn view(&self) -> CountsModel {
        CountsModel {
            lines: self.lines as nat,
            words: self.words as nat,
            bytes: self.bytes as nat,
            chars: self.chars as nat,
        }
    }
}

/// The zeroed record every source starts from.
pub open spec fn counts_zero() -> CountsModel {
    CountsModel { lines: 0, words: 0, bytes: 0, chars: 0 }
}

/// Numeric sanity that counting maintains: a word needs at least one
/// character, a line feed is a character, and a decoded character occupies at
/// least one byte.
pub open spec fn counts_wf(c: CountsModel) -> bool {
    &&& c.words <= c.chars
    &&& c.lines <= c.chars
    &&& c.chars <= c.bytes
}

/// Element-wise addition: how one source's final tallies are folded into a
/// running grand total.
pub open spec fn counts_add(a: CountsModel, b: CountsModel) -> CountsModel {
    CountsModel {
        lines: a.lines + b.lines,
        words: a.words + b.words,
        bytes: a.bytes + b.bytes,
        chars: a.chars + b.chars,
    }
}

impl Counts {
    /// A zeroed record, ready to accumulate one source or the grand total.
    pub fn new() -> (c: Counts)
        ensures
            c@ == counts_zero(),
    {
        Counts { lines: 0, words: 0, bytes: 0, chars: 0 }
    }

    /// Fold another record into this one, element-wise.
    pub fn accumulate(&mut self, other: &Counts)
        requires
            old(self)@.lines + other@.lines <= usize::MAX,
            old(self)@.words + other@.words <= usize::MAX,
            old(self)@.bytes + other@.bytes <= usize::MAX,
            old(self)@.chars + other@.chars <= usize::MAX,
        ensures
            final(self)@ == counts_add(old(self)@, other@),
    {
        self.lines = self.lines + other.lines;
        self.words = self.words + other.words;
        self.bytes = self.bytes + other.bytes;
        self.chars = self.chars + other.chars;
    }
}

/// Folding two sources' tallies gives the same total in either order.
pub proof fn lemma_counts_add_commutative(a: CountsModel, b: CountsModel)
    ensures
        counts_add(a, b) == counts_add(b, a),
{
}

/// Folding tallies of three sources groups either way, so a running total
/// folded source by source equals the sum in any association.
pub proof fn lemma_counts_add_associative(a: CountsModel, b: CountsModel, c: CountsModel)
    ensures
        counts_add(counts_add(a, b), c) == counts_add(a, counts_add(b, c)),
{
}

/// The zeroed record is the identity of the fold.
pub proof fn lemma_counts_add_zero(a: CountsModel)
    ensures
        counts_add(a, counts_zero()) == a,
        counts_add(counts_zero(), a) == a,
{
}

} // verus!
