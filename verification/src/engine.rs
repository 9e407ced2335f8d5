//! The per-source counting engine: decoder and classifier run in lockstep.
//!
//! For every raw byte the byte tally rises by one, whatever the byte decodes
//! to; a byte that completes a codepoint also drives the classifier.  The
//! central theorem here is that, over the UTF-8 encoding of a text, the
//! engine counts exactly the text's codepoints, line feeds and maximal
//! non-whitespace runs.

use vstd::prelude::*;
use vstd::utf8::char_is_scalar;
use vstd::utf8::char_u32_cast;
use vstd::utf8::codepoint_width_1;
use vstd::utf8::decode_utf8;
use vstd::utf8::decode_utf8_encode_utf8;
use vstd::utf8::encode_scalar;
use vstd::utf8::encode_utf8;
use vstd::utf8::has_width_1_encoding;
use vstd::utf8::has_width_2_encoding;
use vstd::utf8::has_width_3_encoding;
use vstd::utf8::last_continuation_byte;
use vstd::utf8::leading_byte_width_1;
use vstd::utf8::leading_byte_width_2;
use vstd::utf8::leading_byte_width_3;
use vstd::utf8::leading_byte_width_4;
use vstd::utf8::second_last_continuation_byte;
use vstd::utf8::third_last_continuation_byte;
use vstd::utf8::valid_utf8;

use crate::classify::cls_codepoint;
use crate::classify::cls_init;
use crate::classify::in_word_after;
use crate::classify::line_feeds;
use crate::classify::word_runs;
use crate::classify::word_runs_from;
use crate::classify::ClsModel;
use crate::classify::State;
use crate::counts::counts_wf;
use crate::counts::Counts;
use crate::counts::CountsModel;
use crate::decoder::decode_step;
use crate::decoder::emitted;
use crate::decoder::lemma_encoding_width_1;
use crate::decoder::lemma_encoding_width_2;
use crate::decoder::lemma_encoding_width_3;
use crate::decoder::lemma_encoding_width_4;
use crate::decoder::Decoded;
use crate::decoder::Decoder;

verus! {

/// The whole state of one source's counting session.
pub struct EngineModel {
    pub dec: Decoder,
    pub cls: ClsModel,
}

/// A fresh session: decoder at a boundary, classifier zeroed.
pub open spec fn engine_init() -> EngineModel {
    EngineModel { dec: Decoder::Ground, cls: cls_init() }
}

/// The classifier with its byte tally replaced.
pub open spec fn with_bytes(m: ClsModel, bytes: nat) -> ClsModel {
    ClsModel {
        in_word: m.in_word,
        cnt: CountsModel {
            lines: m.cnt.lines,
            words: m.cnt.words,
            bytes,
            chars: m.cnt.chars,
        },
    }
}

/// Effect of one raw byte on a session: the byte is tallied whatever it
/// decodes to, and a completed codepoint drives the classifier.
pub open spec fn engine_byte(m: EngineModel, b: u8) -> EngineModel {
    let (dec, ev) = decode_step(m.dec, b);
    let grown = with_bytes(m.cls, m.cls.cnt.bytes + 1);
    let cls = match ev {
        Decoded::Pending => grown,
        Decoded::Invalid => grown,
        Decoded::Codepoint(c) => cls_codepoint(grown, c),
    };
    EngineModel { dec, cls }
}

/// Effect of a whole byte sequence, first byte to last.
pub open spec fn engine_run(m: EngineModel, bs: Seq<u8>) -> EngineModel
    decreases bs.len(),
{
    if bs.len() == 0 {
        m
    } else {
        engine_run(engine_byte(m, bs[0]), bs.drop_first())
    }
}

/// The tallies of one whole byte stream, from a fresh session.
pub open spec fn counts_of_bytes(bs: Seq<u8>) -> CountsModel {
    engine_run(engine_init(), bs).cls.cnt
}

/// One byte keeps the tallies sane and raises the byte count by one.
proof fn lemma_engine_byte_wf(m: EngineModel, b: u8)
    requires
        counts_wf(m.cls.cnt),
    ensures
        counts_wf(engine_byte(m, b).cls.cnt),
        engine_byte(m, b).cls.cnt.bytes == m.cls.cnt.bytes + 1,
{
}

/// A run of bytes keeps the tallies sane, and the byte count grows by exactly
/// the number of bytes consumed.
pub proof fn lemma_engine_run_wf(m: EngineModel, bs: Seq<u8>)
    requires
        counts_wf(m.cls.cnt),
    ensures
        counts_wf(engine_run(m, bs).cls.cnt),
        engine_run(m, bs).cls.cnt.bytes == m.cls.cnt.bytes + bs.len(),
    decreases bs.len(),
{
    if bs.len() > 0 {
        lemma_engine_byte_wf(m, bs[0]);
        lemma_engine_run_wf(engine_byte(m, bs[0]), bs.drop_first());
    }
}

/// Every raw byte of a stream is counted exactly once.
pub proof fn lemma_bytes_exact(bs: Seq<u8>)
    ensures
        counts_of_bytes(bs).bytes == bs.len(),
{
    lemma_engine_run_wf(engine_init(), bs);
}

/// On any input whatsoever — valid or not — the word count is at most the
/// character count, the line count at most the character count, and the
/// character count at most the byte count.
pub proof fn lemma_counts_bounded(bs: Seq<u8>)
    ensures
        counts_wf(counts_of_bytes(bs)),
{
    lemma_engine_run_wf(engine_init(), bs);
}

proof fn lemma_engine_run_snoc(m: EngineModel, bs: Seq<u8>, b: u8)
    ensures
        engine_run(m, bs.push(b)) == engine_byte(engine_run(m, bs), b),
    decreases bs.len(),
{
    if bs.len() == 0 {
        reveal_with_fuel(engine_run, 2);
        assert(bs.push(b)[0] == b);
        assert(bs.push(b).drop_first() =~= Seq::<u8>::empty());
    } else {
        assert(bs.push(b)[0] == bs[0]);
        assert(bs.push(b).drop_first() =~= bs.drop_first().push(b));
        lemma_engine_run_snoc(engine_byte(m, bs[0]), bs.drop_first(), b);
    }
}

proof fn lemma_engine_run_append(m: EngineModel, b1: Seq<u8>, b2: Seq<u8>)
    ensures
        engine_run(m, b1 + b2) == engine_run(engine_run(m, b1), b2),
    decreases b1.len(),
{
    if b1.len() == 0 {
        assert(b1 + b2 =~= b2);
    } else {
        assert((b1 + b2)[0] == b1[0]);
        assert((b1 + b2).drop_first() =~= b1.drop_first() + b2);
        lemma_engine_run_append(engine_byte(m, b1[0]), b1.drop_first(), b2);
    }
}

/// From a sequence boundary, the UTF-8 encoding of one character moves the
/// engine back to a boundary, tallies the encoding's bytes, and classifies
/// exactly that character.
proof fn lemma_engine_scalar(m: EngineModel, c: char)
    requires
        m.dec == Decoder::Ground,
    ensures
        ({
            let bs = encode_scalar(c as u32);
            engine_run(m, bs) == EngineModel {
                dec: Decoder::Ground,
                cls: cls_codepoint(with_bytes(m.cls, m.cls.cnt.bytes + bs.len()), c),
            }
        }),
{
    let v = c as u32;
    char_is_scalar(c);
    char_u32_cast(c, v);
    let bs = encode_scalar(v);
    reveal_with_fuel(engine_run, 5);
    if has_width_1_encoding(v) {
        lemma_encoding_width_1(v);
        let b1 = leading_byte_width_1(v);
        assert(bs =~= seq![b1]);
        assert(bs.drop_first() =~= Seq::<u8>::empty());
        assert(codepoint_width_1(b1) == v);
        assert(emitted(v) == Decoded::Codepoint(c));
    } else if has_width_2_encoding(v) {
        lemma_encoding_width_2(v);
        let b1 = leading_byte_width_2(v);
        let b2 = last_continuation_byte(v);
        assert(bs =~= seq![b1, b2]);
        assert(bs.drop_first() =~= seq![b2]);
        assert(bs.drop_first().drop_first() =~= Seq::<u8>::empty());
        let m1 = engine_byte(m, b1);
        assert(m1.dec == Decoder::Expect { rem: 1, acc: (b1 & 0x1f) as u32, lo: 0x80, hi: 0xbf });
        assert((((b1 & 0x1f) as u32) << 6) | ((b2 & 0x3f) as u32) == v);
        assert(emitted(v) == Decoded::Codepoint(c));
    } else if has_width_3_encoding(v) {
        lemma_encoding_width_3(v);
        let b1 = leading_byte_width_3(v);
        let b2 = second_last_continuation_byte(v);
        let b3 = last_continuation_byte(v);
        assert(bs =~= seq![b1, b2, b3]);
        assert(bs.drop_first() =~= seq![b2, b3]);
        assert(bs.drop_first().drop_first() =~= seq![b3]);
        assert(bs.drop_first().drop_first().drop_first() =~= Seq::<u8>::empty());
        let acc1 = (b1 & 0x0f) as u32;
        let acc2 = (acc1 << 6) | ((b2 & 0x3f) as u32);
        let acc3 = (acc2 << 6) | ((b3 & 0x3f) as u32);
        assert(acc3 == v);
        assert(emitted(v) == Decoded::Codepoint(c));
    } else {
        lemma_encoding_width_4(v);
        let b1 = leading_byte_width_4(v);
        let b2 = third_last_continuation_byte(v);
        let b3 = second_last_continuation_byte(v);
        let b4 = last_continuation_byte(v);
        assert(bs =~= seq![b1, b2, b3, b4]);
        assert(bs.drop_first() =~= seq![b2, b3, b4]);
        assert(bs.drop_first().drop_first() =~= seq![b3, b4]);
        assert(bs.drop_first().drop_first().drop_first() =~= seq![b4]);
        assert(bs.drop_first().drop_first().drop_first().drop_first() =~= Seq::<u8>::empty());
        let acc1 = (b1 & 0x07) as u32;
        let acc2 = (acc1 << 6) | ((b2 & 0x3f) as u32);
        let acc3 = (acc2 << 6) | ((b3 & 0x3f) as u32);
        let acc4 = (acc3 << 6) | ((b4 & 0x3f) as u32);
        assert(acc4 == v);
        assert(emitted(v) == Decoded::Codepoint(c));
    }
}

/// The central theorem: from a sequence boundary, the engine over the UTF-8
/// encoding of a text returns to a boundary having counted the text's
/// codepoints, line feeds, word starts, and encoded bytes.
proof fn lemma_engine_text(m: EngineModel, s: Seq<char>)
    requires
        m.dec == Decoder::Ground,
    ensures
        ({
            let r = engine_run(m, encode_utf8(s));
            &&& r.dec == Decoder::Ground
            &&& r.cls.in_word == in_word_after(s, m.cls.in_word)
            &&& r.cls.cnt.chars == m.cls.cnt.chars + s.len()
            &&& r.cls.cnt.lines == m.cls.cnt.lines + line_feeds(s)
            &&& r.cls.cnt.words == m.cls.cnt.words + word_runs_from(s, m.cls.in_word)
            &&& r.cls.cnt.bytes == m.cls.cnt.bytes + encode_utf8(s).len()
        }),
    decreases s.len(),
{
    if s.len() == 0 {
    } else {
        let c = s[0];
        let head = encode_scalar(c as u32);
        let tail = encode_utf8(s.drop_first());
        assert(encode_utf8(s) == head + tail);
        lemma_engine_run_append(m, head, tail);
        lemma_engine_scalar(m, c);
        let m1 = engine_run(m, head);
        lemma_engine_text(m1, s.drop_first());
    }
}

/// Counting the UTF-8 encoding of a text gives the text's own measures:
/// one character per codepoint, one line per line feed, one word per maximal
/// non-whitespace run, one byte per encoded byte.
pub proof fn lemma_counts_of_text(s: Seq<char>)
    ensures
        counts_of_bytes(encode_utf8(s)).chars == s.len(),
        counts_of_bytes(encode_utf8(s)).lines == line_feeds(s),
        counts_of_bytes(encode_utf8(s)).words == word_runs(s),
        counts_of_bytes(encode_utf8(s)).bytes == encode_utf8(s).len(),
{
    lemma_engine_text(engine_init(), s);
}

/// The same, read off a valid UTF-8 byte stream: the engine counts the
/// decoded text's codepoints, line feeds and maximal non-whitespace runs.
pub proof fn lemma_counts_of_valid_utf8(bs: Seq<u8>)
    requires
        valid_utf8(bs),
    ensures
        counts_of_bytes(bs).chars == decode_utf8(bs).len(),
        counts_of_bytes(bs).lines == line_feeds(decode_utf8(bs)),
        counts_of_bytes(bs).words == word_runs(decode_utf8(bs)),
        counts_of_bytes(bs).bytes == bs.len(),
{
    decode_utf8_encode_utf8(bs);
    lemma_counts_of_text(decode_utf8(bs));
}

/// Feed one raw byte through a source's decoder and classifier.
pub fn push_byte(dec: &mut Decoder, state: &mut State, byte: u8)
    requires
        counts_wf(old(state)@.cnt),
        old(state)@.cnt.bytes < usize::MAX,
    ensures
        ({
            let m = engine_byte(EngineModel { dec: *old(dec), cls: old(state)@ }, byte);
            &&& *final(dec) == m.dec
            &&& final(state)@ == m.cls
        }),
{
    state.count.bytes = state.count.bytes + 1;
    match dec.advance(byte) {
        Decoded::Codepoint(c) => state.codepoint(c),
        Decoded::Invalid => state.invalid_sequence(),
        Decoded::Pending => (),
    }
}

/// Drain a block of raw bytes through a source's decoder and classifier.
/// The caller may stream a source block by block: the effect is that of the
/// concatenated bytes.
pub fn consume(dec: &mut Decoder, state: &mut State, data: &[u8])
    requires
        counts_wf(old(state)@.cnt),
        old(state)@.cnt.bytes + data@.len() <= usize::MAX,
    ensures
        ({
            let m = engine_run(
                EngineModel { dec: *old(dec), cls: old(state)@ },
                data@,
            );
            &&& *final(dec) == m.dec
            &&& final(state)@ == m.cls
        }),
{
    let ghost m0 = EngineModel { dec: *dec, cls: state@ };
    let n = data.len();
    let mut i: usize = 0;
    while i < n
        invariant
            n == data@.len(),
            i <= n,
            counts_wf(m0.cls.cnt),
            m0.cls.cnt.bytes + n <= usize::MAX,
            *dec == engine_run(m0, data@.take(i as int)).dec,
            state@ == engine_run(m0, data@.take(i as int)).cls,
        decreases n - i,
    {
        proof {
            lemma_engine_run_wf(m0, data@.take(i as int));
            assert(data@.take(i as int).len() == i);
        }
        push_byte(dec, state, data[i]);
        proof {
            assert(data@.take(i as int + 1) =~= data@.take(i as int).push(data@[i as int]));
            lemma_engine_run_snoc(m0, data@.take(i as int), data@[i as int]);
        }
        i = i + 1;
    }
    proof {
        assert(data@.take(n as int) =~= data@);
    }
}

/// Count one whole in-memory byte stream with a fresh session.
pub fn count(data: &[u8]) -> (c: Counts)
    ensures
        c@ == counts_of_bytes(data@),
{
    let mut dec = Decoder::new();
    let mut state = State::new();
    let n = data.len();
    proof {
        assert(state@.cnt.bytes + data@.len() == n);
    }
    consume(&mut dec, &mut state, data);
    state.count
}

} // verus!
