//! Incremental UTF-8 codepoint decoder.
//!
//! The decoder consumes one byte at a time and, for each byte, reports one of
//! three outcomes: a complete codepoint, "still mid-sequence", or an invalid
//! sequence.  Invalid input is a signalled, recoverable event: the offending
//! byte is consumed, the decoder returns to its ground state, and every later
//! byte is treated as a fresh potential sequence start.
//!
//! The transition function is specified by [`decode_step`]; its correctness
//! against the declarative UTF-8 specification of `vstd::utf8` is proved in
//! the engine module, which shows that running the decoder over
//! `encode_utf8(text)` emits exactly `text`.

use vstd::prelude::*;
use vstd::utf8::codepoint_width_1;
use vstd::utf8::continuation_bits;
use vstd::utf8::is_scalar;
use vstd::utf8::leading_bits_width_2;
use vstd::utf8::leading_bits_width_3;
use vstd::utf8::leading_bits_width_4;

verus! {

/// What one byte of input yields from the decoder.
#[derive(Clone, Copy, Debug, PartialEq, Eq, Structural)]
pub enum Decoded {
    /// The byte was consumed mid-sequence; no codepoint is complete yet.
    Pending,
    /// A multi-byte (or single-byte) sequence closed with this codepoint.
    Codepoint(char),
    /// The byte violated UTF-8; decoding resumes at the next byte.
    Invalid,
}

/// The decoder's state: either at a sequence boundary, or inside a multi-byte
/// sequence with `rem` continuation bytes still missing, the data bits seen so
/// far in `acc`, and the admissible range `lo ..= hi` for the next byte (the
/// range is narrowed after the lead bytes 0xE0, 0xED, 0xF0 and 0xF4 so that
/// overlong encodings and surrogates are rejected on their second byte).
#[derive(Clone, Copy, Debug, PartialEq, Eq, Structural)]
pub enum Decoder {
    /// At a sequence boundary, expecting a lead byte.
    Ground,
    /// Mid-sequence.
    Expect { rem: u8, acc: u32, lo: u8, hi: u8 },
}

/// The outcome of closing a sequence whose accumulated codepoint is `v`:
/// the codepoint if `v` is a Unicode scalar, otherwise an invalid signal.
pub open spec fn emitted(v: u32) -> Decoded {
    if is_scalar(v) {
        Decoded::Codepoint(v as char)
    } else {
        Decoded::Invalid
    }
}

/// One step of the decoder: the state after consuming `b` and what the byte
/// yielded.
pub open spec fn decode_step(st: Decoder, b: u8) -> (Decoder, Decoded) {
    match st {
        Decoder::Ground => {
            if b <= 0x7f {
                (Decoder::Ground, emitted(codepoint_width_1(b)))
            } else if 0xc2 <= b && b <= 0xdf {
                (
                    Decoder::Expect { rem: 1, acc: leading_bits_width_2(b), lo: 0x80, hi: 0xbf },
                    Decoded::Pending,
                )
            } else if b == 0xe0 {
                (
                    Decoder::Expect { rem: 2, acc: leading_bits_width_3(b), lo: 0xa0, hi: 0xbf },
                    Decoded::Pending,
                )
            } else if b == 0xed {
                (
                    Decoder::Expect { rem: 2, acc: leading_bits_width_3(b), lo: 0x80, hi: 0x9f },
                    Decoded::Pending,
                )
            } else if 0xe1 <= b && b <= 0xef {
                (
                    Decoder::Expect { rem: 2, acc: leading_bits_width_3(b), lo: 0x80, hi: 0xbf },
                    Decoded::Pending,
                )
            } else if b == 0xf0 {
                (
                    Decoder::Expect { rem: 3, acc: leading_bits_width_4(b), lo: 0x90, hi: 0xbf },
                    Decoded::Pending,
                )
            } else if b == 0xf4 {
                (
                    Decoder::Expect { rem: 3, acc: leading_bits_width_4(b), lo: 0x80, hi: 0x8f },
                    Decoded::Pending,
                )
            } else if 0xf1 <= b && b <= 0xf3 {
                (
                    Decoder::Expect { rem: 3, acc: leading_bits_width_4(b), lo: 0x80, hi: 0xbf },
                    Decoded::Pending,
                )
            } else {
                // A stray continuation byte, an overlong lead (0xC0/0xC1), or a
                // lead above the scalar range (0xF5..).
                (Decoder::Ground, Decoded::Invalid)
            }
        },
        Decoder::Expect { rem, acc, lo, hi } => {
            if lo <= b && b <= hi {
                let acc2 = (acc << 6) | continuation_bits(b);
                if rem <= 1 {
                    (Decoder::Ground, emitted(acc2))
                } else {
                    (
                        Decoder::Expect { rem: (rem - 1) as u8, acc: acc2, lo: 0x80, hi: 0xbf },
                        Decoded::Pending,
                    )
                }
            } else {
                (Decoder::Ground, Decoded::Invalid)
            }
        },
    }
}

/// Relies on `char::from_u32` of std: it returns `Some` of the character with
/// the given numeric value exactly when that value is a Unicode scalar (at
/// most 0x10FFFF and not in the surrogate range), and `None` otherwise.
pub assume_specification[ char::from_u32 ](v: u32) -> (r: Option<char>)
    ensures
        is_scalar(v) ==> r == Some(v as char),
        !is_scalar(v) ==> r is None,
;

/// Close a sequence whose accumulated codepoint is `v`.
fn emit(v: u32) -> (r: Decoded)
    ensures
        r == emitted(v),
{
    match char::from_u32(v) {
        Some(c) => Decoded::Codepoint(c),
        None => Decoded::Invalid,
    }
}

impl Decoder {
    /// A decoder at a sequence boundary; each source gets a fresh one.
    pub fn new() -> (d: Decoder)
        ensures
            d == Decoder::Ground,
    {
        Decoder::Ground
    }

    /// Consume one byte and report what it yielded, following [`decode_step`].
    pub fn advance(&mut self, byte: u8) -> (r: Decoded)
        ensures
            (*final(self), r) == decode_step(*old(self), byte),
    {
        let st = *self;
        match st {
            Decoder::Ground => {
                if byte <= 0x7f {
                    *self = Decoder::Ground;
                    emit((byte & 0x7f) as u32)
                } else if 0xc2 <= byte && byte <= 0xdf {
                    *self = Decoder::Expect {
                        rem: 1,
                        acc: (byte & 0x1f) as u32,
                        lo: 0x80,
                        hi: 0xbf,
                    };
                    Decoded::Pending
                } else if byte == 0xe0 {
                    *self = Decoder::Expect {
                        rem: 2,
                        acc: (byte & 0x0f) as u32,
                        lo: 0xa0,
                        hi: 0xbf,
                    };
                    Decoded::Pending
                } else if byte == 0xed {
                    *self = Decoder::Expect {
                        rem: 2,
                        acc: (byte & 0x0f) as u32,
                        lo: 0x80,
                        hi: 0x9f,
                    };
                    Decoded::Pending
                } else if 0xe1 <= byte && byte <= 0xef {
                    *self = Decoder::Expect {
                        rem: 2,
                        acc: (byte & 0x0f) as u32,
                        lo: 0x80,
                        hi: 0xbf,
                    };
                    Decoded::Pending
                } else if byte == 0xf0 {
                    *self = Decoder::Expect {
                        rem: 3,
                        acc: (byte & 0x07) as u32,
                        lo: 0x90,
                        hi: 0xbf,
                    };
                    Decoded::Pending
                } else if byte == 0xf4 {
                    *self = Decoder::Expect {
                        rem: 3,
                        acc: (byte & 0x07) as u32,
                        lo: 0x80,
                        hi: 0x8f,
                    };
                    Decoded::Pending
                } else if 0xf1 <= byte && byte <= 0xf3 {
                    *self = Decoder::Expect {
                        rem: 3,
                        acc: (byte & 0x07) as u32,
                        lo: 0x80,
                        hi: 0xbf,
                    };
                    Decoded::Pending
                } else {
                    *self = Decoder::Ground;
                    Decoded::Invalid
                }
            },
            Decoder::Expect { rem, acc, lo, hi } => {
                if lo <= byte && byte <= hi {
                    let acc2 = (acc << 6) | ((byte & 0x3f) as u32);
                    if rem <= 1 {
                        *self = Decoder::Ground;
                        emit(acc2)
                    } else {
                        *self = Decoder::Expect { rem: rem - 1, acc: acc2, lo: 0x80, hi: 0xbf };
                        Decoded::Pending
                    }
                } else {
                    *self = Decoder::Ground;
                    Decoded::Invalid
                }
            },
        }
    }
}

// What follows relates the machine above to the UTF-8 encoding functions of
// `vstd::utf8`: for a scalar of each width, the bytes of its encoding take
// the branches of `decode_step` shown here, and the accumulated data bits
// reassemble the scalar exactly.

pub(crate) proof fn lemma_encoding_width_1(v: u32)
    by (bit_vector)
    requires
        v <= 0x7F,
    ensures
        ({
            let b1 = (v & 0x7F) as u8;
            &&& b1 <= 0x7f
            &&& ((b1 & 0x7f) as u32) == v
        }),
{
}

pub(crate) proof fn lemma_encoding_width_2(v: u32)
    by (bit_vector)
    requires
        0x80 <= v <= 0x7FF,
    ensures
        ({
            let b1 = 0xC0 | ((v >> 6) & 0x1F) as u8;
            let b2 = 0x80 | (v & 0x3F) as u8;
            &&& 0xc2 <= b1 <= 0xdf
            &&& 0x80 <= b2 <= 0xbf
            &&& ((((b1 & 0x1f) as u32) << 6) | ((b2 & 0x3f) as u32)) == v
        }),
{
}

pub(crate) proof fn lemma_encoding_width_3(v: u32)
    by (bit_vector)
    requires
        0x800 <= v <= 0xFFFF,
        !(0xD800 <= v <= 0xDFFF),
    ensures
        ({
            let b1 = 0xE0 | ((v >> 12) & 0x0F) as u8;
            let b2 = 0x80 | ((v >> 6) & 0x3F) as u8;
            let b3 = 0x80 | (v & 0x3F) as u8;
            &&& 0xe0 <= b1 <= 0xef
            &&& 0x80 <= b2 <= 0xbf
            &&& 0x80 <= b3 <= 0xbf
            &&& (b1 == 0xe0 ==> 0xa0 <= b2)
            &&& (b1 == 0xed ==> b2 <= 0x9f)
            &&& ((((((b1 & 0x0f) as u32) << 6) | ((b2 & 0x3f) as u32)) << 6) | ((b3
                & 0x3f) as u32)) == v
        }),
{
}

pub(crate) proof fn lemma_encoding_width_4(v: u32)
    by (bit_vector)
    requires
        0x10000 <= v <= 0x10FFFF,
    ensures
        ({
            let b1 = 0xF0 | ((v >> 18) & 0x7) as u8;
            let b2 = 0x80 | ((v >> 12) & 0x3F) as u8;
            let b3 = 0x80 | ((v >> 6) & 0x3F) as u8;
            let b4 = 0x80 | (v & 0x3F) as u8;
            &&& 0xf0 <= b1 <= 0xf4
            &&& 0x80 <= b2 <= 0xbf
            &&& 0x80 <= b3 <= 0xbf
            &&& 0x80 <= b4 <= 0xbf
            &&& (b1 == 0xf0 ==> 0x90 <= b2)
            &&& (b1 == 0xf4 ==> b2 <= 0x8f)
            &&& ((((((((b1 & 0x07) as u32) << 6) | ((b2 & 0x3f) as u32)) << 6) | ((b3
                & 0x3f) as u32)) << 6) | ((b4 & 0x3f) as u32)) == v
        }),
{
}

} // verus!
