//! A streaming text-statistics library in the style of `wc`.
//!
//! Raw bytes are classified one at a time by an incremental UTF-8 decoder
//! ([`decoder`]), whose decoded codepoints drive a word-boundary state
//! machine ([`classify`]) that tallies lines, words, bytes and characters
//! ([`counts`]).  A pre-pass over source sizes picks one shared column
//! width ([`width`]) and the tallies are rendered into fixed-width report
//! lines ([`report`]).  Decoder and classifier run in lockstep in the
//! per-source counting engine ([`engine`]), whose central theorem says that
//! over the UTF-8 encoding of a text the engine counts exactly the text's
//! codepoints, line feeds and maximal non-whitespace runs.  Small
//! configuration types for the companion line-oriented utilities live in
//! [`cat`] and [`head`].

pub mod cat;
pub mod classify;
pub mod config;
pub mod counts;
pub mod decoder;
pub mod engine;
pub mod head;
pub mod report;
pub mod width;
