//! The decoder against references: the incremental parser crate the byte
//! streams were meant for, and std's own notion of UTF-8 and whitespace.

use textcount::classify::is_whitespace_codepoint;
use textcount::decoder::Decoded;
use textcount::decoder::Decoder;

/// Events as a comparable list: `Ok` for a codepoint, `Err` for an invalid
/// sequence; pending bytes produce nothing.
fn run_decoder(bytes: &[u8]) -> Vec<Result<char, ()>> {
    let mut dec = Decoder::new();
    let mut out = Vec::new();
    for &b in bytes {
        match dec.advance(b) {
            Decoded::Codepoint(c) => out.push(Ok(c)),
            Decoded::Invalid => out.push(Err(())),
            Decoded::Pending => {}
        }
    }
    out
}

struct Collector(Vec<Result<char, ()>>);

impl utf8parse::Receiver for Collector {
    fn codepoint(&mut self, c: char) {
        self.0.push(Ok(c));
    }

    fn invalid_sequence(&mut self) {
        self.0.push(Err(()));
    }
}

fn run_reference(bytes: &[u8]) -> Vec<Result<char, ()>> {
    let mut parser = utf8parse::Parser::new();
    let mut collector = Collector(Vec::new());
    for &b in bytes {
        parser.advance(&mut collector, b);
    }
    collector.0
}

fn sample_streams() -> Vec<Vec<u8>> {
    let mut samples: Vec<Vec<u8>> = vec![
        b"".to_vec(),
        b"plain ascii, nothing odd".to_vec(),
        "caf\u{e9} na\u{ef}ve r\u{e9}sum\u{e9}".as_bytes().to_vec(),
        "\u{3053}\u{3093}\u{306b}\u{3061}\u{306f}".as_bytes().to_vec(),
        "\u{1f600}\u{1d11e}\u{10ffff}".as_bytes().to_vec(),
        "\u{800}\u{7ff}\u{80}\u{d7ff}\u{e000}\u{ffff}\u{10000}".as_bytes().to_vec(),
        // Stray continuation bytes.
        vec![0x80],
        vec![0xbf, 0xbf],
        // Overlong encodings.
        vec![0xc0, 0xaf],
        vec![0xc1, 0x80],
        vec![0xe0, 0x80, 0x80],
        vec![0xe0, 0x9f, 0xbf],
        vec![0xf0, 0x80, 0x80, 0x80],
        vec![0xf0, 0x8f, 0xbf, 0xbf],
        // Surrogates.
        vec![0xed, 0xa0, 0x80],
        vec![0xed, 0xbf, 0xbf],
        // Above the scalar range.
        vec![0xf4, 0x90, 0x80, 0x80],
        vec![0xf5, 0x80, 0x80, 0x80],
        vec![0xff, 0xfe],
        // A lead byte interrupted by another lead byte.
        vec![0xc2, 0xc2, 0xa9],
        vec![0xe2, 0x82, 0xe2, 0x82, 0xac],
        vec![0xf0, 0x9f, 0x98, 0xf0, 0x9f, 0x98, 0x80],
        // Truncated tails at end of stream.
        vec![0xc3],
        vec![0xe2, 0x82],
        vec![0xf0, 0x9f, 0x98],
        // Invalid byte mid-text, then recovery.
        b"ab\xffcd\xc3\xa9ef".to_vec(),
        b"a\xe0\xa0b".to_vec(),
    ];
    // Boundary lead/continuation pairs around every special range edge.
    for lead in [0xc1u8, 0xc2, 0xdf, 0xe0, 0xe1, 0xec, 0xed, 0xee, 0xef, 0xf0, 0xf1, 0xf3, 0xf4, 0xf5] {
        for cont in [0x7fu8, 0x80, 0x8f, 0x90, 0x9f, 0xa0, 0xbf, 0xc0] {
            samples.push(vec![lead, cont, 0x80, 0x80, 0x80]);
        }
    }
    samples
}

#[test]
fn decoder_matches_reference_parser() {
    for bytes in sample_streams() {
        assert_eq!(run_decoder(&bytes), run_reference(&bytes), "stream {:?}", bytes);
    }
}

#[test]
fn decoder_matches_std_on_valid_text() {
    let samples = [
        "ascii only",
        "caf\u{e9}",
        "\u{80}\u{7ff}\u{800}\u{d7ff}\u{e000}\u{ffff}\u{10000}\u{10ffff}",
        "mixed \u{1f600} widths \u{3000} here\n",
    ];
    for s in samples {
        let got = run_decoder(s.as_bytes());
        let want: Vec<Result<char, ()>> = s.chars().map(Ok).collect();
        assert_eq!(got, want, "text {:?}", s);
    }
}

#[test]
fn every_scalar_round_trips() {
    // Encode every Unicode scalar with std and decode it incrementally.
    let mut buf = [0u8; 4];
    for v in 0..=0x10ffffu32 {
        if let Some(c) = char::from_u32(v) {
            let bytes = c.encode_utf8(&mut buf).as_bytes();
            let got = run_decoder(bytes);
            assert_eq!(got, vec![Ok(c)], "scalar {:x}", v);
        }
    }
}

#[test]
fn whitespace_table_matches_std() {
    for v in 0..=0x10ffffu32 {
        if let Some(c) = char::from_u32(v) {
            assert_eq!(
                is_whitespace_codepoint(c),
                c.is_whitespace(),
                "codepoint {:x}",
                v
            );
        }
    }
}
