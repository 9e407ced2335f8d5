//! Width resolution, column formatting, and the per-invocation scenarios.

use textcount::config::get_args;
use textcount::config::Config;
use textcount::counts::Counts;
use textcount::engine::count;
use textcount::report::format_count;
use textcount::report::format_line;
use textcount::width::decimal_width;
use textcount::width::is_stdin_name;
use textcount::width::resolve_width;

fn names(list: &[&str]) -> Vec<String> {
    list.iter().map(|s| s.to_string()).collect()
}

#[test]
fn width_follows_total_size() {
    let paths = names(&["a", "b"]);
    assert_eq!(resolve_width(&paths, &vec![Some(500), Some(499)]), 3); // total 999
    assert_eq!(resolve_width(&paths, &vec![Some(500), Some(500)]), 4); // total 1000
    assert_eq!(resolve_width(&paths, &vec![Some(0), Some(0)]), 1); // total 0
    assert_eq!(resolve_width(&paths, &vec![None, None]), 1); // nothing measurable
}

#[test]
fn width_is_seven_with_standard_input() {
    assert_eq!(resolve_width(&names(&["-"]), &vec![None]), 7);
    assert_eq!(resolve_width(&names(&[""]), &vec![None]), 7);
    // Regardless of the other sizes.
    assert_eq!(resolve_width(&names(&["big", "-"]), &vec![Some(123456789), None]), 7);
}

#[test]
fn stdin_names_are_empty_or_dash() {
    assert!(is_stdin_name(""));
    assert!(is_stdin_name("-"));
    assert!(!is_stdin_name("--"));
    assert!(!is_stdin_name("file"));
}

#[test]
fn decimal_width_cases() {
    assert_eq!(decimal_width(0), 1);
    assert_eq!(decimal_width(9), 1);
    assert_eq!(decimal_width(10), 2);
    assert_eq!(decimal_width(999), 3);
    assert_eq!(decimal_width(1000), 4);
    assert_eq!(decimal_width(u64::MAX), 20);
}

#[test]
fn format_count_right_justifies() {
    assert_eq!(format_count(1, 7), "      1");
    assert_eq!(format_count(42, 4), "  42");
    assert_eq!(format_count(0, 1), "0");
    // Wider than the column: not truncated.
    assert_eq!(format_count(12345, 3), "12345");
}

fn default_selection(files: &[&str]) -> Config {
    get_args(names(files), false, false, false, false)
}

#[test]
fn line_has_fixed_column_order() {
    let c = Counts { lines: 1, words: 2, bytes: 8, chars: 8 };
    let cfg = default_selection(&["f"]);
    // Default selection shows lines, words, bytes.
    assert_eq!(format_line(&c, "f", &cfg, 3), "  1   2   8 f");
    // All four selected: lines, words, chars, bytes — in that order.
    let all = get_args(names(&["f"]), true, true, true, true);
    assert_eq!(format_line(&c, "f", &all, 3), "  1   2   8   8 f");
    // Chars only.
    let chars_only = get_args(names(&["f"]), false, false, false, true);
    assert_eq!(format_line(&c, "f", &chars_only, 3), "  8 f");
}

#[test]
fn empty_name_is_omitted() {
    let c = Counts { lines: 0, words: 1, bytes: 3, chars: 3 };
    let cfg = default_selection(&[]);
    assert_eq!(format_line(&c, "", &cfg, 7), "      0       1       3");
}

#[test]
fn two_sources_total_line() {
    // Counts (1,2,8,8) and (0,1,3,3) fold to (1,3,11,11) under the name
    // `total`.
    let a = Counts { lines: 1, words: 2, bytes: 8, chars: 8 };
    let b = Counts { lines: 0, words: 1, bytes: 3, chars: 3 };
    let mut total = Counts::new();
    total.accumulate(&a);
    total.accumulate(&b);
    assert_eq!(total, Counts { lines: 1, words: 3, bytes: 11, chars: 11 });
    let cfg = default_selection(&["a", "b"]);
    let width = resolve_width(&names(&["a", "b"]), &vec![Some(8), Some(3)]);
    assert_eq!(width, 2);
    assert_eq!(format_line(&total, "total", &cfg, width), " 1  3 11 total");
}

#[test]
fn accumulate_is_commutative_and_associative() {
    let samples = [
        Counts { lines: 1, words: 2, bytes: 8, chars: 8 },
        Counts { lines: 0, words: 1, bytes: 3, chars: 3 },
        Counts { lines: 7, words: 0, bytes: 100, chars: 90 },
    ];
    for a in samples {
        for b in samples {
            let mut ab = Counts::new();
            ab.accumulate(&a);
            ab.accumulate(&b);
            let mut ba = Counts::new();
            ba.accumulate(&b);
            ba.accumulate(&a);
            assert_eq!(ab, ba);
            for c in samples {
                let mut left = a;
                left.accumulate(&b);
                left.accumulate(&c);
                let mut bc = b;
                bc.accumulate(&c);
                let mut right = a;
                right.accumulate(&bc);
                assert_eq!(left, right);
            }
        }
    }
}

#[test]
fn bad_source_among_good_ones() {
    // Three requested sources; the middle one cannot be opened.  The two
    // good ones still report correctly, the total reflects only them, and
    // exactly one diagnostic is recorded.
    let sources: Vec<(&str, Option<&[u8]>)> = vec![
        ("a.txt", Some(b"foo bar\n")),
        ("missing.txt", None),
        ("b.txt", Some(b"baz")),
    ];
    let paths = names(&["a.txt", "missing.txt", "b.txt"]);
    let sizes: Vec<Option<u64>> =
        sources.iter().map(|(_, d)| d.map(|d| d.len() as u64)).collect();
    let width = resolve_width(&paths, &sizes);
    let cfg = default_selection(&["a.txt", "missing.txt", "b.txt"]);

    let mut total = Counts::new();
    let mut reports = Vec::new();
    let mut diagnostics = Vec::new();
    for (name, data) in sources {
        match data {
            None => diagnostics.push(name),
            Some(data) => {
                let c = count(data);
                total.accumulate(&c);
                reports.push(format_line(&c, name, &cfg, width));
            }
        }
    }
    assert_eq!(diagnostics, vec!["missing.txt"]);
    assert_eq!(reports, vec![" 1  2  8 a.txt", " 0  1  3 b.txt"]);
    assert_eq!(total, Counts { lines: 1, words: 3, bytes: 11, chars: 11 });
    assert_eq!(format_line(&total, "total", &cfg, width), " 1  3 11 total");
}
