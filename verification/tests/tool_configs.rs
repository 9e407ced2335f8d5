//! Flag defaulting for the three utilities, and the line-labelling rules.

#[test]
fn counting_defaults_select_lines_words_bytes() {
    let cfg = textcount::config::get_args(vec!["f".to_string()], false, false, false, false);
    assert!(cfg.lines && cfg.words && cfg.bytes && !cfg.chars);
    assert_eq!(cfg.files, vec!["f".to_string()]);
}

#[test]
fn counting_explicit_flags_are_kept() {
    let cfg = textcount::config::get_args(vec!["f".to_string()], false, false, false, true);
    assert!(!cfg.lines && !cfg.words && !cfg.bytes && cfg.chars);
    let cfg = textcount::config::get_args(vec!["f".to_string()], true, false, false, false);
    assert!(cfg.lines && !cfg.words && !cfg.bytes && !cfg.chars);
}

#[test]
fn counting_defaults_to_anonymous_stdin() {
    let cfg = textcount::config::get_args(Vec::new(), true, false, false, false);
    assert_eq!(cfg.files, vec![String::new()]);
}

#[test]
fn cat_defaults_to_dash() {
    let cfg = textcount::cat::get_args(Vec::new(), false, false);
    assert_eq!(cfg.files, vec!["-".to_string()]);
    assert!(!cfg.number && !cfg.number_nonblank);
    let cfg = textcount::cat::get_args(vec!["x".to_string()], true, false);
    assert_eq!(cfg.files, vec!["x".to_string()]);
    assert!(cfg.number);
}

#[test]
fn head_defaults_to_ten_lines() {
    let cfg = textcount::head::get_args(Vec::new(), None, None);
    assert_eq!(cfg.files, vec!["-".to_string()]);
    assert_eq!(cfg.lines, 10);
    assert_eq!(cfg.bytes, 0);
    let cfg = textcount::head::get_args(vec!["x".to_string()], Some(3), Some(7));
    assert_eq!(cfg.lines, 3);
    assert_eq!(cfg.bytes, 7);
}

#[test]
fn numbering_labels_every_line() {
    let cfg = textcount::cat::get_args(vec!["x".to_string()], true, false);
    let (prefix, counter) = textcount::cat::line_prefix(&cfg, "hello\n", 0);
    assert_eq!(prefix, "     1\t");
    assert_eq!(counter, 1);
    let (prefix, counter) = textcount::cat::line_prefix(&cfg, "\n", counter);
    assert_eq!(prefix, "     2\t");
    assert_eq!(counter, 2);
}

#[test]
fn nonblank_numbering_skips_blank_lines() {
    let cfg = textcount::cat::get_args(vec!["x".to_string()], false, true);
    let (prefix, counter) = textcount::cat::line_prefix(&cfg, "hello\n", 0);
    assert_eq!(prefix, "     1\t");
    assert_eq!(counter, 1);
    let (prefix, counter) = textcount::cat::line_prefix(&cfg, "\n", counter);
    assert_eq!(prefix, "");
    assert_eq!(counter, 1);
    let (prefix, counter) = textcount::cat::line_prefix(&cfg, "\r\n", counter);
    assert_eq!(prefix, "");
    assert_eq!(counter, 1);
    let (prefix, counter) = textcount::cat::line_prefix(&cfg, "world", counter);
    assert_eq!(prefix, "     2\t");
    assert_eq!(counter, 2);
}

#[test]
fn plain_copy_adds_no_prefix() {
    let cfg = textcount::cat::get_args(vec!["x".to_string()], false, false);
    let (prefix, counter) = textcount::cat::line_prefix(&cfg, "hello\n", 5);
    assert_eq!(prefix, "");
    assert_eq!(counter, 5);
}
