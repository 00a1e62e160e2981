use unin::display::{cluster_widths_add_up, fit_width, fit_width_checked, truncate_graphemes};

#[test]
fn graphemes_are_counted_whole() {
    assert_eq!(truncate_graphemes("Building CXX object", 8), "Building");
    assert_eq!(truncate_graphemes("e\u{301}tude", 2), "e\u{301}t");
    assert_eq!(truncate_graphemes("abc", 10), "abc");
    assert_eq!(truncate_graphemes("abc", 0), "");
    assert_eq!(truncate_graphemes("", 5), "");
}

#[test]
fn width_counts_columns() {
    assert_eq!(fit_width("abcdef", 3), "abc");
    assert_eq!(fit_width("日本語", 5), "日本");
    assert_eq!(fit_width("abc", 80), "abc");
    assert_eq!(fit_width("abc", 0), "");
}

#[test]
fn ligatures_are_not_cut_by_width() {
    assert!(!cluster_widths_add_up("\u{644}\u{627}"));
    assert_eq!(fit_width_checked("\u{644}\u{627}", 2), None);
    assert_eq!(fit_width_checked("ab \u{644}\u{627}", 2), None);
    assert!(cluster_widths_add_up("abc 日本"));
    assert!(cluster_widths_add_up(""));
    assert_eq!(fit_width_checked("日本語", 5), Some("日本".to_string()));
    assert_eq!(fit_width_checked("abcdef", 3), Some("abc".to_string()));
}
