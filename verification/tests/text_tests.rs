use unin::text::{
    after_last_char, join, replace, split_char, split_whitespace, str_contains, str_ends_with,
    str_starts_with, text_lines, to_lowercase, trim, trim_end, trim_start, trim_start_char,
};

#[test]
fn trimming() {
    assert_eq!(trim("  a b \t\n"), "a b");
    assert_eq!(trim_start("\u{3000} x "), "x ");
    assert_eq!(trim_end(" x \u{a0}"), " x");
    assert_eq!(trim("   "), "");
    assert_eq!(trim(&trim("  q  ")), trim("  q  "));
    assert_eq!(trim_start_char("---- Found", '-'), " Found");
}

#[test]
fn searching() {
    assert!(str_contains("make: *** [all] Error 2", "make: ***"));
    assert!(!str_contains("make", "make: ***"));
    assert!(str_contains("abc", ""));
    assert!(str_starts_with("-- Configuring", "--"));
    assert!(!str_starts_with("-", "--"));
    assert!(str_ends_with("unin.json", ".json"));
    assert!(!str_ends_with("json", ".json"));
}

#[test]
fn replacing() {
    assert_eq!(replace("option(FOO \"x\" ON)", "option(", ""), "FOO \"x\" ON)");
    assert_eq!(replace("aaa", "aa", "b"), "ba");
    assert_eq!(replace("abc", "z", "y"), "abc");
}

#[test]
fn splitting() {
    assert_eq!(split_char("a  b", ' '), vec!["a", "", "b"]);
    assert_eq!(split_char("", ' '), vec![""]);
    assert_eq!(split_whitespace("  CC   main.o \t x "), vec!["CC", "main.o", "x"]);
    assert!(split_whitespace("   ").is_empty());
    assert_eq!(join(&vec!["a".to_string(), "b".to_string(), "c".to_string()], " "), "a b c");
    assert_eq!(join(&Vec::new(), " "), "");
}

#[test]
fn last_piece_matches_split() {
    for path in ["/usr/local/bin/tool", "tool", "dir/", "", "/"] {
        let expected = path.split('/').last().unwrap();
        assert_eq!(after_last_char(path, '/'), expected);
    }
}

#[test]
fn lines_like_std() {
    for text in ["a\nb", "a\r\nb\n", "\n\nx", "", "one", "x\r", "a\n\r\n"] {
        let expected: Vec<&str> = text.lines().collect();
        assert_eq!(text_lines(text), expected);
    }
}

#[test]
fn lowercasing() {
    assert_eq!(to_lowercase("CMake ERROR: Foo"), "cmake error: foo");
    assert_eq!(to_lowercase("ÀÉ"), "àé");
    assert_eq!(to_lowercase("\u{130}"), "i\u{307}");
}
