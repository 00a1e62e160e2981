use unin::makefile::{install_prefix_argument, make_install_argument, provides_install, scan_makefile};

#[test]
fn install_rule_without_prefix() {
    let mk = "all:\n\tcc main.c\n.PHONY : install\ninstall:\n\tcp a $(PREFIX)/bin\n";
    let scan = scan_makefile(mk);
    assert!(scan.has_install_rule);
    assert!(!scan.path_already_defined);
    assert_eq!(install_prefix_argument(&scan), "PREFIX=/usr/local");
    assert_eq!(make_install_argument(mk), Some("PREFIX=/usr/local".to_string()));
}

#[test]
fn prefix_already_named() {
    let mk = ".PHONY : install\nPREFIX = /usr/local/\ninstall:\n";
    let scan = scan_makefile(mk);
    assert!(scan.has_install_rule);
    assert!(scan.path_already_defined);
    assert_eq!(make_install_argument(mk), Some(String::new()));
}

#[test]
fn install_rule_after_prefix_is_not_seen() {
    let mk = "PREFIX = /usr/local/\n.PHONY : install\n";
    let scan = scan_makefile(mk);
    assert!(!scan.has_install_rule);
    assert!(scan.path_already_defined);
    assert_eq!(make_install_argument(mk), None);
}

#[test]
fn no_install_rule() {
    assert_eq!(make_install_argument("all:\n\tcc x.c\ninstall:\n"), None);
    assert!(provides_install("all:\ninstall: all\n"));
    assert!(!provides_install("all:\n"));
}
