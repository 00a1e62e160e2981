use unin::steps::{
    after_install, autotools_after_build, cabal_after_build, cmake_after_build, gleam_after_build,
    go_after_build, make_after_build, zig_after_build, AfterBuild,
};

const WITH_INSTALL: &str = "all:\n\tcc main.c\n.PHONY : install\ninstall:\n\tcp a $(PREFIX)/bin\n";
const WITH_PREFIX: &str = ".PHONY : install\nPREFIX = /usr/local/\n";
const WITHOUT_INSTALL: &str = "all:\n\tcc main.c\n";

#[test]
fn make_failed_build_stops_quietly() {
    assert_eq!(make_after_build(true, false, WITH_INSTALL), AfterBuild::Exit(0));
    assert_eq!(make_after_build(true, true, WITH_INSTALL), AfterBuild::Exit(0));
}

#[test]
fn make_noinstall_lists_binaries() {
    assert_eq!(make_after_build(false, true, WITH_INSTALL), AfterBuild::ListBinaries);
    assert_eq!(make_after_build(false, true, ""), AfterBuild::ListBinaries);
}

#[test]
fn make_without_install_rule_stops_with_two() {
    assert_eq!(make_after_build(false, false, WITHOUT_INSTALL), AfterBuild::Exit(2));
}

#[test]
fn make_install_prefix() {
    assert_eq!(
        make_after_build(false, false, WITH_INSTALL),
        AfterBuild::Install("PREFIX=/usr/local".to_string())
    );
    assert_eq!(make_after_build(false, false, WITH_PREFIX), AfterBuild::Install(String::new()));
}

#[test]
fn install_errors_stop_quietly() {
    assert_eq!(after_install(true), AfterBuild::Exit(0));
    assert_eq!(after_install(false), AfterBuild::Finish);
}

#[test]
fn cmake_steps() {
    assert_eq!(cmake_after_build(true), AfterBuild::Exit(0));
    assert_eq!(cmake_after_build(false), AfterBuild::Install(String::new()));
}

#[test]
fn autotools_steps() {
    assert_eq!(autotools_after_build(true, WITH_INSTALL), AfterBuild::Exit(0));
    assert_eq!(autotools_after_build(false, WITHOUT_INSTALL), AfterBuild::Exit(0));
    assert_eq!(autotools_after_build(false, WITH_INSTALL), AfterBuild::Install(String::new()));
}

#[test]
fn go_steps() {
    assert_eq!(go_after_build(true, false), AfterBuild::Exit(1));
    assert_eq!(go_after_build(true, true), AfterBuild::Exit(1));
    assert_eq!(go_after_build(false, true), AfterBuild::ListBinaries);
    assert_eq!(go_after_build(false, false), AfterBuild::Install(String::new()));
}

#[test]
fn gleam_cabal_zig_steps() {
    assert_eq!(gleam_after_build(true), AfterBuild::Finish);
    assert_eq!(gleam_after_build(false), AfterBuild::Install(String::new()));
    assert_eq!(cabal_after_build(true), AfterBuild::Exit(0));
    assert_eq!(cabal_after_build(false), AfterBuild::Exit(0));
    assert_eq!(zig_after_build(true), AfterBuild::Exit(0));
    assert_eq!(zig_after_build(false), AfterBuild::Install(String::new()));
}

#[test]
fn noinstall_never_installs() {
    for text in [WITH_INSTALL, WITH_PREFIX, WITHOUT_INSTALL, ""] {
        for failed in [false, true] {
            assert!(!matches!(make_after_build(failed, true, text), AfterBuild::Install(_)));
            assert!(!matches!(go_after_build(failed, true), AfterBuild::Install(_)));
        }
        assert!(!matches!(autotools_after_build(true, text), AfterBuild::Install(_)));
    }
    assert!(!matches!(cmake_after_build(true), AfterBuild::Install(_)));
    assert!(!matches!(gleam_after_build(true), AfterBuild::Install(_)));
    assert!(!matches!(cabal_after_build(true), AfterBuild::Install(_)));
    assert!(!matches!(zig_after_build(true), AfterBuild::Install(_)));
}
