use unin::buildlog::{gleam_line, make_progress_words, BuildLog, GleamLine, MakeLine};

#[test]
fn cmake_build_lines() {
    let mut log = BuildLog::new();
    assert_eq!(log.take_cmake_build_line("  -- Configuring done  "), Some("Configuring done  ".to_string()));
    assert_eq!(log.take_cmake_build_line("[ 50%] Building C object"), None);
    assert!(!log.has_error);
    assert_eq!(log.take_cmake_build_line("main.c:1: ERROR: boom  "), None);
    assert!(log.has_error);
    assert_eq!(log.text, "Configuring done  \nmain.c:1: ERROR: boom\n");
}

#[test]
fn cmake_install_lines() {
    let mut log = BuildLog::new();
    assert!(!log.take_cmake_install_line("-- Installing: /usr/local/bin/x"));
    assert!(log.take_cmake_install_line("CMake Error at x"));
    assert!(log.has_error);
    assert_eq!(log.text, "-- Installing: /usr/local/bin/x\nCMake Error at x\n");
}

#[test]
fn autotools_lines() {
    let mut log = BuildLog::new();
    assert!(!log.take_configure_line("checking for gcc... gcc"));
    assert!(log.take_configure_line("configure: error: no C compiler"));
    assert_eq!(log.text, "checking for gcc... gcc\nconfigure: error: no C compiler\n");
    let mut log = BuildLog::new();
    assert_eq!(log.take_autotools_make_line("\u{1b}[32mCC\u{1b}[0m main.o"), Some("CC main.o".to_string()));
    assert_eq!(log.take_autotools_make_line("x failed"), None);
    assert_eq!(log.text, "CC main.o\nx failed\n");
    assert!(log.has_error);
    let mut log = BuildLog::new();
    assert!(!log.take_autotools_install_line("install -m 755 x /usr/local/bin"));
    assert!(!log.has_error);
}

#[test]
fn plain_make_lines() {
    let mut log = BuildLog::new();
    assert_eq!(log.take_make_build_line("  CC      main.o"), MakeLine::Progress);
    assert_eq!(log.take_make_build_line("CC x.c: error: bad"), MakeLine::Progress);
    assert_eq!(log.take_make_build_line("make: *** [all] Error 1"), MakeLine::Error);
    assert_eq!(log.take_make_build_line("nothing"), MakeLine::Other);
    assert!(log.has_error);
    assert_eq!(log.text, "  CC      main.o\nCC x.c: error: bad\nmake: *** [all] Error 1\nnothing\n");
    let mut log = BuildLog::new();
    assert!(!log.take_make_install_line("install -c tool /usr/local/bin"));
    assert!(!log.take_make_install_line("cp: Error writing"));
    assert!(log.take_make_install_line("  cp: error writing  "));
    assert_eq!(log.text, "  cp: error writing  \n");
    assert_eq!(
        make_progress_words("\u{1b}[1m  CC  \u{1b}[0m main.o "),
        vec!["CC", "main.o"]
    );
}

#[test]
fn go_and_cabal_lines() {
    let mut log = BuildLog::new();
    assert!(!log.take_go_line("downloading module"));
    assert!(log.has_error);
    assert!(log.take_go_line("build failed"));
    assert_eq!(log.text, "downloading module\nbuild failed\n");
    let mut log = BuildLog::new();
    assert_eq!(log.take_cabal_line("Building library"), MakeLine::Progress);
    assert_eq!(log.take_cabal_line("src/A.hs:3:1: error:"), MakeLine::Error);
    assert_eq!(log.take_cabal_line("Warning"), MakeLine::Other);
    assert!(log.has_error);
}

#[test]
fn gleam_lines() {
    match gleam_line("  Compiling  app ") {
        GleamLine::Progress(words) => assert_eq!(words, vec!["Compiling", "app"]),
        _ => panic!("expected progress"),
    }
    match gleam_line(" error: unknown module ") {
        GleamLine::Problem(t) => assert_eq!(t, "error: unknown module"),
        _ => panic!("expected a problem"),
    }
    assert!(matches!(gleam_line("hello"), GleamLine::Other));
}

#[test]
fn lowercase_error_lines_fail() {
    let mut log = BuildLog::new();
    assert_eq!(log.take_cmake_build_line("-- linking error: undefined"), None);
    assert!(log.has_error);
    let mut log = BuildLog::new();
    assert_eq!(log.take_cmake_build_line("CMA\u{212A}E ERROR at CMakeLists.txt"), None);
    assert!(log.has_error);
    let mut log = BuildLog::new();
    assert_eq!(log.take_cmake_build_line("-- FA\u{130}LED is not a failure"), Some("FA\u{130}LED is not a failure".to_string()));
    assert!(!log.has_error);
}
