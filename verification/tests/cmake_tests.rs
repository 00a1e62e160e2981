use unin::cmake::{
    argument_plan, cached_arguments_display, configure_command_args, full_arguments, option_summary,
    option_summary_from,
};

#[test]
fn option_parts_keep_quoted_strings_whole() {
    assert_eq!(
        option_summary("option(BUILD_TESTS \"Build the tests\" ON)"),
        Some("BUILD_TESTS \"Build the tests\" ON".to_string())
    );
    assert_eq!(option_summary("option(  a\"b c\"  )"), Some("a\"b c\"".to_string()));
    assert_eq!(option_summary("option(\"open quote here)"), Some("\"open quote here".to_string()));
    assert_eq!(option_summary("option( \t )"), Some(String::new()));
    assert_eq!(option_summary("  option(X\t\"a  b\"   OFF) # note"), Some("X \"a  b\" OFF # note".to_string()));
}

#[test]
fn summary_joins_parts() {
    let parts = vec!["A".to_string(), "\"b  c\"".to_string(), "ON".to_string()];
    assert_eq!(option_summary_from(&parts), "A \"b  c\" ON");
    assert_eq!(option_summary_from(&Vec::new()), "");
}

#[test]
fn option_lines() {
    assert_eq!(
        option_summary("option(USE_SSL \"Use   SSL\" OFF)"),
        Some("USE_SSL \"Use   SSL\" OFF".to_string())
    );
    assert_eq!(option_summary("set(X 1)"), None);
}

#[test]
fn remembered_arguments() {
    let full = full_arguments("-DFOO=ON");
    assert_eq!(full, "-DFOO=ON -DCMAKE_INSTALL_PREFIX=/usr/local -Wno-dev");
    assert_eq!(cached_arguments_display(&full), "-DFOO=ON");
    assert_eq!(cached_arguments_display(&full_arguments("  -DA=1 ")), "-DA=1");
}

#[test]
fn plans() {
    let p = argument_plan(Some("-DA=1 -Wno-dev".to_string()), true, "");
    assert_eq!(p.configure_args, vec!["-DA=1", "-Wno-dev"]);
    assert!(p.remember.is_none());
    let p = argument_plan(Some("old".to_string()), false, "-DB=2");
    assert_eq!(p.configure_args, vec!["-DB=2"]);
    assert_eq!(p.remember, Some("-DB=2 -DCMAKE_INSTALL_PREFIX=/usr/local -Wno-dev".to_string()));
    let p = argument_plan(None, false, "  ");
    assert_eq!(p.configure_args, vec!["", "-DCMAKE_INSTALL_PREFIX=/usr/local", "-Wno-dev"]);
    assert_eq!(configure_command_args(&vec!["-DX=1".to_string()]), vec!["..", "-Wno-dev", "-DX=1"]);
}
