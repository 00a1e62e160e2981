use unin::install::{
    in_place_package, install_destination, installed_package, last_path_segment, only_unique,
    InstallRun,
};

fn strings(items: &[&str]) -> Vec<String> {
    items.iter().map(|s| s.to_string()).collect()
}

#[test]
fn only_new_items_remain() {
    let before = strings(&["/r/a", "/r/b"]);
    let after = strings(&["/r/a", "/r/c", "/r/b", "/r/c", "/r/d"]);
    assert_eq!(only_unique(&before, &after), strings(&["/r/c", "/r/c", "/r/d"]));
    assert!(only_unique(&after, &after).is_empty());
    assert_eq!(only_unique(&[], &after), after);
}

#[test]
fn destinations_and_records() {
    assert_eq!(install_destination("tool"), "/usr/local/bin/tool");
    assert_eq!(last_path_segment("/w/zig-out/bin/tool"), "tool");
    assert_eq!(last_path_segment("/w/dir/"), "");
    let rec = installed_package("/w/zig-out/bin/tool");
    assert_eq!(rec.name, "tool");
    assert_eq!(rec.paths, vec!["/usr/local/bin/tool"]);
    let rec = in_place_package("/usr/local/bin/app");
    assert_eq!(rec.name, "app");
    assert_eq!(rec.paths, vec!["/usr/local/bin/app"]);
}

#[test]
fn run_succeeds_when_all_binaries_install() {
    let mut run = InstallRun::new();
    assert!(run.record_binary("/b/one", true, true));
    assert!(run.record_binary("/b/two", true, true));
    let records = run.finish().ok().unwrap();
    assert_eq!(records.len(), 2);
    assert_eq!(records[1].paths, vec!["/usr/local/bin/two"]);
}

#[test]
fn run_reports_failed_binaries() {
    let mut run = InstallRun::new();
    assert!(!run.record_binary("/b/one", false, true));
    assert!(run.record_binary("/b/two", true, true));
    assert!(!run.record_binary("/b/three", true, false));
    let errors = run.finish().err().unwrap();
    assert_eq!(errors.0, vec!["/b/one", "/b/three"]);
    assert_eq!(errors.message(), "Errors: [\"/b/one\", \"/b/three\"]");
}
