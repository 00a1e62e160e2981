use unin::detect::{clean_plan, clean_target, detect_build_system, marker_file, BuildSystem};

fn names(items: &[&str]) -> Vec<String> {
    items.iter().map(|s| s.to_string()).collect()
}

#[test]
fn prefers_configure_over_cmake() {
    let entries = names(&["CMakeLists.txt", "configure"]);
    assert_eq!(detect_build_system(&entries), Some(BuildSystem::Autotools));
}

#[test]
fn follows_the_priority_order() {
    assert_eq!(detect_build_system(&names(&["Makefile", "go.mod"])), Some(BuildSystem::Go));
    assert_eq!(detect_build_system(&names(&["Makefile", "build.zig"])), Some(BuildSystem::Zig));
    assert_eq!(detect_build_system(&names(&["Cargo.toml", "meson.build"])), Some(BuildSystem::Meson));
    assert_eq!(detect_build_system(&names(&["cabal.project", "Makefile"])), Some(BuildSystem::Make));
    assert_eq!(detect_build_system(&names(&["README.md", "cabal.project"])), Some(BuildSystem::Cabal));
    assert_eq!(detect_build_system(&names(&["Cargo.toml", "src"])), Some(BuildSystem::Cargo));
}

#[test]
fn nothing_recognized() {
    assert_eq!(detect_build_system(&names(&[])), None);
    assert_eq!(detect_build_system(&names(&["makefile", "CMakeLists.TXT", "gleam.lock"])), None);
}

#[test]
fn markers() {
    assert_eq!(marker_file(BuildSystem::CMake), "CMakeLists.txt");
    assert_eq!(marker_file(BuildSystem::Meson), "meson.build");
}

#[test]
fn cleaners_follow_entries() {
    assert_eq!(clean_target("meson.build"), Some(BuildSystem::Meson));
    assert_eq!(clean_target("build.meson"), None);
    assert_eq!(clean_target("cabal.project"), Some(BuildSystem::Cabal));
    assert_eq!(clean_target("gleam.toml"), Some(BuildSystem::Gleam));
    assert_eq!(clean_target("configure"), None);
    let plan = clean_plan(&names(&["go.mod", "README", "Cargo.toml", "Makefile", "CMakeLists.txt", "build.zig"]));
    assert_eq!(
        plan,
        vec![BuildSystem::Go, BuildSystem::Cargo, BuildSystem::Make, BuildSystem::CMake, BuildSystem::Zig]
    );
}

#[test]
fn gleam_project_is_recognized() {
    assert_eq!(detect_build_system(&names(&["gleam.toml", "src", "README.md"])), Some(BuildSystem::Gleam));
    assert_eq!(detect_build_system(&names(&["gleam.toml", "Makefile"])), Some(BuildSystem::Make));
    assert_eq!(marker_file(BuildSystem::Gleam), "gleam.toml");
}
