use unin::commands::{
    cmake_build_args, decimal, make_job_args, progress_width, relay_action, ReadOutcome, RelayAction,
};
use unin::layout::{
    arguments_file, clone_cache_dir, cmake_build_dir, gleam_install, go_output_dir, zig_bin_dir,
    zig_cache_dir,
};
use unin::paths::{absolutize_path, file_name};
use unin::uniconf::{compile_log_file, compile_step, config_path_accepted, sample_uniconf};

#[test]
fn numbers_and_widths() {
    assert_eq!(decimal(0), "0");
    assert_eq!(decimal(16), "16");
    assert_eq!(decimal(u64::MAX), u64::MAX.to_string());
    assert_eq!(cmake_build_args(8), vec!["--build", ".", "-j", "8"]);
    assert_eq!(make_job_args(12), vec!["-j", "12"]);
    assert_eq!(progress_width(Some(100)), 90);
    assert_eq!(progress_width(Some(10)), 0);
    assert_eq!(progress_width(None), 80);
}

#[test]
fn relay() {
    assert_eq!(relay_action(&ReadOutcome::Data(0)), RelayAction::Stop);
    assert_eq!(relay_action(&ReadOutcome::Data(5)), RelayAction::Forward(5));
    assert_eq!(relay_action(&ReadOutcome::Interrupted), RelayAction::Retry);
    assert_eq!(relay_action(&ReadOutcome::Failed), RelayAction::Stop);
}

#[test]
fn locations() {
    assert_eq!(cmake_build_dir("/p"), "/p/build");
    assert_eq!(arguments_file("/p"), "/p/.unin_arguments");
    assert_eq!(go_output_dir("/p"), "/p/unin_built_temp/");
    assert_eq!(zig_bin_dir("/p"), "/p/zig-out/bin");
    assert_eq!(zig_cache_dir("/p"), "/p/.zig-cache");
    assert_eq!(clone_cache_dir("/home/u"), "/home/u/.cache/unin");
}

#[test]
fn gleam_shipment() {
    let g = gleam_install("./app", "/home/u/app");
    assert_eq!(g.shipment, "./app/build/erlang-shipment");
    assert_eq!(g.destination, "/usr/local/bin/.unin_gleam/app");
    assert_eq!(g.script, "#!/usr/bin/bash\n/usr/local/bin/.unin_gleam/app/entrypoint.sh run");
    assert_eq!(g.script_path, "/usr/local/bin/app");
    assert_eq!(g.package.name, "app");
    assert_eq!(g.package.paths, vec!["/usr/local/bin/.unin_gleam/app", "/usr/local/bin/app"]);
}

#[test]
fn file_names_like_path() {
    for p in ["/a/b", "/a/b/", "a/b/.", "a/..", "/", "", ".", "./x", "x"] {
        let expected = std::path::Path::new(p).file_name().map(|n| n.to_str().unwrap().to_string());
        assert_eq!(file_name(p), expected, "{}", p);
    }
}

#[test]
fn absolute_paths() {
    assert_eq!(absolutize_path("/a/./b/../c".to_string()), Some("/a/c".to_string()));
    assert_eq!(absolutize_path("/".to_string()), Some("/".to_string()));
    assert_eq!(absolutize_path("/x/../..".to_string()), Some("/".to_string()));
}

#[test]
fn relative_paths_become_absolute() {
    let r = absolutize_path("x/./y/..".to_string()).unwrap();
    assert!(r.starts_with('/'));
    assert!(r.ends_with("/x"));
    assert!(!r.contains("/./") && !r.contains("/../"));
    assert_eq!(absolutize_path(r.clone()), Some(r));
}

#[test]
fn configuration() {
    assert!(config_path_accepted(true, Some("anything".to_string())));
    assert!(config_path_accepted(false, Some("unin.json ".to_string())));
    assert!(!config_path_accepted(false, Some("unin.toml".to_string())));
    assert!(!config_path_accepted(false, None));
    let step = compile_step("cargo build --release").unwrap();
    assert_eq!(step.program, "cargo");
    assert_eq!(step.argument, "build --release");
    assert_eq!(compile_log_file("/p", &step.program), "/p/.cargo-()");
    assert!(compile_step("make").is_none());
    let conf = sample_uniconf();
    assert_eq!(conf.bin_name, "test");
    assert_eq!(conf.author, "notchapplez");
    assert_eq!(conf.bin_location, vec!["./out"]);
}
