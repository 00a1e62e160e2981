//! What each builder does once its build has run: stop with an exit code, show what was
//! built, install, or finish. Under `--noinstall` no builder installs anything.
use vstd::prelude::*;
use crate::makefile::{install_declared, make_install_argument, prefix_named, provides_install};
use crate::text::{contains_spec, lines_spec};

verus! {

/// The step that follows a build.
#[derive(PartialEq, Eq, Debug)]
pub enum AfterBuild {
    /// Stop the program with this exit code.
    Exit(i32),
    /// Return normally; nothing more is done.
    Finish,
    /// Show the binaries that were found, then stop with exit code 0.
    ListBinaries,
    /// Run the install step, handing it this argument (empty where the step takes none).
    Install(String),
}

/// After `make`: a failed build stops with code 0; under `--noinstall` the binaries are
/// shown; a Makefile without an `install` target stops with code 2; otherwise `make install`
/// runs with the `/usr/local` prefix unless the Makefile already names it.
pub fn make_after_build(build_failed: bool, noinstall: bool, makefile: &str) -> (r: AfterBuild)
    ensures
        build_failed ==> r == AfterBuild::Exit(0),
        !build_failed && noinstall ==> r == AfterBuild::ListBinaries,
        !build_failed && !noinstall && !install_declared(lines_spec(makefile@)) ==> r
            == AfterBuild::Exit(2),
        !build_failed && !noinstall && install_declared(lines_spec(makefile@)) ==> (r matches AfterBuild::Install(a)
            && a@ == (if prefix_named(lines_spec(makefile@)) {
            Seq::<char>::empty()
        } else {
            "PREFIX=/usr/local"@
        })),
        noinstall ==> !(r is Install),
{
    if build_failed {
        AfterBuild::Exit(0)
    } else if noinstall {
        AfterBuild::ListBinaries
    } else {
        match make_install_argument(makefile) {
            None => AfterBuild::Exit(2),
            Some(prefix) => AfterBuild::Install(prefix),
        }
    }
}

/// After an install step of `make` or of an autotools project: errors stop the program with
/// code 0, otherwise it finishes.
pub fn after_install(install_failed: bool) -> (r: AfterBuild)
    ensures
        install_failed ==> r == AfterBuild::Exit(0),
        !install_failed ==> r == AfterBuild::Finish,
{
    if install_failed {
        AfterBuild::Exit(0)
    } else {
        AfterBuild::Finish
    }
}

/// After `cmake --build` (whether or not it reported errors): under `--noinstall` the
/// program stops with code 0, otherwise `cmake --install` runs.
pub fn cmake_after_build(noinstall: bool) -> (r: AfterBuild)
    ensures
        noinstall ==> r == AfterBuild::Exit(0),
        !noinstall ==> (r matches AfterBuild::Install(a) && a@ == Seq::<char>::empty()),
        noinstall ==> !(r is Install),
{
    if noinstall {
        AfterBuild::Exit(0)
    } else {
        AfterBuild::Install(String::new())
    }
}

/// After `configure` and `make` of an autotools project: under `--noinstall`, or when the
/// Makefile has no `install:` rule, the program stops with code 0; otherwise
/// `make install` runs.
pub fn autotools_after_build(noinstall: bool, makefile: &str) -> (r: AfterBuild)
    ensures
        noinstall ==> r == AfterBuild::Exit(0),
        !noinstall && !contains_spec(makefile@, "install:"@) ==> r == AfterBuild::Exit(0),
        !noinstall && contains_spec(makefile@, "install:"@) ==> (r matches AfterBuild::Install(a)
            && a@ == Seq::<char>::empty()),
        noinstall ==> !(r is Install),
{
    if noinstall {
        AfterBuild::Exit(0)
    } else if !provides_install(makefile) {
        AfterBuild::Exit(0)
    } else {
        AfterBuild::Install(String::new())
    }
}

/// After `go build`: a failed build stops with code 1; under `--noinstall` the binaries are
/// shown; otherwise they are installed.
pub fn go_after_build(build_failed: bool, noinstall: bool) -> (r: AfterBuild)
    ensures
        build_failed ==> r == AfterBuild::Exit(1),
        !build_failed && noinstall ==> r == AfterBuild::ListBinaries,
        !build_failed && !noinstall ==> (r matches AfterBuild::Install(a) && a@
            == Seq::<char>::empty()),
        noinstall ==> !(r is Install),
{
    if build_failed {
        AfterBuild::Exit(1)
    } else if noinstall {
        AfterBuild::ListBinaries
    } else {
        AfterBuild::Install(String::new())
    }
}

/// After `gleam export erlang-shipment`: under `--noinstall` the program finishes,
/// otherwise the shipment is installed.
pub fn gleam_after_build(noinstall: bool) -> (r: AfterBuild)
    ensures
        noinstall ==> r == AfterBuild::Finish,
        !noinstall ==> (r matches AfterBuild::Install(a) && a@ == Seq::<char>::empty()),
        noinstall ==> !(r is Install),
{
    if noinstall {
        AfterBuild::Finish
    } else {
        AfterBuild::Install(String::new())
    }
}

/// After `cabal build`: the program stops with code 0; nothing is installed, with or
/// without `--noinstall`.
pub fn cabal_after_build(noinstall: bool) -> (r: AfterBuild)
    ensures
        r == AfterBuild::Exit(0),
        noinstall ==> !(r is Install),
{
    AfterBuild::Exit(0)
}

/// After `zig build`: under `--noinstall` the program stops with code 0, otherwise the
/// binaries of `zig-out/bin` are installed.
pub fn zig_after_build(noinstall: bool) -> (r: AfterBuild)
    ensures
        noinstall ==> r == AfterBuild::Exit(0),
        !noinstall ==> (r matches AfterBuild::Install(a) && a@ == Seq::<char>::empty()),
        noinstall ==> !(r is Install),
{
    if noinstall {
        AfterBuild::Exit(0)
    } else {
        AfterBuild::Install(String::new())
    }
}

} // verus!
