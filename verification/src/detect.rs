//! Choosing the build system of a project directory from the names of its entries.
use vstd::prelude::*;
use crate::text::{any_equal, str_equal};

verus! {

/// The build systems that the installer knows how to drive.
#[derive(Clone, Copy, Debug, PartialEq, Eq, Structural)]
pub enum BuildSystem {
    /// A `configure` script followed by `make`.
    Autotools,
    CMake,
    Meson,
    Cargo,
    Zig,
    Go,
    Make,
    Cabal,
    Gleam,
}

/// The file whose presence marks a project of build system `b`.
pub open spec fn marker_name(b: BuildSystem) -> Seq<char> {
    match b {
        BuildSystem::Autotools => "configure"@,
        BuildSystem::CMake => "CMakeLists.txt"@,
        BuildSystem::Meson => "meson.build"@,
        BuildSystem::Cargo => "Cargo.toml"@,
        BuildSystem::Zig => "build.zig"@,
        BuildSystem::Go => "go.mod"@,
        BuildSystem::Make => "Makefile"@,
        BuildSystem::Cabal => "cabal.project"@,
        BuildSystem::Gleam => "gleam.toml"@,
    }
}

/// The build systems that detection considers, most preferred first.
pub open spec fn detection_order() -> Seq<BuildSystem> {
    seq![
        BuildSystem::Autotools,
        BuildSystem::CMake,
        BuildSystem::Meson,
        BuildSystem::Cargo,
        BuildSystem::Zig,
        BuildSystem::Go,
        BuildSystem::Make,
        BuildSystem::Cabal,
        BuildSystem::Gleam,
    ]
}

/// The marker of `b` is among `entries`.
pub open spec fn marker_present(entries: Seq<Seq<char>>, b: BuildSystem) -> bool {
    entries.contains(marker_name(b))
}

/// The first build system of `order[i..]` whose marker is among `entries`.
pub open spec fn first_present_from(entries: Seq<Seq<char>>, order: Seq<BuildSystem>, i: int) -> Option<BuildSystem>
    decreases order.len() - i,
{
    if i < 0 || i >= order.len() {
        None
    } else if marker_present(entries, order[i]) {
        Some(order[i])
    } else {
        first_present_from(entries, order, i + 1)
    }
}

/// The build system that a directory with these entries is built with.
pub open spec fn detected(entries: Seq<Seq<char>>) -> Option<BuildSystem> {
    first_present_from(entries, detection_order(), 0)
}

/// The build system whose artefacts a directory entry with this name leads to clean.
pub open spec fn clean_target_spec(name: Seq<char>) -> Option<BuildSystem> {
    if name == "Cargo.toml"@ {
        Some(BuildSystem::Cargo)
    } else if name == "CMakeLists.txt"@ {
        Some(BuildSystem::CMake)
    } else if name == "build.zig"@ {
        Some(BuildSystem::Zig)
    } else if name == "Makefile"@ {
        Some(BuildSystem::Make)
    } else if name == "meson.build"@ {
        Some(BuildSystem::Meson)
    } else if name == "go.mod"@ {
        Some(BuildSystem::Go)
    } else if name == "cabal.project"@ {
        Some(BuildSystem::Cabal)
    } else if name == "gleam.toml"@ {
        Some(BuildSystem::Gleam)
    } else {
        None
    }
}

/// The cleaners to run, in the order of the directory entries that call for them.
pub open spec fn clean_plan_spec(names: Seq<Seq<char>>) -> Seq<BuildSystem>
    decreases names.len(),
{
    if names.len() == 0 {
        Seq::empty()
    } else {
        let rest = clean_plan_spec(names.drop_last());
        match clean_target_spec(names.last()) {
            Some(b) => rest.push(b),
            None => rest,
        }
    }
}

/// The marker file of `b`.
pub fn marker_file(b: BuildSystem) -> (r: &'static str)
    ensures
        r@ == marker_name(b),
{
    match b {
        BuildSystem::Autotools => "configure",
        BuildSystem::CMake => "CMakeLists.txt",
        BuildSystem::Meson => "meson.build",
        BuildSystem::Cargo => "Cargo.toml",
        BuildSystem::Zig => "build.zig",
        BuildSystem::Go => "go.mod",
        BuildSystem::Make => "Makefile",
        BuildSystem::Cabal => "cabal.project",
        BuildSystem::Gleam => "gleam.toml",
    }
}

/// The build system to use for a directory whose entries have these names: the first of
/// configure, CMake, Meson, Cargo, Zig, Go, Make, Cabal and Gleam whose marker file is present.
pub fn detect_build_system(entries: &Vec<String>) -> (r: Option<BuildSystem>)
    ensures
        r == detected(entries.deep_view()),
{
    let order = [
        BuildSystem::Autotools,
        BuildSystem::CMake,
        BuildSystem::Meson,
        BuildSystem::Cargo,
        BuildSystem::Zig,
        BuildSystem::Go,
        BuildSystem::Make,
        BuildSystem::Cabal,
        BuildSystem::Gleam,
    ];
    assert(order@ =~= detection_order());
    let ghost ev = entries.deep_view();
    let mut i: usize = 0;
    while i < 9
        invariant
            i <= 9,
            order@ == detection_order(),
            ev == entries.deep_view(),
            detected(ev) == first_present_from(ev, detection_order(), i as int),
        decreases 9 - i,
    {
        let b = order[i];
        if any_equal(entries.as_slice(), marker_file(b)) {
            return Some(b);
        }
        i = i + 1;
    }
    None
}

/// The cleaner that a directory entry named `name` calls for, if any.
pub fn clean_target(name: &str) -> (r: Option<BuildSystem>)
    ensures
        r == clean_target_spec(name@),
{
    if str_equal(name, "Cargo.toml") {
        Some(BuildSystem::Cargo)
    } else if str_equal(name, "CMakeLists.txt") {
        Some(BuildSystem::CMake)
    } else if str_equal(name, "build.zig") {
        Some(BuildSystem::Zig)
    } else if str_equal(name, "Makefile") {
        Some(BuildSystem::Make)
    } else if str_equal(name, "meson.build") {
        Some(BuildSystem::Meson)
    } else if str_equal(name, "go.mod") {
        Some(BuildSystem::Go)
    } else if str_equal(name, "cabal.project") {
        Some(BuildSystem::Cabal)
    } else if str_equal(name, "gleam.toml") {
        Some(BuildSystem::Gleam)
    } else {
        None
    }
}

/// The cleaners to run for a directory whose entries, in listing order, have these names.
pub fn clean_plan(names: &Vec<String>) -> (r: Vec<BuildSystem>)
    ensures
        r@ == clean_plan_spec(names.deep_view()),
{
    let n = names.len();
    let mut r: Vec<BuildSystem> = Vec::new();
    let mut i: usize = 0;
    while i < n
        invariant
            n == names@.len(),
            i <= n,
            r@ == clean_plan_spec(names.deep_view().take(i as int)),
        decreases n - i,
    {
        let ghost nv = names.deep_view();
        assert(nv.take(i + 1).drop_last() =~= nv.take(i as int));
        match clean_target(names[i].as_str()) {
            Some(b) => r.push(b),
            None => {},
        }
        i = i + 1;
    }
    assert(names.deep_view().take(n as int) =~= names.deep_view());
    r
}

/// Detection picks a build system whose marker is present, and no marker of a more
/// preferred build system is present.
pub proof fn lemma_detection_prefers_earlier(entries: Seq<Seq<char>>, i: int)
    requires
        0 <= i < detection_order().len(),
        detected(entries) == Some(detection_order()[i]),
    ensures
        marker_present(entries, detection_order()[i]),
        forall|j: int| 0 <= j < i ==> !marker_present(entries, #[trigger] detection_order()[j]),
{
    lemma_first_present_from(entries, detection_order(), 0);
    let m = choose|m: int|
        0 <= m < detection_order().len() && detection_order()[m] == detection_order()[i]
            && marker_present(entries, detection_order()[m]) && forall|j: int|
            0 <= j < m ==> !marker_present(entries, #[trigger] detection_order()[j]);
    assert(m == i);
}

/// What `first_present_from` returns: the first entry of `order[k..]` whose marker is
/// present, or nothing when none is.
pub proof fn lemma_first_present_from(entries: Seq<Seq<char>>, order: Seq<BuildSystem>, k: int)
    requires
        0 <= k,
    ensures
        match first_present_from(entries, order, k) {
            Some(b) => exists|m: int|
                k <= m < order.len() && order[m] == b && marker_present(entries, order[m])
                    && forall|j: int| k <= j < m ==> !marker_present(entries, #[trigger] order[j]),
            None => forall|j: int| k <= j < order.len() ==> !marker_present(entries, #[trigger] order[j]),
        },
    decreases order.len() - k,
{
    if k < order.len() {
        lemma_first_present_from(entries, order, k + 1);
        if !marker_present(entries, order[k]) {
            match first_present_from(entries, order, k + 1) {
                Some(b) => {
                    let m = choose|m: int|
                        k + 1 <= m < order.len() && order[m] == b && marker_present(entries, order[m])
                            && forall|j: int| k + 1 <= j < m ==> !marker_present(entries, #[trigger] order[j]);
                    assert forall|j: int| k <= j < m implies !marker_present(entries, #[trigger] order[j]) by {
                        if j == k {} else {}
                    }
                },
                None => {
                    assert forall|j: int| k <= j < order.len() implies !marker_present(entries, #[trigger] order[j]) by {
                        if j == k {} else {}
                    }
                },
            }
        } else {
            assert(forall|j: int| k <= j < k ==> !marker_present(entries, #[trigger] order[j]));
        }
    }
}

/// No two build systems share a marker: each is told apart by the length or the first
/// character of its marker.
proof fn lemma_markers_distinct(b: BuildSystem, c: BuildSystem)
    ensures
        b != c ==> marker_name(b) != marker_name(c),
{
    reveal_strlit("configure");
    reveal_strlit("CMakeLists.txt");
    reveal_strlit("meson.build");
    reveal_strlit("Cargo.toml");
    reveal_strlit("build.zig");
    reveal_strlit("go.mod");
    reveal_strlit("Makefile");
    reveal_strlit("cabal.project");
    reveal_strlit("gleam.toml");
    if b != c {
        assert(marker_name(b).len() != marker_name(c).len() || marker_name(b)[0] != marker_name(c)[0]);
    }
}

/// A directory whose only entry is the marker of `b` is built with `b`: every build system
/// the installer knows can be reached.
pub proof fn lemma_lone_marker_detected(b: BuildSystem)
    ensures
        detected(seq![marker_name(b)]) == Some(b),
{
    reveal_strlit("configure");
    reveal_strlit("CMakeLists.txt");
    reveal_strlit("meson.build");
    reveal_strlit("Cargo.toml");
    reveal_strlit("build.zig");
    reveal_strlit("go.mod");
    reveal_strlit("Makefile");
    reveal_strlit("cabal.project");
    reveal_strlit("gleam.toml");
    reveal_with_fuel(first_present_from, 10);
    let entries = seq![marker_name(b)];
    assert forall|c: BuildSystem| #[trigger] marker_present(entries, c) <==> c == b by {
        if c != b {
            lemma_markers_distinct(b, c);
            if entries.contains(marker_name(c)) {
                let j = choose|j: int| 0 <= j < entries.len() && entries[j] == marker_name(c);
                assert(j == 0);
            }
        } else {
            assert(entries[0] == marker_name(b));
        }
    }
}

/// `--clean` runs the cleaner of every build system whose marker it finds, except a
/// `configure` script, which has none: the marker of `b` leads to the cleaner of `b`.
pub proof fn lemma_marker_leads_to_own_cleaner(b: BuildSystem)
    ensures
        b != BuildSystem::Autotools ==> clean_target_spec(marker_name(b)) == Some(b),
        b == BuildSystem::Autotools ==> clean_target_spec(marker_name(b)) is None,
{
    lemma_markers_distinct(b, BuildSystem::Autotools);
    lemma_markers_distinct(b, BuildSystem::CMake);
    lemma_markers_distinct(b, BuildSystem::Meson);
    lemma_markers_distinct(b, BuildSystem::Cargo);
    lemma_markers_distinct(b, BuildSystem::Zig);
    lemma_markers_distinct(b, BuildSystem::Go);
    lemma_markers_distinct(b, BuildSystem::Make);
    lemma_markers_distinct(b, BuildSystem::Cabal);
    lemma_markers_distinct(b, BuildSystem::Gleam);
}

/// Detection follows the fixed priority `configure`, `CMakeLists.txt`, `meson.build`,
/// `Cargo.toml`, `build.zig`, `go.mod`, `Makefile`, `cabal.project`, `gleam.toml`: the
/// build system of the first of these names present among the entries is chosen, and
/// nothing is chosen when none is present. So of two present markers, the earlier one in
/// this list wins.
pub proof fn lemma_detection_follows_priority(entries: Seq<Seq<char>>)
    ensures
        ({
            let names = seq![
                "configure"@,
                "CMakeLists.txt"@,
                "meson.build"@,
                "Cargo.toml"@,
                "build.zig"@,
                "go.mod"@,
                "Makefile"@,
                "cabal.project"@,
                "gleam.toml"@,
            ];
            let systems = seq![
                BuildSystem::Autotools,
                BuildSystem::CMake,
                BuildSystem::Meson,
                BuildSystem::Cargo,
                BuildSystem::Zig,
                BuildSystem::Go,
                BuildSystem::Make,
                BuildSystem::Cabal,
                BuildSystem::Gleam,
            ];
            &&& forall|i: int|
                0 <= i < 9 && entries.contains(#[trigger] names[i]) && (forall|j: int|
                    0 <= j < i ==> !entries.contains(#[trigger] names[j])) ==> detected(entries)
                    == Some(systems[i])
            &&& (forall|i: int| 0 <= i < 9 ==> !entries.contains(#[trigger] names[i])) ==> detected(
                entries,
            ) is None
        }),
{
    let names = seq![
        "configure"@,
        "CMakeLists.txt"@,
        "meson.build"@,
        "Cargo.toml"@,
        "build.zig"@,
        "go.mod"@,
        "Makefile"@,
        "cabal.project"@,
        "gleam.toml"@,
    ];
    let systems = seq![
        BuildSystem::Autotools,
        BuildSystem::CMake,
        BuildSystem::Meson,
        BuildSystem::Cargo,
        BuildSystem::Zig,
        BuildSystem::Go,
        BuildSystem::Make,
        BuildSystem::Cabal,
        BuildSystem::Gleam,
    ];
    let order = detection_order();
    assert(order.len() == 9);
    assert forall|k: int| 0 <= k < 9 implies order[k] == systems[k] && #[trigger] marker_name(order[k]) == names[k] by {
    }
    lemma_first_present_from(entries, order, 0);
    match detected(entries) {
        Some(b) => {
            let m = choose|m: int|
                0 <= m < order.len() && order[m] == b && marker_present(entries, order[m])
                    && forall|j: int| 0 <= j < m ==> !marker_present(entries, #[trigger] order[j]);
            assert(marker_name(order[m]) == names[m]);
            assert forall|i: int|
                0 <= i < 9 && entries.contains(#[trigger] names[i]) && (forall|j: int|
                    0 <= j < i ==> !entries.contains(#[trigger] names[j])) implies b == systems[i] by {
                if i < m {
                    assert(marker_name(order[i]) == names[i]);
                    assert(!marker_present(entries, order[i]));
                } else if i > m {
                    assert(!entries.contains(names[m]));
                }
            }
            assert(!(forall|i: int| 0 <= i < 9 ==> !entries.contains(#[trigger] names[i]))) by {
                assert(entries.contains(names[m]));
            }
        },
        None => {
            assert forall|i: int| 0 <= i < 9 implies !entries.contains(#[trigger] names[i]) by {
                assert(marker_name(order[i]) == names[i]);
                assert(!marker_present(entries, order[i]));
            }
        },
    }
}

/// `--clean` runs a cleaner for exactly these entry names: `Cargo.toml` (Cargo),
/// `CMakeLists.txt` (CMake), `build.zig` (Zig), `Makefile` (Make), `meson.build` (Meson),
/// `go.mod` (Go), `cabal.project` (Cabal) and `gleam.toml` (Gleam); any other name, such as
/// `configure`, calls for none.
pub proof fn lemma_cleaner_names(name: Seq<char>)
    ensures
        name == "Cargo.toml"@ ==> clean_target_spec(name) == Some(BuildSystem::Cargo),
        name == "CMakeLists.txt"@ ==> clean_target_spec(name) == Some(BuildSystem::CMake),
        name == "build.zig"@ ==> clean_target_spec(name) == Some(BuildSystem::Zig),
        name == "Makefile"@ ==> clean_target_spec(name) == Some(BuildSystem::Make),
        name == "meson.build"@ ==> clean_target_spec(name) == Some(BuildSystem::Meson),
        name == "go.mod"@ ==> clean_target_spec(name) == Some(BuildSystem::Go),
        name == "cabal.project"@ ==> clean_target_spec(name) == Some(BuildSystem::Cabal),
        name == "gleam.toml"@ ==> clean_target_spec(name) == Some(BuildSystem::Gleam),
        name != "Cargo.toml"@ && name != "CMakeLists.txt"@ && name != "build.zig"@ && name != "Makefile"@
            && name != "meson.build"@ && name != "go.mod"@ && name != "cabal.project"@ && name
            != "gleam.toml"@ ==> clean_target_spec(name) is None,
{
    reveal_strlit("CMakeLists.txt");
    reveal_strlit("meson.build");
    reveal_strlit("Cargo.toml");
    reveal_strlit("build.zig");
    reveal_strlit("go.mod");
    reveal_strlit("Makefile");
    reveal_strlit("cabal.project");
    reveal_strlit("gleam.toml");
    assert forall|b: BuildSystem, c: BuildSystem| b != c implies #[trigger] marker_name(b) != #[trigger] marker_name(c) by {
        lemma_markers_distinct(b, c);
    }
    assert(marker_name(BuildSystem::Cargo) == "Cargo.toml"@);
    assert(marker_name(BuildSystem::CMake) == "CMakeLists.txt"@);
    assert(marker_name(BuildSystem::Zig) == "build.zig"@);
    assert(marker_name(BuildSystem::Make) == "Makefile"@);
    assert(marker_name(BuildSystem::Meson) == "meson.build"@);
    assert(marker_name(BuildSystem::Go) == "go.mod"@);
    assert(marker_name(BuildSystem::Cabal) == "cabal.project"@);
    assert(marker_name(BuildSystem::Gleam) == "gleam.toml"@);
}

} // verus!
