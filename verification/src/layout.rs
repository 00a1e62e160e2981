//! Where the installer reads and writes: the directories and files of each build system,
//! the cache for cloned repositories, and the files of an installed Gleam shipment.
use vstd::prelude::*;
use smallvec::SmallVec;
use crate::install::PackageRecord;
use crate::text::{after_last, after_last_char, concat};

verus! {

/// A small vector of up to two inline paths (`SmallVec<[String; 2]>`), held opaquely.
#[verifier::external_body]
pub struct PathPair {
    items: SmallVec<[String; 2]>,
}

/// The items of a [`PathPair`].
pub uninterp spec fn path_pair_items(v: PathPair) -> Seq<Seq<char>>;

/// `SmallVec::new`: an empty vector.
#[verifier::external_body]
fn path_pair_new() -> (v: PathPair)
    ensures
        path_pair_items(v) == Seq::<Seq<char>>::empty(),
{
    PathPair { items: SmallVec::new() }
}

/// `SmallVec::push`: appends `item` at the end.
#[verifier::external_body]
fn path_pair_push(v: &mut PathPair, item: String)
    ensures
        path_pair_items(*final(v)) == path_pair_items(*old(v)).push(item@),
{
    v.items.push(item)
}

/// `SmallVec::to_vec`: the items, cloned, in order.
#[verifier::external_body]
fn path_pair_to_vec(v: &PathPair) -> (r: Vec<String>)
    ensures
        r.deep_view() == path_pair_items(*v),
{
    v.items.to_vec()
}

/// The directory that CMake builds in.
pub fn cmake_build_dir(dir: &str) -> (r: String)
    ensures
        r@ == dir@ + "/build"@,
{
    concat(dir, "/build")
}

/// The project's `CMakeLists.txt`.
pub fn cmake_lists_path(dir: &str) -> (r: String)
    ensures
        r@ == dir@ + "/CMakeLists.txt"@,
{
    concat(dir, "/CMakeLists.txt")
}

/// The file that remembers the arguments of the last CMake configure run.
pub fn arguments_file(dir: &str) -> (r: String)
    ensures
        r@ == dir@ + "/.unin_arguments"@,
{
    concat(dir, "/.unin_arguments")
}

/// The project's `configure` script.
pub fn configure_script(dir: &str) -> (r: String)
    ensures
        r@ == dir@ + "/configure"@,
{
    concat(dir, "/configure")
}

/// The project's `Makefile`.
pub fn makefile_path(dir: &str) -> (r: String)
    ensures
        r@ == dir@ + "/Makefile"@,
{
    concat(dir, "/Makefile")
}

/// The directory that `go build` writes its binaries to.
pub fn go_output_dir(dir: &str) -> (r: String)
    ensures
        r@ == dir@ + "/unin_built_temp/"@,
{
    concat(dir, "/unin_built_temp/")
}

/// The directory holding the binaries of a Zig build.
pub fn zig_bin_dir(dir: &str) -> (r: String)
    ensures
        r@ == dir@ + "/zig-out/bin"@,
{
    concat(dir, "/zig-out/bin")
}

/// The cache directory of a Zig build.
pub fn zig_cache_dir(dir: &str) -> (r: String)
    ensures
        r@ == dir@ + "/.zig-cache"@,
{
    concat(dir, "/.zig-cache")
}

/// The directory that repositories are cloned into, under a home directory.
pub fn clone_cache_dir(home: &str) -> (r: String)
    ensures
        r@ == home@ + "/.cache/unin"@,
{
    concat(home, "/.cache/unin")
}

/// The files of a Gleam project installed from its Erlang shipment.
pub struct GleamInstall {
    /// The shipment that the build exports.
    pub shipment: String,
    /// Where the shipment is copied.
    pub destination: String,
    /// The script that runs the shipment.
    pub script: String,
    /// Where the script is written.
    pub script_path: String,
    /// The registry entry for the package.
    pub package: PackageRecord,
}

/// How a Gleam project at `dir`, whose canonical path is `canonical`, is installed: the
/// package is named after the last piece of the canonical path; its shipment is copied
/// under `/usr/local/bin/.unin_gleam/`, and a script of that name in `/usr/local/bin/` runs
/// its entry point. The package owns the copied shipment and the script.
pub fn gleam_install(dir: &str, canonical: &str) -> (r: GleamInstall)
    ensures
        r.shipment@ == dir@ + "/build/erlang-shipment"@,
        r.destination@ == "/usr/local/bin/.unin_gleam/"@ + after_last(canonical@, '/'),
        r.script@ == "#!/usr/bin/bash\n/usr/local/bin/.unin_gleam/"@ + after_last(canonical@, '/')
            + "/entrypoint.sh run"@,
        r.script_path@ == "/usr/local/bin/"@ + after_last(canonical@, '/'),
        r.package.name@ == after_last(canonical@, '/'),
        r.package.paths.deep_view() == seq![r.destination@, r.script_path@],
{
    let name = after_last_char(canonical, '/');
    let shipment = concat(dir, "/build/erlang-shipment");
    let destination = concat("/usr/local/bin/.unin_gleam/", name.as_str());
    let head = concat("#!/usr/bin/bash\n/usr/local/bin/.unin_gleam/", name.as_str());
    let script = concat(head.as_str(), "/entrypoint.sh run");
    let script_path = concat("/usr/local/bin/", name.as_str());
    let mut all = path_pair_new();
    path_pair_push(&mut all, destination.clone());
    path_pair_push(&mut all, script_path.clone());
    let paths = path_pair_to_vec(&all);
    assert(paths.deep_view() =~= seq![destination@, script_path@]);
    GleamInstall {
        shipment,
        destination,
        script,
        script_path,
        package: PackageRecord { name, paths },
    }
}

} // verus!
