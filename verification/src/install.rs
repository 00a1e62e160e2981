//! Deciding what an installation run records: which binaries are new, where they go,
//! which package entries they make, and whether the run succeeded.
use vstd::prelude::*;
use crate::text::{after_last, after_last_char, any_equal, concat, lemma_after_last_shape, starts_with_spec};

verus! {

/// The directory that binaries are installed into.
pub open spec fn bin_dir() -> Seq<char> {
    "/usr/local/bin/"@
}

/// The items of `second` that do not occur in `first`, in their order in `second`.
pub open spec fn unique_to(first: Seq<Seq<char>>, second: Seq<Seq<char>>) -> Seq<Seq<char>>
    decreases second.len(),
{
    if second.len() == 0 {
        Seq::empty()
    } else {
        let rest = unique_to(first, second.drop_last());
        if first.contains(second.last()) {
            rest
        } else {
            rest.push(second.last())
        }
    }
}

/// An entry for the package registry: a package name and the paths that belong to it.
pub struct PackageRecord {
    pub name: String,
    pub paths: Vec<String>,
}

impl PackageRecord {
    /// The record as plain values: the name and the paths.
    pub open spec fn view_parts(&self) -> (Seq<char>, Seq<Seq<char>>) {
        (self.name@, self.paths.deep_view())
    }
}

/// The registry entry for a binary copied into the bin directory: named after the last
/// `/`-separated piece of its path, and owning its installed copy.
pub open spec fn installed_record(path: Seq<char>) -> (Seq<char>, Seq<Seq<char>>) {
    (after_last(path, '/'), seq![bin_dir() + after_last(path, '/')])
}

/// The registry entry for a binary left where the build put it.
pub open spec fn in_place_record(path: Seq<char>) -> (Seq<char>, Seq<Seq<char>>) {
    (after_last(path, '/'), seq![path])
}

/// The items of `second` that do not occur in `first`, in their order in `second`;
/// repeated items of `second` stay repeated.
pub fn only_unique(first: &[String], second: &[String]) -> (r: Vec<String>)
    ensures
        r.deep_view() == unique_to(first.deep_view(), second.deep_view()),
{
    let n = second.len();
    let mut r: Vec<String> = Vec::new();
    let mut i: usize = 0;
    while i < n
        invariant
            n == second@.len(),
            i <= n,
            r.deep_view() == unique_to(first.deep_view(), second.deep_view().take(i as int)),
        decreases n - i,
    {
        let ghost sv = second.deep_view();
        assert(sv.take(i + 1).drop_last() =~= sv.take(i as int));
        assert(sv.take(i + 1).last() == second@[i as int]@);
        if !any_equal(first, second[i].as_str()) {
            let ghost before = r.deep_view();
            r.push(second[i].clone());
            assert(r.deep_view() =~= before.push(second@[i as int]@));
        }
        i = i + 1;
    }
    assert(second.deep_view().take(n as int) =~= second.deep_view());
    r
}

/// Where a binary with file name `file_name` is installed.
pub fn install_destination(file_name: &str) -> (r: String)
    ensures
        r@ == bin_dir() + file_name@,
{
    concat("/usr/local/bin/", file_name)
}

/// The last `/`-separated piece of a path (`path.split('/').last()`).
pub fn last_path_segment(path: &str) -> (r: String)
    ensures
        r@ == after_last(path@, '/'),
{
    after_last_char(path, '/')
}

/// The registry entry for a binary that was copied into the bin directory.
pub fn installed_package(binary_path: &str) -> (r: PackageRecord)
    ensures
        r.view_parts() == installed_record(binary_path@),
{
    let name = last_path_segment(binary_path);
    let dest = install_destination(name.as_str());
    let mut paths: Vec<String> = Vec::new();
    paths.push(dest);
    let r = PackageRecord { name, paths };
    assert(r.paths.deep_view() =~= seq![bin_dir() + after_last(binary_path@, '/')]);
    r
}

/// The registry entry for a binary that the build itself installed at `binary_path`.
pub fn in_place_package(binary_path: &str) -> (r: PackageRecord)
    ensures
        r.view_parts() == in_place_record(binary_path@),
{
    let name = last_path_segment(binary_path);
    let mut paths: Vec<String> = Vec::new();
    paths.push(String::from_str(binary_path));
    let r = PackageRecord { name, paths };
    assert(r.paths.deep_view() =~= seq![binary_path@]);
    r
}

/// The failures of an installation run: the paths of the binaries that were not installed.
pub struct InstallErrors(pub Vec<String>);

/// How `format!("{:?}", items)` renders a list of strings.
pub uninterp spec fn debug_rendering(items: Seq<Seq<char>>) -> Seq<char>;

/// The `Debug` rendering of a list of strings, from `format!("{:?}", ..)`. The contract
/// names the rendering and says nothing of its characters.
#[verifier::external_body]
fn debug_list(items: &Vec<String>) -> (r: String)
    ensures
        r@ == debug_rendering(items.deep_view()),
{
    format!("{:?}", items)
}

impl InstallErrors {
    /// The message shown for the failures: `Errors: ` and the list of failed paths.
    pub fn message(&self) -> (r: String)
        ensures
            r@ == "Errors: "@ + debug_rendering(self.0.deep_view()),
    {
        let list = debug_list(&self.0);
        concat("Errors: ", list.as_str())
    }
}

/// The progress of an installation run over a list of binaries.
pub struct InstallRun {
    /// Paths of the binaries whose copy or permission change failed.
    pub failed: Vec<String>,
    /// Registry entries of the binaries that were installed.
    pub installed: Vec<PackageRecord>,
}

impl InstallRun {
    /// A run that has handled no binary yet.
    pub fn new() -> (r: InstallRun)
        ensures
            r.failed@.len() == 0,
            r.installed@.len() == 0,
    {
        InstallRun { failed: Vec::new(), installed: Vec::new() }
    }

    /// Accounts for one binary: it is installed when its copy succeeded and the permission
    /// change could be started; otherwise its path is a failure. Returns whether it was
    /// installed.
    pub fn record_binary(&mut self, binary_path: &str, copy_succeeded: bool, chmod_started: bool) -> (installed: bool)
        ensures
            installed == (copy_succeeded && chmod_started),
            installed ==> final(self).failed.deep_view() == old(self).failed.deep_view()
                && final(self).installed@.len() == old(self).installed@.len() + 1
                && (forall|i: int| 0 <= i < old(self).installed@.len() ==> #[trigger] final(self).installed@[i] == old(self).installed@[i])
                && final(self).installed@.last().view_parts() == installed_record(binary_path@),
            !installed ==> final(self).failed.deep_view() == old(self).failed.deep_view().push(binary_path@)
                && final(self).installed@ == old(self).installed@,
    {
        if copy_succeeded && chmod_started {
            let rec = installed_package(binary_path);
            self.installed.push(rec);
            true
        } else {
            let ghost before = self.failed.deep_view();
            self.failed.push(String::from_str(binary_path));
            assert(self.failed.deep_view() =~= before.push(binary_path@));
            false
        }
    }

    /// The outcome of the run: success when no binary failed, else the failed paths.
    pub fn finish(self) -> (r: Result<Vec<PackageRecord>, InstallErrors>)
        ensures
            r is Ok <==> self.failed@.len() == 0,
            r matches Ok(v) ==> v@ == self.installed@,
            r matches Err(e) ==> e.0.deep_view() == self.failed.deep_view(),
    {
        if self.failed.len() == 0 {
            Ok(self.installed)
        } else {
            Err(InstallErrors(self.failed))
        }
    }
}

/// Every item that `only_unique` keeps comes from the second list and is absent from the
/// first; every item of the second list that is absent from the first is kept.
pub proof fn lemma_unique_to_members(first: Seq<Seq<char>>, second: Seq<Seq<char>>, x: Seq<char>)
    ensures
        unique_to(first, second).contains(x) <==> (second.contains(x) && !first.contains(x)),
    decreases second.len(),
{
    if second.len() > 0 {
        lemma_unique_to_members(first, second.drop_last(), x);
        let rest = unique_to(first, second.drop_last());
        assert(second =~= second.drop_last().push(second.last()));
        if second.drop_last().contains(x) {
            let k = choose|k: int| 0 <= k < second.drop_last().len() && second.drop_last()[k] == x;
            assert(second[k] == x);
        }
        if second.contains(x) && x != second.last() {
            let k = choose|k: int| 0 <= k < second.len() && second[k] == x;
            assert(second.drop_last()[k] == x);
        }
        if !first.contains(second.last()) {
            let u = rest.push(second.last());
            if rest.contains(x) {
                let k = choose|k: int| 0 <= k < rest.len() && rest[k] == x;
                assert(u[k] == x);
            }
            if u.contains(x) && x != second.last() {
                let k = choose|k: int| 0 <= k < u.len() && u[k] == x;
                assert(rest[k] == x);
            }
            assert(u[u.len() - 1] == second.last());
        }
        assert(second[second.len() - 1] == second.last());
    }
}

/// Every binary that an installation run records lives in `/usr/local/bin/`, under the
/// package's own name.
pub proof fn lemma_installed_binaries_in_bin_dir(path: Seq<char>)
    ensures
        installed_record(path).1.len() == 1,
        installed_record(path).1[0] == bin_dir() + installed_record(path).0,
        starts_with_spec(installed_record(path).1[0], bin_dir()),
{
    let p = installed_record(path).1[0];
    assert(p.subrange(0, bin_dir().len() as int) =~= bin_dir());
}

/// Comparing a list with itself leaves nothing unique.
pub proof fn lemma_only_unique_of_itself(items: Seq<Seq<char>>)
    ensures
        unique_to(items, items).len() == 0,
{
    if unique_to(items, items).len() > 0 {
        let x = unique_to(items, items)[0];
        assert(unique_to(items, items).contains(x));
        lemma_unique_to_members(items, items, x);
    }
}

/// The registry entry of a binary copied into `/usr/local/bin` is named by the whole last
/// piece of its path (which holds no `/`, ends the path, and is the whole path or follows a
/// `/` in it), and owns exactly one path: `/usr/local/bin/` followed by that name.
pub proof fn lemma_installed_record_names_last_piece(path: Seq<char>)
    ensures
        ({
            let (name, paths) = installed_record(path);
            &&& !name.contains('/')
            &&& name.len() <= path.len()
            &&& path.subrange(path.len() - name.len(), path.len() as int) == name
            &&& (name.len() == path.len() || path[path.len() - name.len() - 1] == '/')
            &&& paths == seq!["/usr/local/bin/"@ + name]
        }),
{
    lemma_after_last_shape(path, '/');
}

/// The registry entry of a binary left where the build put it is named, like an installed
/// one, by the whole last piece of its path, and owns exactly that path.
pub proof fn lemma_in_place_record_names_last_piece(path: Seq<char>)
    ensures
        ({
            let (name, paths) = in_place_record(path);
            &&& !name.contains('/')
            &&& name.len() <= path.len()
            &&& path.subrange(path.len() - name.len(), path.len() as int) == name
            &&& (name.len() == path.len() || path[path.len() - name.len() - 1] == '/')
            &&& paths == seq![path]
            &&& name == installed_record(path).0
        }),
{
    lemma_after_last_shape(path, '/');
}

} // verus!
