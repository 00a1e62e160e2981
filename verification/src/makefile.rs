//! Reading a Makefile to decide how `make install` is run.
use vstd::prelude::*;
use crate::text::{contains_spec, lines_spec, str_contains, text_lines};

verus! {

/// The line names the `/usr/local/` prefix.
pub open spec fn names_prefix(line: Seq<char>) -> bool {
    contains_spec(line, "/usr/local/"@)
}

/// The line declares the phony `install` target.
pub open spec fn declares_install(line: Seq<char>) -> bool {
    contains_spec(line, ".PHONY : install"@)
}

/// Some line names the `/usr/local/` prefix.
pub open spec fn prefix_named(lines: Seq<Seq<char>>) -> bool {
    exists|i: int| 0 <= i < lines.len() && names_prefix(#[trigger] lines[i])
}

/// Some line declares the `install` target before any line names the prefix (reading
/// stops at the first line that names it).
pub open spec fn install_declared(lines: Seq<Seq<char>>) -> bool {
    exists|i: int|
        0 <= i < lines.len() && declares_install(#[trigger] lines[i]) && forall|j: int|
            0 <= j <= i ==> !names_prefix(#[trigger] lines[j])
}

/// What the installer learns from a Makefile.
pub struct MakefileScan {
    /// The Makefile already names the `/usr/local/` prefix.
    pub path_already_defined: bool,
    /// The Makefile declares an `install` target.
    pub has_install_rule: bool,
}

/// Reads the lines of a Makefile, stopping at the first one that names `/usr/local/`.
pub fn scan_makefile(contents: &str) -> (r: MakefileScan)
    ensures
        r.path_already_defined == prefix_named(lines_spec(contents@)),
        r.has_install_rule == install_declared(lines_spec(contents@)),
{
    let lines = text_lines(contents);
    let ghost ls = lines.deep_view();
    let n = lines.len();
    let mut path_already_defined = false;
    let mut has_install_rule = false;
    let mut i: usize = 0;
    while i < n
        invariant
            n == lines@.len(),
            ls == lines.deep_view(),
            ls == lines_spec(contents@),
            i <= n,
            !path_already_defined,
            forall|j: int| 0 <= j < i ==> !names_prefix(#[trigger] ls[j]),
            has_install_rule == exists|j: int| 0 <= j < i && declares_install(#[trigger] ls[j]),
        decreases n - i,
    {
        let line = lines[i].as_str();
        assert(line@ == ls[i as int]);
        if str_contains(line, "/usr/local/") {
            path_already_defined = true;
            assert(names_prefix(ls[i as int]));
            assert(has_install_rule == install_declared(ls)) by {
                if has_install_rule {
                    let j = choose|j: int| 0 <= j < i && declares_install(#[trigger] ls[j]);
                    assert(forall|k: int| 0 <= k <= j ==> !names_prefix(#[trigger] ls[k]));
                }
                if install_declared(ls) {
                    let j = choose|j: int|
                        0 <= j < ls.len() && declares_install(#[trigger] ls[j]) && forall|k: int|
                            0 <= k <= j ==> !names_prefix(#[trigger] ls[k]);
                    assert(j < i);
                }
            }
            return MakefileScan { path_already_defined, has_install_rule };
        } else if str_contains(line, ".PHONY : install") {
            has_install_rule = true;
            assert(declares_install(ls[i as int]));
        } else {
            path_already_defined = false;
            assert(!declares_install(ls[i as int]));
        }
        i = i + 1;
        assert(has_install_rule == exists|j: int| 0 <= j < i && declares_install(#[trigger] ls[j])) by {
            if exists|j: int| 0 <= j < i && declares_install(#[trigger] ls[j]) {
                let j = choose|j: int| 0 <= j < i && declares_install(#[trigger] ls[j]);
                if j < i - 1 {
                    assert(exists|k: int| 0 <= k < i - 1 && declares_install(#[trigger] ls[k]));
                }
            }
        }
    }
    assert(has_install_rule == install_declared(ls)) by {
        if has_install_rule {
            let j = choose|j: int| 0 <= j < n && declares_install(#[trigger] ls[j]);
            assert(forall|k: int| 0 <= k <= j ==> !names_prefix(#[trigger] ls[k]));
        }
    }
    MakefileScan { path_already_defined, has_install_rule }
}

/// The argument given to `make install`: the `/usr/local` prefix, unless the Makefile
/// already names it.
pub fn install_prefix_argument(scan: &MakefileScan) -> (r: String)
    ensures
        r@ == (if scan.path_already_defined {
            Seq::<char>::empty()
        } else {
            "PREFIX=/usr/local"@
        }),
{
    if !scan.path_already_defined {
        String::from_str("PREFIX=/usr/local")
    } else {
        String::new()
    }
}

/// The `make install` step to run for a Makefile, or `None` when it declares no
/// `install` target (the installer then aborts).
pub fn make_install_argument(contents: &str) -> (r: Option<String>)
    ensures
        r is None <==> !install_declared(lines_spec(contents@)),
        r matches Some(a) ==> a@ == (if prefix_named(lines_spec(contents@)) {
            Seq::<char>::empty()
        } else {
            "PREFIX=/usr/local"@
        }),
{
    let scan = scan_makefile(contents);
    if !scan.has_install_rule {
        None
    } else {
        Some(install_prefix_argument(&scan))
    }
}

/// Whether a makefile's text offers an `install:` rule.
pub fn provides_install(contents: &str) -> (r: bool)
    ensures
        r == contains_spec(contents@, "install:"@),
{
    str_contains(contents, "install:")
}

/// `make install` is attempted only for a Makefile with a line holding the literal text
/// `.PHONY : install` before any line naming `/usr/local/`; such a line is also enough. A
/// Makefile none of whose lines holds `.PHONY : install` has no install step.
pub proof fn lemma_install_rule_is_phony_install(lines: Seq<Seq<char>>)
    ensures
        install_declared(lines) <==> exists|i: int|
            0 <= i < lines.len() && contains_spec(#[trigger] lines[i], ".PHONY : install"@) && forall|j: int|
                0 <= j <= i ==> !contains_spec(#[trigger] lines[j], "/usr/local/"@),
        (forall|i: int| 0 <= i < lines.len() ==> !contains_spec(#[trigger] lines[i], ".PHONY : install"@))
            ==> !install_declared(lines),
        prefix_named(lines) <==> exists|i: int| 0 <= i < lines.len() && contains_spec(#[trigger] lines[i], "/usr/local/"@),
{
    if install_declared(lines) {
        let i = choose|i: int|
            0 <= i < lines.len() && declares_install(#[trigger] lines[i]) && forall|j: int|
                0 <= j <= i ==> !names_prefix(#[trigger] lines[j]);
        assert(contains_spec(lines[i], ".PHONY : install"@));
        assert forall|j: int| 0 <= j <= i implies !contains_spec(#[trigger] lines[j], "/usr/local/"@) by {
            assert(!names_prefix(lines[j]));
        }
    }
    if exists|i: int|
        0 <= i < lines.len() && contains_spec(#[trigger] lines[i], ".PHONY : install"@) && forall|j: int|
            0 <= j <= i ==> !contains_spec(#[trigger] lines[j], "/usr/local/"@) {
        let i = choose|i: int|
            0 <= i < lines.len() && contains_spec(#[trigger] lines[i], ".PHONY : install"@) && forall|j: int|
                0 <= j <= i ==> !contains_spec(#[trigger] lines[j], "/usr/local/"@);
        assert(declares_install(lines[i]));
        assert forall|j: int| 0 <= j <= i implies !names_prefix(#[trigger] lines[j]) by {
            assert(!contains_spec(lines[j], "/usr/local/"@));
        }
    }
    if prefix_named(lines) {
        let i = choose|i: int| 0 <= i < lines.len() && names_prefix(#[trigger] lines[i]);
        assert(contains_spec(lines[i], "/usr/local/"@));
    }
    if exists|i: int| 0 <= i < lines.len() && contains_spec(#[trigger] lines[i], "/usr/local/"@) {
        let i = choose|i: int| 0 <= i < lines.len() && contains_spec(#[trigger] lines[i], "/usr/local/"@);
        assert(names_prefix(lines[i]));
    }
    if forall|i: int| 0 <= i < lines.len() ==> !contains_spec(#[trigger] lines[i], ".PHONY : install"@) {
        if install_declared(lines) {
            let i = choose|i: int|
                0 <= i < lines.len() && declares_install(#[trigger] lines[i]) && forall|j: int|
                    0 <= j <= i ==> !names_prefix(#[trigger] lines[j]);
            assert(!contains_spec(lines[i], ".PHONY : install"@));
        }
    }
}

} // verus!
