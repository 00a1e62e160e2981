//! The `unin.json` project configuration: its fields, when a path is taken for one, and
//! the compile steps it lists.
use vstd::prelude::*;
use crate::text::{chars_of, concat, ends_with_spec, str_ends_with, string_of_range, trim, trim_spec};

verus! {

/// A project's installer configuration.
pub struct Uniconf {
    pub bin_name: String,
    pub lang: String,
    pub compile_instruct: Vec<String>,
    /// Where the binaries are, `.` standing for the project root.
    pub bin_location: Vec<String>,
    pub install_command: Vec<String>,
    pub clean_command: Vec<String>,
    pub license: String,
    pub author: String,
}

/// A configuration path is read when it is a file or its file name, trimmed, ends in
/// `.json`; a path without a file name counts as an empty name.
pub open spec fn config_path_accepted_spec(is_file: bool, file_name: Option<String>) -> bool {
    is_file || ends_with_spec(
        trim_spec(
            match file_name {
                Some(n) => n@,
                None => Seq::empty(),
            },
        ),
        ".json"@,
    )
}

/// Whether a configuration path is read (otherwise the installer exits with status 1).
pub fn config_path_accepted(is_file: bool, file_name: Option<String>) -> (r: bool)
    ensures
        r == config_path_accepted_spec(is_file, file_name),
{
    if is_file {
        return true;
    }
    let name = match file_name {
        Some(n) => n,
        None => String::new(),
    };
    let t = trim(name.as_str());
    str_ends_with(t.as_str(), ".json")
}

/// The index of the first space of `s`.
pub open spec fn first_space(s: Seq<char>, k: int) -> bool {
    0 <= k < s.len() && s[k] == ' ' && forall|j: int| 0 <= j < k ==> s[j] != ' '
}

/// One compile instruction of a configuration: the program and its single argument.
pub struct CompileStep {
    pub program: String,
    pub argument: String,
}

/// The compile step for instruction `instruction`: split at its first space into program
/// and argument. `None` when the instruction has no space.
pub fn compile_step(instruction: &str) -> (r: Option<CompileStep>)
    ensures
        r is None <==> forall|j: int| 0 <= j < instruction@.len() ==> instruction@[j] != ' ',
        r matches Some(st) ==> exists|k: int|
            first_space(instruction@, k) && st.program@ == instruction@.take(k) && st.argument@
                == instruction@.skip(k + 1),
{
    let v = chars_of(instruction);
    let n = v.len();
    let mut k: usize = 0;
    while k < n && v[k] != ' '
        invariant
            n == v@.len(),
            k <= n,
            v@ == instruction@,
            forall|j: int| 0 <= j < k ==> v@[j] != ' ',
        decreases n - k,
    {
        k = k + 1;
    }
    if k == n {
        return None;
    }
    let program = string_of_range(&v, 0, k);
    let argument = string_of_range(&v, k + 1, n);
    assert(v@.subrange(0, k as int) =~= instruction@.take(k as int));
    assert(v@.subrange(k + 1, n as int) =~= instruction@.skip(k + 1));
    assert(first_space(instruction@, k as int));
    Some(CompileStep { program, argument })
}

/// The file in `dir` that a compile step's output goes to: `.<program>-()`. (The name is
/// meant to end in part of a hash of the argument, but the unit value of truncating that
/// hash is what gets formatted.)
pub fn compile_log_file(dir: &str, program: &str) -> (r: String)
    ensures
        r@ == dir@ + "/."@ + program@ + "-()"@,
{
    let a = concat(dir, "/.");
    let b = concat(a.as_str(), program);
    concat(b.as_str(), "-()")
}

/// The configuration written out as a sample.
pub fn sample_uniconf() -> (r: Uniconf)
    ensures
        r.bin_name@ == "test"@,
        r.lang@ == "Rust"@,
        r.compile_instruct.deep_view() == seq!["echo hi"@],
        r.bin_location.deep_view() == seq!["./out"@],
        r.install_command.deep_view() == seq!["echo hi"@],
        r.clean_command.deep_view() == seq!["echo hi"@],
        r.license@ == "MIT"@,
        r.author@ == "notchapplez"@,
{
    let mut compile_instruct: Vec<String> = Vec::new();
    compile_instruct.push(String::from_str("echo hi"));
    let mut bin_location: Vec<String> = Vec::new();
    bin_location.push(String::from_str("./out"));
    let mut install_command: Vec<String> = Vec::new();
    install_command.push(String::from_str("echo hi"));
    let mut clean_command: Vec<String> = Vec::new();
    clean_command.push(String::from_str("echo hi"));
    let r = Uniconf {
        bin_name: String::from_str("test"),
        lang: String::from_str("Rust"),
        compile_instruct,
        bin_location,
        install_command,
        clean_command,
        license: String::from_str("MIT"),
        author: String::from_str("notchapplez"),
    };
    assert(r.compile_instruct.deep_view() =~= seq!["echo hi"@]);
    assert(r.bin_location.deep_view() =~= seq!["./out"@]);
    assert(r.install_command.deep_view() =~= seq!["echo hi"@]);
    assert(r.clean_command.deep_view() =~= seq!["echo hi"@]);
    r
}

/// Any file is read as a configuration; a path that is not a file is read only when its
/// file name, trimmed, ends in `.json`, and never when it has no file name.
pub proof fn lemma_config_paths(name: String)
    ensures
        config_path_accepted_spec(true, Some(name)),
        config_path_accepted_spec(true, None),
        config_path_accepted_spec(false, Some(name)) <==> ends_with_spec(trim_spec(name@), ".json"@),
        !config_path_accepted_spec(false, None),
{
    reveal_strlit(".json");
    assert(trim_spec(Seq::<char>::empty()) =~= Seq::<char>::empty()) by {
        reveal_with_fuel(crate::text::trim_start_spec, 2);
        reveal_with_fuel(crate::text::trim_end_spec, 2);
    }
}

} // verus!
