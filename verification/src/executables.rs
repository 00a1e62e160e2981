//! Telling installable executables apart from the other files of a build directory.
use vstd::prelude::*;
use crate::text::{
    after_last, after_last_char, chars_of, contains_spec, lemma_after_last_concat, occurs_at, str_contains,
    str_equal,
};

verus! {

/// What the installer knows of one directory entry when it looks for executables.
pub struct FileFacts {
    /// The entry's full path.
    pub path: String,
    /// The entry's file name (its last path component).
    pub name: String,
    /// The entry is a directory.
    pub is_dir: bool,
    /// The entry starts with the ELF magic number.
    pub is_elf: bool,
    /// The entry's permission bits.
    pub mode: u32,
}

/// The file name has a `.` somewhere after its first character.
pub open spec fn has_inner_dot(name: Seq<char>) -> bool {
    exists|k: int| 0 < k < name.len() && name[k] == '.'
}

/// The extension of a file name, as `Path::extension` gives it: the text after the last
/// `.`, unless that `.` is the first character or the name is `..`.
pub open spec fn extension_spec(name: Seq<char>) -> Option<Seq<char>> {
    if name == seq!['.', '.'] || !has_inner_dot(name) {
        None
    } else {
        Some(after_last(name, '.'))
    }
}

/// The extensions of files that are never installed.
pub open spec fn blacklisted(ext: Seq<char>) -> bool {
    ||| ext == "so"@
    ||| ext == "d"@
    ||| ext == "rlib"@
    ||| ext == "lock"@
    ||| ext == "txt"@
    ||| ext == "fingerprint"@
}

/// The name alone rules the file out: a blacklisted extension, a `.so` anywhere in the
/// name, or a hidden file.
pub open spec fn name_rejected(name: Seq<char>) -> bool {
    ||| (extension_spec(name) matches Some(e) && blacklisted(e))
    ||| contains_spec(name, ".so"@)
    ||| (name.len() > 0 && name[0] == '.')
}

/// Some execute permission bit is set.
pub open spec fn executable_mode(mode: u32) -> bool {
    mode & 0o111u32 != 0
}

/// The entry is installed: a file, not ruled out by its name, an ELF image, and executable.
pub open spec fn installable(is_dir: bool, name: Seq<char>, is_elf: bool, mode: u32) -> bool {
    &&& !is_dir
    &&& !name_rejected(name)
    &&& is_elf
    &&& executable_mode(mode)
}

/// The paths of the installable entries among `files`, in their order.
pub open spec fn installable_paths(files: Seq<FileFacts>) -> Seq<Seq<char>>
    decreases files.len(),
{
    if files.len() == 0 {
        Seq::empty()
    } else {
        let f = files.last();
        let rest = installable_paths(files.drop_last());
        if installable(f.is_dir, f.name@, f.is_elf, f.mode) {
            rest.push(f.path@)
        } else {
            rest
        }
    }
}

/// The ELF magic number: `0x7f` followed by `E`, `L`, `F`.
pub open spec fn elf_magic() -> Seq<u8> {
    seq![0x7fu8, 0x45u8, 0x4cu8, 0x46u8]
}

/// `Path::extension` of a file name.
pub fn extension(name: &str) -> (r: Option<String>)
    ensures
        r matches Some(e) ==> extension_spec(name@) == Some(e@),
        r is None ==> extension_spec(name@) is None,
{
    let v = chars_of(name);
    if v.len() == 2 && v[0] == '.' && v[1] == '.' {
        assert(v@ =~= seq!['.', '.']);
        return None;
    }
    let mut k: usize = 1;
    let mut found = false;
    while k < v.len()
        invariant
            1 <= k <= v@.len() || (v@.len() == 0 && k == 1),
            v@ == name@,
            found == exists|j: int| 0 < j < k && v@[j] == '.',
        decreases v@.len() - k,
    {
        if v[k] == '.' {
            found = true;
        }
        k = k + 1;
    }
    if !found {
        return None;
    }
    Some(after_last_char(name, '.'))
}

/// Whether a file named `name` is ruled out by its name alone.
pub fn rejected_by_name(name: &str) -> (r: bool)
    ensures
        r == name_rejected(name@),
{
    let bad_ext = match extension(name) {
        Some(e) => {
            let e = e.as_str();
            str_equal(e, "so") || str_equal(e, "d") || str_equal(e, "rlib") || str_equal(e, "lock")
                || str_equal(e, "txt") || str_equal(e, "fingerprint")
        },
        None => false,
    };
    let v = chars_of(name);
    bad_ext || str_contains(name, ".so") || (v.len() > 0 && v[0] == '.')
}

/// Whether some execute permission bit of `mode` is set.
pub fn has_exec_bit(mode: u32) -> (r: bool)
    ensures
        r == executable_mode(mode),
{
    mode & 0o111u32 != 0
}

/// Whether the entry described by `f` is an executable to install.
pub fn is_installable(f: &FileFacts) -> (r: bool)
    ensures
        r == installable(f.is_dir, f.name@, f.is_elf, f.mode),
{
    if f.is_dir {
        return false;
    }
    if rejected_by_name(f.name.as_str()) {
        return false;
    }
    f.is_elf && has_exec_bit(f.mode)
}

/// The paths of the installable executables among `files`, in their order.
pub fn find_executable_files(files: Vec<FileFacts>) -> (r: Vec<String>)
    ensures
        r.deep_view() == installable_paths(files@),
{
    let n = files.len();
    let mut r: Vec<String> = Vec::new();
    let mut i: usize = 0;
    while i < n
        invariant
            n == files@.len(),
            i <= n,
            r.deep_view() == installable_paths(files@.take(i as int)),
        decreases n - i,
    {
        assert(files@.take(i + 1).drop_last() =~= files@.take(i as int));
        let f = &files[i];
        if is_installable(f) {
            let ghost before = r.deep_view();
            r.push(f.path.clone());
            assert(r.deep_view() =~= before.push(files@[i as int].path@));
        }
        i = i + 1;
    }
    assert(files@.take(n as int) =~= files@);
    r
}

/// Whether the first bytes read from a file are exactly the ELF magic number.
pub fn is_elf_magic(head: &[u8]) -> (r: bool)
    ensures
        r == (head@ == elf_magic()),
        r == (head@.len() == 4 && head@[0] == 0x7f && head@[1] == 'E' as u8 && head@[2] == 'L' as u8
            && head@[3] == 'F' as u8),
{
    if head.len() != 4 {
        return false;
    }
    let r = head[0] == 0x7f && head[1] == 0x45 && head[2] == 0x4c && head[3] == 0x46;
    assert(r ==> head@ =~= elf_magic());
    r
}

/// Whether a file is an ELF image, given the first bytes read from it, or `None` when it
/// could not be opened or read: such a file is not one.
pub fn is_elf_quiet(head: Option<Vec<u8>>) -> (r: bool)
    ensures
        r == (head matches Some(h) && h@ == elf_magic()),
{
    match head {
        Some(h) => is_elf_magic(h.as_slice()),
        None => false,
    }
}

/// Whether an effective user id is the superuser's.
pub fn is_root(euid: u32) -> (r: bool)
    ensures
        r == (euid == 0),
{
    euid == 0
}

/// A file name is ruled out by name only for an extension among `so`, `d`, `rlib`, `lock`,
/// `txt`, `fingerprint`, for the text `.so` anywhere in it, or for a leading `.`: a name
/// without any `.` is never ruled out, each of those reasons is enough, and a name ruled
/// out holds a `.`.
pub proof fn lemma_name_rejection(name: Seq<char>, stem: Seq<char>, ext: Seq<char>)
    ensures
        !name.contains('.') ==> !name_rejected(name),
        name_rejected(name) ==> name.contains('.'),
        contains_spec(name, ".so"@) ==> name_rejected(name),
        name.len() > 0 && name[0] == '.' ==> name_rejected(name),
        stem.len() > 0 && !ext.contains('.') && (ext == "so"@ || ext == "d"@ || ext == "rlib"@
            || ext == "lock"@ || ext == "txt"@ || ext == "fingerprint"@) ==> name_rejected(
            stem + "."@ + ext,
        ),
{
    reveal_strlit(".so");
    reveal_strlit(".");
    reveal_strlit("so");
    reveal_strlit("d");
    reveal_strlit("rlib");
    reveal_strlit("lock");
    reveal_strlit("txt");
    reveal_strlit("fingerprint");
    if !name.contains('.') {
        assert(!has_inner_dot(name)) by {
            if has_inner_dot(name) {
                let k = choose|k: int| 0 < k < name.len() && name[k] == '.';
                assert(name.contains('.'));
            }
        }
        assert(!contains_spec(name, ".so"@)) by {
            if contains_spec(name, ".so"@) {
                let i = choose|i: int| occurs_at(name, ".so"@, i);
                assert(name.subrange(i, i + 3)[0] == '.');
                assert(name[i] == '.');
            }
        }
        if name.len() > 0 && name[0] == '.' {
            assert(name.contains('.'));
        }
    }
    if stem.len() > 0 && !ext.contains('.') && (ext == "so"@ || ext == "d"@ || ext == "rlib"@
        || ext == "lock"@ || ext == "txt"@ || ext == "fingerprint"@) {
        let full = stem + "."@ + ext;
        assert(full[stem.len() as int] == '.');
        assert(has_inner_dot(full));
        lemma_after_last_concat(stem + "."@, ext, '.');
        assert(after_last(stem + "."@, '.') =~= Seq::<char>::empty()) by {
            assert((stem + "."@).last() == '.');
        }
        assert(Seq::<char>::empty() + ext =~= ext);
        assert(full != seq!['.', '.']) by {
            assert(full.len() >= 3);
        }
    }
}

/// A file counts as executable when any one of the owner, group or other execute bits
/// (`0o100`, `0o010`, `0o001`) of its mode is set, and only then.
pub proof fn lemma_executable_bits(mode: u32)
    ensures
        executable_mode(mode) <==> (mode & 0o100u32 != 0 || mode & 0o010u32 != 0 || mode & 0o001u32 != 0),
{
    assert((mode & 0o111u32 != 0) <==> (mode & 0o100u32 != 0 || mode & 0o010u32 != 0 || mode & 0o001u32 != 0))
        by (bit_vector);
}

/// A path is found exactly when some entry with that path is not a directory, is not ruled
/// out by its name, is an ELF image and has an execute bit set; no more paths are found than
/// there are entries.
pub proof fn lemma_found_paths(files: Seq<FileFacts>, x: Seq<char>)
    ensures
        installable_paths(files).contains(x) <==> exists|k: int|
            0 <= k < files.len() && (#[trigger] files[k]).path@ == x && !files[k].is_dir && !name_rejected(
                files[k].name@,
            ) && files[k].is_elf && files[k].mode & 0o111u32 != 0,
        installable_paths(files).len() <= files.len(),
    decreases files.len(),
{
    if files.len() > 0 {
        let init = files.drop_last();
        let f = files.last();
        lemma_found_paths(init, x);
        let rest = installable_paths(init);
        let ok = !f.is_dir && !name_rejected(f.name@) && f.is_elf && f.mode & 0o111u32 != 0;
        assert(installable(f.is_dir, f.name@, f.is_elf, f.mode) == ok);
        let ex = exists|k: int|
            0 <= k < files.len() && (#[trigger] files[k]).path@ == x && !files[k].is_dir && !name_rejected(
                files[k].name@,
            ) && files[k].is_elf && files[k].mode & 0o111u32 != 0;
        let ex_init = exists|k: int|
            0 <= k < init.len() && (#[trigger] init[k]).path@ == x && !init[k].is_dir && !name_rejected(
                init[k].name@,
            ) && init[k].is_elf && init[k].mode & 0o111u32 != 0;
        if ex_init {
            let k = choose|k: int|
                0 <= k < init.len() && (#[trigger] init[k]).path@ == x && !init[k].is_dir && !name_rejected(
                    init[k].name@,
                ) && init[k].is_elf && init[k].mode & 0o111u32 != 0;
            assert(files[k] == init[k]);
        }
        if ex {
            let k = choose|k: int|
                0 <= k < files.len() && (#[trigger] files[k]).path@ == x && !files[k].is_dir && !name_rejected(
                    files[k].name@,
                ) && files[k].is_elf && files[k].mode & 0o111u32 != 0;
            if k < init.len() {
                assert(init[k] == files[k]);
            }
        }
        if ok {
            let pushed = rest.push(f.path@);
            assert(pushed.contains(x) <==> (rest.contains(x) || f.path@ == x)) by {
                if pushed.contains(x) {
                    let j = choose|j: int| 0 <= j < pushed.len() && pushed[j] == x;
                    if j < rest.len() {
                        assert(rest[j] == x);
                    }
                }
                if rest.contains(x) {
                    let j = choose|j: int| 0 <= j < rest.len() && rest[j] == x;
                    assert(pushed[j] == x);
                }
                if f.path@ == x {
                    assert(pushed[rest.len() as int] == x);
                }
            }
            assert(files[files.len() - 1] == f);
        }
    }
}

} // verus!
