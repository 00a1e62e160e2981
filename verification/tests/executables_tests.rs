use unin::executables::{
    extension, find_executable_files, has_exec_bit, is_elf_magic, is_elf_quiet, is_root,
    rejected_by_name, FileFacts,
};
use std::path::Path;

fn facts(path: &str, name: &str, is_dir: bool, is_elf: bool, mode: u32) -> FileFacts {
    FileFacts { path: path.to_string(), name: name.to_string(), is_dir, is_elf, mode }
}

#[test]
fn extensions_like_path() {
    for name in ["a.txt", "archive.tar.gz", ".bashrc", "noext", "trailing.", "..", ".", ".a.b", "x..y"] {
        let expected = Path::new(name).extension().map(|e| e.to_str().unwrap().to_string());
        assert_eq!(extension(name), expected, "{}", name);
    }
}

#[test]
fn names_that_are_never_installed() {
    assert!(rejected_by_name("libfoo.so"));
    assert!(rejected_by_name("libfoo.so.1"));
    assert!(rejected_by_name("deps.d"));
    assert!(rejected_by_name("notes.txt"));
    assert!(rejected_by_name("x.fingerprint"));
    assert!(rejected_by_name(".hidden"));
    assert!(!rejected_by_name("tool"));
    assert!(!rejected_by_name("tool.sh"));
}

#[test]
fn selects_executable_elf_files() {
    let files = vec![
        facts("/b/tool", "tool", false, true, 0o755),
        facts("/b/dir", "dir", true, true, 0o755),
        facts("/b/lib.so", "lib.so", false, true, 0o755),
        facts("/b/script", "script", false, false, 0o755),
        facts("/b/data", "data", false, true, 0o644),
        facts("/b/.tool", ".tool", false, true, 0o755),
        facts("/b/other", "other", false, true, 0o100),
    ];
    assert_eq!(find_executable_files(files), vec!["/b/tool", "/b/other"]);
}

#[test]
fn elf_magic() {
    assert!(is_elf_magic(&[0x7f, b'E', b'L', b'F']));
    assert!(!is_elf_magic(&[0x7f, b'E', b'L']));
    assert!(!is_elf_magic(&[0x7f, b'E', b'L', b'G']));
    assert!(is_elf_quiet(Some(vec![0x7f, b'E', b'L', b'F'])));
    assert!(!is_elf_quiet(None));
    assert!(has_exec_bit(0o010));
    assert!(!has_exec_bit(0o666));
    assert!(is_root(0));
    assert!(!is_root(1000));
}
