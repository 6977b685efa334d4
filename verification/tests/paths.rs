use dycon::path::{
    file_name, has_nul, join, key_of, parent, path_to_cstring, relative_to_mount,
};
use std::path::Path;

const SAMPLES: [&str; 26] = [
    "", ".", "..", "/", "//", "a", "a/", "a/b", "a//b", "a/./b", "./a", "./a/", "./a/b", "/a",
    "//a", "/./a", "/..", "a/..", "../a", "./..", "./.", ".a", "a/.b", "a/...", "...", "./a/./",
];

#[test]
fn join_agrees_with_std() {
    for p in SAMPLES {
        for name in ["x", "", ".", "..", "/abs", "x/y"] {
            let expected = Path::new(p).join(name);
            let got = join(p.as_bytes(), name.as_bytes());
            assert_eq!(expected.to_str().unwrap().as_bytes(), got.as_slice(), "{p:?} {name:?}");
        }
    }
}

#[test]
fn parent_agrees_with_std() {
    for p in SAMPLES {
        let expected = Path::new(p).parent().map(|q| q.to_str().unwrap().as_bytes().to_vec());
        assert_eq!(expected, parent(p.as_bytes()), "{p:?}");
    }
}

#[test]
fn file_name_agrees_with_std() {
    for p in SAMPLES {
        let expected = Path::new(p).file_name().unwrap_or_default();
        assert_eq!(expected.to_str().unwrap().as_bytes(), file_name(p.as_bytes()), "{p:?}");
    }
}

#[test]
fn keys_are_equal_exactly_for_equal_paths() {
    for p in SAMPLES {
        for q in SAMPLES {
            let same = key_of(p.as_bytes()) == key_of(q.as_bytes());
            assert_eq!(Path::new(p) == Path::new(q), same, "{p:?} {q:?}");
        }
    }
}

#[test]
fn keys_close_each_component() {
    assert_eq!(key_of(b"./a//b/."), b"./a/b/".to_vec());
    assert_eq!(key_of(b"/"), b"/".to_vec());
    assert_eq!(key_of(b""), b"".to_vec());
}

#[test]
fn parent_of_the_mount_root_is_the_empty_path() {
    assert_eq!(parent(b"."), Some(Vec::new()));
    assert_eq!(parent(b""), None);
}

#[test]
fn joined_entries_come_apart_again() {
    let child = join(b"./dir", b"NOTES.md");
    assert_eq!(child, b"./dir/NOTES.md".to_vec());
    assert_eq!(file_name(&child), b"NOTES.md");
    assert_eq!(parent(&child), Some(b"./dir".to_vec()));
}

#[test]
fn nul_bytes_do_not_reach_the_kernel() {
    assert_eq!(path_to_cstring(b"./a"), b"./a".to_vec());
    assert_eq!(path_to_cstring(b"./a\0b"), b".".to_vec());
    assert!(has_nul(b"\0"));
    assert!(!has_nul(b"0"));
}

#[test]
fn mount_relative_paths_have_no_leading_dot() {
    assert_eq!(relative_to_mount(b"./NOTES.md"), b"NOTES.md");
    assert_eq!(relative_to_mount(b"./sub/NOTES.md"), b"sub/NOTES.md");
    assert_eq!(relative_to_mount(b"."), b".");
    assert_eq!(relative_to_mount(b".hidden"), b".hidden");
}
