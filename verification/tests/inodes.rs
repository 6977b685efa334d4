use dycon::inode_map::{InodeMap, ROOT_INO};
use dycon::path_index::PathIndex;

#[test]
fn fresh_table_knows_the_root() {
    let map = InodeMap::new();
    assert_eq!(map.get_path(ROOT_INO), Some(&b"."[..]));
    assert_eq!(map.get_path(2), None);
}

#[test]
fn known_path_keeps_its_number() {
    let mut map = InodeMap::new();
    assert_eq!(map.insert(b"./a".to_vec(), 10), 10);
    assert_eq!(map.insert(b"./a".to_vec(), 11), 10);
    assert_eq!(map.insert(b".//a/".to_vec(), 12), 10);
    assert_eq!(map.get_path(10), Some(&b"./a"[..]));
    assert_eq!(map.get_path(11), None);
    assert_eq!(map.insert(b".".to_vec(), 77), 1);
}

#[test]
fn second_path_of_an_inode_takes_its_place() {
    let mut map = InodeMap::new();
    map.insert(b"./a".to_vec(), 10);
    map.insert(b"./b".to_vec(), 10);
    assert_eq!(map.get_path(10), Some(&b"./b"[..]));
    map.remove_path(b"./a");
    assert_eq!(map.get_path(10), None);
    assert_eq!(map.insert(b"./b".to_vec(), 10), 10);
    assert_eq!(map.get_path(10), None);
}

#[test]
fn removed_path_is_forgotten() {
    let mut map = InodeMap::new();
    map.insert(b"./a".to_vec(), 10);
    map.insert(b"./b".to_vec(), 11);
    map.remove_path(b"./a");
    assert_eq!(map.get_path(10), None);
    assert_eq!(map.get_path(11), Some(&b"./b"[..]));
    map.remove_path(b"./unknown");
    assert_eq!(map.get_path(11), Some(&b"./b"[..]));
    assert_eq!(map.insert(b"./a".to_vec(), 12), 12);
}

#[test]
fn rename_moves_the_number() {
    let mut map = InodeMap::new();
    map.insert(b"./a".to_vec(), 10);
    map.insert(b"./b".to_vec(), 11);
    map.rename(b"./a", b"./c".to_vec());
    assert_eq!(map.get_path(10), Some(&b"./c"[..]));
    assert_eq!(map.get_path(11), Some(&b"./b"[..]));
    assert_eq!(map.insert(b"./c".to_vec(), 99), 10);
    assert_eq!(map.insert(b"./a".to_vec(), 12), 12);
    map.rename(b"./unknown", b"./d".to_vec());
    assert_eq!(map.insert(b"./d".to_vec(), 13), 13);
}

#[test]
fn rename_and_back_restores() {
    let mut map = InodeMap::new();
    map.insert(b"./a".to_vec(), 10);
    map.rename(b"./a", b"./b".to_vec());
    map.rename(b"./b", b"./a".to_vec());
    assert_eq!(map.get_path(10), Some(&b"./a"[..]));
    assert_eq!(map.insert(b"./b".to_vec(), 20), 20);
}

#[test]
fn rename_onto_a_known_path_takes_the_path_over() {
    let mut map = InodeMap::new();
    map.insert(b"./a".to_vec(), 10);
    map.insert(b"./b".to_vec(), 11);
    map.rename(b"./a", b"./b".to_vec());
    assert_eq!(map.get_path(10), Some(&b"./b"[..]));
    assert_eq!(map.get_path(11), Some(&b"./b"[..]));
    assert_eq!(map.insert(b"./b".to_vec(), 99), 10);
}

#[test]
fn index_keeps_many_keys_apart() {
    let mut index = PathIndex::new();
    for i in 0..200u64 {
        let n = (i * 73) % 200;
        index.insert(format!("{n}/").into_bytes(), n);
    }
    for n in 0..200u64 {
        assert_eq!(index.get(format!("{n}/").as_bytes()), Some(n));
    }
    assert_eq!(index.get(b"200/"), None);
    index.insert(b"7/".to_vec(), 1007);
    assert_eq!(index.get(b"7/"), Some(1007));
    assert_eq!(index.remove(b"7/"), Some(1007));
    assert_eq!(index.remove(b"7/"), None);
    assert_eq!(index.get(b"70/"), Some(70));
}

#[test]
fn exchange_swaps_the_numbers_and_back() {
    let mut map = InodeMap::new();
    map.insert(b"./a".to_vec(), 10);
    map.insert(b"./b".to_vec(), 11);
    map.exchange(b"./a".to_vec(), b"./b".to_vec());
    assert_eq!(map.get_path(10), Some(&b"./b"[..]));
    assert_eq!(map.get_path(11), Some(&b"./a"[..]));
    assert_eq!(map.insert(b"./a".to_vec(), 99), 11);
    assert_eq!(map.insert(b"./b".to_vec(), 99), 10);
    map.exchange(b"./a".to_vec(), b"./b".to_vec());
    assert_eq!(map.get_path(10), Some(&b"./a"[..]));
    assert_eq!(map.get_path(11), Some(&b"./b"[..]));
    map.exchange(b"./new".to_vec(), b"./a".to_vec());
    assert_eq!(map.get_path(10), Some(&b"./new"[..]));
    assert_eq!(map.insert(b"./a".to_vec(), 12), 12);
}
