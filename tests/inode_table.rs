use egnyte_fuse::inode_table::{InodeTable, ROOT_INODE};

#[test]
fn test_root_inode() {
    let table = InodeTable::new();
    assert_eq!(table.get_inode("/"), Some(1));
    assert_eq!(table.get_path(1), Some("/".to_string()));
}

#[test]
fn test_get_or_create() {
    let mut table = InodeTable::new();
    let path = "/test";
    let inode1 = table.get_or_create_inode(path);
    let inode2 = table.get_or_create_inode(path);
    assert_eq!(inode1, inode2);
    assert_eq!(table.get_path(inode1), Some("/test".to_string()));
}

#[test]
fn new_paths_get_increasing_inodes_from_two() {
    let mut table = InodeTable::new();
    assert_eq!(table.get_or_create_inode("/a"), 2);
    assert_eq!(table.get_or_create_inode("/b"), 3);
    assert_eq!(table.get_or_create_inode("/a"), 2);
    assert_eq!(table.get_or_create_inode("/"), ROOT_INODE);
    assert_eq!(table.next_value(), 4);
}

#[test]
fn distinct_paths_have_distinct_inodes() {
    let mut table = InodeTable::new();
    let a = table.get_or_create_inode("/Docs");
    let b = table.get_or_create_inode("/Docs/x");
    assert_ne!(a, b);
    assert_ne!(table.get_path(a), table.get_path(b));
    assert_eq!(table.get_inode("/Docs"), Some(a));
    assert_eq!(table.get_inode("/Docs/x"), Some(b));
}

#[test]
fn unknown_lookups_are_not_found() {
    let table = InodeTable::new();
    assert_eq!(table.get_inode("/nope"), None);
    assert_eq!(table.get_path(7), None);
}

#[test]
fn remove_drops_both_directions() {
    let mut table = InodeTable::new();
    let a = table.get_or_create_inode("/a");
    table.remove(a);
    assert_eq!(table.get_inode("/a"), None);
    assert_eq!(table.get_path(a), None);
    let again = table.get_or_create_inode("/a");
    assert_eq!(again, 3);
}

#[test]
fn remove_path_drops_both_directions() {
    let mut table = InodeTable::new();
    let a = table.get_or_create_inode("/a");
    table.remove_path("/a");
    assert_eq!(table.get_inode("/a"), None);
    assert_eq!(table.get_path(a), None);
    table.remove_path("/never");
    table.remove(99);
    assert_eq!(table.get_inode("/"), Some(1));
}

#[test]
fn root_stays_bound() {
    let mut table = InodeTable::new();
    table.remove(ROOT_INODE);
    table.remove_path("/");
    assert_eq!(table.get_inode("/"), Some(1));
    assert_eq!(table.get_path(1), Some("/".to_string()));
}

#[test]
fn default_table_holds_root() {
    let table = InodeTable::default();
    assert_eq!(table.get_inode("/"), Some(1));
}
