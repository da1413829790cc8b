use egnyte_fuse::fuse_ops::{
    blocks_for, build_attr, read_slice, window_start, EgnyteEntry, EgnyteFuse, FileKind, FsError,
    OpenStep,
};
use egnyte_fuse::paths::{child_path, is_root, parent_path, to_egnyte_path};

fn entry(name: &str, path: &str, is_folder: bool, size: u64) -> EgnyteEntry {
    EgnyteEntry {
        name: name.to_string(),
        path: path.to_string(),
        is_folder,
        size,
        modified_time: 1_700_000_000,
    }
}

#[test]
fn readdir_root_lists_dot_entries_then_children() {
    let mut fs = EgnyteFuse::new();
    let children = vec![
        entry("Docs", "/Docs", true, 0),
        entry("readme.txt", "/readme.txt", false, 42),
    ];
    let listing = fs.readdir(1, Some(children)).unwrap();
    assert_eq!(listing.len(), 4);
    assert_eq!((listing[0].ino, listing[0].kind, listing[0].name.as_str()), (1, FileKind::Directory, "."));
    assert_eq!((listing[1].ino, listing[1].kind, listing[1].name.as_str()), (1, FileKind::Directory, ".."));
    assert_eq!(listing[2].name, "Docs");
    assert_eq!(listing[2].kind, FileKind::Directory);
    assert_eq!(listing[3].name, "readme.txt");
    assert_eq!(listing[3].kind, FileKind::RegularFile);
    assert_ne!(listing[2].ino, listing[3].ino);

    let target = fs.resolve(listing[3].ino).unwrap();
    assert_eq!(target, "/readme.txt");
    let attr = fs
        .getattr(listing[3].ino, Some(entry("readme.txt", "/readme.txt", false, 42)), 1000, 1000)
        .unwrap();
    assert_eq!(attr.size, 42);
    assert_eq!(attr.blocks, 1);
    assert_eq!(attr.kind, FileKind::RegularFile);
    assert_eq!(attr.perm, 0o644);
}

#[test]
fn readdir_subfolder_points_dotdot_at_parent() {
    let mut fs = EgnyteFuse::new();
    let root = fs.readdir(1, Some(vec![entry("Docs", "/Docs", true, 0)])).unwrap();
    let docs = root[2].ino;
    let listing = fs.readdir(docs, Some(vec![entry("a.txt", "/Docs/a.txt", false, 3)])).unwrap();
    assert_eq!(listing[0].ino, docs);
    assert_eq!(listing[1].ino, 1);
    assert_eq!(fs.resolve(listing[2].ino).unwrap(), "/Docs/a.txt");
}

#[test]
fn readdir_failures_are_no_entry() {
    let mut fs = EgnyteFuse::new();
    assert!(matches!(fs.readdir(1, None), Err(FsError::NoEntry)));
    assert!(matches!(fs.readdir(55, Some(vec![])), Err(FsError::NoEntry)));
}

#[test]
fn lookup_of_missing_remote_path_allocates_nothing() {
    let mut fs = EgnyteFuse::new();
    let target = fs.lookup_target(1, "missing.txt").unwrap();
    assert_eq!(target, "/missing.txt");
    assert_eq!(fs.lookup(&target, None, 0, 0), Err(FsError::NoEntry));
    let next = fs.lookup_target(1, "present.txt").unwrap();
    let attr = fs.lookup(&next, Some(entry("present.txt", "/present.txt", false, 5)), 0, 0).unwrap();
    assert_eq!(attr.ino, 2);
}

#[test]
fn lookup_under_unknown_parent_is_no_entry() {
    let fs = EgnyteFuse::new();
    assert!(matches!(fs.lookup_target(9, "x"), Err(FsError::NoEntry)));
}

#[test]
fn lookup_of_folder_reports_directory_attributes() {
    let mut fs = EgnyteFuse::new();
    let target = fs.lookup_target(1, "Docs").unwrap();
    let mut e = entry("Docs", "/Docs", true, 0);
    e.modified_time = 99;
    let attr = fs.lookup(&target, Some(e), 10, 20).unwrap();
    assert_eq!(attr.kind, FileKind::Directory);
    assert_eq!(attr.perm, 0o755);
    assert_eq!((attr.atime, attr.mtime, attr.ctime, attr.crtime), (99, 99, 99, 99));
    assert_eq!((attr.uid, attr.gid, attr.nlink, attr.blksize), (10, 20, 1, 512));
    assert_eq!(fs.lookup(&target, Some(entry("Docs", "/Docs", true, 0)), 0, 0).unwrap().ino, attr.ino);
}

#[test]
fn getattr_of_unknown_inode_is_no_entry() {
    let fs = EgnyteFuse::new();
    assert_eq!(fs.getattr(8, Some(entry("a", "/a", false, 1)), 0, 0), Err(FsError::NoEntry));
    assert_eq!(fs.getattr(1, None, 0, 0), Err(FsError::NoEntry));
    assert!(matches!(fs.resolve(8), Err(FsError::NoEntry)));
}

#[test]
fn open_read_then_read_past_end() {
    let mut fs = EgnyteFuse::new();
    let target = fs.lookup_target(1, "data.bin").unwrap();
    let info = entry("data.bin", "/data.bin", false, 50);
    let ino = fs.lookup(&target, Some(entry("data.bin", "/data.bin", false, 50)), 0, 0).unwrap().ino;
    assert_eq!(fs.open_info(ino, &Some(info)), Ok(OpenStep::FetchContent));
    let content: Vec<u8> = (0u8..50).collect();
    assert_eq!(fs.open_content(ino, Some(content)), Ok(()));
    assert_eq!(fs.read(ino, 0, 10).unwrap(), (0u8..10).collect::<Vec<u8>>());
    assert_eq!(fs.read(ino, 100, 10).unwrap(), Vec::<u8>::new());
    assert_eq!(fs.read(ino, 45, 10).unwrap(), (45u8..50).collect::<Vec<u8>>());
    assert_eq!(fs.read(ino, 50, 10).unwrap(), Vec::<u8>::new());
    fs.release(ino);
    assert_eq!(fs.read(ino, 0, 10), Err(FsError::BadDescriptor));
}

#[test]
fn open_of_folder_needs_no_content() {
    let fs = EgnyteFuse::new();
    assert_eq!(fs.open_info(1, &Some(entry("", "/", true, 0))), Ok(OpenStep::Done));
    assert_eq!(fs.open_info(1, &None), Err(FsError::NoEntry));
    assert_eq!(fs.open_info(4, &Some(entry("a", "/a", false, 0))), Err(FsError::NoEntry));
}

#[test]
fn failed_download_is_io_error() {
    let mut fs = EgnyteFuse::new();
    assert_eq!(fs.open_content(1, None), Err(FsError::Io));
    assert_eq!(fs.read(1, 0, 1), Err(FsError::BadDescriptor));
}

#[test]
fn release_without_open_succeeds() {
    let mut fs = EgnyteFuse::new();
    fs.release(3);
    assert_eq!(fs.read(3, 0, 1), Err(FsError::BadDescriptor));
}

#[test]
fn read_slice_bounds() {
    let c = vec![1u8, 2, 3, 4];
    assert_eq!(read_slice(&c, 1, 2), vec![2, 3]);
    assert_eq!(read_slice(&c, 2, u32::MAX), vec![3, 4]);
    assert_eq!(read_slice(&c, 4, 1), Vec::<u8>::new());
    assert_eq!(read_slice(&c, -1, 1), Vec::<u8>::new());
    assert_eq!(read_slice(&Vec::new(), 0, 5), Vec::<u8>::new());
}

#[test]
fn block_counts_round_up() {
    assert_eq!(blocks_for(0), 0);
    assert_eq!(blocks_for(1), 1);
    assert_eq!(blocks_for(512), 1);
    assert_eq!(blocks_for(513), 2);
    assert_eq!(blocks_for(42), 1);
    assert_eq!(blocks_for(u64::MAX), u64::MAX / 512 + 1);
}

#[test]
fn attributes_of_a_file() {
    let a = build_attr(7, &entry("f", "/f", false, 1024), 3, 4);
    assert_eq!((a.ino, a.size, a.blocks, a.perm, a.kind), (7, 1024, 2, 0o644, FileKind::RegularFile));
    assert_eq!((a.rdev, a.flags), (0, 0));
}

#[test]
fn directory_window_start() {
    assert_eq!(window_start(0, 4), 0);
    assert_eq!(window_start(2, 4), 2);
    assert_eq!(window_start(9, 4), 4);
    assert_eq!(window_start(-3, 4), 0);
}

#[test]
fn path_helpers() {
    assert_eq!(child_path("/", "Docs"), "/Docs");
    assert_eq!(child_path("/Docs", "a.txt"), "/Docs/a.txt");
    assert_eq!(parent_path("/Docs/a.txt"), "/Docs");
    assert_eq!(parent_path("/Docs"), "/");
    assert_eq!(parent_path("/"), "/");
    assert!(is_root("/"));
    assert!(!is_root("/a"));
    assert_eq!(to_egnyte_path("/Docs"), "/Docs");
}
